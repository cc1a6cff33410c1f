//! The command line's values and what the client makes of them.

use vstd::prelude::*;

use crate::control::msg::{PortRangeSpec, TestSummary};
use crate::orchestrator::{concat_text, text_views};
use crate::test::{first_named, Layer, ProtocolInfo, ProtocolView, TestRegistry, transport_text, Transport};
use crate::text::{chars_of, decimal_text, digit_char, push_char, push_str, str_eq, string_of_chars};

verus! {

/// The parsed command line.
pub struct Args {
    pub command: Option<Command>,
}

/// What to run: a server that answers probes, or a client that drives them.
#[derive(Debug, Clone)]
pub enum Command {
    Server { bind: String, verbose: u8 },
    Client {
        control_server: Option<String>,
        target: Option<String>,
        server: Option<String>,
        port: u16,
        test: Vec<String>,
        port_range: Vec<String>,
        bidir: bool,
        timeout: u64,
        fingerprint: Option<String>,
        json: bool,
        json_export: bool,
        parallel: usize,
        verbose: u8,
        quiet: bool,
    },
}

/// The command to run; a command line without one is an error.
pub fn parse(args: Args) -> (r: Result<Command, String>)
    ensures
        args.command matches Some(c) ==> r == Ok::<Command, String>(c),
        args.command is None ==> (r matches Err(e) && e@
            == "no command specified, use --help for usage"@),
{
    match args.command {
        Some(cmd) => Ok(cmd),
        None => Err("no command specified, use --help for usage".to_owned()),
    }
}

/// An address with one pair of enclosing brackets removed (`[::1]` gives
/// `::1`); any other text unchanged.
pub open spec fn without_brackets(s: Seq<char>) -> Seq<char> {
    if s.len() >= 2 && s[0] == '[' && s[s.len() - 1] == ']' {
        s.subrange(1, s.len() - 1)
    } else {
        s
    }
}

/// Removes the brackets around an IPv6 address.
pub fn strip_ipv6_brackets(s: &str) -> (r: &str)
    ensures
        r@ == without_brackets(s@),
{
    let n = s.unicode_len();
    if n >= 2 && s.get_char(0) == '[' && s.get_char(n - 1) == ']' {
        s.substring_char(1, n - 1)
    } else {
        s
    }
}

/// The value of a string of decimal digits.
pub open spec fn digits_value(d: Seq<char>) -> nat
    decreases d.len(),
{
    if d.len() == 0 {
        0
    } else {
        digits_value(d.drop_last()) * 10 + (d.last() as nat - 48) as nat
    }
}

/// Whether every character is an ASCII digit.
pub open spec fn all_digits(d: Seq<char>) -> bool {
    forall|i: int| 0 <= i < d.len() ==> '0' <= #[trigger] d[i] <= '9'
}

/// A port number as std's `u16::from_str` reads it: an optional `+`, then
/// one or more ASCII digits whose value is at most 65535.
pub open spec fn port_number(s: Seq<char>) -> Option<u16> {
    let d = if s.len() > 0 && s[0] == '+' {
        s.skip(1)
    } else {
        s
    };
    if d.len() > 0 && all_digits(d) && digits_value(d) <= 65535 {
        Some(digits_value(d) as u16)
    } else {
        None
    }
}

proof fn lemma_digits_value_grows(d: Seq<char>, k: int)
    requires
        all_digits(d),
        0 <= k <= d.len(),
    ensures
        digits_value(d.take(k)) <= digits_value(d),
    decreases d.len() - k,
{
    if k < d.len() {
        lemma_digits_value_grows(d, k + 1);
        assert(d.take(k + 1).drop_last() =~= d.take(k));
        assert('0' <= d[k] <= '9');
    } else {
        assert(d.take(k) =~= d);
    }
}

/// Reads a port number from `chars[from..to]`.
fn parse_port_chars(chars: &Vec<char>, from: usize, to: usize) -> (r: Option<u16>)
    requires
        from <= to <= chars@.len(),
    ensures
        r == port_number(chars@.subrange(from as int, to as int)),
{
    let ghost s = chars@.subrange(from as int, to as int);
    let n = to;
    let mut i = from;
    if i < n && chars[i] == '+' {
        i = i + 1;
    }
    let start = i;
    let ghost d = chars@.subrange(start as int, n as int);
    assert(d =~= (if s.len() > 0 && s[0] == '+' { s.skip(1) } else { s }));
    if start == n {
        return None;
    }
    let mut value: u32 = 0;
    while i < n
        invariant
            start <= i <= n,
            n == to,
            from <= to <= chars@.len(),
            d == chars@.subrange(start as int, n as int),
            s == chars@.subrange(from as int, n as int),
            d == (if s.len() > 0 && s[0] == '+' { s.skip(1) } else { s }),
            d.len() > 0,
            all_digits(d.take(i - start)),
            value == digits_value(d.take(i - start)),
            value <= 65535,
        decreases n - i,
    {
        let c = chars[i];
        proof {
            assert(d.take(i - start + 1).drop_last() =~= d.take(i - start));
            assert(d[i - start] == c);
        }
        if c < '0' || c > '9' {
            assert(!all_digits(d));
            return None;
        }
        let digit: u32 = c as u32 - 48;
        value = value * 10 + digit;
        i = i + 1;
        proof {
            assert(all_digits(d.take(i - start))) by {
                assert forall|j: int| 0 <= j < d.take(i - start).len() implies '0' <= #[trigger] d.take(
                    i - start,
                )[j] <= '9' by {
                    if j < i - start - 1 {
                        assert(d.take(i - start)[j] == d.take(i - start - 1)[j]);
                    }
                }
            }
        }
        if value > 65535 {
            proof {
                if all_digits(d) {
                    lemma_digits_value_grows(d, i - start);
                }
            }
            return None;
        }
    }
    assert(d.take(n - start) =~= d);
    Some(value as u16)
}

/// Index of the first `c` in `s` at or after `from`.
pub open spec fn index_of_from(s: Seq<char>, c: char, from: int) -> Option<int>
    decreases s.len() - from,
{
    if from < 0 || from >= s.len() {
        None
    } else if s[from] == c {
        Some(from)
    } else {
        index_of_from(s, c, from + 1)
    }
}

/// Index of the first `c` in `s`.
pub open spec fn index_of(s: Seq<char>, c: char) -> Option<int> {
    index_of_from(s, c, 0)
}

/// A port range as the command line writes it: `<transport>/<start>-<end>`,
/// `<transport>/<port>`, or `<transport>/any` (also `/icmp`) for no ports.
/// The text splits at its first `/` and the port part at its first `-`; a
/// start that does not read as a port rejects the range, an end that does not
/// read as one falls back to the start.
pub open spec fn port_range_from_text(s: Seq<char>) -> Option<(Seq<char>, u16, u16)> {
    match index_of(s, '/') {
        None => None,
        Some(slash) => {
            let transport = s.take(slash);
            let rest = s.skip(slash + 1);
            if rest == "any"@ || rest == "icmp"@ {
                Some((transport, 0u16, 0u16))
            } else {
                match index_of(rest, '-') {
                    None => match port_number(rest) {
                        None => None,
                        Some(p) => Some((transport, p, p)),
                    },
                    Some(dash) => match port_number(rest.take(dash)) {
                        None => None,
                        Some(start) => match port_number(rest.skip(dash + 1)) {
                            Some(end) => Some((transport, start, end)),
                            None => Some((transport, start, start)),
                        },
                    },
                }
            }
        },
    }
}

/// Index of the first `c` in `chars[from..to]`, counted from the start of `chars`.
fn find_char(chars: &Vec<char>, c: char, from: usize, to: usize) -> (r: Option<usize>)
    requires
        from <= to <= chars@.len(),
    ensures
        r is None <==> index_of(chars@.subrange(from as int, to as int), c) is None,
        r matches Some(k) ==> index_of(chars@.subrange(from as int, to as int), c) == Some(k - from),
        r matches Some(k) ==> from <= k < to && chars@[k as int] == c,
{
    let ghost s = chars@.subrange(from as int, to as int);
    let mut i = from;
    while i < to
        invariant
            from <= i <= to,
            to <= chars@.len(),
            s == chars@.subrange(from as int, to as int),
            index_of(s, c) == index_of_from(s, c, i - from),
        decreases to - i,
    {
        if chars[i] == c {
            assert(s[i - from] == c);
            return Some(i);
        }
        assert(s[i - from] != c);
        i = i + 1;
    }
    None
}

/// Reads one `--port-range` value.
pub fn parse_port_range(spec: &str) -> (r: Option<PortRangeSpec>)
    ensures
        match port_range_from_text(spec@) {
            Some(v) => r matches Some(p) && p@ == v,
            None => r is None,
        },
{
    let chars = chars_of(spec);
    let n = chars.len();
    let slash = match find_char(&chars, '/', 0, n) {
        Some(i) => i,
        None => {
            assert(chars@.subrange(0, n as int) =~= spec@);
            return None;
        },
    };
    assert(chars@.subrange(0, n as int) =~= spec@);
    let transport = string_of_chars(&chars, 0, slash);
    let rest = string_of_chars(&chars, slash + 1, n);
    assert(transport@ =~= spec@.take(slash as int));
    assert(rest@ =~= spec@.skip(slash + 1));
    assert(index_of(spec@, '/') == Some(slash as int));
    if str_eq(rest.as_str(), "any") || str_eq(rest.as_str(), "icmp") {
        let r = PortRangeSpec { transport, start: 0, end: 0 };
        assert(r@ == (spec@.take(slash as int), 0u16, 0u16));
        return Some(r);
    }
    match find_char(&chars, '-', slash + 1, n) {
        None => match parse_port_chars(&chars, slash + 1, n) {
            None => None,
            Some(p) => Some(PortRangeSpec { transport, start: p, end: p }),
        },
        Some(dash) => {
            let ghost rs = chars@.subrange(slash + 1, n as int);
            assert(chars@.subrange(slash + 1, dash as int) =~= rs.take(dash - slash - 1));
            assert(chars@.subrange(dash + 1, n as int) =~= rs.skip(dash - slash));
            match parse_port_chars(&chars, slash + 1, dash) {
                None => None,
                Some(start) => {
                    let end = match parse_port_chars(&chars, dash + 1, n) {
                        Some(e) => e,
                        None => start,
                    };
                    Some(PortRangeSpec { transport, start, end })
                },
            }
        },
    }
}

/// Reads every `--port-range` value, leaving out the ones that do not read.
pub fn parse_port_ranges(specs: &Vec<String>) -> (r: Vec<PortRangeSpec>)
    ensures
        crate::orchestrator::range_views(r@) == parsed_ranges(text_views(specs@)),
{
    let ghost texts = text_views(specs@);
    let mut out: Vec<PortRangeSpec> = Vec::new();
    let mut i: usize = 0;
    assert(texts.take(0) =~= Seq::<Seq<char>>::empty());
    while i < specs.len()
        invariant
            i <= specs@.len(),
            texts == text_views(specs@),
            crate::orchestrator::range_views(out@) == parsed_ranges(texts.take(i as int)),
        decreases specs.len() - i,
    {
        proof {
            assert(texts.take(i + 1).drop_last() =~= texts.take(i as int));
            assert(texts.take(i + 1).last() == specs@[i as int]@);
        }
        let ghost before = out@;
        match parse_port_range(specs[i].as_str()) {
            Some(p) => {
                out.push(p);
                assert(crate::orchestrator::range_views(out@) =~= crate::orchestrator::range_views(before).push(p@));
            },
            None => {},
        }
        i = i + 1;
    }
    assert(texts.take(specs@.len() as int) =~= texts);
    out
}

/// The ranges that read, in order.
pub open spec fn parsed_ranges(texts: Seq<Seq<char>>) -> Seq<(Seq<char>, u16, u16)>
    decreases texts.len(),
{
    if texts.len() == 0 {
        Seq::empty()
    } else {
        let before = parsed_ranges(texts.drop_last());
        match port_range_from_text(texts.last()) {
            Some(r) => before.push(r),
            None => before,
        }
    }
}

/// `s` with every occurrence of `pat` (found left to right, without
/// overlapping) removed, as `str::replace(pat, "")` gives it.
pub open spec fn remove_all(s: Seq<char>, pat: Seq<char>) -> Seq<char>
    decreases s.len(),
{
    if s.len() == 0 {
        Seq::empty()
    } else if pat.len() > 0 && s.len() >= pat.len() && s.take(pat.len() as int) == pat {
        remove_all(s.skip(pat.len() as int), pat)
    } else {
        seq![s[0]] + remove_all(s.skip(1), pat)
    }
}

/// Whether `chars[at..]` starts with `pat`.
fn starts_with_at(chars: &Vec<char>, at: usize, pat: &Vec<char>) -> (r: bool)
    requires
        at <= chars@.len(),
    ensures
        r == (chars@.len() - at >= pat@.len() && chars@.skip(at as int).take(pat@.len() as int) == pat@),
{
    if chars.len() - at < pat.len() {
        return false;
    }
    let total = chars.len();
    let mut k: usize = 0;
    while k < pat.len()
        invariant
            k <= pat@.len(),
            total == chars@.len(),
            at <= chars@.len(),
            chars@.len() - at >= pat@.len(),
            forall|j: int| 0 <= j < k ==> chars@[at + j] == pat@[j],
        decreases pat.len() - k,
    {
        if chars[at + k] != pat[k] {
            assert(chars@.skip(at as int).take(pat@.len() as int)[k as int] != pat@[k as int]);
            return false;
        }
        k = k + 1;
    }
    assert(chars@.skip(at as int).take(pat@.len() as int) =~= pat@);
    true
}

/// `s` with every occurrence of `pat` removed.
pub fn remove_pattern(s: &str, pat: &str) -> (r: String)
    ensures
        r@ == remove_all(s@, pat@),
{
    let chars = chars_of(s);
    let p = chars_of(pat);
    let mut out = String::new();
    let mut i: usize = 0;
    assert(chars@.skip(0) =~= s@);
    while i < chars.len()
        invariant
            i <= chars@.len(),
            chars@ == s@,
            p@ == pat@,
            out@ + remove_all(chars@.skip(i as int), p@) == remove_all(s@, pat@),
        decreases chars.len() - i,
    {
        let ghost rest = chars@.skip(i as int);
        if p.len() > 0 && starts_with_at(&chars, i, &p) {
            assert(rest.skip(p@.len() as int) =~= chars@.skip(i + p@.len()));
            i = i + p.len();
        } else {
            push_char(&mut out, chars[i]);
            assert(rest.skip(1) =~= chars@.skip(i + 1));
            assert(out@ + remove_all(chars@.skip(i + 1), p@) =~= out@ + remove_all(rest.skip(1), p@));
            i = i + 1;
        }
    }
    assert(chars@.skip(chars@.len() as int) =~= Seq::<char>::empty());
    assert(out@ + Seq::<char>::empty() =~= out@);
    out
}

/// Whether the server's fingerprint is the one the user expects: equal as
/// given, equal once the server's is prefixed with `SHA256:`, or equal to the
/// expected one with every `SHA256:` removed.
pub open spec fn fingerprint_matches(hello: Seq<char>, expected: Seq<char>) -> bool {
    hello == expected || "SHA256:"@ + hello == expected || hello == remove_all(expected, "SHA256:"@)
}

/// Checks the server's fingerprint against the one the user gave.
pub fn fingerprint_accepted(hello: &str, expected: &str) -> (r: bool)
    ensures
        r == fingerprint_matches(hello@, expected@),
{
    if str_eq(hello, expected) {
        return true;
    }
    let prefixed = concat_text("SHA256:", hello);
    if str_eq(prefixed.as_str(), expected) {
        return true;
    }
    let stripped = remove_pattern(expected, "SHA256:");
    str_eq(hello, stripped.as_str())
}

/// Whether some requested probe is a known probe above layer 3 (those
/// need a port range; ICMP probes do not).
pub open spec fn needs_port_range(reg: Seq<ProtocolView>, names: Seq<Seq<char>>) -> bool {
    exists|i: int|
        0 <= i < names.len() && (#[trigger] first_named(reg, names[i]) matches Some(k) && reg[k].layer
            != Layer::L3)
}

/// Whether the requested probes need a `--port-range`.
pub fn port_range_required(registry: &TestRegistry, tests: &Vec<String>) -> (r: bool)
    ensures
        r == needs_port_range(registry@, text_views(tests@)),
{
    let ghost names = text_views(tests@);
    let mut i: usize = 0;
    while i < tests.len()
        invariant
            i <= tests@.len(),
            names == text_views(tests@),
            forall|j: int|
                0 <= j < i ==> !(#[trigger] first_named(registry@, names[j]) matches Some(k)
                    && registry@[k].layer != Layer::L3),
        decreases tests.len() - i,
    {
        assert(names[i as int] == tests@[i as int]@);
        match registry.find(tests[i].as_str()) {
            Some(p) => {
                if p.layer != Layer::L3 {
                    return true;
                }
            },
            None => {},
        }
        i = i + 1;
    }
    false
}

/// The client's exit status for a finished session: 1 when any probe failed
/// or errored, 0 otherwise.
pub fn exit_code(summary: &TestSummary) -> (r: i32)
    ensures
        r == (if summary.failed > 0 || summary.errors > 0 { 1i32 } else { 0i32 }),
{
    if summary.failed > 0 || summary.errors > 0 {
        1
    } else {
        0
    }
}

/// A layer's name.
pub open spec fn layer_text(l: Layer) -> Seq<char> {
    match l {
        Layer::L3 => "L3"@,
        Layer::L4 => "L4"@,
        Layer::L7 => "L7"@,
    }
}

/// `s` padded with spaces on the right to at least `width` characters.
pub open spec fn padded(s: Seq<char>, width: nat) -> Seq<char> {
    if s.len() >= width {
        s
    } else {
        s + Seq::new((width - s.len()) as nat, |i: int| ' ')
    }
}

/// The line that lists one probe: its name padded to twelve columns, its
/// layer and its transports.
pub open spec fn listing_text(p: ProtocolView) -> Seq<char> {
    "  "@ + padded(p.name, 12) + " layer="@ + layer_text(p.layer) + " transports="@
        + crate::orchestrator::join_texts(p.transports.map_values(|t: Transport| transport_text(t)), ","@)
}

/// The line that lists one probe when no probe is requested.
pub fn listing_line(p: &ProtocolInfo) -> (r: String)
    ensures
        r@ == listing_text(p@),
{
    let mut out = String::new();
    push_str(&mut out, "  ");
    push_str(&mut out, p.name.as_str());
    let n = p.name.as_str().unicode_len();
    let mut k = n;
    let ghost base = out@;
    while k < 12
        invariant
            n <= k <= 12 || (n > 12 && k == n),
            n == p.name@.len(),
            out@ == base + Seq::new((k - n) as nat, |i: int| ' '),
        decreases 12 - k,
    {
        push_char(&mut out, ' ');
        k = k + 1;
        assert(out@ =~= base + Seq::new((k - n) as nat, |i: int| ' '));
    }
    assert(out@ =~= "  "@ + padded(p.name@, 12));
    push_str(&mut out, " layer=");
    match p.layer {
        Layer::L3 => push_str(&mut out, "L3"),
        Layer::L4 => push_str(&mut out, "L4"),
        Layer::L7 => push_str(&mut out, "L7"),
    }
    push_str(&mut out, " transports=");
    let ghost texts = p@.transports.map_values(|t: Transport| transport_text(t));
    let ghost head = out@;
    let mut j: usize = 0;
    assert(texts.take(0) =~= Seq::<Seq<char>>::empty());
    while j < p.transports.len()
        invariant
            j <= p.transports@.len(),
            texts == p@.transports.map_values(|t: Transport| transport_text(t)),
            out@ == head + crate::orchestrator::join_texts(texts.take(j as int), ","@),
        decreases p.transports.len() - j,
    {
        if j > 0 {
            push_str(&mut out, ",");
        }
        push_str(&mut out, p.transports[j].as_str());
        proof {
            assert(texts.take(j + 1).drop_last() =~= texts.take(j as int));
            if j == 0 {
                assert(texts.take(1) =~= seq![texts[0]]);
            }
        }
        j = j + 1;
        assert(out@ =~= head + crate::orchestrator::join_texts(texts.take(j as int), ","@));
    }
    assert(texts.take(p.transports@.len() as int) =~= texts);
    out
}

/// Whether a bind address names port 443: the text after its last `:` is `443`.
pub open spec fn binds_port_443(bind: Seq<char>) -> bool {
    bind.len() >= 4 && bind.subrange(bind.len() - 4, bind.len() as int) == ":443"@
}

/// The hint added to a failure to bind the server's address: port 443 needs
/// privileges when permission was denied; an address in use says so.
pub fn bind_failure_hint(bind: &str, permission_denied: bool, addr_in_use: bool) -> (r: &'static str)
    ensures
        binds_port_443(bind@) && permission_denied ==> r@ == " (port 443 requires root/sudo; use --bind with port > 1024)"@,
        !(binds_port_443(bind@) && permission_denied) && addr_in_use ==> r@ == " (address already in use)"@,
        !(binds_port_443(bind@) && permission_denied) && !addr_in_use ==> r@ == ""@,
{
    let n = bind.unicode_len();
    let tail_is_443 = if n >= 4 {
        let tail = bind.substring_char(n - 4, n);
        str_eq(tail, ":443")
    } else {
        false
    };
    if tail_is_443 && permission_denied {
        " (port 443 requires root/sudo; use --bind with port > 1024)"
    } else if addr_in_use {
        " (address already in use)"
    } else {
        ""
    }
}


/// The decimal text of a number is a run of digits whose value is the number.
pub proof fn lemma_decimal_text_digits(n: nat)
    ensures
        decimal_text(n).len() > 0,
        all_digits(decimal_text(n)),
        digits_value(decimal_text(n)) == n,
    decreases n,
{
    if n < 10 {
        let c = digit_char(n);
        assert(c as nat == 48 + n);
        assert(decimal_text(n).drop_last() =~= Seq::<char>::empty());
        assert(decimal_text(n).last() == c);
        assert(digits_value(decimal_text(n).drop_last()) == 0);
    } else {
        lemma_decimal_text_digits(n / 10);
        let c = digit_char(n % 10);
        assert(c as nat == 48 + n % 10);
        let t = decimal_text(n);
        assert(t.drop_last() =~= decimal_text(n / 10));
        assert(t.last() == c);
        assert((n / 10) * 10 + n % 10 == n);
        assert(digits_value(t) == digits_value(decimal_text(n / 10)) * 10 + (c as nat - 48) as nat);
        assert forall|i: int| 0 <= i < t.len() implies '0' <= #[trigger] t[i] <= '9' by {
            if i < t.len() - 1 {
                assert(t[i] == decimal_text(n / 10)[i]);
            }
        }
    }
}

/// Every port number reads back from its decimal text, as std's
/// `u16::from_str` reads it: the whole range 0 to 65535.
pub proof fn lemma_port_number_of_decimal(n: nat)
    requires
        n <= 65535,
    ensures
        port_number(decimal_text(n)) == Some(n as u16),
{
    lemma_decimal_text_digits(n);
}


/// The first `c` in `s` at or after `from` is at `k` when `s[k]` is `c` and
/// no `c` comes between.
proof fn lemma_index_of_from_first(s: Seq<char>, c: char, from: int, k: int)
    requires
        0 <= from <= k < s.len(),
        s[k] == c,
        forall|j: int| from <= j < k ==> s[j] != c,
    ensures
        index_of_from(s, c, from) == Some(k),
    decreases k - from,
{
    if from < k {
        lemma_index_of_from_first(s, c, from + 1, k);
    }
}

/// A range written as `<transport>/<start>-<end>` with both ports in
/// decimal reads back as that transport and those ports, for every
/// transport name without a `/` and every pair of port numbers.
pub proof fn lemma_port_range_of_text(t: Seq<char>, start: nat, end: nat)
    requires
        forall|j: int| 0 <= j < t.len() ==> t[j] != '/',
        start <= 65535,
        end <= 65535,
    ensures
        port_range_from_text(t + "/"@ + decimal_text(start) + "-"@ + decimal_text(end)) == Some(
            (t, start as u16, end as u16),
        ),
{
    reveal_strlit("/");
    reveal_strlit("-");
    reveal_strlit("any");
    reveal_strlit("icmp");
    let da = decimal_text(start);
    let db = decimal_text(end);
    lemma_decimal_text_digits(start);
    lemma_decimal_text_digits(end);
    lemma_port_number_of_decimal(start);
    lemma_port_number_of_decimal(end);
    let s = t + "/"@ + da + "-"@ + db;
    assert(s[t.len() as int] == '/');
    assert forall|j: int| 0 <= j < t.len() implies s[j] != '/' by {
        assert(s[j] == t[j]);
    }
    lemma_index_of_from_first(s, '/', 0, t.len() as int);
    assert(s.take(t.len() as int) =~= t);
    let rest = s.skip(t.len() + 1int);
    assert(rest =~= da + "-"@ + db);
    assert('0' <= da[0] <= '9');
    assert(rest[0] == da[0]);
    assert(rest != "any"@);
    assert(rest != "icmp"@);
    assert(rest[da.len() as int] == '-');
    assert forall|j: int| 0 <= j < da.len() implies rest[j] != '-' by {
        assert(rest[j] == da[j]);
        assert('0' <= da[j] <= '9');
    }
    lemma_index_of_from_first(rest, '-', 0, da.len() as int);
    assert(rest.take(da.len() as int) =~= da);
    assert(rest.skip(da.len() + 1int) =~= db);
}

/// A single port written as `<transport>/<port>` in decimal reads back as a
/// range of that one port, for every transport name without a `/`.
pub proof fn lemma_single_port_of_text(t: Seq<char>, port: nat)
    requires
        forall|j: int| 0 <= j < t.len() ==> t[j] != '/',
        port <= 65535,
    ensures
        port_range_from_text(t + "/"@ + decimal_text(port)) == Some((t, port as u16, port as u16)),
{
    reveal_strlit("/");
    reveal_strlit("any");
    reveal_strlit("icmp");
    let d = decimal_text(port);
    lemma_decimal_text_digits(port);
    lemma_port_number_of_decimal(port);
    let s = t + "/"@ + d;
    assert(s[t.len() as int] == '/');
    assert forall|j: int| 0 <= j < t.len() implies s[j] != '/' by {
        assert(s[j] == t[j]);
    }
    lemma_index_of_from_first(s, '/', 0, t.len() as int);
    assert(s.take(t.len() as int) =~= t);
    let rest = s.skip(t.len() + 1int);
    assert(rest =~= d);
    assert('0' <= d[0] <= '9');
    assert(rest != "any"@);
    assert(rest != "icmp"@);
    assert(index_of(rest, '-') is None) by {
        assert forall|j: int| 0 <= j < rest.len() implies rest[j] != '-' by {
            assert('0' <= d[j] <= '9');
        }
        lemma_index_of_from_none(rest, '-', 0);
    }
}

/// No `c` at or after `from` means the search finds none.
proof fn lemma_index_of_from_none(s: Seq<char>, c: char, from: int)
    requires
        0 <= from,
        forall|j: int| from <= j < s.len() ==> s[j] != c,
    ensures
        index_of_from(s, c, from) is None,
    decreases s.len() - from,
{
    if from < s.len() {
        lemma_index_of_from_none(s, c, from + 1);
    }
}

} // verus!
