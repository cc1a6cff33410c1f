//! Building text: characters, decimal numbers and comparisons of strings.

use vstd::prelude::*;

verus! {

/// The ASCII digit for `d` (which is below ten).
pub open spec fn digit_char(d: nat) -> char {
    (48 + d) as char
}

/// The decimal representation of `n`, without leading zeros.
pub open spec fn decimal_text(n: nat) -> Seq<char>
    decreases n,
{
    if n < 10 {
        seq![digit_char(n)]
    } else {
        decimal_text(n / 10).push(digit_char(n % 10))
    }
}

/// Appends one character (std's `String::push`, which appends the given char
/// to the end of the string).
#[verifier::external_body]
pub(crate) fn push_char(s: &mut String, c: char)
    ensures
        final(s)@ == old(s)@.push(c),
{
    s.push(c);
}

/// Appends the decimal representation of `n`.
pub fn push_decimal(s: &mut String, n: u64)
    ensures
        final(s)@ == old(s)@ + decimal_text(n as nat),
    decreases n,
{
    if n >= 10 {
        push_decimal(s, n / 10);
    }
    let d: u8 = (n % 10) as u8;
    let c: char = (48u8 + d) as char;
    push_char(s, c);
    assert(final(s)@ =~= old(s)@ + decimal_text(n as nat));
}

/// The decimal representation of `n`.
pub fn decimal_string(n: u64) -> (r: String)
    ensures
        r@ == decimal_text(n as nat),
{
    let mut s = String::new();
    push_decimal(&mut s, n);
    assert(s@ =~= decimal_text(n as nat));
    s
}

/// Appends `t`.
pub fn push_str(s: &mut String, t: &str)
    ensures
        final(s)@ == old(s)@ + t@,
{
    s.append(t);
}

/// Whether two strings hold the same characters.
pub fn str_eq(a: &str, b: &str) -> (r: bool)
    ensures
        r == (a@ == b@),
{
    let x: String = a.to_owned();
    let y: String = b.to_owned();
    x == y
}

/// The characters of `s`, in order.
pub fn chars_of(s: &str) -> (r: Vec<char>)
    ensures
        r@ == s@,
{
    let n = s.unicode_len();
    let mut v: Vec<char> = Vec::new();
    let mut i: usize = 0;
    while i < n
        invariant
            n == s@.len(),
            i <= n,
            v@ == s@.take(i as int),
        decreases n - i,
    {
        v.push(s.get_char(i));
        i = i + 1;
        assert(v@ =~= s@.take(i as int));
    }
    assert(s@.take(n as int) =~= s@);
    v
}

/// A string holding `chars[from..to]`.
pub fn string_of_chars(chars: &Vec<char>, from: usize, to: usize) -> (r: String)
    requires
        from <= to <= chars@.len(),
    ensures
        r@ == chars@.subrange(from as int, to as int),
{
    let mut s = String::new();
    let mut i = from;
    while i < to
        invariant
            from <= i <= to,
            to <= chars@.len(),
            s@ == chars@.subrange(from as int, i as int),
        decreases to - i,
    {
        push_char(&mut s, chars[i]);
        i = i + 1;
        assert(s@ =~= chars@.subrange(from as int, i as int));
    }
    s
}

/// The lowercase hexadecimal digit for `v` (which is below sixteen).
pub open spec fn hex_digit(v: nat) -> char {
    if v < 10 {
        (48 + v) as char
    } else {
        (87 + v) as char
    }
}

/// A byte as two lowercase hexadecimal digits.
pub open spec fn hex_byte(b: u8) -> Seq<char> {
    seq![hex_digit(b as nat / 16), hex_digit(b as nat % 16)]
}

/// Bytes as lowercase hexadecimal, two digits each.
pub open spec fn hex_text(bytes: Seq<u8>) -> Seq<char>
    decreases bytes.len(),
{
    if bytes.len() == 0 {
        Seq::empty()
    } else {
        hex_text(bytes.drop_last()) + hex_byte(bytes.last())
    }
}

fn hex_digit_char(v: u8) -> (c: char)
    requires
        v < 16,
    ensures
        c == hex_digit(v as nat),
{
    if v < 10 {
        (48u8 + v) as char
    } else {
        (87u8 + v) as char
    }
}

/// Appends a byte as two lowercase hexadecimal digits.
pub fn push_hex_byte(s: &mut String, b: u8)
    ensures
        final(s)@ == old(s)@ + hex_byte(b),
{
    push_char(s, hex_digit_char(b / 16));
    push_char(s, hex_digit_char(b % 16));
    assert(final(s)@ =~= old(s)@ + hex_byte(b));
}

/// Bytes as lowercase hexadecimal, two digits each.
pub fn hex_string(bytes: &[u8]) -> (r: String)
    ensures
        r@ == hex_text(bytes@),
        r@.len() == 2 * bytes@.len(),
{
    let mut s = String::new();
    let mut i: usize = 0;
    assert(bytes@.take(0) =~= Seq::<u8>::empty());
    while i < bytes.len()
        invariant
            i <= bytes@.len(),
            s@ == hex_text(bytes@.take(i as int)),
            s@.len() == 2 * i,
        decreases bytes.len() - i,
    {
        push_hex_byte(&mut s, bytes[i]);
        proof {
            assert(bytes@.take(i + 1).drop_last() =~= bytes@.take(i as int));
        }
        i = i + 1;
    }
    assert(bytes@.take(bytes@.len() as int) =~= bytes@);
    s
}

/// The decimal representation of a byte.
pub open spec fn byte_decimal(b: u8) -> Seq<char> {
    decimal_text(b as nat)
}

/// The decimal representation of a byte, as a string.
pub fn byte_decimal_string(b: u8) -> (r: String)
    ensures
        r@ == byte_decimal(b),
{
    decimal_string(b as u64)
}

/// One character as it stands inside a JSON string: a double quote and a
/// backslash behind a backslash, a control character (below U+0020) as
/// `\u00` and two hexadecimal digits, any other character as it is.
pub open spec fn json_char(c: char) -> Seq<char> {
    if c == '"' {
        seq!['\\', '"']
    } else if c == '\\' {
        seq!['\\', '\\']
    } else if (c as u32) < 32 {
        seq!['\\', 'u', '0', '0', hex_digit((c as u32) as nat / 16), hex_digit((c as u32) as nat % 16)]
    } else {
        seq![c]
    }
}

/// A text as it stands inside a JSON string, character by character.
pub open spec fn json_escape(t: Seq<char>) -> Seq<char>
    decreases t.len(),
{
    if t.len() == 0 {
        Seq::empty()
    } else {
        json_escape(t.drop_last()) + json_char(t.last())
    }
}

/// Appends `t` escaped for a JSON string.
pub fn push_json_escaped(s: &mut String, t: &str)
    ensures
        final(s)@ == old(s)@ + json_escape(t@),
{
    let chars = chars_of(t);
    let mut i: usize = 0;
    assert(t@.take(0) =~= Seq::<char>::empty());
    while i < chars.len()
        invariant
            i <= chars@.len(),
            chars@ == t@,
            s@ == old(s)@ + json_escape(t@.take(i as int)),
        decreases chars.len() - i,
    {
        let c = chars[i];
        let ghost before = s@;
        if c == '"' {
            push_char(s, '\\');
            push_char(s, '"');
        } else if c == '\\' {
            push_char(s, '\\');
            push_char(s, '\\');
        } else if (c as u32) < 32 {
            let code: u32 = c as u32;
            let v: u8 = code as u8;
            assert(v as nat == code as nat);
            push_char(s, '\\');
            push_char(s, 'u');
            push_char(s, '0');
            push_char(s, '0');
            push_hex_byte(s, v);
            assert(hex_byte(v) =~= seq![hex_digit((c as u32) as nat / 16), hex_digit((c as u32) as nat % 16)]);
        } else {
            push_char(s, c);
        }
        assert(s@ =~= before + json_char(c));
        assert(t@.take(i + 1).drop_last() =~= t@.take(i as int));
        i = i + 1;
        assert(s@ =~= old(s)@ + json_escape(t@.take(i as int)));
    }
    assert(t@.take(t@.len() as int) =~= t@);
}


/// Whether `c` is a lowercase hexadecimal digit.
pub open spec fn is_lower_hex(c: char) -> bool {
    ('0' <= c <= '9') || ('a' <= c <= 'f')
}

/// The value of a lowercase hexadecimal digit.
pub open spec fn lower_hex_value(c: char) -> int {
    if '0' <= c <= '9' {
        c as int - 48
    } else {
        c as int - 87
    }
}

/// Hex text reads back as the bytes it was made from: two lowercase digits
/// per byte, in order, the high nibble first.
pub proof fn lemma_hex_text_reads_back(bytes: Seq<u8>)
    ensures
        hex_text(bytes).len() == 2 * bytes.len(),
        forall|k: int| 0 <= k < hex_text(bytes).len() ==> is_lower_hex(#[trigger] hex_text(bytes)[k]),
        forall|i: int| 0 <= i < bytes.len() ==> #[trigger] bytes[i] == lower_hex_value(hex_text(bytes)[2 * i]) * 16
            + lower_hex_value(hex_text(bytes)[2 * i + 1]),
    decreases bytes.len(),
{
    if bytes.len() > 0 {
        let init = bytes.drop_last();
        lemma_hex_text_reads_back(init);
        let b = bytes.last();
        let hi = hex_digit(b as nat / 16);
        let lo = hex_digit(b as nat % 16);
        assert(is_lower_hex(hi) && lower_hex_value(hi) == b as nat / 16);
        assert(is_lower_hex(lo) && lower_hex_value(lo) == b as nat % 16);
        let t = hex_text(bytes);
        assert(t == hex_text(init) + hex_byte(b));
        assert forall|k: int| 0 <= k < t.len() implies is_lower_hex(#[trigger] t[k]) by {
            if k < hex_text(init).len() {
                assert(t[k] == hex_text(init)[k]);
            }
        }
        assert forall|i: int| 0 <= i < bytes.len() implies #[trigger] bytes[i] == lower_hex_value(t[2 * i]) * 16
            + lower_hex_value(t[2 * i + 1]) by {
            if i < init.len() {
                assert(bytes[i] == init[i]);
                assert(t[2 * i] == hex_text(init)[2 * i]);
                assert(t[2 * i + 1] == hex_text(init)[2 * i + 1]);
            } else {
                assert(t[2 * i] == hi);
                assert(t[2 * i + 1] == lo);
            }
        }
    }
}

} // verus!
