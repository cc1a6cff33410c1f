//! Compact text for lists of ports.

use vstd::prelude::*;

use crate::text::{decimal_text, push_char, push_decimal};

verus! {

/// The maximal runs of consecutive values in `ports`, as (first, last) pairs,
/// in order: a value continues the run before it exactly when it is one more
/// than that run's last value.
pub open spec fn port_runs(ports: Seq<u16>) -> Seq<(u16, u16)>
    decreases ports.len(),
{
    if ports.len() == 0 {
        Seq::empty()
    } else {
        let rest = port_runs(ports.drop_last());
        let p = ports.last();
        if rest.len() > 0 && rest.last().1 as int + 1 == p as int {
            rest.update(rest.len() - 1, (rest.last().0, p))
        } else {
            rest.push((p, p))
        }
    }
}

/// One run: `"a"` when it holds a single value, `"a-b"` otherwise.
pub open spec fn run_text(run: (u16, u16)) -> Seq<char> {
    if run.0 == run.1 {
        decimal_text(run.0 as nat)
    } else {
        decimal_text(run.0 as nat) + seq!['-'] + decimal_text(run.1 as nat)
    }
}

/// The runs' texts joined with commas.
pub open spec fn runs_text(runs: Seq<(u16, u16)>) -> Seq<char>
    decreases runs.len(),
{
    if runs.len() == 0 {
        Seq::empty()
    } else if runs.len() == 1 {
        run_text(runs[0])
    } else {
        runs_text(runs.drop_last()) + seq![','] + run_text(runs.last())
    }
}

/// Whether the value 65535 appears anywhere but last (the run scan would
/// have to compute one past it).
pub open spec fn max_port_before_end(ports: Seq<u16>) -> bool {
    exists|i: int| 0 <= i < ports.len() - 1 && ports[i] == 65535
}

proof fn lemma_runs_extend(ports: Seq<u16>, start: int, k: int)
    requires
        0 <= start <= k < ports.len(),
        start == 0 || ports[start - 1] as int + 1 != ports[start] as int,
        forall|j: int| start < j <= k ==> #[trigger] ports[j] as int == ports[j - 1] as int + 1,
    ensures
        port_runs(ports.take(k + 1)) == port_runs(ports.take(start)).push((ports[start], ports[k])),
    decreases k - start,
{
    let t = ports.take(k + 1);
    assert(t.drop_last() =~= ports.take(k));
    if k == start {
        if start > 0 {
            let prev = port_runs(ports.take(start));
            lemma_runs_last(ports, start);
        }
    } else {
        lemma_runs_extend(ports, start, k - 1);
    }
}

proof fn lemma_runs_last(ports: Seq<u16>, n: int)
    requires
        0 < n <= ports.len(),
    ensures
        port_runs(ports.take(n)).len() > 0,
        port_runs(ports.take(n)).last().1 == ports[n - 1],
{
    let t = ports.take(n);
    assert(t.drop_last() =~= ports.take(n - 1));
}

/// Formats ports as compact ranges, e.g. `"0-21,23-79,81-1023"`; the empty
/// list gives the empty string.
pub fn format_port_ranges(ports: &[u16]) -> (r: String)
    requires
        !max_port_before_end(ports@),
    ensures
        r@ == runs_text(port_runs(ports@)),
{
    let mut out = String::new();
    let n = ports.len();
    let mut i: usize = 0;
    proof {
        assert(ports@.take(0) =~= Seq::<u16>::empty());
    }
    while i < n
        invariant
            n == ports@.len(),
            i <= n,
            !max_port_before_end(ports@),
            i == 0 || ports@[i - 1] as int + 1 != ports@[i as int] as int || i == n,
            out@ == runs_text(port_runs(ports@.take(i as int))),
        decreases n - i,
    {
        let start = ports[i];
        let mut end = start;
        let first = i;
        proof {
            lemma_runs_extend(ports@, first as int, first as int);
        }
        while i + 1 < n && ports[i + 1] == end + 1
            invariant
                n == ports@.len(),
                first <= i < n,
                start == ports@[first as int],
                end == ports@[i as int],
                !max_port_before_end(ports@),
                first == 0 || ports@[first - 1] as int + 1 != ports@[first as int] as int,
                forall|j: int| first < j <= i ==> #[trigger] ports@[j] as int == ports@[j - 1] as int + 1,
                port_runs(ports@.take(i + 1)) == port_runs(ports@.take(first as int)).push(
                    (start, end),
                ),
            decreases n - i,
        {
            proof {
                assert(ports@[i as int] != 65535) by {
                    if ports@[i as int] == 65535 {
                        assert(max_port_before_end(ports@));
                    }
                }
            }
            end = ports[i + 1];
            i = i + 1;
            proof {
                lemma_runs_extend(ports@, first as int, i as int);
            }
        }
        let ghost before = port_runs(ports@.take(first as int));
        if first > 0 {
            push_char(&mut out, ',');
        }
        push_decimal(&mut out, start as u64);
        if start != end {
            push_char(&mut out, '-');
            push_decimal(&mut out, end as u64);
        }
        proof {
            let after = before.push((start, end));
            assert(after.drop_last() =~= before);
            if first > 0 {
                lemma_runs_last(ports@, first as int);
                assert(before.len() > 0);
            } else {
                assert(before.len() == 0);
            }
            assert(out@ =~= runs_text(after));
        }
        i = i + 1;
    }
    assert(ports@.take(n as int) =~= ports@);
    out
}

/// The values a run stands for: `first`, `first + 1`, ..., `last`.
pub open spec fn run_values(run: (u16, u16)) -> Seq<u16> {
    Seq::new((run.1 - run.0 + 1) as nat, |i: int| (run.0 + i) as u16)
}

/// The values all runs stand for, run after run.
pub open spec fn expand_runs(runs: Seq<(u16, u16)>) -> Seq<u16>
    decreases runs.len(),
{
    if runs.len() == 0 {
        Seq::empty()
    } else {
        expand_runs(runs.drop_last()) + run_values(runs.last())
    }
}

proof fn lemma_runs_ordered(ports: Seq<u16>)
    ensures
        forall|j: int| 0 <= j < port_runs(ports).len() ==> (#[trigger] port_runs(ports)[j]).0 <= port_runs(ports)[j].1,
    decreases ports.len(),
{
    if ports.len() > 0 {
        let init = ports.drop_last();
        lemma_runs_ordered(init);
        let rest = port_runs(init);
        let p = ports.last();
        if rest.len() > 0 && rest.last().1 as int + 1 == p as int {
            let runs = rest.update(rest.len() - 1, (rest.last().0, p));
            assert(rest[rest.len() - 1].0 <= rest[rest.len() - 1].1);
            assert forall|j: int| 0 <= j < runs.len() implies (#[trigger] runs[j]).0 <= runs[j].1 by {
                if j < rest.len() - 1 {
                    assert(runs[j] == rest[j]);
                }
            }
        } else {
            let runs = rest.push((p, p));
            assert forall|j: int| 0 <= j < runs.len() implies (#[trigger] runs[j]).0 <= runs[j].1 by {
                if j < rest.len() {
                    assert(runs[j] == rest[j]);
                }
            }
        }
    }
}

/// The compact ranges name exactly the ports given: expanding each run
/// gives back the list, in order.
pub proof fn lemma_runs_expand_to_ports(ports: Seq<u16>)
    ensures
        expand_runs(port_runs(ports)) == ports,
    decreases ports.len(),
{
    if ports.len() > 0 {
        let init = ports.drop_last();
        let rest = port_runs(init);
        let p = ports.last();
        lemma_runs_expand_to_ports(init);
        lemma_runs_ordered(init);
        if rest.len() > 0 && rest.last().1 as int + 1 == p as int {
            let a = rest.last().0;
            let runs = rest.update(rest.len() - 1, (a, p));
            assert(runs.drop_last() =~= rest.drop_last());
            assert(rest.last().0 <= rest.last().1);
            assert(run_values((a, p)) =~= run_values(rest.last()).push(p));
            assert(expand_runs(rest) == expand_runs(rest.drop_last()) + run_values(rest.last()));
            assert(expand_runs(runs) =~= expand_runs(rest).push(p));
        } else {
            let runs = rest.push((p, p));
            assert(runs.drop_last() =~= rest);
            assert(run_values((p, p)) =~= seq![p]);
        }
        assert(init.push(p) =~= ports);
    }
}

} // verus!
