use vstd::prelude::*;
use vstd::arithmetic::div_mod::lemma_fundamental_div_mod_converse;

verus! {

/// How many positive multiples of `every` lie strictly below `to`.
pub open spec fn steps_below(every: int, to: int) -> int
    recommends
        every > 0,
        to >= 0,
{
    if to <= 0 {
        0
    } else {
        (to - 1) / every
    }
}

/// The periods at which a report shows a row: `first`, then each positive
/// multiple of `every` that is strictly below `to`, in rising order, and at
/// last `to` itself.
pub open spec fn report_periods_spec(first: u32, every: u32, to: u32) -> Seq<u32> {
    seq![first] + Seq::new(
        steps_below(every as int, to as int) as nat,
        |k: int| ((k + 1) * every) as u32,
    ) + seq![to]
}

/// The number of rows of a report is two more than the multiples it steps
/// through, and its first and last rows are the two given ends.
pub proof fn lemma_report_periods_ends(first: u32, every: u32, to: u32)
    requires
        every > 0,
    ensures
        report_periods_spec(first, every, to).len() == steps_below(every as int, to as int) + 2,
        report_periods_spec(first, every, to).first() == first,
        report_periods_spec(first, every, to).last() == to,
{
    if to > 0 {
        vstd::arithmetic::div_mod::lemma_div_pos_is_pos(to - 1, every as int);
    }
}

/// Every row between the two ends of a report is a multiple of the step and
/// lies strictly below the end.
pub proof fn lemma_report_periods_inner(first: u32, every: u32, to: u32, j: int)
    requires
        every > 0,
        0 < j <= steps_below(every as int, to as int),
    ensures
        report_periods_spec(first, every, to)[j] == j * every,
        j * every < to,
{
    let count = steps_below(every as int, to as int);
    assert(to > 0);
    assert(count * every <= to - 1) by {
        vstd::arithmetic::div_mod::lemma_fundamental_div_mod(to - 1, every as int);
        vstd::arithmetic::div_mod::lemma_mod_bound(to - 1, every as int);
        assert(every * count == count * every) by (nonlinear_arith);
    }
    assert(j * every <= count * every) by (nonlinear_arith)
        requires
            0 < j <= count,
            every > 0,
    ;
    assert(report_periods_spec(first, every, to)[j] == (((j - 1) + 1) * every) as u32);
}

/// Lists the periods at which a report shows a row.
///
/// The step must be positive: a report cannot advance by nothing.
pub fn report_periods(first: u32, every: u32, to: u32) -> (rows: Vec<u32>)
    requires
        every > 0,
    ensures
        rows@ == report_periods_spec(first, every, to),
{
    let mut rows: Vec<u32> = Vec::new();
    rows.push(first);
    let step: u64 = every as u64;
    let end: u64 = to as u64;
    let mut at: u64 = step;
    let ghost mut taken: int = 0;
    while at < end
        invariant
            step == every,
            end == to,
            every > 0,
            taken >= 0,
            at == (taken + 1) * every,
            taken == 0 || taken * every < to,
            rows@ == seq![first] + Seq::new(taken as nat, |k: int| ((k + 1) * every) as u32),
        decreases end + step - at,
    {
        proof {
            assert((taken + 2) * every == (taken + 1) * every + every) by (nonlinear_arith);
            assert(Seq::new((taken + 1) as nat, |k: int| ((k + 1) * every) as u32)
                =~= Seq::new(taken as nat, |k: int| ((k + 1) * every) as u32).push(at as u32));
            assert((seq![first] + Seq::new(taken as nat, |k: int| ((k + 1) * every) as u32)).push(
                at as u32,
            ) =~= seq![first] + Seq::new((taken + 1) as nat, |k: int| ((k + 1) * every) as u32));
        }
        rows.push(at as u32);
        at = at + step;
        proof {
            taken = taken + 1;
        }
    }
    proof {
        if to == 0 {
            assert(taken == 0);
        } else {
            // taken * every <= to - 1 < (taken + 1) * every
            assert(taken * every == every * taken) by (nonlinear_arith);
            assert((taken + 1) * every == every * taken + every) by (nonlinear_arith);
            lemma_fundamental_div_mod_converse(
                to - 1,
                every as int,
                taken,
                to - 1 - every * taken,
            );
        }
        assert(taken == steps_below(every as int, to as int));
    }
    rows.push(to);
    proof {
        assert(rows@ =~= report_periods_spec(first, every, to));
    }
    rows
}

} // verus!
