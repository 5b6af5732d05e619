//! Expectations and the check of a whole batch of them.
use vstd::prelude::*;
use crate::diagnostic::{decorated, diagnostic, internal_build_error, renderable};
use crate::text::{decimal, join, push_char, push_decimal, same_text};

verus! {

/// The outcome of one expectation: `Ok(())`, or `Err` with its diagnostic.
pub type Outcome = Result<(), String>;

/// The entry of a failure in a batch report.
pub open spec fn iteration_entry(index: nat, message: Seq<char>) -> Seq<char> {
    "iteration["@ + decimal(index) + "]:\n"@ + message
}

/// The entries of the failed outcomes, in the order of the outcomes.
pub open spec fn failure_entries(outcomes: Seq<Outcome>) -> Seq<Seq<char>>
    decreases outcomes.len(),
{
    if outcomes.len() == 0 {
        Seq::empty()
    } else {
        let rest = failure_entries(outcomes.drop_last());
        match outcomes.last() {
            Ok(_) => rest,
            Err(m) => rest.push(iteration_entry((outcomes.len() - 1) as nat, m@)),
        }
    }
}

/// The positions of the failed outcomes, in ascending order.
pub open spec fn failure_positions(outcomes: Seq<Outcome>) -> Seq<int>
    decreases outcomes.len(),
{
    if outcomes.len() == 0 {
        Seq::empty()
    } else {
        let rest = failure_positions(outcomes.drop_last());
        if outcomes.last() is Err {
            rest.push(outcomes.len() - 1)
        } else {
            rest
        }
    }
}

/// Whether every outcome is a success.
pub open spec fn no_failures(outcomes: Seq<Outcome>) -> bool {
    forall|i: int| 0 <= i < outcomes.len() ==> (#[trigger] outcomes[i]) is Ok
}

/// The report of a batch with failures: a newline, then the failure entries
/// joined by newlines.
pub open spec fn batch_report(outcomes: Seq<Outcome>) -> Seq<char> {
    seq!['\n'] + join(failure_entries(outcomes), seq!['\n'])
}

proof fn lemma_entries_empty(outcomes: Seq<Outcome>)
    ensures
        (failure_entries(outcomes).len() == 0) == no_failures(outcomes),
    decreases outcomes.len(),
{
    if outcomes.len() > 0 {
        let prefix = outcomes.drop_last();
        lemma_entries_empty(prefix);
        if !no_failures(prefix) {
            let i = choose|i: int| 0 <= i < prefix.len() && !(#[trigger] prefix[i] is Ok);
            assert(outcomes[i] == prefix[i]);
        }
        if no_failures(prefix) && outcomes.last() is Ok {
            assert forall|i: int| 0 <= i < outcomes.len() implies (#[trigger] outcomes[i]) is Ok by {
                if i < prefix.len() {
                    assert(outcomes[i] == prefix[i]);
                }
            }
        }
    }
}

/// Checks a whole batch of outcomes, every one of them: `Ok(())` when all
/// succeeded, else `Err` with one entry per failure, giving its position and
/// its diagnostic, in the order of the outcomes.
pub fn check(expects: Vec<Outcome>) -> (r: Result<(), String>)
    ensures
        (r is Ok) == no_failures(expects@),
        r matches Err(m) ==> m@ == batch_report(expects@),
{
    let ghost all = expects@;
    let mut joined = String::new();
    let mut any = false;
    let mut index: usize = 0;
    while index < expects.len()
        invariant
            index <= expects.len(),
            expects@ == all,
            joined@ == join(failure_entries(all.take(index as int)), seq!['\n']),
            any == (failure_entries(all.take(index as int)).len() > 0),
        decreases expects.len() - index,
    {
        let ghost before = failure_entries(all.take(index as int));
        assert(all.take(index + 1).drop_last() =~= all.take(index as int));
        if let Err(message) = &expects[index] {
            if any {
                push_char(&mut joined, '\n');
            }
            joined.append("iteration[");
            push_decimal(&mut joined, index);
            joined.append("]:\n");
            joined.append(message.as_str());
            proof {
                let entry = iteration_entry(index as nat, message@);
                assert(failure_entries(all.take(index + 1)) == before.push(entry));
                if before.len() > 0 {
                    assert(before.push(entry).drop_last() =~= before);
                    assert(joined@ =~= join(before, seq!['\n']) + seq!['\n'] + entry);
                } else {
                    assert(joined@ =~= entry);
                }
            }
            any = true;
        }
        index = index + 1;
    }
    proof {
        assert(all.take(all.len() as int) =~= all);
        lemma_entries_empty(all);
    }
    if any {
        let mut report = String::new();
        push_char(&mut report, '\n');
        report.append(joined.as_str());
        Err(report)
    } else {
        Ok(())
    }
}

/// Every failed outcome, and no other, gets exactly one entry in a batch
/// report; the entries follow the outcomes' order, and each one names its
/// outcome's position and carries that outcome's own diagnostic.
pub proof fn lemma_failures_reported_in_order(outcomes: Seq<Outcome>)
    ensures
        failure_entries(outcomes).len() == failure_positions(outcomes).len(),
        forall|j: int|
            0 <= j < failure_positions(outcomes).len() ==> {
                let i = #[trigger] failure_positions(outcomes)[j];
                &&& 0 <= i < outcomes.len()
                &&& outcomes[i] matches Err(m)
                &&& failure_entries(outcomes)[j] == iteration_entry(i as nat, m@)
            },
        forall|j1: int, j2: int|
            0 <= j1 < j2 < failure_positions(outcomes).len() ==> failure_positions(outcomes)[j1]
                < failure_positions(outcomes)[j2],
        forall|i: int|
            0 <= i < outcomes.len() && (#[trigger] outcomes[i]) is Err ==> failure_positions(
                outcomes,
            ).contains(i),
    decreases outcomes.len(),
{
    if outcomes.len() > 0 {
        let prefix = outcomes.drop_last();
        lemma_failures_reported_in_order(prefix);
        let p = failure_positions(prefix);
        let n = outcomes.len() - 1;
        assert forall|j: int| 0 <= j < p.len() implies p[j] < n by {
            assert(0 <= p[j] < prefix.len());
        }
        assert forall|i: int| 0 <= i < outcomes.len() && (#[trigger] outcomes[i]) is Err implies failure_positions(
            outcomes,
        ).contains(i) by {
            if i < n {
                assert(outcomes[i] == prefix[i]);
                let j = choose|j: int| 0 <= j < p.len() && p[j] == i;
                assert(failure_positions(outcomes)[j] == i);
            } else {
                assert(failure_positions(outcomes).last() == i);
            }
        }
        assert forall|j: int| 0 <= j < failure_positions(outcomes).len() implies {
            let i = #[trigger] failure_positions(outcomes)[j];
            &&& 0 <= i < outcomes.len()
            &&& outcomes[i] matches Err(m)
            &&& failure_entries(outcomes)[j] == iteration_entry(i as nat, m@)
        } by {
            if j < p.len() {
                assert(outcomes[p[j]] == prefix[p[j]]);
            }
        }
    }
}

/// The most characters of a value's rendering quoted in a length diagnostic.
pub const QUOTE_LIMIT: usize = 50;

/// A value's rendering as quoted in a length diagnostic: whole if short
/// enough, else its first characters followed by `...`.
pub open spec fn quoted(rendering: Seq<char>) -> Seq<char> {
    if rendering.len() <= QUOTE_LIMIT {
        rendering
    } else {
        rendering.take(QUOTE_LIMIT as int) + "..."@
    }
}

/// The diagnostic of a collection of the wrong length.
pub open spec fn length_message(
    actual: nat,
    expected: nat,
    source: Seq<char>,
    rendering: Seq<char>,
) -> Seq<char> {
    "Length of "@ + source + " is "@ + decimal(actual) + ", not "@ + decimal(expected) + " -- "@
        + quoted(rendering)
}

/// The expectation that a bare condition holds; `condition` is its source text.
pub fn expect(holds: bool, condition: &str) -> (r: Outcome)
    ensures
        (r is Ok) == holds,
        r matches Err(m) ==> m@ == "Condition failed: "@ + condition@,
{
    if holds {
        Ok(())
    } else {
        let mut message = String::new();
        message.append("Condition failed: ");
        message.append(condition);
        Err(message)
    }
}

/// The message of a failed comparison: with neither operand decorated there is
/// nothing to annotate, and the condition is quoted as a bare one; else the
/// full diagnostic.
pub open spec fn comparison_message(
    left_value: Seq<char>,
    left_expr: Seq<char>,
    op: Seq<char>,
    right_value: Seq<char>,
    right_expr: Seq<char>,
) -> Seq<char> {
    if !decorated(left_expr, left_value) && !decorated(right_expr, right_value) {
        "Condition failed: "@ + left_expr + seq![' '] + op + seq![' '] + right_expr
    } else {
        diagnostic(left_value, left_expr, op, right_value, right_expr)
    }
}

/// The expectation that the comparison `left_expr op right_expr` holds, given
/// whether it does and the text of each operand's value.
pub fn expect_compare(
    holds: bool,
    left_value: &str,
    left_expr: &str,
    op: &str,
    right_value: &str,
    right_expr: &str,
) -> (r: Outcome)
    requires
        !holds ==> renderable(left_value@, left_expr@, op@, right_value@, right_expr@),
    ensures
        (r is Ok) == holds,
        r matches Err(m) ==> m@ == comparison_message(left_value@, left_expr@, op@, right_value@, right_expr@),
{
    if holds {
        Ok(())
    } else if same_text(left_expr, left_value) && same_text(right_expr, right_value) {
        let mut message = String::new();
        message.append("Condition failed: ");
        message.append(left_expr);
        push_char(&mut message, ' ');
        message.append(op);
        push_char(&mut message, ' ');
        message.append(right_expr);
        Err(message)
    } else {
        Err(internal_build_error(left_value, left_expr, op, right_value, right_expr))
    }
}

/// The expectation that two operands are equal, given whether they are and the
/// text of each one's value: the comparison `left_expr == right_expr`.
pub fn expect_eq(
    holds: bool,
    left_value: &str,
    left_expr: &str,
    right_value: &str,
    right_expr: &str,
) -> (r: Outcome)
    requires
        !holds ==> renderable(left_value@, left_expr@, "=="@, right_value@, right_expr@),
    ensures
        (r is Ok) == holds,
        r matches Err(m) ==> m@ == comparison_message(left_value@, left_expr@, "=="@, right_value@, right_expr@),
{
    proof {
        reveal_strlit("==");
        assert("=="@ =~= seq!['=', '=']);
    }
    expect_compare(holds, left_value, left_expr, "==", right_value, right_expr)
}

/// The expectation that a collection has `expected` elements, given the number
/// it has, its source text and the rendering of its value.
pub fn expect_len(actual: usize, expected: usize, source: &str, rendering: &str) -> (r: Outcome)
    ensures
        (r is Ok) == (actual == expected),
        r matches Err(m) ==> m@ == length_message(actual as nat, expected as nat, source@, rendering@),
{
    if actual == expected {
        return Ok(());
    }
    let mut message = String::new();
    message.append("Length of ");
    message.append(source);
    message.append(" is ");
    push_decimal(&mut message, actual);
    message.append(", not ");
    push_decimal(&mut message, expected);
    message.append(" -- ");
    if rendering.unicode_len() <= QUOTE_LIMIT {
        message.append(rendering);
    } else {
        message.append(rendering.substring_char(0, QUOTE_LIMIT));
        message.append("...");
    }
    Err(message)
}

} // verus!
