//! Settlement of a run: given what every unit of work did, decide what the
//! terminal operation returns.
//!
//! A unit's execution is reified as an [`Outcome`]: it either completed with
//! a value or failed with an opaque payload (a captured panic, in a threaded
//! driver). Settlement either delivers every value in submission order, or
//! picks the single payload to re-raise: the last failure among the spawned
//! units, and only when no spawned unit failed, the failure of the unit run
//! on the calling thread.

use vstd::prelude::*;

verus! {

/// What one unit of work did: completed with a value, or failed with an
/// opaque payload.
pub enum Outcome<T, E> {
    /// The unit ran to completion and produced a value.
    Done(T),
    /// The unit terminated abnormally; the payload is what it failed with.
    Failed(E),
}

/// Holds when every unit in the sequence ran to completion.
pub open spec fn all_done<T, E>(outcomes: Seq<Outcome<T, E>>) -> bool {
    forall|i: int| 0 <= i < outcomes.len() ==> outcomes[i] is Done
}

/// The values the units produced, in submission order (meaningful when
/// `all_done` holds).
pub open spec fn done_values<T, E>(outcomes: Seq<Outcome<T, E>>) -> Seq<T> {
    outcomes.map_values(|o: Outcome<T, E>| o->Done_0)
}

/// The failure payload that survives a join loop walking the outcomes in
/// submission order, each failure overwriting the one before it: the payload
/// of the last failed unit, or `None` when every unit completed.
pub open spec fn last_failure<T, E>(outcomes: Seq<Outcome<T, E>>) -> Option<E>
    decreases outcomes.len(),
{
    if outcomes.len() == 0 {
        None
    } else if outcomes.last() is Failed {
        Some(outcomes.last()->Failed_0)
    } else {
        last_failure(outcomes.drop_last())
    }
}

/// A failure survives settlement exactly when one happened: `last_failure`
/// is `None` precisely on sequences whose units all completed.
pub proof fn lemma_no_failure_iff_all_done<T, E>(outcomes: Seq<Outcome<T, E>>)
    ensures
        last_failure(outcomes) is None <==> all_done(outcomes),
    decreases outcomes.len(),
{
    if outcomes.len() > 0 && outcomes.last() is Done {
        lemma_no_failure_iff_all_done(outcomes.drop_last());
        assert(all_done(outcomes.drop_last()) ==> all_done(outcomes)) by {
            if all_done(outcomes.drop_last()) {
                assert forall|i: int| 0 <= i < outcomes.len() implies outcomes[i] is Done by {
                    if i < outcomes.len() - 1 {
                        assert(outcomes.drop_last()[i] is Done);
                    }
                }
            }
        }
    }
}

/// The failure that survives is positional: if the unit at `i` failed and
/// every later unit completed, settlement re-raises the payload of unit `i`,
/// whatever the earlier units did.
pub proof fn lemma_last_failure_at<T, E>(outcomes: Seq<Outcome<T, E>>, i: int)
    requires
        0 <= i < outcomes.len(),
        outcomes[i] is Failed,
        forall|j: int| i < j < outcomes.len() ==> outcomes[j] is Done,
    ensures
        last_failure(outcomes) == Some(outcomes[i]->Failed_0),
    decreases outcomes.len(),
{
    if i < outcomes.len() - 1 {
        lemma_last_failure_at(outcomes.drop_last(), i);
    }
}

/// When exactly one unit failed, settlement re-raises precisely that unit's
/// payload, whatever every other unit produced.
pub proof fn lemma_single_failure<T, E>(outcomes: Seq<Outcome<T, E>>, i: int)
    requires
        0 <= i < outcomes.len(),
        outcomes[i] is Failed,
        forall|j: int| 0 <= j < outcomes.len() && j != i ==> outcomes[j] is Done,
    ensures
        last_failure(outcomes) == Some(outcomes[i]->Failed_0),
{
    lemma_last_failure_at(outcomes, i);
}

/// When any spawned unit failed, the payload settlement re-raises belongs to
/// a spawned unit — the last among those that failed — so it masks whatever
/// the unit on the calling thread failed with.
pub proof fn lemma_spawned_failure_wins<T, E>(outcomes: Seq<Outcome<T, E>>)
    requires
        !all_done(outcomes),
    ensures
        exists|i: int|
            {
                &&& 0 <= i < outcomes.len()
                &&& (#[trigger] outcomes[i]) is Failed
                &&& last_failure(outcomes) == Some(outcomes[i]->Failed_0)
                &&& forall|j: int| i < j < outcomes.len() ==> outcomes[j] is Done
            },
    decreases outcomes.len(),
{
    let k = choose|k: int| 0 <= k < outcomes.len() && !((#[trigger] outcomes[k]) is Done);
    if outcomes.last() is Failed {
        let i = outcomes.len() - 1;
        assert(outcomes[i] is Failed && last_failure(outcomes) == Some(outcomes[i]->Failed_0));
    } else {
        let rest = outcomes.drop_last();
        assert(!all_done(rest)) by {
            assert(rest[k] == outcomes[k]);
        }
        lemma_spawned_failure_wins(rest);
        let i = choose|i: int|
            {
                &&& 0 <= i < rest.len()
                &&& (#[trigger] rest[i]) is Failed
                &&& last_failure(rest) == Some(rest[i]->Failed_0)
                &&& forall|j: int| i < j < rest.len() ==> rest[j] is Done
            };
        assert(outcomes[i] is Failed && last_failure(outcomes) == Some(outcomes[i]->Failed_0)
            && forall|j: int| i < j < outcomes.len() ==> (#[trigger] outcomes[j]) is Done) by {
            assert(forall|j: int| i < j < rest.len() ==> rest[j] == #[trigger] outcomes[j]);
        }
    }
}

/// Settles a run in which one nominated unit ran on the calling thread
/// (producing `primary`) while every other unit ran on a spawned thread
/// (producing `spawned`, in submission order).
///
/// Returns the spawned units' values in submission order, paired with the
/// calling-thread value, exactly when every unit completed. Otherwise it
/// returns the one payload to re-raise: the last failure among the spawned
/// units; the calling-thread failure only when every spawned unit completed.
#[verifier::loop_isolation(false)]
pub fn settle<T, R, E>(spawned: Vec<Outcome<T, E>>, primary: Outcome<R, E>) -> (r: Result<
    (Vec<T>, R),
    E,
>)
    ensures
        r is Ok <==> (all_done(spawned@) && primary is Done),
        r is Ok ==> r->Ok_0.0@ == done_values(spawned@) && r->Ok_0.1 == primary->Done_0,
        r is Err && !all_done(spawned@) ==> Some(r->Err_0) == last_failure(spawned@),
        r is Err && all_done(spawned@) ==> primary is Failed && r->Err_0 == primary->Failed_0,
{
    let ghost submitted: Seq<Outcome<T, E>> = spawned@;
    let mut pending = spawned;
    // Values of the units behind the cursor, in reverse submission order.
    let mut reversed: Vec<T> = Vec::new();
    proof {
        assert(pending@ =~= submitted.take(pending@.len() as int));
    }
    while pending.len() > 0
        invariant
            pending@ == submitted.take(pending@.len() as int),
            reversed@.len() + pending@.len() == submitted.len(),
            forall|j: int|
                pending@.len() <= j < submitted.len() ==> (#[trigger] submitted[j]) is Done
                    && reversed@[submitted.len() - 1 - j] == submitted[j]->Done_0,
        decreases pending@.len(),
    {
        let ghost cursor: int = pending@.len() - 1;
        assert(pending@.last() == submitted[cursor]);
        match pending.pop().unwrap() {
            Outcome::Done(value) => {
                reversed.push(value);
                proof {
                    assert(pending@ =~= submitted.take(pending@.len() as int));
                    assert(submitted[cursor] is Done);
                    assert(reversed@[submitted.len() - 1 - cursor] == submitted[cursor]->Done_0);
                }
            },
            Outcome::Failed(payload) => {
                proof {
                    assert(submitted[cursor] is Failed);
                    assert(payload == submitted[cursor]->Failed_0);
                    assert(!all_done(submitted));
                    assert forall|j: int| cursor < j < submitted.len() implies submitted[j]
                        is Done by {
                        assert((submitted[j]) is Done);
                    }
                    lemma_last_failure_at(submitted, cursor);
                }
                return Err(payload);
            },
        }
    }
    assert(all_done(submitted));
    match primary {
        Outcome::Failed(payload) => Err(payload),
        Outcome::Done(result) => {
            let mut values: Vec<T> = Vec::new();
            while reversed.len() > 0
                invariant
                    all_done(submitted),
                    values@.len() + reversed@.len() == submitted.len(),
                    forall|j: int|
                        values@.len() <= j < submitted.len() ==> reversed@[submitted.len() - 1 - j]
                            == (#[trigger] submitted[j])->Done_0,
                    forall|i: int|
                        0 <= i < values@.len() ==> #[trigger] values@[i] == submitted[i]->Done_0,
                decreases reversed@.len(),
            {
                let ghost cursor: int = values@.len() as int;
                assert(reversed@.last() == submitted[cursor]->Done_0);
                values.push(reversed.pop().unwrap());
            }
            proof {
                assert(values@ =~= done_values(submitted));
            }
            Ok((values, result))
        },
    }
}

/// Settles a run in which the unit on the calling thread was itself one of
/// the submitted units — the last one — so its value belongs at the end of
/// the result sequence.
///
/// Returns every value in submission order (the calling-thread value last)
/// exactly when every unit completed; otherwise the payload to re-raise,
/// chosen by the same priority rule as [`settle`].
pub fn settle_collect<T, E>(spawned: Vec<Outcome<T, E>>, inline: Outcome<T, E>) -> (r: Result<
    Vec<T>,
    E,
>)
    ensures
        r is Ok <==> (all_done(spawned@) && inline is Done),
        r is Ok ==> r->Ok_0@ == done_values(spawned@).push(inline->Done_0),
        r is Err && !all_done(spawned@) ==> Some(r->Err_0) == last_failure(spawned@),
        r is Err && all_done(spawned@) ==> inline is Failed && r->Err_0 == inline->Failed_0,
{
    match settle(spawned, inline) {
        Ok((mut values, last)) => {
            values.push(last);
            Ok(values)
        },
        Err(payload) => Err(payload),
    }
}

} // verus!
