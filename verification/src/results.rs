//! Results in a row: all of the values, or the first error.

use vstd::prelude::*;

verus! {

/// All values, or the first error and its position.
pub fn all_or_first<A, E>(results: Vec<Result<A, E>>) -> (r: Result<Vec<A>, (usize, E)>)
    ensures
        match r {
            Ok(values) => {
                &&& values@.len() == results@.len()
                &&& forall|i: int|
                    0 <= i < results@.len() ==> #[trigger] results@[i] == Ok::<A, E>(values@[i])
            },
            Err((at, error)) => {
                &&& at < results@.len()
                &&& results@[at as int] == Err::<A, E>(error)
                &&& forall|i: int| 0 <= i < at ==> (#[trigger] results@[i]) is Ok
            },
        },
{
    let ghost all = results@;
    let mut values: Vec<A> = Vec::new();
    for result in row: results.into_iter()
        invariant
            row.seq() == all,
            values@.len() == row.index(),
            forall|i: int| 0 <= i < values@.len() ==> #[trigger] all[i] == Ok::<A, E>(values@[i]),
            all == results@,
    {
        match result {
            Ok(value) => values.push(value),
            Err(error) => {
                return Err((values.len(), error));
            },
        }
    }
    Ok(values)
}

} // verus!
