//! What to make of the tasks that the proxy runs, once they have ended.

use vstd::prelude::*;

verus! {

/// The result of a task that was joined: `joined` holds what the task
/// returned, or the error of the join where the task did not end by
/// itself. Either error is the error of the whole.
pub fn flatten_handle<T, E>(joined: Result<Result<T, E>, E>) -> (r: Result<T, E>)
    ensures
        r == (match joined {
            Ok(Ok(t)) => Ok(t),
            Ok(Err(e)) => Err(e),
            Err(e) => Err(e),
        }),
{
    match joined {
        Ok(Ok(result)) => Ok(result),
        Ok(Err(err)) => Err(err),
        Err(err) => Err(err),
    }
}

/// The error of a task that was joined, if it led to one.
pub open spec fn failure<T, E>(joined: Result<Result<T, E>, E>) -> Option<E> {
    match joined {
        Ok(Ok(_)) => None,
        Ok(Err(e)) => Some(e),
        Err(e) => Some(e),
    }
}

/// The result of many tasks that were joined, given in the order in which
/// they ended: the error of the first that failed, or nothing where all
/// went well.
pub fn flatten_handles<T, E>(handles: Vec<Result<Result<T, E>, E>>) -> (r: Result<(), E>)
    ensures
        r is Ok <==> forall|i: int| 0 <= i < handles.len() ==> failure(#[trigger] handles[i]) is None,
        r matches Err(e) ==> exists|i: int|
            0 <= i < handles.len() && failure(#[trigger] handles[i]) == Some(e) && forall|j: int|
                0 <= j < i ==> failure(#[trigger] handles[j]) is None,
{
    let mut handles = handles;
    let ghost all = handles@;
    let mut first: Option<E> = None;
    // from the back, so that the earliest failure is the one that stays
    while handles.len() > 0
        invariant
            handles@ =~= all.take(handles.len() as int),
            handles.len() <= all.len(),
            first is None ==> forall|i: int|
                handles.len() <= i < all.len() ==> failure(#[trigger] all[i]) is None,
            first matches Some(e) ==> exists|i: int|
                handles.len() <= i < all.len() && failure(#[trigger] all[i]) == Some(e)
                    && forall|j: int| handles.len() <= j < i ==> failure(#[trigger] all[j]) is None,
        decreases handles.len(),
    {
        let ghost n = handles.len();
        let last = handles.pop();
        match last {
            Some(Ok(Ok(_))) => {
                proof {
                    assert(failure(all[n - 1]) is None);
                    if first is Some {
                        let e = first.unwrap();
                        let i = choose|i: int|
                            n <= i < all.len() && failure(#[trigger] all[i]) == Some(e)
                                && forall|j: int| n <= j < i ==> failure(#[trigger] all[j]) is None;
                        assert(forall|j: int| n - 1 <= j < i ==> failure(#[trigger] all[j]) is None);
                    }
                }
            },
            Some(Ok(Err(e))) => {
                first = Some(e);
                assert(failure(all[n - 1]) == Some(e));
            },
            Some(Err(e)) => {
                first = Some(e);
                assert(failure(all[n - 1]) == Some(e));
            },
            None => {},
        }
    }
    match first {
        Some(e) => {
            proof {
                let i = choose|i: int|
                    0 <= i < all.len() && failure(#[trigger] all[i]) == Some(e) && forall|j: int|
                        0 <= j < i ==> failure(#[trigger] all[j]) is None;
                assert(failure(all[i]) is Some);
            }
            Err(e)
        },
        None => Ok(()),
    }
}

} // verus!
