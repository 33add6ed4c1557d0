//! What comes of tasks that run side by side.

use vstd::prelude::*;

verus! {

/// What came of a task: it was done, it failed, or it could not even run to its end.
pub type TaskResult<E> = core::result::Result<core::result::Result<(), E>, E>;

/// The error of a task, if there is one.
pub open spec fn task_error<E>(r: TaskResult<E>) -> Option<E> {
    match r {
        Ok(Ok(())) => None,
        Ok(Err(e)) => Some(e),
        Err(e) => Some(e),
    }
}

/// The first error of tasks that could not run to their end.
pub open spec fn first_abort<E>(results: Seq<TaskResult<E>>) -> Option<E>
    decreases results.len(),
{
    if results.len() == 0 {
        None
    } else {
        match results[0] {
            Err(e) => Some(e),
            Ok(_) => first_abort(results.skip(1)),
        }
    }
}

/// The first error of tasks, in whatever way they failed.
pub open spec fn first_error<E>(results: Seq<TaskResult<E>>) -> Option<E>
    decreases results.len(),
{
    if results.len() == 0 {
        None
    } else {
        match task_error(results[0]) {
            Some(e) => Some(e),
            None => first_error(results.skip(1)),
        }
    }
}

/// The error of many tasks: that of the first one that could not run to its end, else that of the
/// first one that failed.
pub open spec fn error_of_all<E>(results: Seq<TaskResult<E>>) -> Option<E> {
    match first_abort(results) {
        Some(e) => Some(e),
        None => first_error(results),
    }
}

/// What came of a task, as one result.
pub fn task_result<E>(r: TaskResult<E>) -> (result: core::result::Result<(), E>)
    ensures
        match result {
            Ok(()) => task_error(r) is None,
            Err(e) => task_error(r) == Some(e),
        },
{
    match r {
        Ok(r) => r,
        Err(e) => Err(e),
    }
}

/// What to do once one of some tasks has ended: go on with the others, or cancel them because it
/// failed.
pub fn wait_for_first_completed_task<T, E>(r: TaskResult<E>, other: Vec<T>) -> (result:
    core::result::Result<Vec<T>, (Vec<T>, E)>)
    ensures
        match result {
            Ok(tasks) => task_error(r) is None && tasks == other,
            Err((tasks, e)) => task_error(r) == Some(e) && tasks == other,
        },
{
    match task_result(r) {
        Ok(()) => Ok(other),
        Err(e) => Err((other, e)),
    }
}

/// What came of many tasks.
pub fn wait_for_all_tasks<E>(results: Vec<TaskResult<E>>) -> (r: core::result::Result<(), E>)
    ensures
        match r {
            Ok(()) => error_of_all(results@) is None,
            Err(e) => error_of_all(results@) == Some(e),
        },
{
    let ghost all = results@;
    let mut rest = results;
    let mut first: Option<E> = None;
    let mut i: usize = 0;
    let count = rest.len();
    assert(all.skip(0) =~= all);
    while i < count
        invariant
            i <= count,
            count == all.len(),
            all == results@,
            rest@ == all.skip(i as int),
            first_abort(all) == first_abort(all.skip(i as int)),
            match first {
                Some(e) => first_error(all) == Some(e),
                None => first_error(all) == first_error(all.skip(i as int)),
            } || first_abort(all) is Some,
        decreases count - i,
    {
        let ghost tail = all.skip(i as int);
        assert(tail[0] == all[i as int]);
        assert(tail.skip(1) =~= all.skip(i + 1));
        let r = rest.remove(0);
        assert(rest@ =~= all.skip(i + 1));
        match r {
            Err(e) => {
                return Err(e);
            },
            Ok(Err(e)) => {
                if first.is_none() {
                    first = Some(e);
                }
            },
            Ok(Ok(())) => {},
        }
        i = i + 1;
    }
    match first {
        Some(e) => Err(e),
        None => Ok(()),
    }
}

/// A task has an error exactly if it failed or could not run to its end, and that error is its own.
pub proof fn task_errors_are_their_own<E>(e: E)
    ensures
        task_error::<E>(Ok(Ok(()))) is None,
        task_error(Ok(Err(e))) == Some(e),
        task_error(Err(e)) == Some(e),
{
}

/// The first error is the error of a task before which none has one. If there is none, no task has
/// an error.
pub proof fn the_first_error_is_the_first<E>(results: Seq<TaskResult<E>>)
    ensures
        match first_error(results) {
            Some(e) => exists|i: int|
                0 <= i < results.len() && task_error(#[trigger] results[i]) == Some(e) && forall|
                    j: int,
                |
                    0 <= j < i ==> task_error(#[trigger] results[j]) is None,
            None => forall|j: int|
                0 <= j < results.len() ==> task_error(#[trigger] results[j]) is None,
        },
    decreases results.len(),
{
    if results.len() > 0 && task_error(results[0]) is None {
        let rest = results.skip(1);
        the_first_error_is_the_first(rest);
        match first_error(rest) {
            Some(e) => {
                let i = choose|i: int|
                    0 <= i < rest.len() && task_error(#[trigger] rest[i]) == Some(e) && forall|
                        j: int,
                    |
                        0 <= j < i ==> task_error(#[trigger] rest[j]) is None;
                assert(results[i + 1] == rest[i]);
                assert forall|j: int| 0 <= j < i + 1 implies task_error(
                    #[trigger] results[j],
                ) is None by {
                    if j > 0 {
                        assert(rest[j - 1] == results[j]);
                    }
                }
            },
            None => {
                assert forall|j: int| 0 <= j < results.len() implies task_error(
                    #[trigger] results[j],
                ) is None by {
                    if j > 0 {
                        assert(rest[j - 1] == results[j]);
                    }
                }
            },
        }
    } else if results.len() > 0 {
        assert(task_error(results[0]) is Some);
    }
}

/// Of many tasks, one that could not run to its end comes before all that only failed, and the first
/// such counts. Otherwise the first that failed does.
pub proof fn aborted_tasks_come_first<E>(results: Seq<TaskResult<E>>)
    ensures
        match error_of_all(results) {
            Some(e) => exists|i: int|
                0 <= i < results.len() && task_error(#[trigger] results[i]) == Some(e) && (
                results[i] is Err ==> forall|j: int|
                    0 <= j < i ==> (#[trigger] results[j]) is Ok) && (results[i] is Ok ==> (forall|
                    j: int,
                |
                    0 <= j < results.len() ==> (#[trigger] results[j]) is Ok) && (forall|j: int|
                    0 <= j < i ==> task_error(#[trigger] results[j]) is None)),
            None => forall|j: int|
                0 <= j < results.len() ==> task_error(#[trigger] results[j]) is None,
        },
{
    the_first_abort_is_the_first(results);
    the_first_error_is_the_first(results);
    match first_abort(results) {
        Some(e) => {
            let i = choose|i: int|
                0 <= i < results.len() && #[trigger] results[i] == Err::<
                    core::result::Result<(), E>,
                    E,
                >(e) && forall|j: int| 0 <= j < i ==> (#[trigger] results[j]) is Ok;
            assert(task_error(results[i]) == Some(e));
        },
        None => {},
    }
}

/// The first task that could not run to its end.
proof fn the_first_abort_is_the_first<E>(results: Seq<TaskResult<E>>)
    ensures
        match first_abort(results) {
            Some(e) => exists|i: int|
                0 <= i < results.len() && #[trigger] results[i] == Err::<
                    core::result::Result<(), E>,
                    E,
                >(e) && forall|j: int| 0 <= j < i ==> (#[trigger] results[j]) is Ok,
            None => forall|j: int| 0 <= j < results.len() ==> (#[trigger] results[j]) is Ok,
        },
    decreases results.len(),
{
    if results.len() > 0 && results[0] is Ok {
        let rest = results.skip(1);
        the_first_abort_is_the_first(rest);
        match first_abort(rest) {
            Some(e) => {
                let i = choose|i: int|
                    0 <= i < rest.len() && #[trigger] rest[i] == Err::<
                        core::result::Result<(), E>,
                        E,
                    >(e) && forall|j: int| 0 <= j < i ==> (#[trigger] rest[j]) is Ok;
                assert(results[i + 1] == rest[i]);
                assert forall|j: int| 0 <= j < i + 1 implies (#[trigger] results[j]) is Ok by {
                    if j > 0 {
                        assert(rest[j - 1] == results[j]);
                    }
                }
            },
            None => {
                assert forall|j: int| 0 <= j < results.len() implies (
                #[trigger] results[j]) is Ok by {
                    if j > 0 {
                        assert(rest[j - 1] == results[j]);
                    }
                }
            },
        }
    } else if results.len() > 0 {
        assert(results[0] is Err);
    }
}

} // verus!
