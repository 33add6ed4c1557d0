//! Running everything until it is over.

use crate::util::cancel::{first_error, task_error, task_result, TaskResult};
use vstd::prelude::*;

verus! {

/// What to do about a task that has ended.
#[derive(Debug)]
pub enum Verdict<E> {
    /// Nothing.
    GoOn,
    /// Cancel all tasks: this was the first error.
    Cancel,
    /// Note an error that comes after the first.
    Suppressed(E),
}

/// What has come of the tasks so far.
#[derive(Debug)]
pub struct Tasks<E> {
    /// The first error, if there was one.
    pub first: Option<E>,
}

/// What should be known after some tasks have ended, in this order.
pub open spec fn known_after<E>(ended: Seq<TaskResult<E>>) -> Tasks<E> {
    Tasks { first: first_error(ended) }
}

impl<E> Tasks<E> {
    /// No task has ended.
    pub fn new() -> (r: Tasks<E>)
        ensures
            r == known_after::<E>(seq![]),
    {
        Tasks { first: None }
    }

    /// Takes note of a task that has ended. Only the first error counts.
    pub fn ended(&mut self, x: TaskResult<E>) -> (r: Verdict<E>)
        ensures
            final(self).first == match old(self).first {
                Some(e) => Some(e),
                None => task_error(x),
            },
            match r {
                Verdict::GoOn => task_error(x) is None,
                Verdict::Cancel => task_error(x) is Some && old(self).first is None,
                Verdict::Suppressed(e) => task_error(x) == Some(e) && old(self).first is Some,
            },
    {
        match task_result(x) {
            Ok(()) => Verdict::GoOn,
            Err(e) => {
                if self.first.is_some() {
                    Verdict::Suppressed(e)
                } else {
                    self.first = Some(e);
                    Verdict::Cancel
                }
            },
        }
    }

    /// What came of all tasks.
    pub fn result(self) -> (r: core::result::Result<(), E>)
        ensures
            match r {
                Ok(()) => self.first is None,
                Err(e) => self.first == Some(e),
            },
    {
        match self.first {
            Some(e) => Err(e),
            None => Ok(()),
        }
    }
}

/// What came of tasks that have ended in this order: the first error, if there is one.
pub fn wait_for_tasks<E>(ended: Vec<TaskResult<E>>) -> (r: core::result::Result<(), E>)
    ensures
        match r {
            Ok(()) => first_error(ended@) is None,
            Err(e) => first_error(ended@) == Some(e),
        },
{
    let ghost all = ended@;
    let mut rest = ended;
    let mut tasks: Tasks<E> = Tasks::new();
    let mut i: usize = 0;
    let count = rest.len();
    assert(all.take(0) =~= Seq::empty());
    while i < count
        invariant
            i <= count,
            count == all.len(),
            rest@ == all.skip(i as int),
            tasks == known_after(all.take(i as int)),
        decreases count - i,
    {
        assert(rest@[0] == all[i as int]);
        let x = rest.remove(0);
        proof {
            assert(rest@ =~= all.skip(i + 1));
            assert(all.take(i + 1) =~= all.take(i as int).push(x));
            first_error_counts(all.take(i as int), x);
        }
        tasks.ended(x);
        i = i + 1;
    }
    assert(all.take(i as int) =~= all);
    tasks.result()
}

/// The first error stays what comes of the tasks, however many end after it, and in whatever way.
pub proof fn first_error_counts<E>(ended: Seq<TaskResult<E>>, x: TaskResult<E>)
    ensures
        first_error(ended.push(x)) == match first_error(ended) {
            Some(e) => Some(e),
            None => task_error(x),
        },
    decreases ended.len(),
{
    let all = ended.push(x);
    if ended.len() == 0 {
        assert(all.skip(1) =~= Seq::empty());
        assert(first_error(all.skip(1)) is None);
    } else {
        assert(all.skip(1) =~= ended.skip(1).push(x));
        first_error_counts(ended.skip(1), x);
    }
}

/// What is known is whether a task has failed, and if so, the error of the first that did.
pub proof fn what_is_known_is_the_first_error<E>(
    ended: Seq<TaskResult<E>>,
    x: TaskResult<E>,
    e: E,
)
    ensures
        known_after::<E>(Seq::empty()).first is None,
        known_after(ended).first is Some ==> known_after(ended.push(x)) == known_after(ended),
        known_after(ended).first is None ==> known_after(ended.push(Ok(Err(e)))).first == Some(e),
        known_after(ended).first is None ==> known_after(ended.push(Err(e))).first == Some(e),
        known_after(ended).first is None ==> known_after(ended.push(Ok(Ok(())))).first is None,
{
    first_error_counts(ended, x);
    first_error_counts(ended, Ok(Err(e)));
    first_error_counts(ended, Err(e));
    first_error_counts(ended, Ok(Ok(())));
}

} // verus!
