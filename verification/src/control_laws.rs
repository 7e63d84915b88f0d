//! What comes of starting all tasks again.

use vstd::prelude::*;

use crate::control::restarts;
use crate::daemon::DaemonTask;
use crate::daemon::{distinct, stays_beside};

verus! {

/// The list after the task `t` was started again as `new`: the tasks of its
/// process leave, and the new one joins.
pub open spec fn after_restart(list: Seq<DaemonTask>, t: DaemonTask, new: DaemonTask) -> Seq<
    DaemonTask,
> {
    list.filter(|x: DaemonTask| x.pid != t.pid).filter(
        |x: DaemonTask| stays_beside(x, new),
    ).push(new)
}

/// The list after the first `k` of the tasks were gone through, when `times[i]`
/// is the time at which task `i` is looked at, and `new[i]` is what it is
/// started as if it is started again.
pub open spec fn after_resume(
    tasks: Seq<DaemonTask>,
    times: Seq<int>,
    new: Seq<DaemonTask>,
    k: int,
) -> Seq<DaemonTask>
    decreases k,
{
    if k <= 0 {
        tasks
    } else {
        let before = after_resume(tasks, times, new, k - 1);
        if restarts(tasks[k - 1], times[k - 1]) {
            after_restart(before, tasks[k - 1], new[k - 1])
        } else {
            before
        }
    }
}

/// Those of the first `k` tasks that are not started again.
pub open spec fn left_alone(tasks: Seq<DaemonTask>, times: Seq<int>, k: int) -> Seq<DaemonTask>
    decreases k,
{
    if k <= 0 {
        seq![]
    } else if restarts(tasks[k - 1], times[k - 1]) {
        left_alone(tasks, times, k - 1)
    } else {
        left_alone(tasks, times, k - 1).push(tasks[k - 1])
    }
}

/// What those of the first `k` tasks are started as that are started again.
pub open spec fn begun_again(
    tasks: Seq<DaemonTask>,
    times: Seq<int>,
    new: Seq<DaemonTask>,
    k: int,
) -> Seq<DaemonTask>
    decreases k,
{
    if k <= 0 {
        seq![]
    } else if restarts(tasks[k - 1], times[k - 1]) {
        begun_again(tasks, times, new, k - 1).push(new[k - 1])
    } else {
        begun_again(tasks, times, new, k - 1)
    }
}

/// Whether what is started is new: it shares neither its process nor its
/// identifier with a task that is in the list when it joins it.
pub open spec fn are_new(tasks: Seq<DaemonTask>, times: Seq<int>, new: Seq<DaemonTask>) -> bool {
    &&& forall|i: int, j: int|
        0 <= i < tasks.len() && 0 <= j < tasks.len() && restarts(tasks[i], times[i]) && (j > i
            || !restarts(tasks[j], times[j])) ==> stays_beside(
            #[trigger] tasks[j],
            #[trigger] new[i],
        )
    &&& forall|i: int, j: int|
        0 <= i < j < tasks.len() && restarts(tasks[i], times[i]) && restarts(tasks[j], times[j])
            ==> stays_beside(#[trigger] new[i], #[trigger] new[j])
}

/// A filter takes a list part by part.
proof fn lemma_filter_parts<A>(a: Seq<A>, b: Seq<A>, keep: spec_fn(A) -> bool)
    ensures
        (a + b).filter(keep) == a.filter(keep) + b.filter(keep),
    decreases b.len(),
{
    reveal(Seq::filter);
    if b.len() == 0 {
        assert(a + b =~= a);
        assert(a.filter(keep) + b.filter(keep) =~= a.filter(keep));
    } else {
        assert((a + b).drop_last() =~= a + b.drop_last());
        lemma_filter_parts(a, b.drop_last(), keep);
        assert((a + b).filter(keep) =~= a.filter(keep) + b.filter(keep));
    }
}

/// A filter that everything passes keeps everything.
proof fn lemma_filter_all<A>(s: Seq<A>, keep: spec_fn(A) -> bool)
    requires
        forall|i: int| 0 <= i < s.len() ==> keep(#[trigger] s[i]),
    ensures
        s.filter(keep) == s,
    decreases s.len(),
{
    reveal(Seq::filter);
    if s.len() > 0 {
        let front = s.drop_last();
        assert(forall|i: int| 0 <= i < front.len() ==> front[i] == #[trigger] s[i]);
        assert(keep(s[s.len() - 1]));
        lemma_filter_all(front, keep);
        assert(front.push(s.last()) =~= s);
    }
}

/// What is left alone is one of the tasks, and not one that is started again.
proof fn lemma_left_alone(tasks: Seq<DaemonTask>, times: Seq<int>, k: int, i: int)
    requires
        0 <= k <= tasks.len(),
        0 <= i < left_alone(tasks, times, k).len(),
    ensures
        exists|j: int|
            0 <= j < k && !restarts(tasks[j], times[j]) && left_alone(tasks, times, k)[i]
                == #[trigger] tasks[j],
    decreases k,
{
    if k > 0 {
        let before = left_alone(tasks, times, k - 1);
        if i < before.len() {
            lemma_left_alone(tasks, times, k - 1, i);
        } else {
            assert(left_alone(tasks, times, k)[i] == tasks[k - 1]);
        }
    }
}

/// What was started again was started for one of the tasks.
proof fn lemma_begun_again(
    tasks: Seq<DaemonTask>,
    times: Seq<int>,
    new: Seq<DaemonTask>,
    k: int,
    i: int,
)
    requires
        0 <= k <= tasks.len(),
        0 <= i < begun_again(tasks, times, new, k).len(),
    ensures
        exists|j: int|
            0 <= j < k && restarts(tasks[j], times[j]) && begun_again(tasks, times, new, k)[i]
                == #[trigger] new[j],
    decreases k,
{
    if k > 0 {
        let before = begun_again(tasks, times, new, k - 1);
        if i < before.len() {
            lemma_begun_again(tasks, times, new, k - 1, i);
        } else {
            assert(begun_again(tasks, times, new, k)[i] == new[k - 1]);
        }
    }
}

/// How far the list has come when the first `k` tasks were gone through.
proof fn lemma_resumed_so_far(
    tasks: Seq<DaemonTask>,
    times: Seq<int>,
    new: Seq<DaemonTask>,
    k: int,
)
    requires
        0 <= k <= tasks.len(),
        distinct(tasks),
        are_new(tasks, times, new),
    ensures
        after_resume(tasks, times, new, k) == left_alone(tasks, times, k) + tasks.skip(k)
            + begun_again(tasks, times, new, k),
    decreases k,
{
    if k == 0 {
        assert(tasks.skip(0) =~= tasks);
        assert(left_alone(tasks, times, 0) + tasks.skip(0) + begun_again(tasks, times, new, 0)
            =~= tasks);
    } else {
        lemma_resumed_so_far(tasks, times, new, k - 1);
        let t = tasks[k - 1];
        let left = left_alone(tasks, times, k - 1);
        let rest = tasks.skip(k);
        let begun = begun_again(tasks, times, new, k - 1);
        let list = after_resume(tasks, times, new, k - 1);
        assert(tasks.skip(k - 1) =~= seq![t] + rest);
        assert(list =~= left + seq![t] + rest + begun);
        if restarts(t, times[k - 1]) {
            let n = new[k - 1];
            let other = |x: DaemonTask| x.pid != t.pid;
            let beside = |x: DaemonTask| stays_beside(x, n);
            assert forall|i: int| 0 <= i < left.len() implies other(#[trigger] left[i]) && beside(
                left[i],
            ) by {
                lemma_left_alone(tasks, times, k - 1, i);
                let j = choose|j: int|
                    0 <= j < k - 1 && !restarts(tasks[j], times[j]) && left[i]
                        == #[trigger] tasks[j];
                assert(stays_beside(tasks[j], tasks[k - 1]));
                assert(stays_beside(tasks[j], new[k - 1]));
            }
            assert forall|i: int| 0 <= i < rest.len() implies other(#[trigger] rest[i]) && beside(
                rest[i],
            ) by {
                assert(rest[i] == tasks[k + i]);
                assert(stays_beside(tasks[k - 1], tasks[k + i]));
                assert(stays_beside(tasks[k + i], new[k - 1]));
            }
            assert forall|i: int| 0 <= i < begun.len() implies other(#[trigger] begun[i])
                && beside(begun[i]) by {
                lemma_begun_again(tasks, times, new, k - 1, i);
                let j = choose|j: int|
                    0 <= j < k - 1 && restarts(tasks[j], times[j]) && begun[i] == #[trigger] new[j];
                assert(stays_beside(tasks[k - 1], new[j]));
                assert(stays_beside(new[j], new[k - 1]));
            }
            lemma_filter_parts(left + seq![t] + rest, begun, other);
            lemma_filter_parts(left + seq![t], rest, other);
            lemma_filter_parts(left, seq![t], other);
            lemma_filter_all(left, other);
            lemma_filter_all(rest, other);
            lemma_filter_all(begun, other);
            assert(seq![t].filter(other) =~= seq![]) by {
                reveal(Seq::filter);
                assert(seq![t].drop_last() =~= seq![]);
                assert(Seq::<DaemonTask>::empty().filter(other) =~= seq![]);
            }
            let kept = left + rest + begun;
            assert(list.filter(other) =~= kept);
            lemma_filter_parts(left + rest, begun, beside);
            lemma_filter_parts(left, rest, beside);
            lemma_filter_all(left, beside);
            lemma_filter_all(rest, beside);
            lemma_filter_all(begun, beside);
            assert(kept.filter(beside) =~= kept);
            assert(after_restart(list, t, n) =~= left + rest + begun.push(n));
        } else {
            assert(left + seq![t] + rest + begun =~= left.push(t) + rest + begun);
        }
    }
}

/// When all tasks are started again, those that are disabled or rest stay, in
/// their order, and what the others are started as follows them, in theirs. No
/// two tasks share a process or an identifier, and what is started is new.
pub proof fn resuming_keeps_the_others(
    tasks: Seq<DaemonTask>,
    times: Seq<int>,
    new: Seq<DaemonTask>,
)
    requires
        distinct(tasks),
        are_new(tasks, times, new),
    ensures
        after_resume(tasks, times, new, tasks.len() as int) == left_alone(
            tasks,
            times,
            tasks.len() as int,
        ) + begun_again(tasks, times, new, tasks.len() as int),
{
    let n = tasks.len() as int;
    lemma_resumed_so_far(tasks, times, new, n);
    assert(left_alone(tasks, times, n) + tasks.skip(n) =~= left_alone(tasks, times, n));
}

} // verus!
