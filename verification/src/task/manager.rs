use vstd::prelude::*;
use std::collections::VecDeque;

verus! {

/// The stride scale: a task of priority `p` advances by `BIG_STRIDE / p`
/// each time it is scheduled.
pub const BIG_STRIDE: usize = 1_000_000;

/// A task waiting in the ready queue: its process id, its current stride, its
/// priority, and the task itself.
#[derive(Debug, PartialEq, Eq)]
pub struct ReadyTask<T> {
    pub pid: usize,
    pub stride: usize,
    pub priority: usize,
    pub task: T,
}

/// The stride step of `t`.
pub open spec fn pass<T>(t: ReadyTask<T>) -> int {
    BIG_STRIDE as int / t.priority as int
}

/// `t` can be scheduled: its priority is positive and one more step of its
/// stride fits in a `usize`.
pub open spec fn schedulable<T>(t: ReadyTask<T>) -> bool {
    t.priority > 0 && t.stride + pass(t) <= usize::MAX
}

/// `t` after being scheduled once: its stride advanced by one step.
pub open spec fn advanced<T>(t: ReadyTask<T>) -> ReadyTask<T> {
    ReadyTask { pid: t.pid, stride: (t.stride + pass(t)) as usize, priority: t.priority, task: t.task }
}

/// `i` is the first position of the smallest stride in `s`.
pub open spec fn is_first_min<T>(s: Seq<ReadyTask<T>>, i: int) -> bool {
    &&& 0 <= i < s.len()
    &&& forall|j: int| 0 <= j < s.len() ==> s[i].stride <= #[trigger] s[j].stride
    &&& forall|j: int| 0 <= j < i ==> s[i].stride < #[trigger] s[j].stride
}

/// The task that stride scheduling would pick from `s` can be scheduled.
pub open spec fn pick_schedulable<T>(s: Seq<ReadyTask<T>>) -> bool {
    forall|i: int| #[trigger] is_first_min(s, i) ==> schedulable(s[i])
}

/// `s` without the tasks of process `pid`, order kept.
pub open spec fn without_pid<T>(s: Seq<ReadyTask<T>>, pid: usize) -> Seq<ReadyTask<T>> {
    s.filter(|t: ReadyTask<T>| t.pid != pid)
}

/// The ready queue of a FIFO scheduler that also offers stride scheduling.
pub struct TaskManager<T> {
    ready_queue: VecDeque<ReadyTask<T>>,
}

impl<T> View for TaskManager<T> {
    type V = Seq<ReadyTask<T>>;

    closed spec fn view(&self) -> Seq<ReadyTask<T>> {
        self.ready_queue@
    }
}

proof fn lemma_without_pid_step<T>(s: Seq<ReadyTask<T>>, pid: usize, i: int)
    requires
        0 <= i < s.len(),
    ensures
        without_pid(s.take(i + 1), pid) == if s[i].pid != pid {
            without_pid(s.take(i), pid).push(s[i])
        } else {
            without_pid(s.take(i), pid)
        },
{
    reveal(Seq::filter);
    assert(s.take(i + 1).drop_last() =~= s.take(i));
    assert(s.take(i + 1).last() == s[i]);
}

/// Every task kept by `without_pid` is a task of `s`.
pub proof fn lemma_without_pid_from<T>(s: Seq<ReadyTask<T>>, pid: usize)
    ensures
        forall|k: int|
            0 <= k < without_pid(s, pid).len() ==> exists|j: int|
                0 <= j < s.len() && #[trigger] without_pid(s, pid)[k] == s[j] && s[j].pid != pid,
    decreases s.len(),
{
    reveal(Seq::filter);
    if s.len() > 0 {
        let d = s.drop_last();
        lemma_without_pid_from(d, pid);
        let f = without_pid(s, pid);
        let fd = without_pid(d, pid);
        assert forall|k: int| 0 <= k < f.len() implies exists|j: int|
            0 <= j < s.len() && #[trigger] f[k] == s[j] && s[j].pid != pid by {
            if k < fd.len() {
                let j = choose|j: int| 0 <= j < d.len() && fd[k] == d[j] && d[j].pid != pid;
                assert(f[k] == s[j]);
            } else {
                assert(f[k] == s[s.len() - 1]);
            }
        }
    }
}

/// The position picked by stride scheduling is determined: two first
/// positions of the smallest stride coincide.
pub proof fn lemma_first_min_unique<T>(s: Seq<ReadyTask<T>>, i: int, j: int)
    requires
        is_first_min(s, i),
        is_first_min(s, j),
    ensures
        i == j,
{
    if i < j {
        assert(s[j].stride < s[i].stride);
    } else if j < i {
        assert(s[i].stride < s[j].stride);
    }
}

/// The ready queue is first in, first out: adding a task and then fetching
/// gives the task at the front of the queue (the added one when the queue was
/// empty), and fetching before or after the addition leaves the same queue.
pub proof fn lemma_fifo<T>(s: Seq<ReadyTask<T>>, t: ReadyTask<T>)
    ensures
        s.len() == 0 ==> s.push(t)[0] == t && s.push(t).drop_first() == s,
        s.len() > 0 ==> s.push(t)[0] == s[0] && s.push(t).drop_first() == s.drop_first().push(t),
{
    if s.len() == 0 {
        assert(s.push(t).drop_first() =~= s);
    } else {
        assert(s.push(t).drop_first() =~= s.drop_first().push(t));
    }
}

/// No two strides of `s` are further apart than `bound`.
pub open spec fn strides_within<T>(s: Seq<ReadyTask<T>>, bound: int) -> bool {
    forall|i: int, j: int|
        0 <= i < s.len() && 0 <= j < s.len() ==> #[trigger] s[i].stride <= #[trigger] s[j].stride
            + bound
}

/// With every priority at least two, one step of stride scheduling followed
/// by putting the scheduled task back keeps all strides within
/// `BIG_STRIDE / 2` of each other, when they were so before.
pub proof fn lemma_stride_spread<T>(s: Seq<ReadyTask<T>>, i: int)
    requires
        is_first_min(s, i),
        forall|j: int| 0 <= j < s.len() ==> #[trigger] s[j].priority >= 2,
        schedulable(s[i]),
        strides_within(s, BIG_STRIDE as int / 2),
    ensures
        strides_within(without_pid(s, s[i].pid).push(advanced(s[i])), BIG_STRIDE as int / 2),
{
    let half = BIG_STRIDE as int / 2;
    let f = without_pid(s, s[i].pid);
    let r = f.push(advanced(s[i]));
    let p = s[i].priority as int;
    assert(pass(s[i]) <= half) by (nonlinear_arith)
        requires
            p >= 2,
            pass(s[i]) == BIG_STRIDE as int / p,
            half == BIG_STRIDE as int / 2,
    ;
    lemma_without_pid_from(s, s[i].pid);
    assert forall|a: int, b: int| 0 <= a < r.len() && 0 <= b < r.len() implies #[trigger] r[a].stride
        <= #[trigger] r[b].stride + half by {
        let last = r.len() - 1;
        if a < last {
            let ja = choose|j: int| 0 <= j < s.len() && f[a] == s[j] && s[j].pid != s[i].pid;
            assert(r[a] == s[ja]);
            if b < last {
                let jb = choose|j: int| 0 <= j < s.len() && f[b] == s[j] && s[j].pid != s[i].pid;
                assert(r[b] == s[jb]);
                assert(s[ja].stride <= s[jb].stride + half);
            } else {
                assert(s[ja].stride <= s[i].stride + half);
            }
        } else {
            if b < last {
                let jb = choose|j: int| 0 <= j < s.len() && f[b] == s[j] && s[j].pid != s[i].pid;
                assert(r[b] == s[jb]);
                assert(s[i].stride <= s[jb].stride);
            }
        }
    }
}

/// The step of a task is `BIG_STRIDE` divided by its priority: the largest
/// number that, times the priority, stays within `BIG_STRIDE`.
pub proof fn lemma_pass<T>(t: ReadyTask<T>)
    requires
        t.priority > 0,
    ensures
        pass(t) >= 0,
        pass(t) * t.priority <= BIG_STRIDE,
        BIG_STRIDE < (pass(t) + 1) * t.priority,
{
    let p = t.priority as int;
    let q = pass(t);
    assert(q == BIG_STRIDE as int / p);
    assert(q >= 0 && q * p <= BIG_STRIDE && BIG_STRIDE < (q + 1) * p) by (nonlinear_arith)
        requires
            p > 0,
            q == BIG_STRIDE as int / p,
    ;
}

/// Scheduling a task once keeps its process, priority and payload and grows
/// its stride by exactly its step, `BIG_STRIDE / priority`.
pub proof fn lemma_advanced<T>(t: ReadyTask<T>)
    requires
        schedulable(t),
    ensures
        advanced(t).pid == t.pid,
        advanced(t).priority == t.priority,
        advanced(t).task == t.task,
        advanced(t).stride >= t.stride,
        (advanced(t).stride - t.stride) * t.priority <= BIG_STRIDE,
        BIG_STRIDE < (advanced(t).stride - t.stride + 1) * t.priority,
{
    lemma_pass(t);
}

/// The picked position holds a smallest stride of the queue, and every task
/// ahead of it has a strictly larger stride: ties go to the first.
pub proof fn lemma_first_min<T>(s: Seq<ReadyTask<T>>, i: int)
    requires
        is_first_min(s, i),
    ensures
        0 <= i < s.len(),
        forall|j: int| 0 <= j < s.len() ==> s[i].stride <= #[trigger] s[j].stride,
        forall|j: int| 0 <= j < i ==> s[i].stride < #[trigger] s[j].stride,
{
}

/// Dropping a process keeps exactly the other processes' tasks: every kept
/// task comes from the queue and belongs to another process, every task of
/// another process is kept, and a queue without the process stays as it is.
pub proof fn lemma_without_pid<T>(s: Seq<ReadyTask<T>>, pid: usize)
    ensures
        forall|k: int|
            0 <= k < without_pid(s, pid).len() ==> exists|j: int|
                0 <= j < s.len() && #[trigger] without_pid(s, pid)[k] == s[j] && s[j].pid != pid,
        forall|j: int|
            0 <= j < s.len() && s[j].pid != pid ==> #[trigger] without_pid(s, pid).contains(s[j]),
        without_pid(s, pid).len() <= s.len(),
        (forall|j: int| 0 <= j < s.len() ==> #[trigger] s[j].pid != pid) ==> without_pid(s, pid)
            == s,
    decreases s.len(),
{
    lemma_without_pid_from(s, pid);
    reveal(Seq::filter);
    if s.len() > 0 {
        let d = s.drop_last();
        lemma_without_pid(d, pid);
        let f = without_pid(s, pid);
        let fd = without_pid(d, pid);
        assert forall|j: int| 0 <= j < s.len() && s[j].pid != pid implies #[trigger] f.contains(
            s[j],
        ) by {
            if j < s.len() - 1 {
                assert(d[j] == s[j]);
                assert(fd.contains(d[j]));
                let k = choose|k: int| 0 <= k < fd.len() && fd[k] == d[j];
                assert(f[k] == s[j]);
            } else {
                assert(f[f.len() - 1] == s[j]);
            }
        }
        if forall|j: int| 0 <= j < s.len() ==> #[trigger] s[j].pid != pid {
            assert forall|j: int| 0 <= j < d.len() implies #[trigger] d[j].pid != pid by {
                assert(d[j] == s[j]);
            }
            assert(s.last().pid != pid);
            assert(s == d.push(s.last()));
        }
    } else {
        assert(without_pid(s, pid) =~= s);
    }
}

impl<T> TaskManager<T> {
    /// An empty ready queue.
    pub fn new() -> (res: Self)
        ensures
            res@ == Seq::<ReadyTask<T>>::empty(),
    {
        TaskManager { ready_queue: VecDeque::new() }
    }

    /// Puts `task` at the back of the ready queue.
    pub fn add(&mut self, task: ReadyTask<T>)
        ensures
            final(self)@ == old(self)@.push(task),
    {
        self.ready_queue.push_back(task);
    }

    /// Takes the task at the front of the ready queue, if any.
    pub fn fetch(&mut self) -> (res: Option<ReadyTask<T>>)
        ensures
            match res {
                Some(t) => old(self)@.len() > 0 && t == old(self)@[0] && final(self)@ == old(
                    self,
                )@.drop_first(),
                None => old(self)@.len() == 0 && final(self)@ == old(self)@,
            },
    {
        self.ready_queue.pop_front()
    }

    /// The first position of the smallest stride; nothing when the queue
    /// is empty.
    fn first_min_index(&self) -> (res: Option<usize>)
        ensures
            res is None <==> self@.len() == 0,
            res matches Some(k) ==> is_first_min(self@, k as int),
    {
        let ghost s = self@;
        let n = self.ready_queue.len();
        if n == 0 {
            return None;
        }
        let mut min_stride: usize = self.ready_queue[0].stride;
        let mut ret: Option<usize> = Some(0);
        let mut i: usize = 1;
        while i < n
            invariant
                s == self@,
                n == s.len(),
                1 <= i <= n,
                ret is Some,
                ret matches Some(k) ==> {
                    &&& k < i
                    &&& s[k as int].stride == min_stride
                    &&& forall|j: int| 0 <= j < i ==> min_stride <= #[trigger] s[j].stride
                    &&& forall|j: int| 0 <= j < k ==> min_stride < #[trigger] s[j].stride
                },
            decreases n - i,
        {
            let st = self.ready_queue[i].stride;
            if st < min_stride {
                ret = Some(i);
                min_stride = st;
            }
            i = i + 1;
        }
        ret
    }

    /// Whether stride scheduling can advance the task it would pick: its
    /// priority is positive and the advanced stride fits in a `usize`.
    /// Trivially so when the queue is empty.
    pub fn next_is_schedulable(&self) -> (res: bool)
        ensures
            res == pick_schedulable(self@),
    {
        match self.first_min_index() {
            None => true,
            Some(k) => {
                let t = &self.ready_queue[k];
                proof {
                    assert forall|i: int| #[trigger] is_first_min(self@, i) implies i == k by {
                        lemma_first_min_unique(self@, i, k as int);
                    }
                }
                t.priority > 0 && t.stride <= usize::MAX - BIG_STRIDE / t.priority
            },
        }
    }

    /// Takes the task at position `k` out of the queue, together with every
    /// other task of its process; the rest keep their order.
    fn take_process(&mut self, k: usize) -> (res: ReadyTask<T>)
        requires
            k < old(self)@.len(),
        ensures
            res == old(self)@[k as int],
            final(self)@ == without_pid(old(self)@, old(self)@[k as int].pid),
    {
        let ghost s = self@;
        let n = self.ready_queue.len();
        let pid = self.ready_queue[k].pid;
        let mut kept: VecDeque<ReadyTask<T>> = VecDeque::new();
        let mut chosen: Option<ReadyTask<T>> = None;
        let mut i: usize = 0;
        while i < n
            invariant
                n == s.len(),
                k < n,
                pid == s[k as int].pid,
                i <= n,
                self@ == s.subrange(i as int, n as int),
                kept@ == without_pid(s.take(i as int), pid),
                chosen == if i > k {
                    Some(s[k as int])
                } else {
                    None
                },
            decreases n - i,
        {
            let t = self.ready_queue.pop_front().unwrap();
            assert(t == s[i as int]);
            proof {
                lemma_without_pid_step(s, pid, i as int);
            }
            if i == k {
                chosen = Some(t);
            } else if t.pid != pid {
                kept.push_back(t);
            }
            i = i + 1;
        }
        assert(s.take(n as int) =~= s);
        self.ready_queue = kept;
        chosen.unwrap()
    }

    /// Stride scheduling: takes the first task with the smallest stride,
    /// advances its stride by `BIG_STRIDE / priority`, drops every task of its
    /// process from the queue and returns it. On an empty queue nothing
    /// changes and `None` comes back.
    pub fn stride_schedule(&mut self) -> (res: Option<ReadyTask<T>>)
        requires
            pick_schedulable(old(self)@),
        ensures
            res is None <==> old(self)@.len() == 0,
            res is None ==> final(self)@ == old(self)@,
            res matches Some(t) ==> exists|i: int|
                #![trigger old(self)@[i]]
                is_first_min(old(self)@, i) && t == advanced(old(self)@[i]) && final(self)@
                    == without_pid(old(self)@, old(self)@[i].pid),
    {
        match self.first_min_index() {
            None => None,
            Some(k) => {
                let ghost s = self@;
                assert(schedulable(s[k as int]));
                let mut next = self.take_process(k);
                next.stride = next.stride + BIG_STRIDE / next.priority;
                assert(next == advanced(s[k as int]));
                Some(next)
            },
        }
    }
}

} // verus!
