use vstd::prelude::*;

use crate::sync::UPSafeCell;
use crate::task_context::{all_zero, TaskContext, SAVED_REGS};
use crate::task_status::TaskStatus;

verus! {

/// Capacity of the task table: the most applications tracked at once.
pub const MAX_APP_NUM: usize = 16;

/// One application slot: its lifecycle state and its saved kernel context.
#[derive(Clone, Copy, Debug)]
pub struct Task {
    status: TaskStatus,
    cx: TaskContext,
}

/// The task table and the index of the task that owns the hart.
pub struct RawTaskManager {
    tasks: Vec<Task>,
    current_task: usize,
}

/// Owner of every task and of the round-robin policy.
///
/// One instance is built at start-up and handed by reference to every
/// scheduling entry point; it is never built a second time.
pub struct TaskManager {
    num_app: usize,
    inner: UPSafeCell<RawTaskManager>,
}

/// What a scheduling step decided.
#[derive(Clone, Copy, Debug, PartialEq, Eq, Structural)]
pub enum RunNext {
    /// The hart now runs task `to`; the context that was live was saved
    /// into the slot of task `from`.
    Switched { from: usize, to: usize },
    /// No task is Ready: every application has finished.
    AllExited,
}

/// Index `k` steps after `cur`, wrapping around `n` slots.
pub open spec fn wrap(cur: int, k: int, n: int) -> int {
    (cur + k) % n
}

/// First Ready slot at offsets `k, k + 1, ..., n` after `cur`.
pub open spec fn scan_from(st: Seq<TaskStatus>, cur: int, k: int) -> Option<int>
    decreases st.len() + 1 - k,
{
    if k > st.len() || k < 1 {
        None
    } else if st[wrap(cur, k, st.len() as int)] == TaskStatus::Ready {
        Some(wrap(cur, k, st.len() as int))
    } else {
        scan_from(st, cur, k + 1)
    }
}

/// Round-robin choice: the first Ready slot strictly after `cur`, wrapping
/// once around the table (so `cur` itself is looked at last).
pub open spec fn next_ready(st: Seq<TaskStatus>, cur: int) -> Option<int> {
    scan_from(st, cur, 1)
}

/// The scheduling step from statuses `st` with current task `cur`: the
/// chosen task becomes Running and current, or nothing changes.
pub open spec fn schedule_step(st: Seq<TaskStatus>, cur: int) -> (Seq<TaskStatus>, int) {
    match next_ready(st, cur) {
        Some(nx) => (st.update(nx, TaskStatus::Running), nx),
        None => (st, cur),
    }
}

/// A cooperative yield: the current task becomes Ready, then a scheduling step.
pub open spec fn suspend_step(st: Seq<TaskStatus>, cur: int) -> (Seq<TaskStatus>, int) {
    schedule_step(st.update(cur, TaskStatus::Ready), cur)
}

/// A termination: the current task becomes Exit, then a scheduling step.
pub open spec fn exit_step(st: Seq<TaskStatus>, cur: int) -> (Seq<TaskStatus>, int) {
    schedule_step(st.update(cur, TaskStatus::Exit), cur)
}

/// The register transfer of a switch from slot `from` to slot `to`: the live
/// context is saved into `from`, then `to` is loaded. Yields the new slots
/// and the new live context.
pub open spec fn switch_spec(
    slots: Seq<TaskContext>,
    live: TaskContext,
    from: int,
    to: int,
) -> (Seq<TaskContext>, TaskContext) {
    let saved = slots.update(from, live);
    (saved, saved[to])
}

/// What a scheduling call reports for the statuses and current task it
/// started its scheduling step from.
pub open spec fn run_next_result(st: Seq<TaskStatus>, cur: int, r: RunNext) -> bool {
    match next_ready(st, cur) {
        Some(nx) => r == (RunNext::Switched { from: cur as usize, to: nx as usize }),
        None => r == RunNext::AllExited,
    }
}

/// A slot chosen by the round-robin scan is a Ready slot of the table.
pub proof fn lemma_next_ready_in_range(st: Seq<TaskStatus>, cur: int)
    ensures
        next_ready(st, cur) matches Some(i) ==> 0 <= i < st.len() && st[i] == TaskStatus::Ready,
{
    lemma_scan_from_in_range(st, cur, 1);
}

proof fn lemma_scan_from_in_range(st: Seq<TaskStatus>, cur: int, k: int)
    ensures
        scan_from(st, cur, k) matches Some(i) ==> 0 <= i < st.len() && st[i] == TaskStatus::Ready,
    decreases st.len() + 1 - k,
{
    if k > st.len() || k < 1 {
    } else if st[wrap(cur, k, st.len() as int)] == TaskStatus::Ready {
    } else {
        lemma_scan_from_in_range(st, cur, k + 1);
    }
}

impl TaskManager {
    /// Number of applications being scheduled.
    pub closed spec fn num_app_spec(&self) -> int {
        self.num_app as int
    }

    /// Index of the current task.
    pub closed spec fn current(&self) -> int {
        self.inner.value().current_task as int
    }

    /// Status of each application slot, `num_app` of them.
    pub closed spec fn statuses(&self) -> Seq<TaskStatus> {
        Seq::new(self.num_app as nat, |i: int| self.inner.value().tasks@[i].status)
    }

    /// Saved kernel context of each application slot, `num_app` of them.
    pub closed spec fn contexts(&self) -> Seq<TaskContext> {
        Seq::new(self.num_app as nat, |i: int| self.inner.value().tasks@[i].cx)
    }

    /// The table has its fixed capacity, `num_app` fits in it and the
    /// current index names an application whenever there is one.
    pub closed spec fn table_wf(&self) -> bool {
        &&& self.inner.value().tasks@.len() == MAX_APP_NUM
        &&& self.num_app <= MAX_APP_NUM
        &&& self.inner.value().current_task < MAX_APP_NUM
        &&& (self.num_app > 0 ==> self.inner.value().current_task < self.num_app)
    }

    /// Well-formedness: the table is in shape, both views hold one entry per
    /// application and the current index names an application whenever
    /// there is one.
    pub open spec fn wf(&self) -> bool {
        &&& self.table_wf()
        &&& 0 <= self.num_app_spec() <= MAX_APP_NUM
        &&& self.statuses().len() == self.num_app_spec()
        &&& self.contexts().len() == self.num_app_spec()
        &&& 0 <= self.current()
        &&& (self.num_app_spec() > 0 ==> self.current() < self.num_app_spec())
    }

    /// Builds the manager for one application per entry of `kernel_stacks`.
    /// Task `i` starts Ready, with a context that resumes at `restore_entry`
    /// on the kernel stack `kernel_stacks[i]`; task 0 is current. The slots
    /// past the applications stay Uninit.
    pub fn new(restore_entry: usize, kernel_stacks: &Vec<usize>) -> (r: Self)
        requires
            kernel_stacks.len() <= MAX_APP_NUM,
        ensures
            r.wf(),
            r.num_app_spec() == kernel_stacks.len(),
            r.current() == 0,
            r.statuses().len() == kernel_stacks.len(),
            r.contexts().len() == kernel_stacks.len(),
            forall|i: int| 0 <= i < kernel_stacks.len() ==> r.statuses()[i] == TaskStatus::Ready,
            forall|i: int|
                0 <= i < kernel_stacks.len() ==> {
                    &&& (#[trigger] r.contexts()[i]).ra_spec() == restore_entry
                    &&& r.contexts()[i].sp_spec() == kernel_stacks@[i]
                    &&& r.contexts()[i].regs_spec().len() == SAVED_REGS
                    &&& all_zero(r.contexts()[i].regs_spec())
                },
    {
        let num_app = kernel_stacks.len();
        let mut tasks: Vec<Task> = Vec::new();
        let mut i: usize = 0;
        while i < MAX_APP_NUM
            invariant
                num_app == kernel_stacks.len(),
                num_app <= MAX_APP_NUM,
                i <= MAX_APP_NUM,
                tasks@.len() == i,
                forall|j: int|
                    0 <= j < i && j < num_app ==> {
                        &&& (#[trigger] tasks@[j]).status == TaskStatus::Ready
                        &&& tasks@[j].cx.ra_spec() == restore_entry
                        &&& tasks@[j].cx.sp_spec() == kernel_stacks@[j]
                        &&& tasks@[j].cx.regs_spec().len() == SAVED_REGS
                        &&& all_zero(tasks@[j].cx.regs_spec())
                    },
            decreases MAX_APP_NUM - i,
        {
            let task = if i < num_app {
                Task {
                    status: TaskStatus::Ready,
                    cx: TaskContext::init_with_ra_and_sp(restore_entry, kernel_stacks[i]),
                }
            } else {
                Task { status: TaskStatus::Uninit, cx: TaskContext::init_zero() }
            };
            tasks.push(task);
            i = i + 1;
        }
        TaskManager { num_app, inner: UPSafeCell::new(RawTaskManager { tasks, current_task: 0 }) }
    }

    /// Number of applications being scheduled.
    pub fn num_app(&self) -> (r: usize)
        ensures
            r == self.num_app_spec(),
    {
        self.num_app
    }

    /// Index of the current task.
    pub fn current_task(&self) -> (r: usize)
        ensures
            r == self.current(),
    {
        self.inner.shared_access().current_task
    }

    /// Sets the status of slot `i`, leaving every other field as it was.
    fn set_status(&mut self, i: usize, status: TaskStatus)
        requires
            old(self).wf(),
            i < old(self).num_app_spec(),
        ensures
            final(self).wf(),
            final(self).num_app_spec() == old(self).num_app_spec(),
            final(self).current() == old(self).current(),
            final(self).statuses() == old(self).statuses().update(i as int, status),
            final(self).contexts() == old(self).contexts(),
    {
        let inner = self.inner.exclusive_access();
        let mut task = inner.tasks[i];
        task.status = status;
        inner.tasks.set(i, task);
        proof {
            assert(final(self).statuses() =~= old(self).statuses().update(i as int, status));
            assert(final(self).contexts() =~= old(self).contexts());
        }
    }

    /// Marks the Running current task Ready.
    pub fn mark_current_suspended(&mut self)
        requires
            old(self).wf(),
            old(self).num_app_spec() > 0,
            old(self).statuses()[old(self).current()] == TaskStatus::Running,
        ensures
            final(self).wf(),
            final(self).num_app_spec() == old(self).num_app_spec(),
            final(self).current() == old(self).current(),
            final(self).statuses() == old(self).statuses().update(
                old(self).current(),
                TaskStatus::Ready,
            ),
            final(self).contexts() == old(self).contexts(),
    {
        let current = self.inner.shared_access().current_task;
        self.set_status(current, TaskStatus::Ready);
    }

    /// Marks the Running current task Exit.
    pub fn mark_current_exited(&mut self)
        requires
            old(self).wf(),
            old(self).num_app_spec() > 0,
            old(self).statuses()[old(self).current()] == TaskStatus::Running,
        ensures
            final(self).wf(),
            final(self).num_app_spec() == old(self).num_app_spec(),
            final(self).current() == old(self).current(),
            final(self).statuses() == old(self).statuses().update(
                old(self).current(),
                TaskStatus::Exit,
            ),
            final(self).contexts() == old(self).contexts(),
    {
        let current = self.inner.shared_access().current_task;
        self.set_status(current, TaskStatus::Exit);
    }

    /// The next task to run: the first Ready one after the current task in
    /// round-robin order (the current task itself last), if any.
    pub fn find_next_task(&self) -> (r: Option<usize>)
        requires
            self.wf(),
            self.num_app_spec() > 0,
        ensures
            r matches Some(i) ==> next_ready(self.statuses(), self.current()) == Some(i as int),
            r is None ==> next_ready(self.statuses(), self.current()) is None,
    {
        let inner = self.inner.shared_access();
        let n = self.num_app;
        let current = inner.current_task;
        let ghost st = self.statuses();
        let mut k: usize = 1;
        while k <= n
            invariant
                self.wf(),
                n == self.num_app_spec(),
                n > 0,
                st == self.statuses(),
                current == self.current(),
                *inner == self.inner.value(),
                1 <= k <= n + 1,
                scan_from(st, current as int, k as int) == next_ready(st, current as int),
            decreases n + 1 - k,
        {
            let id = (current + k) % n;
            if inner.tasks[id].status == TaskStatus::Ready {
                return Some(id);
            }
            k = k + 1;
        }
        None
    }

    /// The switch primitive, on the model of the hart's kernel context
    /// `live`: saves `live` into slot `from`, then loads slot `to` into it.
    /// The transfer of control that comes with it on a hart is the caller's.
    pub fn switch_contexts(&mut self, from: usize, to: usize, live: &mut TaskContext)
        requires
            old(self).wf(),
            from < old(self).num_app_spec(),
            to < old(self).num_app_spec(),
        ensures
            final(self).wf(),
            final(self).num_app_spec() == old(self).num_app_spec(),
            final(self).current() == old(self).current(),
            final(self).statuses() == old(self).statuses(),
            (final(self).contexts(), *final(live)) == switch_spec(
                old(self).contexts(),
                *old(live),
                from as int,
                to as int,
            ),
    {
        let inner = self.inner.exclusive_access();
        let mut saved = inner.tasks[from];
        saved.cx = *live;
        inner.tasks.set(from, saved);
        *live = inner.tasks[to].cx;
        proof {
            let ghost sw = switch_spec(old(self).contexts(), *old(live), from as int, to as int);
            assert(final(self).contexts() =~= sw.0);
            assert(final(self).statuses() =~= old(self).statuses());
        }
    }

    /// The scheduling step: if a task is Ready after the current one in
    /// round-robin order, it becomes Running and current, and the hart's
    /// context is switched from the previous current task's slot to its
    /// slot. Otherwise every application has finished and nothing changes.
    ///
    /// The current task must already have given up the hart (it is Ready or
    /// Exit), so that at most one task is Running afterwards.
    pub fn run_next_task(&mut self, live: &mut TaskContext) -> (r: RunNext)
        requires
            old(self).wf(),
            old(self).num_app_spec() > 0,
            old(self).statuses()[old(self).current()] != TaskStatus::Running,
        ensures
            r matches RunNext::Switched { from, to } ==> from == old(self).current()
                && old(self).statuses()[to as int] == TaskStatus::Ready,
            final(self).wf(),
            final(self).num_app_spec() == old(self).num_app_spec(),
            (final(self).statuses(), final(self).current()) == schedule_step(
                old(self).statuses(),
                old(self).current(),
            ),
            run_next_result(old(self).statuses(), old(self).current(), r),
            r matches RunNext::Switched { from, to } ==> (final(self).contexts(), *final(live))
                == switch_spec(old(self).contexts(), *old(live), from as int, to as int),
            r is AllExited ==> final(self).contexts() == old(self).contexts() && *final(live)
                == *old(live),
    {
        match self.find_next_task() {
            Some(next) => {
                proof {
                    lemma_next_ready_in_range(self.statuses(), self.current());
                }
                let current = self.inner.shared_access().current_task;
                self.set_status(next, TaskStatus::Running);
                self.inner.exclusive_access().current_task = next;
                assert(self.statuses() =~= old(self).statuses().update(
                    next as int,
                    TaskStatus::Running,
                ));
                assert(self.contexts() =~= old(self).contexts());
                self.switch_contexts(current, next, live);
                RunNext::Switched { from: current, to: next }
            },
            None => RunNext::AllExited,
        }
    }

    /// Starts scheduling: task 0 becomes Running and current, and the hart
    /// switches into its context from a throwaway zero context, so nothing
    /// that was live before is kept.
    pub fn run_first_task(&mut self, live: &mut TaskContext)
        requires
            old(self).wf(),
            old(self).num_app_spec() > 0,
            old(self).statuses()[0] == TaskStatus::Ready,
            forall|i: int|
                0 <= i < old(self).num_app_spec() ==> #[trigger] old(self).statuses()[i]
                    != TaskStatus::Running,
        ensures
            final(self).wf(),
            final(self).num_app_spec() == old(self).num_app_spec(),
            final(self).current() == 0,
            final(self).statuses() == old(self).statuses().update(0, TaskStatus::Running),
            final(self).contexts() == old(self).contexts(),
            *final(live) == old(self).contexts()[0],
    {
        self.set_status(0, TaskStatus::Running);
        self.inner.exclusive_access().current_task = 0;
        assert(self.statuses() =~= old(self).statuses().update(0, TaskStatus::Running));
        assert(self.contexts() =~= old(self).contexts());
        // What was live is dropped: saving it into a throwaway slot is all
        // the first switch does with it.
        *live = self.inner.shared_access().tasks[0].cx;
    }

    /// Status of application `i`.
    pub fn status(&self, i: usize) -> (r: TaskStatus)
        requires
            self.wf(),
            i < self.num_app_spec(),
        ensures
            r == self.statuses()[i as int],
    {
        self.inner.shared_access().tasks[i].status
    }

    /// Saved kernel context of application `i`.
    pub fn context(&self, i: usize) -> (r: TaskContext)
        requires
            self.wf(),
            i < self.num_app_spec(),
        ensures
            r == self.contexts()[i as int],
    {
        self.inner.shared_access().tasks[i].cx
    }
}

/// Every slot that was Exit before is still Exit after: `Exit` is terminal.
pub open spec fn exits_kept(before: Seq<TaskStatus>, after: Seq<TaskStatus>) -> bool {
    forall|i: int|
        0 <= i < before.len() && before[i] == TaskStatus::Exit ==> #[trigger] after[i]
            == TaskStatus::Exit
}

/// Starts scheduling on `tm`, once, before any task has run: task 0 becomes
/// Running and `live`, the hart's kernel context, is loaded from task 0's slot.
pub fn run_first_task(tm: &mut TaskManager, live: &mut TaskContext)
    requires
        old(tm).wf(),
        old(tm).num_app_spec() > 0,
        old(tm).statuses()[0] == TaskStatus::Ready,
        forall|i: int|
            0 <= i < old(tm).num_app_spec() ==> #[trigger] old(tm).statuses()[i]
                != TaskStatus::Running,
    ensures
        final(tm).wf(),
        final(tm).num_app_spec() == old(tm).num_app_spec(),
        final(tm).current() == 0,
        final(tm).statuses() == old(tm).statuses().update(0, TaskStatus::Running),
        final(tm).contexts() == old(tm).contexts(),
        *final(live) == old(tm).contexts()[0],
{
    tm.run_first_task(live);
}

/// A cooperative yield of the Running current task: it becomes Ready, then
/// the scheduling step runs from it.
pub fn suspend_current_and_run_next(tm: &mut TaskManager, live: &mut TaskContext) -> (r: RunNext)
    requires
        old(tm).wf(),
        old(tm).num_app_spec() > 0,
        old(tm).statuses()[old(tm).current()] == TaskStatus::Running,
    ensures
        final(tm).wf(),
        final(tm).num_app_spec() == old(tm).num_app_spec(),
        (final(tm).statuses(), final(tm).current()) == suspend_step(
            old(tm).statuses(),
            old(tm).current(),
        ),
        run_next_result(
            old(tm).statuses().update(old(tm).current(), TaskStatus::Ready),
            old(tm).current(),
            r,
        ),
        r matches RunNext::Switched { from, to } ==> (final(tm).contexts(), *final(live))
            == switch_spec(old(tm).contexts(), *old(live), from as int, to as int),
        r is AllExited ==> final(tm).contexts() == old(tm).contexts() && *final(live) == *old(
            live,
        ),
        exits_kept(old(tm).statuses(), final(tm).statuses()),
        r matches RunNext::Switched { from, to } ==> from == old(tm).current() && (to
            == old(tm).current() || old(tm).statuses()[to as int] == TaskStatus::Ready),
{
    tm.mark_current_suspended();
    let r = tm.run_next_task(live);
    proof {
        lemma_steps_keep_exits(old(tm).statuses(), old(tm).current());
    }
    r
}

/// The termination of the Running current task: it becomes Exit, then the
/// scheduling step runs from it.
pub fn exit_current_and_run_next(tm: &mut TaskManager, live: &mut TaskContext) -> (r: RunNext)
    requires
        old(tm).wf(),
        old(tm).num_app_spec() > 0,
        old(tm).statuses()[old(tm).current()] == TaskStatus::Running,
    ensures
        final(tm).wf(),
        final(tm).num_app_spec() == old(tm).num_app_spec(),
        (final(tm).statuses(), final(tm).current()) == exit_step(
            old(tm).statuses(),
            old(tm).current(),
        ),
        run_next_result(
            old(tm).statuses().update(old(tm).current(), TaskStatus::Exit),
            old(tm).current(),
            r,
        ),
        r matches RunNext::Switched { from, to } ==> (final(tm).contexts(), *final(live))
            == switch_spec(old(tm).contexts(), *old(live), from as int, to as int),
        r is AllExited ==> final(tm).contexts() == old(tm).contexts() && *final(live) == *old(
            live,
        ),
        exits_kept(old(tm).statuses(), final(tm).statuses()),
        final(tm).statuses()[old(tm).current()] == TaskStatus::Exit,
        r matches RunNext::Switched { from, to } ==> from == old(tm).current() && to
            != old(tm).current() && old(tm).statuses()[to as int] == TaskStatus::Ready,
{
    tm.mark_current_exited();
    let r = tm.run_next_task(live);
    proof {
        lemma_steps_keep_exits(old(tm).statuses(), old(tm).current());
        lemma_next_ready_in_range(
            old(tm).statuses().update(old(tm).current(), TaskStatus::Exit),
            old(tm).current(),
        );
    }
    r
}

/// `Exit` is terminal: from any table whose current task is not Exit, a
/// yield and a termination both leave every Exit slot Exit.
pub proof fn lemma_steps_keep_exits(st: Seq<TaskStatus>, cur: int)
    requires
        0 <= cur < st.len(),
        st[cur] != TaskStatus::Exit,
    ensures
        exits_kept(st, suspend_step(st, cur).0),
        exits_kept(st, exit_step(st, cur).0),
{
    lemma_next_ready_in_range(st.update(cur, TaskStatus::Ready), cur);
    lemma_next_ready_in_range(st.update(cur, TaskStatus::Exit), cur);
}

/// `k` yields in a row from statuses `st` with current task `cur`.
pub open spec fn suspend_iter(st: Seq<TaskStatus>, cur: int, k: nat) -> (Seq<TaskStatus>, int)
    decreases k,
{
    if k == 0 {
        (st, cur)
    } else {
        let prev = suspend_iter(st, cur, (k - 1) as nat);
        suspend_step(prev.0, prev.1)
    }
}

/// Task `cur` is Running and every other task is Ready.
pub open spec fn only_current_running(st: Seq<TaskStatus>, cur: int) -> bool {
    &&& 0 <= cur < st.len()
    &&& st[cur] == TaskStatus::Running
    &&& forall|i: int| 0 <= i < st.len() && i != cur ==> #[trigger] st[i] == TaskStatus::Ready
}

proof fn lemma_yield_moves_on(st: Seq<TaskStatus>, cur: int)
    requires
        only_current_running(st, cur),
    ensures
        suspend_step(st, cur).1 == wrap(cur, 1, st.len() as int),
        only_current_running(suspend_step(st, cur).0, suspend_step(st, cur).1),
        suspend_step(st, cur).0.len() == st.len(),
{
    let n = st.len() as int;
    let st1 = st.update(cur, TaskStatus::Ready);
    assert(st1[wrap(cur, 1, n)] == TaskStatus::Ready);
    assert(next_ready(st1, cur) == Some(wrap(cur, 1, n)));
}

/// Round robin: when every task but the Running current one is Ready,
/// successive yields hand the hart to `cur + 1`, `cur + 2`, ... (mod N), so
/// every other task runs exactly once before `cur` runs again, after N yields.
pub proof fn lemma_round_robin(st: Seq<TaskStatus>, cur: int)
    requires
        only_current_running(st, cur),
    ensures
        forall|k: nat| #[trigger] suspend_iter(st, cur, k).1 == wrap(cur, k as int, st.len() as int),
        forall|j: nat, k: nat|
            j < k < st.len() ==> #[trigger] suspend_iter(st, cur, j).1 != #[trigger] suspend_iter(
                st,
                cur,
                k,
            ).1,
        suspend_iter(st, cur, st.len()).1 == cur,
        forall|k: nat|
            #![trigger suspend_iter(st, cur, k)]
            only_current_running(suspend_iter(st, cur, k).0, suspend_iter(st, cur, k).1)
                && suspend_iter(st, cur, k).0.len() == st.len(),
        forall|k: nat|
            #[trigger] suspend_iter(st, cur, k + 1) == suspend_step(
                suspend_iter(st, cur, k).0,
                suspend_iter(st, cur, k).1,
            ),
{
    let n = st.len() as int;
    assert forall|k: nat| #![trigger suspend_iter(st, cur, k)]
        only_current_running(suspend_iter(st, cur, k).0, suspend_iter(st, cur, k).1)
            && suspend_iter(st, cur, k).0.len() == st.len() by {
        lemma_round_robin_prefix(st, cur, k);
    }
    assert forall|k: nat| #[trigger] suspend_iter(st, cur, k + 1) == suspend_step(
        suspend_iter(st, cur, k).0,
        suspend_iter(st, cur, k).1,
    ) by {
        assert((k + 1) as nat - 1 == k);
    }
    assert forall|k: nat| #[trigger] suspend_iter(st, cur, k).1 == wrap(cur, k as int, n) by {
        lemma_round_robin_prefix(st, cur, k);
    }
    assert forall|j: nat, k: nat| j < k < n implies #[trigger] suspend_iter(st, cur, j).1
        != #[trigger] suspend_iter(st, cur, k).1 by {
        lemma_round_robin_prefix(st, cur, j);
        lemma_round_robin_prefix(st, cur, k);
        vstd::arithmetic::div_mod::lemma_mod_equivalence(cur + k, cur + j, n);
        vstd::arithmetic::div_mod::lemma_small_mod((k - j) as nat, n as nat);
    }
    lemma_round_robin_prefix(st, cur, n as nat);
    vstd::arithmetic::div_mod::lemma_mod_add_multiples_vanish(cur, n);
    vstd::arithmetic::div_mod::lemma_small_mod(cur as nat, n as nat);
}

proof fn lemma_round_robin_prefix(st: Seq<TaskStatus>, cur: int, k: nat)
    requires
        only_current_running(st, cur),
    ensures
        suspend_iter(st, cur, k).1 == wrap(cur, k as int, st.len() as int),
        suspend_iter(st, cur, k).0.len() == st.len(),
        only_current_running(suspend_iter(st, cur, k).0, suspend_iter(st, cur, k).1),
    decreases k,
{
    let n = st.len() as int;
    if k == 0 {
        vstd::arithmetic::div_mod::lemma_small_mod(cur as nat, n as nat);
    } else {
        lemma_round_robin_prefix(st, cur, (k - 1) as nat);
        let prev = suspend_iter(st, cur, (k - 1) as nat);
        lemma_yield_moves_on(prev.0, prev.1);
        vstd::arithmetic::div_mod::lemma_add_mod_noop_right(1, cur + k - 1, n);
    }
}

/// Exhaustion: once every task is Exit, the scan finds no candidate and the
/// scheduling step reports that every application has finished.
pub proof fn lemma_exhaustion_halts(st: Seq<TaskStatus>, cur: int)
    requires
        forall|i: int| 0 <= i < st.len() ==> #[trigger] st[i] == TaskStatus::Exit,
    ensures
        next_ready(st, cur) is None,
        schedule_step(st, cur) == (st, cur),
        run_next_result(st, cur, RunNext::AllExited),
{
    lemma_next_ready_in_range(st, cur);
}

/// Applies the switches `moves`, each a `(from, to)` pair, in order.
pub open spec fn run_switches(
    slots: Seq<TaskContext>,
    live: TaskContext,
    moves: Seq<(int, int)>,
) -> (Seq<TaskContext>, TaskContext)
    decreases moves.len(),
{
    if moves.len() == 0 {
        (slots, live)
    } else {
        let prev = run_switches(slots, live, moves.drop_last());
        switch_spec(prev.0, prev.1, moves.last().0, moves.last().1)
    }
}

proof fn lemma_switches_keep_slot(
    slots: Seq<TaskContext>,
    live: TaskContext,
    moves: Seq<(int, int)>,
    a: int,
)
    requires
        0 <= a < slots.len(),
        forall|m: int| 0 <= m < moves.len() ==> 0 <= (#[trigger] moves[m]).0 < slots.len() && moves[m].0 != a,
    ensures
        run_switches(slots, live, moves).0.len() == slots.len(),
        run_switches(slots, live, moves).0[a] == slots[a],
    decreases moves.len(),
{
    if moves.len() > 0 {
        let rest = moves.drop_last();
        assert forall|m: int| 0 <= m < rest.len() implies 0 <= (#[trigger] rest[m]).0 < slots.len()
            && rest[m].0 != a by {
            assert(rest[m] == moves[m]);
        }
        lemma_switches_keep_slot(slots, live, rest, a);
        assert(moves.last() == moves[moves.len() - 1]);
    }
}

/// Context round trip: when task `a` is switched away from (to `b`), any
/// switches follow that do not save into `a`'s slot, and then `a` is
/// switched back into from another task `c`, the hart's context is exactly
/// what was live when `a` left.
pub proof fn lemma_context_round_trip(
    slots: Seq<TaskContext>,
    live: TaskContext,
    a: int,
    b: int,
    moves: Seq<(int, int)>,
    c: int,
)
    requires
        0 <= a < slots.len(),
        0 <= b < slots.len(),
        0 <= c < slots.len(),
        c != a,
        forall|m: int| 0 <= m < moves.len() ==> 0 <= (#[trigger] moves[m]).0 < slots.len() && moves[m].0 != a,
    ensures
        ({
            let away = switch_spec(slots, live, a, b);
            let between = run_switches(away.0, away.1, moves);
            switch_spec(between.0, between.1, c, a).1 == live
        }),
{
    let away = switch_spec(slots, live, a, b);
    lemma_switches_keep_slot(away.0, away.1, moves, a);
}

/// A switch from a task into itself (a lone task that yields) leaves the
/// hart's context exactly as it was.
pub proof fn lemma_self_switch_keeps_live(slots: Seq<TaskContext>, live: TaskContext, a: int)
    requires
        0 <= a < slots.len(),
    ensures
        switch_spec(slots, live, a, a).1 == live,
{
}

} // verus!
