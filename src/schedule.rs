//! The task registry and the round-robin cooperative scheduler.
use vstd::prelude::*;

verus! {

/// Number of slots in the task registry.
pub const MAX_TASKS: usize = 4;

/// Registration failed: every slot of the registry is occupied.
#[derive(Debug, Clone, Copy, PartialEq, Eq, Structural)]
pub struct RegistryFull;

/// A fixed-capacity, ordered sequence of optional task handles.
pub struct Registry<T> {
    slots: Vec<Option<T>>,
}

impl<T> View for Registry<T> {
    type V = Seq<Option<T>>;

    closed spec fn view(&self) -> Seq<Option<T>> {
        self.slots@
    }
}

/// The registry contents after registering `tasks`, in order, into an empty registry.
pub open spec fn registered<T>(tasks: Seq<T>) -> Seq<Option<T>> {
    Seq::new(
        MAX_TASKS as nat,
        |i: int| if i < tasks.len() { Some(tasks[i]) } else { None },
    )
}

/// `i` is the lowest-numbered empty slot of `s`.
pub open spec fn is_first_free<T>(s: Seq<Option<T>>, i: int) -> bool {
    &&& 0 <= i < s.len()
    &&& s[i] is None
    &&& forall|j: int| 0 <= j < i ==> s[j] is Some
}

/// Some slot of `s` is empty.
pub open spec fn has_free<T>(s: Seq<Option<T>>) -> bool {
    exists|i: int| 0 <= i < s.len() && s[i] is None
}

impl<T> Registry<T> {
    /// Every registry has exactly `MAX_TASKS` slots.
    pub closed spec fn wf(&self) -> bool {
        self.slots@.len() == MAX_TASKS
    }

    /// An empty registry.
    pub fn new() -> (r: Self)
        ensures
            r.wf(),
            r@ == registered(Seq::<T>::empty()),
    {
        let mut slots: Vec<Option<T>> = Vec::new();
        let mut i: usize = 0;
        while i < MAX_TASKS
            invariant
                i <= MAX_TASKS,
                slots@.len() == i,
                forall|j: int| 0 <= j < i ==> slots@[j] is None,
            decreases MAX_TASKS - i,
        {
            slots.push(None);
            i = i + 1;
        }
        let r = Registry { slots };
        assert(r@ =~= registered(Seq::<T>::empty()));
        r
    }

    /// The handle held in slot `i`, if any.
    pub fn slot(&self, i: usize) -> (r: &Option<T>)
        requires
            self.wf(),
            i < MAX_TASKS,
        ensures
            *r == self@[i as int],
    {
        &self.slots[i]
    }

}

/// Inserts `task` into the first empty slot of `registry`, in slot order.
/// Fails with `RegistryFull`, leaving the registry unchanged, when no slot is empty.
pub fn add_task<T>(registry: &mut Registry<T>, task: T) -> (r: Result<(), RegistryFull>)
    requires
        old(registry).wf(),
    ensures
        final(registry).wf(),
        r is Ok <==> has_free(old(registry)@),
        r is Ok ==> exists|i: int|
            is_first_free(old(registry)@, i) && final(registry)@ == old(registry)@.update(
                i,
                Some(task),
            ),
        r is Err ==> final(registry)@ == old(registry)@,
{
    let mut i: usize = 0;
    while i < MAX_TASKS
        invariant
            registry.wf(),
            registry@ == old(registry)@,
            i <= MAX_TASKS,
            forall|j: int| 0 <= j < i ==> registry@[j] is Some,
        decreases MAX_TASKS - i,
    {
        if registry.slots[i].is_none() {
            registry.slots.set(i, Some(task));
            assert(is_first_free(old(registry)@, i as int));
            return Ok(());
        }
        i = i + 1;
    }
    Err(RegistryFull)
}

/// Scanning forward from the slot after `cursor`, skipping the first `k` slots and wrapping
/// modulo `MAX_TASKS`: the first occupied slot, if any of the remaining ones is occupied.
pub open spec fn scan_from<T>(s: Seq<Option<T>>, cursor: int, k: int) -> Option<int>
    decreases MAX_TASKS - k,
{
    if k >= MAX_TASKS {
        None
    } else if s[(cursor + 1 + k) % (MAX_TASKS as int)] is Some {
        Some((cursor + 1 + k) % (MAX_TASKS as int))
    } else {
        scan_from(s, cursor, k + 1)
    }
}

/// The slot that round-robin selection picks after `cursor`: the first occupied slot of a
/// full sweep that starts right after `cursor`; `None` when every slot is empty.
pub open spec fn next_slot<T>(s: Seq<Option<T>>, cursor: int) -> Option<int> {
    scan_from(s, cursor, 0)
}

/// One completed scheduler iteration from cursor `before` to cursor `after`, reporting `r`:
/// the selected task was invoked through `invoke` and returned; on an empty registry
/// nothing ran and the cursor stayed.
pub open spec fn iteration_done<T, F: Fn(T)>(
    s: Seq<Option<T>>,
    before: int,
    after: int,
    r: Option<usize>,
    invoke: F,
) -> bool {
    match next_slot(s, before) {
        None => r is None && after == before,
        Some(i) => r == Some(i as usize) && after == i && s[i] is Some && invoke.ensures(
            (s[i]->0,),
            (),
        ),
    }
}

/// The cooperative round-robin scheduler: it remembers the slot of the task it ran last.
/// It reads the registry through a shared borrow, so while a scheduler loop holds the
/// registry no task can be registered: registration belongs to start-up.
pub struct Scheduler {
    cursor: usize,
}

impl View for Scheduler {
    type V = int;

    /// The slot of the most recently selected task.
    closed spec fn view(&self) -> int {
        self.cursor as int
    }
}

impl Scheduler {
    pub closed spec fn wf(&self) -> bool {
        self.cursor < MAX_TASKS
    }

    /// A scheduler that has run nothing yet: the cursor stands before slot 0, so the
    /// first selection starts its sweep at slot 0.
    pub fn new() -> (r: Self)
        ensures
            r.wf(),
            r@ == MAX_TASKS - 1,
    {
        Scheduler { cursor: MAX_TASKS - 1 }
    }

    /// The slot of the most recently selected task.
    pub fn cursor(&self) -> (r: usize)
        ensures
            r == self@,
    {
        self.cursor
    }

    /// One round-robin selection: the first occupied slot after the cursor, wrapping
    /// around, becomes the new cursor and its handle is returned. On an empty registry
    /// nothing is selected and the cursor stays where it was.
    pub fn select_next<T: Copy>(&mut self, registry: &Registry<T>) -> (r: Option<(usize, T)>)
        requires
            old(self).wf(),
            registry.wf(),
        ensures
            final(self).wf(),
            match next_slot(registry@, old(self)@) {
                None => r is None && final(self)@ == old(self)@,
                Some(i) => final(self)@ == i && registry@[i] is Some && r == Some(
                    (i as usize, registry@[i]->0),
                ),
            },
    {
        let start: usize = (self.cursor + 1) % MAX_TASKS;
        let mut k: usize = 0;
        while k < MAX_TASKS
            invariant
                self.wf(),
                *self == *old(self),
                registry.wf(),
                k <= MAX_TASKS,
                start as int == (self@ + 1) % (MAX_TASKS as int),
                scan_from(registry@, self@, k as int) == next_slot(registry@, self@),
            decreases MAX_TASKS - k,
        {
            let idx: usize = (start + k) % MAX_TASKS;
            assert(idx as int == (self@ + 1 + k) % (MAX_TASKS as int));
            match registry.slot(idx) {
                Some(task) => {
                    let task: T = *task;
                    self.cursor = idx;
                    return Some((idx, task));
                },
                None => {},
            }
            k = k + 1;
        }
        None
    }

    /// One iteration of the scheduler loop: selects the next task as `select_next` does and
    /// runs it to completion through `invoke`. Returns the slot that ran, after the task
    /// has returned; `None`, with nothing run, on an empty registry.
    pub fn run_once<T: Copy, F: Fn(T)>(&mut self, registry: &Registry<T>, invoke: &F) -> (r:
        Option<usize>)
        requires
            old(self).wf(),
            registry.wf(),
            forall|t: T| invoke.requires((t,)),
        ensures
            final(self).wf(),
            iteration_done(registry@, old(self)@, final(self)@, r, *invoke),
    {
        match self.select_next(registry) {
            None => None,
            Some((idx, task)) => {
                invoke(task);
                Some(idx)
            },
        }
    }
}

/// An example task; it returns at once.
pub fn task_one() {
}

/// A second example task; it returns at once.
pub fn task_two() {
}

/// The cursor after `n` iterations of the scheduler loop that started at cursor `c`.
pub open spec fn cursor_after<T>(s: Seq<Option<T>>, c: int, n: nat) -> int
    decreases n,
{
    if n == 0 {
        c
    } else {
        let prev = cursor_after(s, c, (n - 1) as nat);
        match next_slot(s, prev) {
            Some(j) => j,
            None => prev,
        }
    }
}

/// What iteration `i` (counted from 0) of a freshly created scheduler selects.
pub open spec fn selected_at<T>(s: Seq<Option<T>>, i: nat) -> Option<int> {
    next_slot(s, cursor_after(s, MAX_TASKS - 1, i))
}

/// Registration fills the slots in order: while fewer than `MAX_TASKS` tasks are registered,
/// registering one more succeeds and places it right after the others; once `MAX_TASKS`
/// are registered, registration fails.
pub proof fn lemma_register_in_order<T>(tasks: Seq<T>, t: T)
    requires
        tasks.len() <= MAX_TASKS,
    ensures
        tasks.len() < MAX_TASKS ==> {
            &&& has_free(registered(tasks))
            &&& is_first_free(registered(tasks), tasks.len() as int)
            &&& registered(tasks).update(tasks.len() as int, Some(t)) == registered(tasks.push(t))
        },
        tasks.len() == MAX_TASKS ==> !has_free(registered(tasks)),
{
    let s = registered(tasks);
    if tasks.len() < MAX_TASKS {
        assert(s[tasks.len() as int] is None);
        assert(s.update(tasks.len() as int, Some(t)) =~= registered(tasks.push(t)));
    }
}

proof fn lemma_step_in_order<T>(tasks: Seq<T>, c: int)
    requires
        1 <= tasks.len() <= MAX_TASKS,
        0 <= c < tasks.len() || c == MAX_TASKS - 1,
    ensures
        next_slot(registered(tasks), c) == Some(
            if c == MAX_TASKS - 1 {
                0
            } else {
                (c + 1) % (tasks.len() as int)
            },
        ),
{
    reveal_with_fuel(scan_from, 5);
    let s = registered(tasks);
    let n = tasks.len() as int;
    assert forall|j: int| 0 <= j < MAX_TASKS implies (s[j] is Some <==> j < n) by {}
    assert(s.len() == MAX_TASKS);
    if c == MAX_TASKS - 1 {
        assert(s[0] is Some);
        assert(scan_from(s, c, 0) == Some(0int));
    } else if c + 1 < n {
        assert(s[c + 1] is Some);
        assert(scan_from(s, c, 0) == Some(c + 1));
        assert((c + 1) % n == c + 1) by (nonlinear_arith)
            requires
                0 <= c + 1 < n,
        ;
    } else {
        assert(c == n - 1);
        assert((c + 1) % n == 0) by (nonlinear_arith)
            requires
                c + 1 == n,
                n >= 1,
        ;
        assert(s[0] is Some);
        if n == 1 {
            assert(s[1] is None && s[2] is None && s[3] is None);
        } else if n == 2 {
            assert(s[2] is None && s[3] is None);
        } else {
            assert(s[3] is None);
        }
    }
}

proof fn lemma_mod_succ(i: int, n: int)
    requires
        1 <= i,
        1 <= n <= MAX_TASKS,
    ensures
        ((i - 1) % n + 1) % n == i % n,
        0int % n == 0,
{
    if n == 1 {
    } else if n == 2 {
    } else if n == 3 {
    } else {
    }
}

proof fn lemma_cursor_in_order<T>(tasks: Seq<T>, i: nat)
    requires
        1 <= tasks.len() <= MAX_TASKS,
    ensures
        cursor_after(registered(tasks), MAX_TASKS - 1, i) == if i == 0 {
            MAX_TASKS - 1
        } else {
            (i - 1) % (tasks.len() as int)
        },
    decreases i,
{
    let n = tasks.len() as int;
    if i > 0 {
        lemma_cursor_in_order(tasks, (i - 1) as nat);
        let prev = cursor_after(registered(tasks), MAX_TASKS - 1, (i - 1) as nat);
        lemma_step_in_order(tasks, prev);
        lemma_mod_succ(1, n);
        if i > 1 {
            lemma_mod_succ(i - 1, n);
        }
    }
}

/// Round-robin order: with `n` tasks registered in order (1 <= n <= MAX_TASKS) and each
/// returning, iteration `i` of a fresh scheduler runs the task in slot `i mod n`.
pub proof fn lemma_round_robin_order<T>(tasks: Seq<T>, i: nat)
    requires
        1 <= tasks.len() <= MAX_TASKS,
    ensures
        selected_at(registered(tasks), i) == Some((i as int) % (tasks.len() as int)),
{
    let n = tasks.len() as int;
    lemma_cursor_in_order(tasks, i);
    let c = cursor_after(registered(tasks), MAX_TASKS - 1, i);
    lemma_step_in_order(tasks, c);
    lemma_mod_succ(1, n);
    if i > 0 {
        lemma_mod_succ(i as int, n);
    }
}

proof fn lemma_scan_empty<T>(c: int, k: int)
    ensures
        scan_from(registered(Seq::<T>::empty()), c, k) is None,
    decreases MAX_TASKS - k,
{
    if k < MAX_TASKS {
        lemma_scan_empty::<T>(c, k + 1);
    }
}

/// An empty registry idles: no iteration of the scheduler ever selects a task, and the
/// cursor never moves.
pub proof fn lemma_empty_registry_idles<T>(i: nat)
    ensures
        selected_at(registered(Seq::<T>::empty()), i) is None,
        cursor_after(registered(Seq::<T>::empty()), MAX_TASKS - 1, i) == MAX_TASKS - 1,
    decreases i,
{
    let s = registered(Seq::<T>::empty());
    lemma_scan_empty::<T>(MAX_TASKS - 1, 0);
    if i > 0 {
        lemma_empty_registry_idles::<T>((i - 1) as nat);
    }
}

/// Starvation by a task that never returns: once selection reaches a task whose
/// invocation never returns, no scheduler iteration completes, so the cursor never moves
/// past it and no other task is invoked again.
pub proof fn lemma_nonreturning_task_starves<T, F: Fn(T)>(
    s: Seq<Option<T>>,
    before: int,
    invoke: F,
)
    requires
        s.len() == MAX_TASKS,
        next_slot(s, before) is Some,
        forall|u: ()| !invoke.ensures((s[next_slot(s, before)->0]->0,), u),
    ensures
        forall|after: int, r: Option<usize>| !iteration_done(s, before, after, r, invoke),
{
    lemma_scan_occupied(s, before, 0);
}

proof fn lemma_scan_occupied<T>(s: Seq<Option<T>>, c: int, k: int)
    requires
        s.len() == MAX_TASKS,
    ensures
        scan_from(s, c, k) matches Some(i) ==> 0 <= i < MAX_TASKS && s[i] is Some,
    decreases MAX_TASKS - k,
{
    if k < MAX_TASKS {
        lemma_scan_occupied(s, c, k + 1);
    }
}

} // verus!
