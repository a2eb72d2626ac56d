//! The concurrent lock protocol, as a transition system, with proofs of its
//! laws: mutual exclusion, visibility of writes, no lost updates, and the
//! identity of an acquire/release cycle.
//!
//! Threads are numbered `0..n`.  Each is either outside the lock (`Idle`) or
//! inside its critical section (`Critical`).  A thread enters only through a
//! successful compare-and-exchange on the flag (`Acquire`), may bump the
//! shared counter while inside (`Increment`), and leaves by storing
//! `UNLOCKED` back (`Release`).  Any interleaving of these events over any
//! number of threads is covered by the proofs.

use crate::mutex::{LOCKED, UNLOCKED};
use vstd::pervasive::VecAdditionalExecFns;
use vstd::prelude::*;

verus! {

/// Where one thread stands with respect to the lock.
#[derive(Clone, Copy, Debug, PartialEq, Eq, Structural)]
pub enum Phase {
    /// Outside the lock: not holding it, possibly spinning for it.
    Idle,
    /// Inside the critical section: the holder of the lock.
    Critical,
}

/// A snapshot of the whole system: the flag, each thread's phase, each
/// thread's count of completed increments, and the guarded counter.
#[verifier::ext_equal]
pub struct State {
    /// The lock flag, `LOCKED` or `UNLOCKED`.
    pub flag: bool,
    /// The phase of each thread, indexed by thread number.
    pub phase: Seq<Phase>,
    /// How many increments each thread has completed so far.
    pub done: Seq<nat>,
    /// The guarded payload: a shared counter.
    pub value: nat,
}

/// One event of the protocol, tagged with the thread that performs it.
pub enum Event {
    /// A successful compare-and-exchange takes the flag to `LOCKED`.
    Acquire(int),
    /// The holder bumps the counter inside its critical section.
    Increment(int),
    /// The holder stores `UNLOCKED` back into the flag.
    Release(int),
}

/// The thread performing an event.
pub open spec fn actor(e: Event) -> int {
    match e {
        Event::Acquire(t) => t,
        Event::Increment(t) => t,
        Event::Release(t) => t,
    }
}

/// The two phase sequences cover the same threads.
pub open spec fn wf(s: State) -> bool {
    s.phase.len() == s.done.len()
}

/// The starting snapshot: `n` threads, all outside, none counted yet, the
/// flag free, and the counter at `v`.
pub open spec fn init(s: State, n: nat, v: nat) -> bool {
    &&& s.flag == UNLOCKED
    &&& s.phase.len() == n
    &&& s.done.len() == n
    &&& forall|t: int| 0 <= t < n ==> s.phase[t] == Phase::Idle
    &&& forall|t: int| 0 <= t < n ==> s.done[t] == 0
    &&& s.value == v
}

/// Thread `t` wins a compare-and-exchange: possible only while the flag is
/// `UNLOCKED`, and takes it to `LOCKED` with `t` inside.  A thread that
/// observes `LOCKED` instead changes nothing, so losing attempts and
/// read-only polls need no event of their own.
pub open spec fn acquire(pre: State, post: State, t: int) -> bool {
    &&& 0 <= t < pre.phase.len()
    &&& pre.flag == UNLOCKED
    &&& pre.phase[t] == Phase::Idle
    &&& post.flag == LOCKED
    &&& post.phase == pre.phase.update(t, Phase::Critical)
    &&& post.done == pre.done
    &&& post.value == pre.value
}

/// Thread `t` bumps the counter: possible only inside its critical section.
pub open spec fn increment(pre: State, post: State, t: int) -> bool {
    &&& 0 <= t < pre.phase.len()
    &&& pre.phase[t] == Phase::Critical
    &&& post.flag == pre.flag
    &&& post.phase == pre.phase
    &&& post.done == pre.done.update(t, (pre.done[t] + 1) as nat)
    &&& post.value == pre.value + 1
}

/// Thread `t` stores `UNLOCKED` back: possible only for the holder, and
/// takes it outside again.
pub open spec fn release(pre: State, post: State, t: int) -> bool {
    &&& 0 <= t < pre.phase.len()
    &&& pre.phase[t] == Phase::Critical
    &&& post.flag == UNLOCKED
    &&& post.phase == pre.phase.update(t, Phase::Idle)
    &&& post.done == pre.done
    &&& post.value == pre.value
}

/// The full transition relation: one event by one thread.
pub open spec fn step(pre: State, post: State, e: Event) -> bool {
    match e {
        Event::Acquire(t) => acquire(pre, post, t),
        Event::Increment(t) => increment(pre, post, t),
        Event::Release(t) => release(pre, post, t),
    }
}

/// `s` is reached from `s0` by the events of `es`, in order.
pub open spec fn reaches(s0: State, es: Seq<Event>, s: State) -> bool
    decreases es.len(),
{
    if es.len() == 0 {
        s == s0
    } else {
        exists|mid: State| reaches(s0, es.drop_last(), mid) && #[trigger] step(mid, s, es.last())
    }
}

/// Extending a trace by one step extends what it reaches.
pub proof fn lemma_reaches_push(s0: State, es: Seq<Event>, mid: State, s: State, e: Event)
    requires
        reaches(s0, es, mid),
        step(mid, s, e),
    ensures
        reaches(s0, es.push(e), s),
{
    let es2 = es.push(e);
    assert(es2.drop_last() =~= es);
    assert(es2.last() == e);
    assert(step(mid, s, es2.last()));
}

/// The sum of all per-thread increment counts.
pub open spec fn total(done: Seq<nat>) -> nat
    decreases done.len(),
{
    if done.len() == 0 {
        0
    } else {
        total(done.drop_last()) + done.last()
    }
}

/// The inductive invariant over `n` threads, relative to the starting
/// counter value `v`: at most one thread is ever inside, a free flag means
/// nobody is inside, and the counter accounts for every completed increment
/// exactly once.
pub open spec fn inv(s: State, n: nat, v: nat) -> bool {
    &&& wf(s)
    &&& s.phase.len() == n
    &&& forall|a: int, b: int|
        (0 <= a < s.phase.len() && 0 <= b < s.phase.len() && s.phase[a] == Phase::Critical
            && s.phase[b] == Phase::Critical) ==> a == b
    &&& s.flag == UNLOCKED ==> forall|t: int|
        0 <= t < s.phase.len() ==> s.phase[t] != Phase::Critical
    &&& s.value == v + total(s.done)
}

/// Replacing one entry of `done` moves the sum by exactly the difference.
pub proof fn lemma_total_update(done: Seq<nat>, i: int, x: nat)
    requires
        0 <= i < done.len(),
    ensures
        total(done.update(i, x)) + done[i] == total(done) + x,
    decreases done.len(),
{
    if i == done.len() - 1 {
        assert(done.update(i, x).drop_last() =~= done.drop_last());
    } else {
        assert(done.update(i, x).drop_last() =~= done.drop_last().update(i, x));
        lemma_total_update(done.drop_last(), i, x);
    }
}

/// A sequence of `len` equal counts `k` sums to `len * k`.
pub proof fn lemma_total_const(done: Seq<nat>, k: nat)
    requires
        forall|t: int| 0 <= t < done.len() ==> done[t] == k,
    ensures
        total(done) == done.len() * k,
    decreases done.len(),
{
    if done.len() == 0 {
    } else {
        lemma_total_const(done.drop_last(), k);
        assert((done.len() - 1) * k + k == done.len() * k) by (nonlinear_arith);
    }
}

/// The starting snapshot satisfies the invariant.
pub proof fn lemma_init_inv(s: State, n: nat, v: nat)
    requires
        init(s, n, v),
    ensures
        inv(s, n, v),
{
    lemma_total_const(s.done, 0);
}

/// Every step of the protocol preserves the invariant.
pub proof fn lemma_step_inv(pre: State, post: State, e: Event, n: nat, v: nat)
    requires
        inv(pre, n, v),
        step(pre, post, e),
    ensures
        inv(post, n, v),
{
    match e {
        Event::Acquire(t) => {},
        Event::Increment(t) => {
            lemma_total_update(pre.done, t, (pre.done[t] + 1) as nat);
        },
        Event::Release(t) => {},
    }
}

/// The invariant holds in every state reachable from the start.
pub proof fn lemma_reaches_inv(s0: State, es: Seq<Event>, s: State, n: nat, v: nat)
    requires
        init(s0, n, v),
        reaches(s0, es, s),
    ensures
        inv(s, n, v),
    decreases es.len(),
{
    if es.len() == 0 {
        lemma_init_inv(s0, n, v);
    } else {
        let mid = choose|mid: State| reaches(s0, es.drop_last(), mid) && #[trigger] step(mid, s, es.last());
        lemma_reaches_inv(s0, es.drop_last(), mid, n, v);
        lemma_step_inv(mid, s, es.last(), n, v);
    }
}

/// Mutual exclusion: in any reachable state, no two threads are inside
/// their critical sections at once, so no two threads ever hold the payload
/// mutably at the same instant.
pub proof fn lemma_no_double_entry(
    s0: State,
    es: Seq<Event>,
    s: State,
    n: nat,
    v: nat,
    a: int,
    b: int,
)
    requires
        init(s0, n, v),
        reaches(s0, es, s),
        0 <= a < n,
        0 <= b < n,
        s.phase[a] == Phase::Critical,
        s.phase[b] == Phase::Critical,
    ensures
        a == b,
{
    lemma_reaches_inv(s0, es, s, n, v);
}

/// No lost updates: once every one of the `n` threads has completed its `k`
/// increments, the counter holds exactly the starting value plus `n * k`,
/// whatever interleaving the threads ran through.
pub proof fn lemma_no_lost_updates(s0: State, es: Seq<Event>, s: State, n: nat, v: nat, k: nat)
    requires
        init(s0, n, v),
        reaches(s0, es, s),
        forall|t: int| 0 <= t < n ==> s.done[t] == k,
    ensures
        s.value == v + n * k,
{
    lemma_reaches_inv(s0, es, s, n, v);
    lemma_total_const(s.done, k);
}

/// Only the holder writes: any step that moves the counter is an increment
/// by a thread that is inside its critical section.
pub proof fn lemma_only_holder_writes(pre: State, post: State, e: Event)
    requires
        step(pre, post, e),
        post.value != pre.value,
    ensures
        e is Increment,
        pre.phase[actor(e)] == Phase::Critical,
{
}

/// Visibility: while the flag is `UNLOCKED` nothing can move the counter,
/// so the value the releasing thread wrote is still the value in place when
/// the next thread's exchange succeeds — no acquirer sees a stale payload.
pub proof fn lemma_value_stable_while_unlocked(
    pre: State,
    post: State,
    e: Event,
    n: nat,
    v: nat,
)
    requires
        inv(pre, n, v),
        pre.flag == UNLOCKED,
        step(pre, post, e),
    ensures
        post.value == pre.value,
{
}

/// An acquire/release cycle is the identity: from a free lock, the two-step
/// trace of thread `t` entering and leaving returns the system to exactly
/// the snapshot it started from — flag `UNLOCKED`, payload untouched.
pub proof fn lemma_cycle_restores(s: State, t: int)
    requires
        wf(s),
        s.flag == UNLOCKED,
        0 <= t < s.phase.len(),
        s.phase[t] == Phase::Idle,
    ensures
        reaches(s, seq![Event::Acquire(t), Event::Release(t)], s),
{
    let mid = State {
        flag: LOCKED,
        phase: s.phase.update(t, Phase::Critical),
        done: s.done,
        value: s.value,
    };
    let es = seq![Event::Acquire(t), Event::Release(t)];
    let es1 = seq![Event::Acquire(t)];
    assert(s.phase =~= mid.phase.update(t, Phase::Idle));
    assert(es1.drop_last() =~= Seq::<Event>::empty());
    assert(reaches(s, es1.drop_last(), s));
    assert(es1.last() == Event::Acquire(t));
    assert(step(s, mid, es1.last()));
    assert(reaches(s, es1, mid));
    assert(es.drop_last() =~= es1);
    assert(es.last() == Event::Release(t));
    assert(step(mid, s, es.last()));
    assert(reaches(s, es, s));
}

/// An executable run of the protocol, one event at a time: real state, with
/// every operation proved to perform exactly the corresponding transition
/// of the model.  Entry and exit can be watched from outside through
/// `holds`, so overlapping critical sections would be observable — and the
/// transition proofs together with the laws above rule them out.
pub struct Harness {
    flag: bool,
    phases: Vec<Phase>,
    counts: Vec<u64>,
    value: u64,
    n_threads: Ghost<nat>,
    base: Ghost<nat>,
}

impl View for Harness {
    type V = State;

    closed spec fn view(&self) -> State {
        State {
            flag: self.flag,
            phase: self.phases@,
            done: self.counts@.map(|i: int, c: u64| c as nat),
            value: self.value as nat,
        }
    }
}

impl Harness {
    /// The counter value the run started from.
    pub closed spec fn starting_value(self) -> nat {
        self.base@
    }

    /// The run so far is a genuine execution of the protocol: some trace of
    /// events leads from a starting snapshot to the present one.  `begin`
    /// establishes this and every operation preserves it, so it holds of a
    /// harness however it has been driven.
    pub closed spec fn sound(self) -> bool {
        exists|s0: State, es: Seq<Event>|
            init(s0, self.n_threads@, self.base@) && #[trigger] reaches(s0, es, self@)
    }

    /// Starts a run of `threads` threads, all outside the lock, with the
    /// shared counter at `start`.
    pub fn begin(threads: usize, start: u64) -> (h: Harness)
        ensures
            init(h@, threads as nat, start as nat),
            h.sound(),
            h.starting_value() == start as nat,
    {
        let mut phases: Vec<Phase> = Vec::new();
        let mut counts: Vec<u64> = Vec::new();
        let mut i: usize = 0;
        while i < threads
            invariant
                i <= threads,
                phases@.len() == i,
                counts@.len() == i,
                forall|j: int| 0 <= j < i ==> phases@[j] == Phase::Idle,
                forall|j: int| 0 <= j < i ==> counts@[j] == 0,
            decreases threads - i,
        {
            phases.push(Phase::Idle);
            counts.push(0);
            i += 1;
        }
        let h = Harness {
            flag: UNLOCKED,
            phases,
            counts,
            value: start,
            n_threads: Ghost(threads as nat),
            base: Ghost(start as nat),
        };
        assert forall|j: int| 0 <= j < threads implies h@.done[j] == 0 by {}
        proof {
            assert(reaches(h@, Seq::<Event>::empty(), h@));
        }
        h
    }

    /// How many threads the run covers.
    pub fn thread_count(&self) -> (n: usize)
        ensures
            n == self@.phase.len(),
    {
        self.phases.len()
    }

    /// Whether thread `t` is currently inside its critical section.
    pub fn holds(&self, t: usize) -> (b: bool)
        requires
            t < self@.phase.len(),
        ensures
            b == (self@.phase[t as int] == Phase::Critical),
    {
        match self.phases[t] {
            Phase::Critical => true,
            Phase::Idle => false,
        }
    }

    /// Whether the flag currently reads `LOCKED`.
    pub fn flag_locked(&self) -> (b: bool)
        ensures
            b == (self@.flag == LOCKED),
    {
        self.flag == LOCKED
    }

    /// The current value of the shared counter.
    pub fn counter(&self) -> (v: u64)
        ensures
            v as nat == self@.value,
    {
        self.value
    }

    /// Thread `t` makes one compare-and-exchange attempt on the flag.  It
    /// enters exactly when the flag was free; a losing attempt changes
    /// nothing at all, as a losing exchange on the real flag changes
    /// nothing.
    pub fn try_enter(&mut self, t: usize) -> (entered: bool)
        requires
            t < old(self)@.phase.len(),
        ensures
            entered == (old(self)@.flag == UNLOCKED && old(self)@.phase[t as int] == Phase::Idle),
            entered ==> acquire(old(self)@, final(self)@, t as int),
            !entered ==> final(self)@ == old(self)@,
            old(self).sound() ==> final(self).sound(),
            final(self).starting_value() == old(self).starting_value(),
    {
        let idle = match self.phases[t] {
            Phase::Idle => true,
            Phase::Critical => false,
        };
        if self.flag == UNLOCKED && idle {
            self.flag = LOCKED;
            self.phases.set(t, Phase::Critical);
            proof {
                if old(self).sound() {
                    let (s0, es) = choose|s0: State, es: Seq<Event>|
                        init(s0, old(self).n_threads@, old(self).base@) && #[trigger] reaches(
                            s0,
                            es,
                            old(self)@,
                        );
                    assert(step(old(self)@, self@, Event::Acquire(t as int)));
                    lemma_reaches_push(s0, es, old(self)@, self@, Event::Acquire(t as int));
                }
            }
            true
        } else {
            assert(final(self)@ =~= old(self)@);
            false
        }
    }

    /// Thread `t`, inside its critical section, bumps the shared counter.
    pub fn bump(&mut self, t: usize)
        requires
            wf(old(self)@),
            t < old(self)@.phase.len(),
            old(self)@.phase[t as int] == Phase::Critical,
            old(self)@.value < u64::MAX,
            old(self)@.done[t as int] < u64::MAX,
        ensures
            increment(old(self)@, final(self)@, t as int),
            old(self).sound() ==> final(self).sound(),
            final(self).starting_value() == old(self).starting_value(),
    {
        let c: u64 = self.counts[t];
        self.counts.set(t, c + 1);
        self.value = self.value + 1;
        assert(final(self)@.done =~= old(self)@.done.update(
            t as int,
            (old(self)@.done[t as int] + 1) as nat,
        ));
        proof {
            if old(self).sound() {
                let (s0, es) = choose|s0: State, es: Seq<Event>|
                    init(s0, old(self).n_threads@, old(self).base@) && #[trigger] reaches(
                        s0,
                        es,
                        old(self)@,
                    );
                assert(step(old(self)@, self@, Event::Increment(t as int)));
                lemma_reaches_push(s0, es, old(self)@, self@, Event::Increment(t as int));
            }
        }
    }

    /// Thread `t` stores `UNLOCKED` back into the flag and leaves.
    pub fn leave(&mut self, t: usize)
        requires
            t < old(self)@.phase.len(),
            old(self)@.phase[t as int] == Phase::Critical,
        ensures
            release(old(self)@, final(self)@, t as int),
            old(self).sound() ==> final(self).sound(),
            final(self).starting_value() == old(self).starting_value(),
    {
        self.flag = UNLOCKED;
        self.phases.set(t, Phase::Idle);
        proof {
            if old(self).sound() {
                let (s0, es) = choose|s0: State, es: Seq<Event>|
                    init(s0, old(self).n_threads@, old(self).base@) && #[trigger] reaches(
                        s0,
                        es,
                        old(self)@,
                    );
                assert(step(old(self)@, self@, Event::Release(t as int)));
                lemma_reaches_push(s0, es, old(self)@, self@, Event::Release(t as int));
            }
        }
    }
}

/// However an unverified driver has exercised a harness, no two threads are
/// ever inside their critical sections at once.
pub proof fn lemma_harness_exclusion(h: Harness, a: int, b: int)
    requires
        h.sound(),
        0 <= a < h@.phase.len(),
        0 <= b < h@.phase.len(),
        h@.phase[a] == Phase::Critical,
        h@.phase[b] == Phase::Critical,
    ensures
        a == b,
{
    let (s0, es) = choose|s0: State, es: Seq<Event>|
        init(s0, h.n_threads@, h.base@) && #[trigger] reaches(s0, es, h@);
    lemma_reaches_inv(s0, es, h@, h.n_threads@, h.base@);
}

/// However a harness has been driven, a free flag means nobody is inside:
/// the payload a releasing thread left behind stays untouched until the
/// next winning exchange.
pub proof fn lemma_harness_free_flag(h: Harness, t: int)
    requires
        h.sound(),
        h@.flag == UNLOCKED,
        0 <= t < h@.phase.len(),
    ensures
        h@.phase[t] != Phase::Critical,
{
    let (s0, es) = choose|s0: State, es: Seq<Event>|
        init(s0, h.n_threads@, h.base@) && #[trigger] reaches(s0, es, h@);
    lemma_reaches_inv(s0, es, h@, h.n_threads@, h.base@);
}

/// However a harness has been driven, once every thread shows `k` completed
/// increments the counter holds exactly the starting value plus `n * k`:
/// no update was lost along the way.
pub proof fn lemma_harness_exact_count(h: Harness, k: nat)
    requires
        h.sound(),
        forall|t: int| 0 <= t < h@.done.len() ==> h@.done[t] == k,
    ensures
        h@.value == h.starting_value() + h@.done.len() * k,
{
    let (s0, es) = choose|s0: State, es: Seq<Event>|
        init(s0, h.n_threads@, h.base@) && #[trigger] reaches(s0, es, h@);
    lemma_reaches_inv(s0, es, h@, h.n_threads@, h.base@);
    lemma_total_const(h@.done, k);
}

/// A free lock is entered in one attempt: an idle thread facing an
/// `UNLOCKED` flag has its `Acquire` step enabled at once, with no spinning
/// beyond that single exchange.
pub proof fn lemma_uncontended_entry(s: State, t: int)
    requires
        wf(s),
        s.flag == UNLOCKED,
        0 <= t < s.phase.len(),
        s.phase[t] == Phase::Idle,
    ensures
        exists|post: State| #[trigger] step(s, post, Event::Acquire(t)),
{
    let post = State {
        flag: LOCKED,
        phase: s.phase.update(t, Phase::Critical),
        done: s.done,
        value: s.value,
    };
    assert(step(s, post, Event::Acquire(t)));
}

} // verus!
