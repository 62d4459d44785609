//! Suspension primitives and the board binding. A primitive is a small
//! pollable state machine: polling it either yields its output or asks to be
//! polled again. The board binding bundles the CPU, tty and systick drivers a
//! program runs on.

use vstd::prelude::*;

use crate::driver::{CpuDriver, SysTickDriver, TtyDriver};

verus! {

/// A value that completes after being polled enough times: `poll` returns
/// `Some` output once ready, `None` to be polled again. The millisecond clock
/// is handed to every poll so timed primitives need no ambient state.
pub trait Pollable {
    /// What the computation produces when it completes.
    type Output;

    /// Advance once.
    fn poll(&mut self, now_ms: u32) -> Option<Self::Output>;
}

/// Completes on its second poll: the cooperative scheduling point.
pub struct YieldNow {
    yielded: bool,
}

impl YieldNow {
    /// Whether the first poll already happened.
    pub closed spec fn already_yielded(&self) -> bool {
        self.yielded
    }

    /// Advance once: the first poll asks to be re-polled, the second
    /// completes.
    pub fn poll_once(&mut self) -> (r: Option<()>)
        ensures
            old(self).already_yielded() ==> r == Some(()) && final(self).already_yielded(),
            !old(self).already_yielded() ==> r is None && final(self).already_yielded(),
    {
        if self.yielded {
            Some(())
        } else {
            self.yielded = true;
            None
        }
    }
}

impl Pollable for YieldNow {
    type Output = ();

    fn poll(&mut self, _now_ms: u32) -> Option<()> {
        self.poll_once()
    }
}

/// A fresh scheduling point: pending on its first poll, ready on its second.
pub fn yield_now() -> (r: YieldNow)
    ensures
        !r.already_yielded(),
{
    YieldNow { yielded: false }
}

/// Milliseconds elapsed from `start` to `now` on a clock that wraps at 32
/// bits.
pub open spec fn elapsed_ms(start: u32, now: u32) -> int {
    if now >= start {
        now - start
    } else {
        now + 0x1_0000_0000 - start
    }
}

/// Completes once the wrap-aware millisecond clock has advanced `dur` past
/// `start`.
pub struct SleepMsFuture {
    start: u32,
    dur: u32,
}

impl SleepMsFuture {
    /// The poll time the sleep was created at.
    pub closed spec fn start(&self) -> u32 {
        self.start
    }

    /// How long the sleep lasts.
    pub closed spec fn duration(&self) -> u32 {
        self.dur
    }

    /// Advance once: ready exactly when `dur` milliseconds have elapsed since
    /// `start` under wrap-aware comparison.
    pub fn poll_at(&self, now_ms: u32) -> (r: Option<()>)
        ensures
            r == Some(()) <==> elapsed_ms(self.start(), now_ms) >= self.duration(),
            r is None <==> elapsed_ms(self.start(), now_ms) < self.duration(),
    {
        if now_ms.wrapping_sub(self.start) >= self.dur {
            Some(())
        } else {
            None
        }
    }
}

impl Pollable for SleepMsFuture {
    type Output = ();

    fn poll(&mut self, now_ms: u32) -> Option<()> {
        self.poll_at(now_ms)
    }
}

/// A sleep of `ms` milliseconds starting at `now_ms`.
pub fn sleep_ms(now_ms: u32, ms: u32) -> (r: SleepMsFuture)
    ensures
        r.start() == now_ms,
        r.duration() == ms,
{
    SleepMsFuture { start: now_ms, dur: ms }
}

/// A sleep of zero milliseconds is ready at its very first poll, whatever the
/// clock reads: it never suspends the task that awaits it, where a yield
/// always suspends once.
pub proof fn lemma_sleep_zero_always_ready(s: SleepMsFuture, now: u32)
    requires
        s.duration() == 0,
    ensures
        elapsed_ms(s.start(), now) >= s.duration(),
{
}

/// Drives two pollable values and completes when both have completed,
/// yielding the pair of outputs.
pub struct Join2<F1: Pollable, F2: Pollable> {
    future1: F1,
    future2: F2,
    future1_done: bool,
    future2_done: bool,
    output1: Option<F1::Output>,
    output2: Option<F2::Output>,
}

impl<F1: Pollable, F2: Pollable> Join2<F1, F2> {
    /// Whether the first branch has completed.
    pub closed spec fn done1(&self) -> bool {
        self.future1_done
    }

    /// Whether the second branch has completed.
    pub closed spec fn done2(&self) -> bool {
        self.future2_done
    }

    /// Whether the first branch's output is held, waiting for the other.
    pub closed spec fn holds_out1(&self) -> bool {
        self.output1 is Some
    }

    /// Whether the second branch's output is held, waiting for the other.
    pub closed spec fn holds_out2(&self) -> bool {
        self.output2 is Some
    }

    /// A completed branch holds its output until the pair is handed out.
    pub open spec fn wf(&self) -> bool {
        &&& (self.done1() ==> self.holds_out1())
        &&& (self.done2() ==> self.holds_out2())
    }

    /// Pair two computations.
    pub fn new(future1: F1, future2: F2) -> (r: Self)
        ensures
            !r.done1(),
            !r.done2(),
            r.wf(),
    {
        Join2 {
            future1,
            future2,
            future1_done: false,
            future2_done: false,
            output1: None,
            output2: None,
        }
    }

    /// Advance both branches once each (skipping completed ones); completes
    /// exactly at the first poll at which both have completed, handing the
    /// pair of outputs out. A completed branch is never polled again.
    pub fn poll_both(&mut self, now_ms: u32) -> (r: Option<(F1::Output, F2::Output)>)
        ensures
            old(self).done1() ==> final(self).done1(),
            old(self).done2() ==> final(self).done2(),
            old(self).wf() ==> (r is Some <==> final(self).done1() && final(self).done2()),
            r is Some ==> !final(self).holds_out1() && !final(self).holds_out2(),
            old(self).wf() && r is None ==> final(self).wf(),
    {
        if !self.future1_done {
            match self.future1.poll(now_ms) {
                Some(output) => {
                    self.output1 = Some(output);
                    self.future1_done = true;
                },
                None => {},
            }
        }
        if !self.future2_done {
            match self.future2.poll(now_ms) {
                Some(output) => {
                    self.output2 = Some(output);
                    self.future2_done = true;
                },
                None => {},
            }
        }
        if self.future1_done && self.future2_done {
            let mut o1: Option<F1::Output> = None;
            let mut o2: Option<F2::Output> = None;
            core::mem::swap(&mut o1, &mut self.output1);
            core::mem::swap(&mut o2, &mut self.output2);
            match (o1, o2) {
                (Some(a), Some(b)) => Some((a, b)),
                _ => None,  // only after a completed pair was already taken
            }
        } else {
            None
        }
    }
}

impl<F1: Pollable, F2: Pollable> Pollable for Join2<F1, F2> {
    type Output = (F1::Output, F2::Output);

    fn poll(&mut self, now_ms: u32) -> Option<(F1::Output, F2::Output)> {
        self.poll_both(now_ms)
    }
}

/// Pair two computations; completes when both have completed.
pub fn join<F1: Pollable, F2: Pollable>(future1: F1, future2: F2) -> (r: Join2<F1, F2>)
    ensures
        !r.done1(),
        !r.done2(),
{
    Join2::new(future1, future2)
}

/// Which branch of a select completed first.
pub enum Select2Output<T1, T2> {
    /// The first branch won, with its output.
    Future1(T1),
    /// The second branch won, with its output.
    Future2(T2),
}

/// Drives two pollable values and completes with the first that completes;
/// the loser is simply dropped with the select.
pub struct Select2<F1: Pollable, F2: Pollable> {
    future1: F1,
    future2: F2,
    future1_done: bool,
    future2_done: bool,
}

impl<F1: Pollable, F2: Pollable> Select2<F1, F2> {
    /// Whether the first branch has completed.
    pub closed spec fn done1(&self) -> bool {
        self.future1_done
    }

    /// Whether the second branch has completed.
    pub closed spec fn done2(&self) -> bool {
        self.future2_done
    }

    /// Race two computations.
    pub fn new(future1: F1, future2: F2) -> (r: Self)
        ensures
            !r.done1(),
            !r.done2(),
    {
        Select2 { future1, future2, future1_done: false, future2_done: false }
    }

    /// Advance the first branch, then the second; completes with the first
    /// output to arrive, exactly when a branch's done flag flips. The first
    /// branch is tried first on every poll; a pending poll changes no flag.
    pub fn poll_either(&mut self, now_ms: u32) -> (r: Option<Select2Output<F1::Output, F2::Output>>)
        ensures
            r matches Some(Select2Output::Future1(_)) ==> final(self).done1() && !old(self).done1()
                && final(self).done2() == old(self).done2(),
            r matches Some(Select2Output::Future2(_)) ==> final(self).done2() && !old(self).done2()
                && final(self).done1() == old(self).done1(),
            r is Some <==> ((final(self).done1() && !old(self).done1()) || (final(self).done2()
                && !old(self).done2())),
            r is None ==> final(self).done1() == old(self).done1() && final(self).done2() == old(
                self,
            ).done2(),
    {
        if !self.future1_done {
            match self.future1.poll(now_ms) {
                Some(output) => {
                    self.future1_done = true;
                    return Some(Select2Output::Future1(output));
                },
                None => {},
            }
        }
        if !self.future2_done {
            match self.future2.poll(now_ms) {
                Some(output) => {
                    self.future2_done = true;
                    return Some(Select2Output::Future2(output));
                },
                None => {},
            }
        }
        None
    }
}

impl<F1: Pollable, F2: Pollable> Pollable for Select2<F1, F2> {
    type Output = Select2Output<F1::Output, F2::Output>;

    fn poll(&mut self, now_ms: u32) -> Option<Select2Output<F1::Output, F2::Output>> {
        self.poll_either(now_ms)
    }
}

/// Race two computations; completes with the first to complete.
pub fn select<F1: Pollable, F2: Pollable>(future1: F1, future2: F2) -> (r: Select2<F1, F2>)
    ensures
        !r.done1(),
        !r.done2(),
{
    Select2::new(future1, future2)
}

/// The millisecond clock of a board's systick.
pub fn get_system_ms<S: SysTickDriver>(systick: &mut S) -> u32 {
    systick.get_system_ms()
}

/// Busy-wait on a board's systick.
pub fn delay_ms<S: SysTickDriver>(systick: &mut S, ms: u32) {
    systick.delay_ms(ms)
}

/// The board binding: the CPU-reset hook, the character I/O and the
/// monotonic clock a program runs on, bundled once at boot and reachable
/// through its accessors from then on.
pub struct SimpleOs<Cp: CpuDriver, T: TtyDriver, S: SysTickDriver> {
    cpu: Cp,
    tty: T,
    systick: S,
}

impl<Cp: CpuDriver, T: TtyDriver, S: SysTickDriver> SimpleOs<Cp, T, S> {
    /// Install the board's drivers. Every later access goes through the
    /// returned binding.
    pub fn init(cpu: Cp, tty: T, systick: S) -> (r: Self)
        ensures
            r.is_initialized(),
    {
        SimpleOs { cpu, tty, systick }
    }

    /// A constructed binding always holds its three drivers.
    pub open spec fn is_initialized(&self) -> bool {
        true
    }

    /// The CPU driver.
    pub fn cpu(&mut self) -> (r: &mut Cp)
        ensures
            *r == old(self).cpu_view(),
            final(self).cpu_view() == *final(r),
            final(self).tty_view() == old(self).tty_view(),
            final(self).systick_view() == old(self).systick_view(),
    {
        &mut self.cpu
    }

    /// The character I/O driver.
    pub fn tty(&mut self) -> (r: &mut T)
        ensures
            *r == old(self).tty_view(),
            final(self).tty_view() == *final(r),
            final(self).cpu_view() == old(self).cpu_view(),
            final(self).systick_view() == old(self).systick_view(),
    {
        &mut self.tty
    }

    /// The monotonic clock driver.
    pub fn systick(&mut self) -> (r: &mut S)
        ensures
            *r == old(self).systick_view(),
            final(self).systick_view() == *final(r),
            final(self).cpu_view() == old(self).cpu_view(),
            final(self).tty_view() == old(self).tty_view(),
    {
        &mut self.systick
    }

    /// The stored CPU driver value.
    pub closed spec fn cpu_view(&self) -> Cp {
        self.cpu
    }

    /// The stored tty driver value.
    pub closed spec fn tty_view(&self) -> T {
        self.tty
    }

    /// The stored systick driver value.
    pub closed spec fn systick_view(&self) -> S {
        self.systick
    }
}

} // verus!
