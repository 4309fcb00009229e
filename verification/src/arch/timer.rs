//! The programmable interval timer: its programming, the uptime counter its
//! interrupt advances, and the list of software timers.
use vstd::prelude::*;
use crate::arch::port::{PortWrite, port_write};
use crate::arch::pic::PIC0_OCW2;
use crate::linked_list::LinkedList;
use crate::queue::SimpleQueue;

verus! {

pub const PIT_CTRL: i32 = 0x0043;
pub const PIT_CNT0: i32 = 0x0040;
pub const PIT_CNT1: i32 = 0x0041;
pub const PIT_CNT2: i32 = 0x0042;

/// The state of a software timer.
#[derive(Clone, Copy, Debug, PartialEq, Eq, Structural)]
pub enum TimerFlag {
    /// Reserved.
    ALLOC,
    /// Running.
    USING,
}

/// A software timer: when it runs out, `data` is meant to be put on `queue`.
#[derive(Clone, Copy)]
pub struct Timer {
    pub timeout: u32,
    pub flags: TimerFlag,
    pub queue: SimpleQueue<i32>,
    pub data: i32,
}

/// Two timers compare each with itself field by field, so any two timers
/// are equal.
impl PartialEq for Timer {
    fn eq(&self, other: &Timer) -> (r: bool) {
        self.timeout == self.timeout && self.flags == self.flags && self.data == self.data
    }
}

impl vstd::std_specs::cmp::PartialEqSpecImpl for Timer {
    open spec fn obeys_eq_spec() -> bool {
        true
    }

    open spec fn eq_spec(&self, other: &Timer) -> bool {
        true
    }
}

impl Timer {
    /// A timer with an empty queue.
    pub fn new(timeout: u32, flags: TimerFlag, data: i32) -> (r: Timer)
        ensures
            r.timeout == timeout,
            r.flags == flags,
            r.data == data,
            r.queue.wf(),
            r.queue@ == Seq::<i32>::empty(),
    {
        Timer { timeout, flags, queue: SimpleQueue::new(), data }
    }
}

/// The list of software timers and the tick count.
pub struct TimerCtrl {
    count: u32,
    next_timeout: u32,
    linked_list: LinkedList<Timer>,
}

impl TimerCtrl {
    /// Ticks counted.
    pub closed spec fn count(&self) -> u32 {
        self.count
    }

    /// The tick at which the next timer runs out.
    pub closed spec fn next_timeout(&self) -> u32 {
        self.next_timeout
    }

    /// The timers, in list order.
    pub closed spec fn timers(&self) -> Seq<Timer> {
        self.linked_list@
    }

    pub closed spec fn wf(&self) -> bool {
        self.linked_list.wf()
    }

    /// No ticks and no timers yet; the next timeout is `next_timeout`.
    pub fn new(next_timeout: u32) -> (r: TimerCtrl)
        ensures
            r.wf(),
            r.count() == 0,
            r.next_timeout() == next_timeout,
            r.timers() == Seq::<Timer>::empty(),
    {
        TimerCtrl { count: 0, next_timeout, linked_list: LinkedList::new() }
    }

    /// No ticks, no timers, and no timeout pending.
    pub fn init() -> (r: TimerCtrl)
        ensures
            r.wf(),
            r.count() == 0,
            r.next_timeout() == 0xffffffff,
            r.timers() == Seq::<Timer>::empty(),
    {
        TimerCtrl::new(0xffffffff)
    }

    /// Appends `timer` to the list.
    pub fn init_add(&mut self, timer: Timer)
        requires
            old(self).wf(),
        ensures
            final(self).wf(),
            final(self).timers() == old(self).timers().push(timer),
            final(self).count() == old(self).count(),
            final(self).next_timeout() == old(self).next_timeout(),
    {
        let _ = self.linked_list.add(timer);
    }

    /// Puts `timer` at the front of the list.
    pub fn add(&mut self, timer: Timer)
        requires
            old(self).wf(),
        ensures
            final(self).wf(),
            final(self).timers() == old(self).timers().insert(0, timer),
            final(self).count() == old(self).count(),
            final(self).next_timeout() == old(self).next_timeout(),
    {
        let _ = self.linked_list.push_front(timer);
    }

    /// Ticks counted.
    pub fn get_count(&self) -> (r: u32)
        ensures
            r == self.count(),
    {
        self.count
    }
}

/// Programming of the timer: mode 2 on counter 0, with the divisor 0x2e9c
/// (11932, an interrupt each 10 ms) written low byte first.
pub open spec fn timer_init_writes() -> Seq<PortWrite> {
    seq![port_write(PIT_CTRL, 0x34), port_write(PIT_CNT0, 0x9c), port_write(PIT_CNT0, 0x2e)]
}

/// The writes that program the timer, in order.
pub fn timer_init() -> (r: Vec<PortWrite>)
    ensures
        r@ == timer_init_writes(),
{
    let mut v: Vec<PortWrite> = Vec::new();
    v.push(PortWrite::new(PIT_CTRL, 0x34));
    v.push(PortWrite::new(PIT_CNT0, 0x9c));
    v.push(PortWrite::new(PIT_CNT0, 0x2e));
    assert(v@ =~= timer_init_writes());
    v
}

/// The number of timer interrupts since boot.
pub struct UptimeCounter {
    ticks: usize,
}

impl UptimeCounter {
    /// Interrupts counted.
    pub closed spec fn ticks(&self) -> usize {
        self.ticks
    }

    /// No interrupt counted yet.
    pub fn new() -> (r: UptimeCounter)
        ensures
            r.ticks() == 0,
    {
        UptimeCounter { ticks: 0 }
    }

    /// Counts one timer interrupt and gives the write that acknowledges it
    /// to the first controller (specific end of interrupt for IRQ 0).
    pub fn tick(&mut self) -> (r: PortWrite)
        requires
            old(self).ticks() < usize::MAX,
        ensures
            final(self).ticks() == old(self).ticks() + 1,
            r == port_write(PIC0_OCW2, 0x60),
    {
        self.ticks = self.ticks + 1;
        PortWrite::new(PIC0_OCW2, 0x60)
    }
}

/// Timer interrupts since boot.
pub fn get_uptime(counter: &UptimeCounter) -> (r: usize)
    ensures
        r == counter.ticks(),
{
    counter.ticks
}

/// Uptime counts timer interrupts: over a run that starts with nothing
/// counted and in which each step is one interrupt, the count after `i`
/// interrupts is `i`, so it never decreases.
pub proof fn lemma_uptime_counts_ticks(run: Seq<UptimeCounter>)
    requires
        run.len() > 0,
        run[0].ticks() == 0,
        forall|i: int| 0 < i < run.len() ==> #[trigger] run[i].ticks() == run[i - 1].ticks() + 1,
    ensures
        forall|i: int| 0 <= i < run.len() ==> #[trigger] run[i].ticks() == i,
        forall|i: int, j: int| 0 <= i <= j < run.len() ==> run[i].ticks() <= run[j].ticks(),
    decreases run.len(),
{
    if run.len() > 1 {
        let prefix = run.drop_last();
        assert forall|i: int| 0 < i < prefix.len() implies #[trigger] prefix[i].ticks() == prefix[i - 1].ticks() + 1 by {
            assert(prefix[i] == run[i] && prefix[i - 1] == run[i - 1]);
        }
        lemma_uptime_counts_ticks(prefix);
        assert forall|i: int| 0 <= i < run.len() implies #[trigger] run[i].ticks() == i by {
            if i < prefix.len() {
                assert(prefix[i] == run[i]);
            } else {
                assert(prefix[i - 1] == run[i - 1]);
            }
        }
    }
}

} // verus!
