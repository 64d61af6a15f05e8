use vstd::prelude::*;

use crate::text::{decimal, push_decimal};

verus! {

/// The pending deliveries handed out by a broker, not yet waited on.
pub struct DeliveryTracker<H> {
    pending: Vec<H>,
}

impl<H> View for DeliveryTracker<H> {
    type V = Seq<H>;

    closed spec fn view(&self) -> Seq<H> {
        self.pending@
    }
}

impl<H> DeliveryTracker<H> {
    pub fn new() -> (r: DeliveryTracker<H>)
        ensures
            r@ == Seq::<H>::empty(),
    {
        DeliveryTracker { pending: Vec::new() }
    }

    /// Adds a pending delivery.
    pub fn track(&mut self, handle: H)
        ensures
            final(self)@ == old(self)@.push(handle),
    {
        self.pending.push(handle);
    }

    /// Takes out the most recently added pending delivery, if any.
    pub fn take_next(&mut self) -> (r: Option<H>)
        ensures
            old(self)@.len() == 0 ==> r is None && final(self)@ == old(self)@,
            old(self)@.len() > 0 ==> r == Some(old(self)@.last()) && final(self)@ == old(
                self,
            )@.drop_last(),
    {
        self.pending.pop()
    }

    pub fn len(&self) -> (r: usize)
        ensures
            r == self@.len(),
    {
        self.pending.len()
    }

    pub fn is_empty(&self) -> (r: bool)
        ensures
            r == (self@.len() == 0),
    {
        self.pending.len() == 0
    }
}

/// The phases of the background loop that resolves pending deliveries.
#[derive(Debug, Clone, Copy, PartialEq, Eq, Structural)]
pub enum FlushPhase {
    /// Draining on every tick while the stream is open.
    Running,
    /// The stream was closed: one last drain before stopping.
    Closing,
    /// Drained after the close; nothing was left pending.
    Stopped,
}

/// What the loop asks its runner to do next.
pub enum FlushAction<H> {
    /// Wait for this delivery to resolve and report its outcome.
    Resolve(H),
    /// Sleep until the next tick.
    Sleep,
    /// Return: the stream is closed and drained.
    Finish,
}

/// One step of the flush loop from `phase` with `pending` outstanding and the
/// stream's open flag at `running`: the new phase, what stays pending, and the
/// action. While deliveries are pending, the most recent one is taken out to
/// be resolved; when none is, the loop sleeps while the stream is open and
/// finishes once it has been closed.
pub open spec fn flush_step<H>(phase: FlushPhase, pending: Seq<H>, running: bool) -> (
    FlushPhase,
    Seq<H>,
    FlushAction<H>,
) {
    let closing = phase != FlushPhase::Running || !running;
    if pending.len() > 0 {
        (
            if closing {
                FlushPhase::Closing
            } else {
                FlushPhase::Running
            },
            pending.drop_last(),
            FlushAction::Resolve(pending.last()),
        )
    } else if closing {
        (FlushPhase::Stopped, pending, FlushAction::Finish)
    } else {
        (FlushPhase::Running, pending, FlushAction::Sleep)
    }
}

/// The phase and the pending deliveries after `n` steps taken with the
/// stream closed and nothing tracked meanwhile.
pub open spec fn closed_steps<H>(phase: FlushPhase, pending: Seq<H>, n: nat) -> (FlushPhase, Seq<H>)
    decreases n,
{
    if n == 0 {
        (phase, pending)
    } else {
        let prev = closed_steps(phase, pending, (n - 1) as nat);
        let next = flush_step(prev.0, prev.1, false);
        (next.0, next.1)
    }
}

/// Once the stream is closed, the loop takes out one pending delivery per
/// step, the most recent first, and does not finish while any is left; the
/// step after the last one finishes with nothing pending.
pub proof fn lemma_close_drains_all<H>(phase: FlushPhase, pending: Seq<H>, n: nat)
    requires
        n <= pending.len(),
    ensures
        closed_steps(phase, pending, n).1 == pending.subrange(0, pending.len() - n),
        n < pending.len() ==> flush_step(
            closed_steps(phase, pending, n).0,
            closed_steps(phase, pending, n).1,
            false,
        ).2 == FlushAction::Resolve(pending[pending.len() - n - 1]),
        n == pending.len() ==> flush_step(
            closed_steps(phase, pending, n).0,
            closed_steps(phase, pending, n).1,
            false,
        ).2 is Finish,
    decreases n,
{
    if n > 0 {
        lemma_close_drains_all(phase, pending, (n - 1) as nat);
        let prev = closed_steps(phase, pending, (n - 1) as nat);
        assert(prev.1.drop_last() =~= pending.subrange(0, pending.len() - n));
    } else {
        assert(pending.subrange(0, pending.len() as int) =~= pending);
    }
}

/// The decisions of the background loop that resolves pending deliveries.
pub struct FlushLoop {
    pub phase: FlushPhase,
}

impl FlushLoop {
    pub fn new() -> (r: FlushLoop)
        ensures
            r.phase == FlushPhase::Running,
    {
        FlushLoop { phase: FlushPhase::Running }
    }

    /// One step of the loop. `running` is the stream's open flag as read at
    /// this step. While deliveries are pending, the most recent one is taken
    /// out to be resolved; when none is, the loop sleeps while the stream is
    /// open and finishes once it has been closed. It never finishes while a
    /// delivery is pending, and never puts one back.
    pub fn step<H>(&mut self, tracker: &mut DeliveryTracker<H>, running: bool) -> (r: FlushAction<H>)
        ensures
            (final(self).phase, final(tracker)@, r) == flush_step(old(self).phase, old(tracker)@, running),
            r is Finish ==> final(tracker)@.len() == 0,
            old(tracker)@.len() > 0 ==> !(r is Finish),
    {
        let closing = !matches!(self.phase, FlushPhase::Running) || !running;
        match tracker.take_next() {
            Some(h) => {
                self.phase = if closing {
                    FlushPhase::Closing
                } else {
                    FlushPhase::Running
                };
                FlushAction::Resolve(h)
            },
            None => {
                if closing {
                    self.phase = FlushPhase::Stopped;
                    FlushAction::Finish
                } else {
                    FlushAction::Sleep
                }
            },
        }
    }
}

/// How a pending delivery resolved.
pub enum DeliveryOutcome {
    /// The broker stored the record at this partition and offset.
    Delivered { partition: i32, offset: i64 },
    /// The broker refused the record; the payload is the record's text when
    /// it was valid UTF-8.
    Rejected { reason: String, payload: Option<String> },
    /// The send was abandoned before it resolved.
    Cancelled,
}

/// The report line for a delivery outcome.
pub open spec fn report_text(o: DeliveryOutcome) -> Seq<char> {
    match o {
        DeliveryOutcome::Delivered { partition, offset } => "Sent: partition "@ + signed_decimal(
            partition as int,
        ) + " offset "@ + signed_decimal(offset as int),
        DeliveryOutcome::Rejected { reason, payload } => "Error: "@ + reason@ + " "@ + match payload {
            Some(p) => p@,
            None => Seq::empty(),
        },
        DeliveryOutcome::Cancelled => "Cancelled"@,
    }
}

/// The decimal rendering of an integer, with a leading `-` when negative.
pub open spec fn signed_decimal(n: int) -> Seq<char> {
    if n < 0 {
        "-"@ + decimal((-n) as nat)
    } else {
        decimal(n as nat)
    }
}

fn push_signed(out: &mut String, n: i64)
    ensures
        final(out)@ == old(out)@ + signed_decimal(n as int),
{
    if n < 0 {
        out.append("-");
        let m: u64 = if n == i64::MIN {
            9_223_372_036_854_775_808u64
        } else {
            (-n) as u64
        };
        push_decimal(out, m);
        assert(out@ =~= old(out)@ + signed_decimal(n as int));
    } else {
        push_decimal(out, n as u64);
    }
}

impl DeliveryOutcome {
    /// The line that reports this outcome.
    pub fn report(&self) -> (r: String)
        ensures
            r@ == report_text(*self),
    {
        match self {
            DeliveryOutcome::Delivered { partition, offset } => {
                let mut out = String::from_str("Sent: partition ");
                push_signed(&mut out, *partition as i64);
                out.append(" offset ");
                push_signed(&mut out, *offset);
                out
            },
            DeliveryOutcome::Rejected { reason, payload } => {
                let mut out = String::from_str("Error: ");
                out.append(reason.as_str());
                out.append(" ");
                match payload {
                    Some(p) => out.append(p.as_str()),
                    None => {},
                }
                assert(out@ =~= report_text(*self));
                out
            },
            DeliveryOutcome::Cancelled => String::from_str("Cancelled"),
        }
    }
}

} // verus!
