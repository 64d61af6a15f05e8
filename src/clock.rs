use vstd::prelude::*;

use crate::record::{
    body_json, code_json, json_quoted, level_name, CodeAttributes, TraceError, TraceType,
};
use crate::text::{decimal, joined, push_decimal, push_joined};

verus! {

/// Relies on `time::get_time`: seconds and nanoseconds since the Unix epoch.
/// The nanoseconds lie below one second (`Timespec::new` asserts it).
#[verifier::external_body]
fn wall_clock() -> (r: (i64, i32))
    ensures
        0 <= r.1 < 1_000_000_000,
{
    let t = time::get_time();
    (t.sec, t.nsec)
}

/// Microseconds since the Unix epoch for a time given as seconds and
/// nanoseconds; zero before the epoch, saturated at the largest `u64`.
pub open spec fn micros_of(sec: i64, nsec: i32) -> nat {
    if sec < 0 {
        0
    } else {
        let m = sec as nat * 1_000_000 + nsec as nat / 1000;
        if m > u64::MAX {
            u64::MAX as nat
        } else {
            m
        }
    }
}

/// Converts a time given as seconds and nanoseconds since the Unix epoch to
/// microseconds.
pub fn micros_since_epoch(sec: i64, nsec: i32) -> (r: u64)
    requires
        0 <= nsec < 1_000_000_000,
    ensures
        r as nat == micros_of(sec, nsec),
{
    if sec < 0 {
        return 0;
    }
    let s = sec as u64;
    let frac = (nsec as u64) / 1000;
    if s > (u64::MAX - frac) / 1_000_000 {
        assert(s * 1_000_000 + frac > u64::MAX) by (nonlinear_arith)
            requires
                s > (u64::MAX - frac) / 1_000_000,
                frac <= u64::MAX,
        ;
        u64::MAX
    } else {
        assert(s * 1_000_000 + frac <= u64::MAX) by (nonlinear_arith)
            requires
                s <= (u64::MAX - frac) / 1_000_000,
                frac <= u64::MAX,
        ;
        s * 1_000_000 + frac
    }
}

/// The current time in microseconds since the Unix epoch.
pub fn timestamp() -> (r: u64)
    ensures
        exists|sec: i64, nsec: i32| 0 <= nsec < 1_000_000_000 && r as nat == micros_of(sec, nsec),
{
    let (sec, nsec) = wall_clock();
    micros_since_epoch(sec, nsec)
}

/// The state of a causal clock: the owning context, the vector of counters
/// (one per fork depth) and the time of the latest event.
pub struct ClockView {
    pub context_id: u64,
    pub path: Seq<u64>,
    pub epoch: u64,
}

/// The path after one event: the last counter goes up by one.
pub open spec fn bump_path(p: Seq<u64>) -> Seq<u64> {
    p.update(p.len() - 1, (p.last() + 1) as u64)
}

/// The path after `n` events.
pub open spec fn bumps(p: Seq<u64>, n: nat) -> Seq<u64>
    decreases n,
{
    if n == 0 {
        p
    } else {
        bump_path(bumps(p, (n - 1) as nat))
    }
}

/// The path of a child forked off a parent whose path was `p`: the parent's
/// path after the fork event, with a new counter at zero.
pub open spec fn forked_path(p: Seq<u64>) -> Seq<u64> {
    bump_path(p).push(0)
}

/// The rendering of a clock used as a record's key.
pub open spec fn key_text(c: ClockView) -> Seq<char> {
    "EventGenerator { thread_id: "@ + decimal(c.context_id as nat) + ", event_id: ["@ + joined(
        c.path,
        ", "@,
    ) + "], epoch: "@ + decimal(c.epoch as nat) + " }"@
}

/// The human-readable rendering of a clock.
pub open spec fn display_text(c: ClockView) -> Seq<char> {
    "Thread id "@ + decimal(c.context_id as nat) + ", Event id ["@ + joined(c.path, ", "@)
        + "] epoch "@ + decimal(c.epoch as nat)
}

/// The JSON document of a trace record, given the JSON text of the code
/// attributes' strings and of the body.
pub open spec fn record_text(
    c: ClockView,
    level: TraceType,
    module: Seq<char>,
    function: Seq<char>,
    line_no: u32,
    format: Seq<char>,
    body: Seq<char>,
) -> Seq<char> {
    "{\"header\":{\"context_id\":"@ + decimal(c.context_id as nat) + ",\"path\":["@ + joined(
        c.path,
        ","@,
    ) + "],\"epoch_us\":"@ + decimal(c.epoch as nat) + "},\"level\":\""@ + level_name(level)
        + "\",\"code\":{\"module\":"@ + module + ",\"function\":"@ + function + ",\"line_no\":"@
        + decimal(line_no as nat) + ",\"format\":"@ + format + "},\"body\":"@ + body + "}"@
}

/// A causal clock owned by one execution context.
pub struct EventGenerator {
    thread_id: u64,
    event_id: Vec<u64>,
    epoch: u64,
}

impl View for EventGenerator {
    type V = ClockView;

    closed spec fn view(&self) -> ClockView {
        ClockView { context_id: self.thread_id, path: self.event_id@, epoch: self.epoch }
    }
}

impl EventGenerator {
    /// A clock can be used once its path holds at least one counter.
    pub open spec fn wf(&self) -> bool {
        self@.path.len() >= 1
    }

    /// Whether one more event fits in the last counter.
    pub open spec fn can_bump(&self) -> bool {
        self.wf() && self@.path.last() < u64::MAX
    }

    /// A root clock for a context, at depth one with its counter at zero,
    /// stamped with the given time.
    pub fn root(context_id: u64, epoch: u64) -> (r: EventGenerator)
        ensures
            r@ == (ClockView { context_id, path: seq![0u64], epoch }),
            r.wf(),
    {
        let event_id: Vec<u64> = vec![0u64];
        assert(event_id@ =~= seq![0u64]);
        EventGenerator { thread_id: context_id, event_id, epoch }
    }

    /// A root clock for a context, stamped with the current time.
    pub fn new(context_id: u64) -> (r: EventGenerator)
        ensures
            r@.context_id == context_id,
            r@.path == seq![0u64],
            r.wf(),
    {
        let now = timestamp();
        EventGenerator::root(context_id, now)
    }

    pub fn context_id(&self) -> (r: u64)
        ensures
            r == self@.context_id,
    {
        self.thread_id
    }

    pub fn path(&self) -> (r: &Vec<u64>)
        ensures
            r@ == self@.path,
    {
        &self.event_id
    }

    pub fn epoch(&self) -> (r: u64)
        ensures
            r == self@.epoch,
    {
        self.epoch
    }

    /// The last counter of the path.
    pub fn counter(&self) -> (r: u64)
        requires
            self.wf(),
        ensures
            r == self@.path.last(),
    {
        self.event_id[self.event_id.len() - 1]
    }

    /// A copy of the clock's current state.
    pub fn snapshot(&self) -> (r: EventGenerator)
        ensures
            r@ == self@,
    {
        let mut event_id: Vec<u64> = Vec::new();
        let mut i: usize = 0;
        while i < self.event_id.len()
            invariant
                0 <= i <= self.event_id@.len(),
                event_id@ == self.event_id@.subrange(0, i as int),
            decreases self.event_id@.len() - i,
        {
            event_id.push(self.event_id[i]);
            i = i + 1;
            assert(event_id@ =~= self.event_id@.subrange(0, i as int));
        }
        assert(event_id@ =~= self.event_id@);
        EventGenerator { thread_id: self.thread_id, event_id, epoch: self.epoch }
    }

    /// Gives the clock to another context.
    pub fn set_context_id(&mut self, context_id: u64)
        ensures
            final(self)@ == (ClockView { context_id, ..old(self)@ }),
    {
        self.thread_id = context_id;
    }

    /// Records one event at time `now`: the last counter goes up by one.
    /// Returns the state after the event.
    pub fn bump_at(&mut self, now: u64) -> (r: EventGenerator)
        requires
            old(self).can_bump(),
        ensures
            final(self)@ == (ClockView { path: bump_path(old(self)@.path), epoch: now, ..old(self)@ }),
            final(self).wf(),
            r@ == final(self)@,
    {
        let last = self.event_id.len() - 1;
        let v = self.event_id[last];
        self.event_id.set(last, v + 1);
        self.epoch = now;
        self.snapshot()
    }

    /// Records one event at the current time. Returns the state after it.
    pub fn bump(&mut self) -> (r: EventGenerator)
        requires
            old(self).can_bump(),
        ensures
            final(self)@.context_id == old(self)@.context_id,
            final(self)@.path == bump_path(old(self)@.path),
            final(self).wf(),
            r@ == final(self)@,
    {
        let now = timestamp();
        self.bump_at(now)
    }

    /// Forks a clock for a new context. The fork is an event of this clock;
    /// the child's path is this clock's path after it, with a new counter at
    /// zero, and the child carries the same time.
    pub fn fork(&mut self) -> (r: EventGenerator)
        requires
            old(self).can_bump(),
        ensures
            final(self)@.context_id == old(self)@.context_id,
            final(self)@.path == bump_path(old(self)@.path),
            final(self).wf(),
            r@ == (ClockView { path: final(self)@.path.push(0), ..final(self)@ }),
            r@.path == forked_path(old(self)@.path),
            r@.path.len() == old(self)@.path.len() + 1,
            r.wf(),
    {
        let mut child = self.bump();
        child.event_id.push(0);
        child
    }

    /// The clock's key text.
    pub fn key(&self) -> (r: String)
        ensures
            r@ == key_text(self@),
    {
        let mut out = String::from_str("EventGenerator { thread_id: ");
        push_decimal(&mut out, self.thread_id);
        out.append(", event_id: [");
        push_joined(&mut out, &self.event_id, ", ");
        out.append("], epoch: ");
        push_decimal(&mut out, self.epoch);
        out.append(" }");
        out
    }

    /// The clock's human-readable text.
    pub fn to_text(&self) -> (r: String)
        ensures
            r@ == display_text(self@),
    {
        let mut out = String::from_str("Thread id ");
        push_decimal(&mut out, self.thread_id);
        out.append(", Event id [");
        push_joined(&mut out, &self.event_id, ", ");
        out.append("] epoch ");
        push_decimal(&mut out, self.epoch);
        out
    }
}

/// The JSON document of a record for the clock state `header`, given the JSON
/// text of the call site's strings and of the body.
pub fn record_document(
    header: &EventGenerator,
    level: TraceType,
    module: &str,
    function: &str,
    line_no: u32,
    format: &str,
    body: &str,
) -> (r: String)
    ensures
        r@ == record_text(header@, level, module@, function@, line_no, format@, body@),
{
    let mut out = String::from_str("{\"header\":{\"context_id\":");
    push_decimal(&mut out, header.context_id());
    out.append(",\"path\":[");
    push_joined(&mut out, header.path(), ",");
    out.append("],\"epoch_us\":");
    push_decimal(&mut out, header.epoch());
    out.append("},\"level\":\"");
    out.append(level.name());
    out.append("\",\"code\":{\"module\":");
    out.append(module);
    out.append(",\"function\":");
    out.append(function);
    out.append(",\"line_no\":");
    push_decimal(&mut out, line_no as u64);
    out.append(",\"format\":");
    out.append(format);
    out.append("},\"body\":");
    out.append(body);
    out.append("}");
    out
}

impl EventGenerator {
    /// Renders this clock state as a record: the key is the clock's text, the
    /// document is the record of this state with the level, the call site and
    /// the body.
    pub fn render(
        &self,
        level: TraceType,
        code: &CodeAttributes,
        body: &serde_json::Value,
    ) -> (r: (String, String))
        ensures
            r.0@ == key_text(self@),
            exists|b: Seq<char>|
                r.1@ == record_text(
                    self@,
                    level,
                    json_quoted(code.module@),
                    json_quoted(code.function@),
                    code.line_no,
                    json_quoted(code.format@),
                    b,
                ),
    {
        let (m, f, fm) = code_json(code).unwrap();
        let b = body_json(body).unwrap();
        let doc = record_document(self, level, m.as_str(), f.as_str(), code.line_no, fm.as_str(), b.as_str());
        (self.key(), doc)
    }

    /// Records one event and renders the state after it, as `render` does.
    pub fn build_entry(
        &mut self,
        level: TraceType,
        code: &CodeAttributes,
        body: &serde_json::Value,
    ) -> (r: Result<(String, String), TraceError>)
        requires
            old(self).can_bump(),
        ensures
            final(self)@.context_id == old(self)@.context_id,
            final(self)@.path == bump_path(old(self)@.path),
            final(self).wf(),
            r is Ok,
            r matches Ok(kd) ==> kd.0@ == key_text(final(self)@) && exists|b: Seq<char>|
                kd.1@ == record_text(
                    final(self)@,
                    level,
                    json_quoted(code.module@),
                    json_quoted(code.function@),
                    code.line_no,
                    json_quoted(code.format@),
                    b,
                ),
    {
        let mark = self.bump();
        Ok(mark.render(level, code, body))
    }
}

/// After `n` events on a path whose last counter is `p.last()`, the last
/// counter is `p.last() + n`, and the path keeps its length and every earlier
/// counter.
pub proof fn lemma_bumps_advance(p: Seq<u64>, n: nat)
    requires
        p.len() >= 1,
        p.last() + n <= u64::MAX,
    ensures
        bumps(p, n) == p.update(p.len() - 1, (p.last() + n) as u64),
    decreases n,
{
    if n > 0 {
        lemma_bumps_advance(p, (n - 1) as nat);
        assert(bumps(p, n) =~= p.update(p.len() - 1, (p.last() + n) as u64));
    } else {
        assert(p.update(p.len() - 1, p.last()) =~= p);
    }
}

/// A root clock that has recorded `n` events has the path `[n]`.
pub proof fn lemma_root_counts_events(n: nat)
    requires
        n <= u64::MAX,
    ensures
        bumps(seq![0u64], n) == seq![n as u64],
{
    lemma_bumps_advance(seq![0u64], n);
    assert(seq![0u64].update(0, n as u64) =~= seq![n as u64]);
}

/// A child's path is one longer than its parent's, ends in zero, and agrees
/// with the parent's path after the fork event everywhere else.
pub proof fn lemma_fork_shape(p: Seq<u64>)
    requires
        p.len() >= 1,
        p.last() < u64::MAX,
    ensures
        forked_path(p).len() == p.len() + 1,
        forked_path(p).last() == 0,
        forked_path(p).drop_last() == bump_path(p),
        forked_path(p).subrange(0, p.len() - 1) == p.drop_last(),
{
    assert(forked_path(p).drop_last() =~= bump_path(p));
    assert(forked_path(p).subrange(0, p.len() - 1) =~= p.drop_last());
}

/// Two children forked one after the other off the same parent state are
/// distinct: they share the parent's frozen ancestors, both end in zero, and
/// differ in the parent's counter, which each fork advanced.
pub proof fn lemma_sibling_forks(p: Seq<u64>)
    requires
        p.len() >= 1,
        p.last() + 2 <= u64::MAX,
    ensures
        ({
            let first = forked_path(p);
            let second = forked_path(bump_path(p));
            &&& first.len() == second.len() == p.len() + 1
            &&& first.last() == 0 && second.last() == 0
            &&& first.subrange(0, p.len() - 1) == second.subrange(0, p.len() - 1)
            &&& first.subrange(0, p.len() - 1) == p.drop_last()
            &&& first[p.len() - 1] == p.last() + 1
            &&& second[p.len() - 1] == p.last() + 2
            &&& first != second
        }),
{
    let first = forked_path(p);
    let second = forked_path(bump_path(p));
    lemma_fork_shape(p);
    lemma_fork_shape(bump_path(p));
    assert(bump_path(p).drop_last() =~= p.drop_last());
    assert(first[p.len() - 1] != second[p.len() - 1]);
}

} // verus!
