use std::collections::HashMap;
use vstd::prelude::*;

use crate::clock::{bump_path, forked_path, lemma_sibling_forks, key_text, record_text, ClockView, EventGenerator};
use crate::record::{json_quoted, CodeAttributes, TraceError, TraceType};

verus! {

broadcast use vstd::std_specs::hash::group_hash_axioms;

/// The clocks of the live execution contexts, keyed by context identity.
pub struct ClockRegistry {
    clocks: HashMap<u64, EventGenerator>,
}

impl View for ClockRegistry {
    type V = Map<u64, ClockView>;

    closed spec fn view(&self) -> Map<u64, ClockView> {
        self.clocks@.map_values(|c: EventGenerator| c@)
    }
}

/// What one event does to a registry: the clock of `id` goes one counter up
/// and takes a new time; every other entry stays.
pub open spec fn advanced(before: Map<u64, ClockView>, after: Map<u64, ClockView>, id: u64) -> bool {
    &&& after.dom() == before.dom()
    &&& after == before.insert(id, after[id])
    &&& after[id].context_id == before[id].context_id
    &&& after[id].path == bump_path(before[id].path)
}

/// The outcome of tracing one event of context `id` at `level` from `code`:
/// an unregistered context is refused and nothing changes; otherwise its
/// clock advances, and the record carries the key of the new state and that
/// state's document.
pub open spec fn traced(
    before: Map<u64, ClockView>,
    after: Map<u64, ClockView>,
    id: u64,
    level: TraceType,
    code: &CodeAttributes,
    r: Result<(String, String), TraceError>,
) -> bool {
    if !before.contains_key(id) {
        after == before && r == Err::<(String, String), TraceError>(TraceError::UnregisteredContext)
    } else {
        &&& advanced(before, after, id)
        &&& r is Ok
        &&& r matches Ok(kd) ==> kd.0@ == key_text(after[id]) && exists|b: Seq<char>|
            kd.1@ == record_text(
                after[id],
                level,
                json_quoted(code.module@),
                json_quoted(code.function@),
                code.line_no,
                json_quoted(code.format@),
                b,
            )
    }
}

impl ClockRegistry {
    /// Every entry is a usable clock filed under its own context.
    pub open spec fn wf(&self) -> bool {
        forall|k: u64| #[trigger]
            self@.contains_key(k) ==> self@[k].path.len() >= 1 && self@[k].context_id == k
    }

    /// Whether the clock of `id`, if there is one, can record one more event.
    pub open spec fn can_advance(&self, id: u64) -> bool {
        self@.contains_key(id) ==> self@[id].path.last() < u64::MAX
    }

    pub fn new() -> (r: ClockRegistry)
        ensures
            r@ == Map::<u64, ClockView>::empty(),
            r.wf(),
    {
        let r = ClockRegistry { clocks: HashMap::new() };
        assert(r@ =~= Map::<u64, ClockView>::empty());
        r
    }

    /// Files `clock` under its context, replacing a stale entry of a recycled
    /// identity.
    pub fn register(&mut self, clock: EventGenerator)
        requires
            old(self).wf(),
            clock.wf(),
        ensures
            final(self)@ == old(self)@.insert(clock@.context_id, clock@),
            final(self).wf(),
    {
        let id = clock.context_id();
        self.clocks.insert(id, clock);
        assert(self@ =~= old(self)@.insert(id, clock@));
    }

    /// Whether a clock is filed under `id`.
    pub fn contains(&self, id: u64) -> (r: bool)
        ensures
            r == self@.contains_key(id),
    {
        self.clocks.contains_key(&id)
    }

    /// A copy of the clock filed under `id`.
    pub fn current(&self, id: u64) -> (r: Result<EventGenerator, TraceError>)
        ensures
            self@.contains_key(id) ==> (r matches Ok(c) && c@ == self@[id]),
            !self@.contains_key(id) ==> r == Err::<EventGenerator, TraceError>(
                TraceError::UnregisteredContext,
            ),
    {
        match self.clocks.get(&id) {
            Some(c) => Ok(c.snapshot()),
            None => Err(TraceError::UnregisteredContext),
        }
    }

    /// Records one event on the clock of `id` and renders it, as
    /// `EventGenerator::build_entry` does. A context without a clock gets
    /// `UnregisteredContext` and the registry stays as it was.
    pub fn build_entry(
        &mut self,
        id: u64,
        level: TraceType,
        code: &CodeAttributes,
        body: &serde_json::Value,
    ) -> (r: Result<(String, String), TraceError>)
        requires
            old(self).wf(),
            old(self).can_advance(id),
        ensures
            final(self).wf(),
            traced(old(self)@, final(self)@, id, level, code, r),
    {
        match self.clocks.remove(&id) {
            None => {
                assert(self@ =~= old(self)@);
                Err(TraceError::UnregisteredContext)
            },
            Some(mut c) => {
                assert(old(self)@.contains_key(id));
                assert(c@ == old(self)@[id]);
                let r = c.build_entry(level, code, body);
                self.clocks.insert(id, c);
                assert(self@ =~= old(self)@.insert(id, c@));
                assert(self@[id] == c@);
                r
            },
        }
    }

    /// Records one event on the clock of `id` and returns the state after it,
    /// so that the caller can render the record without holding the registry.
    /// A context without a clock gets `UnregisteredContext` and the registry
    /// stays as it was.
    pub fn advance(&mut self, id: u64) -> (r: Result<EventGenerator, TraceError>)
        requires
            old(self).wf(),
            old(self).can_advance(id),
        ensures
            final(self).wf(),
            !old(self)@.contains_key(id) ==> final(self)@ == old(self)@ && r == Err::<
                EventGenerator,
                TraceError,
            >(TraceError::UnregisteredContext),
            old(self)@.contains_key(id) ==> advanced(old(self)@, final(self)@, id),
            old(self)@.contains_key(id) ==> (r matches Ok(c) && c@ == final(self)@[id]),
    {
        match self.clocks.remove(&id) {
            None => {
                assert(self@ =~= old(self)@);
                Err(TraceError::UnregisteredContext)
            },
            Some(mut c) => {
                assert(old(self)@.contains_key(id));
                assert(c@ == old(self)@[id]);
                let mark = c.bump();
                self.clocks.insert(id, c);
                assert(self@ =~= old(self)@.insert(id, c@));
                Ok(mark)
            },
        }
    }

    /// Forks the clock of `id` for a new context and returns the child, which
    /// is not filed: the child context files it once it runs. A context
    /// without a clock gets `UnregisteredContext` and the registry stays as it
    /// was.
    pub fn fork_current(&mut self, id: u64) -> (r: Result<EventGenerator, TraceError>)
        requires
            old(self).wf(),
            old(self).can_advance(id),
        ensures
            final(self).wf(),
            !old(self)@.contains_key(id) ==> final(self)@ == old(self)@ && r == Err::<
                EventGenerator,
                TraceError,
            >(TraceError::UnregisteredContext),
            old(self)@.contains_key(id) ==> advanced(old(self)@, final(self)@, id),
            old(self)@.contains_key(id) ==> (r matches Ok(c) && c@ == (ClockView {
                path: final(self)@[id].path.push(0),
                ..final(self)@[id]
            }) && c@.path == forked_path(old(self)@[id].path) && c.wf()),
    {
        match self.clocks.remove(&id) {
            None => {
                assert(self@ =~= old(self)@);
                Err(TraceError::UnregisteredContext)
            },
            Some(mut c) => {
                assert(old(self)@.contains_key(id));
                assert(c@ == old(self)@[id]);
                let child = c.fork();
                self.clocks.insert(id, c);
                assert(self@ =~= old(self)@.insert(id, c@));
                Ok(child)
            },
        }
    }
}

/// Traces an event at debug level for context `context_id`.
pub fn debug(
    registry: &mut ClockRegistry,
    context_id: u64,
    code: &CodeAttributes,
    body: &serde_json::Value,
) -> (r: Result<(String, String), TraceError>)
    requires
        old(registry).wf(),
        old(registry).can_advance(context_id),
    ensures
        final(registry).wf(),
        traced(old(registry)@, final(registry)@, context_id, TraceType::Debug, code, r),
{
    registry.build_entry(context_id, TraceType::Debug, code, body)
}

/// Traces an event at trace level for context `context_id`.
pub fn trace(
    registry: &mut ClockRegistry,
    context_id: u64,
    code: &CodeAttributes,
    body: &serde_json::Value,
) -> (r: Result<(String, String), TraceError>)
    requires
        old(registry).wf(),
        old(registry).can_advance(context_id),
    ensures
        final(registry).wf(),
        traced(old(registry)@, final(registry)@, context_id, TraceType::Trace, code, r),
{
    registry.build_entry(context_id, TraceType::Trace, code, body)
}

/// Forks the clock of the calling context `context_id` for a context about
/// to be spawned; the child registers the result itself.
pub fn pregnant(registry: &mut ClockRegistry, context_id: u64) -> (r: Result<
    EventGenerator,
    TraceError,
>)
    requires
        old(registry).wf(),
        old(registry).can_advance(context_id),
    ensures
        final(registry).wf(),
        !old(registry)@.contains_key(context_id) ==> final(registry)@ == old(registry)@ && r
            == Err::<EventGenerator, TraceError>(TraceError::UnregisteredContext),
        old(registry)@.contains_key(context_id) ==> advanced(
            old(registry)@,
            final(registry)@,
            context_id,
        ),
        old(registry)@.contains_key(context_id) ==> (r matches Ok(c) && c@ == (ClockView {
            path: final(registry)@[context_id].path.push(0),
            ..final(registry)@[context_id]
        }) && c.wf()),
{
    registry.fork_current(context_id)
}

/// Starts the root context `context_id`: files a fresh root clock for it.
pub fn grandfather(registry: &mut ClockRegistry, context_id: u64)
    requires
        old(registry).wf(),
    ensures
        final(registry).wf(),
        final(registry)@ == old(registry)@.insert(context_id, final(registry)@[context_id]),
        final(registry)@[context_id].context_id == context_id,
        final(registry)@[context_id].path == seq![0u64],
{
    let mut e = EventGenerator::new(context_id);
    e.stash(registry, context_id);
}

impl EventGenerator {
    /// Makes this clock the clock of context `context_id` and files a copy of
    /// it under that identity.
    pub fn stash(&mut self, registry: &mut ClockRegistry, context_id: u64)
        requires
            old(self).wf(),
            old(registry).wf(),
        ensures
            final(self)@ == (ClockView { context_id, ..old(self)@ }),
            final(registry)@ == old(registry)@.insert(context_id, final(self)@),
            final(registry).wf(),
    {
        self.set_context_id(context_id);
        registry.register(self.snapshot());
    }
}

/// Two children forked one after the other off the clock of `id` (two calls
/// of `pregnant` with no other event of that context between them) are
/// distinct: both are one counter deeper than the parent, share the parent's
/// frozen ancestors, end in zero, and differ in the parent's counter, which
/// each fork advanced.
pub proof fn lemma_successive_forks(
    r0: Map<u64, ClockView>,
    r1: Map<u64, ClockView>,
    r2: Map<u64, ClockView>,
    id: u64,
    c1: ClockView,
    c2: ClockView,
)
    requires
        r0.contains_key(id),
        r0[id].path.len() >= 1,
        r0[id].path.last() + 2 <= u64::MAX,
        advanced(r0, r1, id),
        advanced(r1, r2, id),
        c1.path == r1[id].path.push(0),
        c2.path == r2[id].path.push(0),
    ensures
        ({
            let p = r0[id].path;
            &&& c1.path.len() == c2.path.len() == p.len() + 1
            &&& c1.path.last() == 0 && c2.path.last() == 0
            &&& c1.path.take(p.len() - 1) == p.take(p.len() - 1)
            &&& c2.path.take(p.len() - 1) == p.take(p.len() - 1)
            &&& c1.path[p.len() - 1] == p.last() + 1
            &&& c2.path[p.len() - 1] == p.last() + 2
            &&& c1.path != c2.path
        }),
{
    let p = r0[id].path;
    lemma_sibling_forks(p);
    assert(c1.path == forked_path(p));
    assert(c2.path == forked_path(bump_path(p)));
    assert(p.take(p.len() - 1) =~= p.drop_last());
    assert(c1.path.take(p.len() - 1) =~= c1.path.subrange(0, p.len() - 1));
    assert(c2.path.take(p.len() - 1) =~= c2.path.subrange(0, p.len() - 1));
}

} // verus!
