use vstd::prelude::*;
use vstd::string::*;

use crate::types::{opt_text, texts};

verus! {

/// How many recent events a character keeps about itself.
pub const RECENT_EVENT_CAPACITY: usize = 10;

/// How many recent memories a character keeps about each other character.
pub const RECENT_MEMORY_CAPACITY: usize = 5;

/// Sentiment, bond and importance are kept in thousandths: 1000 stands for 1.0.
pub const LEVEL_ONE: i32 = 1000;

/// `x` limited to `[lo, hi]`.
pub open spec fn clamp(x: int, lo: int, hi: int) -> int {
    if x < lo {
        lo
    } else if x > hi {
        hi
    } else {
        x
    }
}

/// `x` limited to `[lo, hi]`.
pub fn clamp_level(x: i32, lo: i32, hi: i32) -> (r: i32)
    requires
        lo <= hi,
    ensures
        r == clamp(x as int, lo as int, hi as int),
{
    if x < lo {
        lo
    } else if x > hi {
        hi
    } else {
        x
    }
}

/// `log` with `x` appended, the oldest entry evicted if the length would exceed `cap`.
pub open spec fn bounded_push<T>(log: Seq<T>, x: T, cap: nat) -> Seq<T> {
    if log.len() + 1 > cap {
        log.push(x).subrange(1, log.len() + 1int)
    } else {
        log.push(x)
    }
}

/// Relies on `chrono::Utc::now` and `DateTime::timestamp_millis`: the current time in
/// milliseconds since the Unix epoch. Nothing is promised of its value; `now` panics
/// only when the system clock reads before the epoch.
#[verifier::external_body]
fn now_millis() -> (t: i64) {
    chrono::Utc::now().timestamp_millis()
}

/// A single remembered event about another character.
pub struct Memory {
    pub event: String,
    /// Milliseconds since the Unix epoch, UTC.
    pub timestamp: i64,
    pub emotional_impact: String,
    /// In thousandths, within `[0, 1000]`.
    pub importance: i32,
}

pub struct MemoryView {
    pub event: Seq<char>,
    pub timestamp: i64,
    pub emotional_impact: Seq<char>,
    pub importance: i32,
}

impl View for Memory {
    type V = MemoryView;

    open spec fn view(&self) -> MemoryView {
        MemoryView {
            event: self.event@,
            timestamp: self.timestamp,
            emotional_impact: self.emotional_impact@,
            importance: self.importance,
        }
    }
}

impl Memory {
    /// A memory stamped with the current time; the importance is limited to `[0, 1000]`.
    pub fn new(event: &str, emotional_impact: &str, importance: i32) -> (r: Memory)
        ensures
            r.event@ == event@,
            r.emotional_impact@ == emotional_impact@,
            r.importance == clamp(importance as int, 0, LEVEL_ONE as int),
    {
        Memory {
            event: event.to_owned(),
            timestamp: now_millis(),
            emotional_impact: emotional_impact.to_owned(),
            importance: clamp_level(importance, 0, LEVEL_ONE),
        }
    }

    /// A memory with the given time stamp; the importance is limited to `[0, 1000]`.
    pub fn with_timestamp(event: &str, emotional_impact: &str, importance: i32, timestamp: i64) -> (r: Memory)
        ensures
            r.event@ == event@,
            r.emotional_impact@ == emotional_impact@,
            r.importance == clamp(importance as int, 0, LEVEL_ONE as int),
            r.timestamp == timestamp,
    {
        Memory {
            event: event.to_owned(),
            timestamp,
            emotional_impact: emotional_impact.to_owned(),
            importance: clamp_level(importance, 0, LEVEL_ONE),
        }
    }
}

/// The views of a list of memories.
pub open spec fn memory_views(v: Seq<Memory>) -> Seq<MemoryView> {
    v.map_values(|m: Memory| m@)
}

/// What a character remembers of itself.
pub struct SelfMemories {
    /// The latest self-narrative.
    pub immediate_context: String,
    /// Bounded log, oldest first.
    pub recent_events: Vec<String>,
    /// Unbounded, never evicted.
    pub core_memories: Vec<String>,
}

pub struct SelfMemoriesView {
    pub immediate_context: Seq<char>,
    pub recent_events: Seq<Seq<char>>,
    pub core_memories: Seq<Seq<char>>,
}

impl View for SelfMemories {
    type V = SelfMemoriesView;

    open spec fn view(&self) -> SelfMemoriesView {
        SelfMemoriesView {
            immediate_context: self.immediate_context@,
            recent_events: texts(self.recent_events@),
            core_memories: texts(self.core_memories@),
        }
    }
}

impl SelfMemories {
    /// No context, no events, no core memories.
    pub fn new() -> (r: SelfMemories)
        ensures
            r@.immediate_context.len() == 0,
            r@.recent_events.len() == 0,
            r@.core_memories.len() == 0,
    {
        SelfMemories { immediate_context: String::new(), recent_events: Vec::new(), core_memories: Vec::new() }
    }

    /// The given context, no events, no core memories.
    pub fn with_context(immediate_context: &str) -> (r: SelfMemories)
        ensures
            r@.immediate_context == immediate_context@,
            r@.recent_events.len() == 0,
            r@.core_memories.len() == 0,
    {
        SelfMemories {
            immediate_context: immediate_context.to_owned(),
            recent_events: Vec::new(),
            core_memories: Vec::new(),
        }
    }

    /// Appends `event` to the recent-event log, evicting the oldest entry if the
    /// log would exceed its capacity.
    pub fn add_recent_event(&mut self, event: &str)
        ensures
            final(self)@ == (SelfMemoriesView {
                recent_events: bounded_push(old(self)@.recent_events, event@, RECENT_EVENT_CAPACITY as nat),
                ..old(self)@
            }),
    {
        self.push_recent_event(event.to_owned());
    }

    fn push_recent_event(&mut self, event: String)
        ensures
            final(self)@ == (SelfMemoriesView {
                recent_events: bounded_push(old(self)@.recent_events, event@, RECENT_EVENT_CAPACITY as nat),
                ..old(self)@
            }),
    {
        let ghost before = self.recent_events@;
        self.recent_events.push(event);
        if self.recent_events.len() > RECENT_EVENT_CAPACITY {
            self.recent_events.remove(0);
        }
        proof {
            assert(texts(self.recent_events@) =~= bounded_push(
                texts(before),
                event@,
                RECENT_EVENT_CAPACITY as nat,
            ));
        }
    }

    /// Appends `memory` to the core memories.
    pub fn add_core_memory(&mut self, memory: &str)
        ensures
            final(self)@ == (SelfMemoriesView {
                core_memories: old(self)@.core_memories.push(memory@),
                ..old(self)@
            }),
    {
        self.core_memories.push(memory.to_owned());
        proof {
            assert(texts(self.core_memories@) =~= texts(old(self).core_memories@).push(memory@));
        }
    }
}

impl Default for SelfMemories {
    fn default() -> (r: SelfMemories)
        ensures
            r@.immediate_context.len() == 0,
            r@.recent_events.len() == 0,
            r@.core_memories.len() == 0,
    {
        SelfMemories::new()
    }
}

/// What a character remembers of one other character.
pub struct RelationshipMemory {
    pub immediate_context: String,
    /// Bounded log, oldest first.
    pub recent_memories: Vec<Memory>,
    pub long_term_summary: String,
    /// Unbounded, never evicted, never deduplicated.
    pub core_memories: Vec<String>,
    /// In thousandths, within `[-1000, 1000]`.
    pub current_sentiment: i32,
    /// In thousandths, within `[-1000, 1000]`.
    pub overall_bond: i32,
}

pub struct RelationshipMemoryView {
    pub immediate_context: Seq<char>,
    pub recent_memories: Seq<MemoryView>,
    pub long_term_summary: Seq<char>,
    pub core_memories: Seq<Seq<char>>,
    pub current_sentiment: i32,
    pub overall_bond: i32,
}

impl View for RelationshipMemory {
    type V = RelationshipMemoryView;

    open spec fn view(&self) -> RelationshipMemoryView {
        RelationshipMemoryView {
            immediate_context: self.immediate_context@,
            recent_memories: memory_views(self.recent_memories@),
            long_term_summary: self.long_term_summary@,
            core_memories: texts(self.core_memories@),
            current_sentiment: self.current_sentiment,
            overall_bond: self.overall_bond,
        }
    }
}

/// The record made on first reference to another character.
pub open spec fn empty_relationship() -> RelationshipMemoryView {
    RelationshipMemoryView {
        immediate_context: Seq::empty(),
        recent_memories: Seq::empty(),
        long_term_summary: Seq::empty(),
        core_memories: Seq::empty(),
        current_sentiment: 0,
        overall_bond: 0,
    }
}

impl RelationshipMemory {
    /// An empty record with neutral sentiment and bond.
    pub fn new() -> (r: RelationshipMemory)
        ensures
            r@ == empty_relationship(),
    {
        let r = RelationshipMemory {
            immediate_context: String::new(),
            recent_memories: Vec::new(),
            long_term_summary: String::new(),
            core_memories: Vec::new(),
            current_sentiment: 0,
            overall_bond: 0,
        };
        proof {
            assert(r@.recent_memories =~= Seq::<MemoryView>::empty());
            assert(r@.core_memories =~= Seq::<Seq<char>>::empty());
        }
        r
    }

    /// Appends `memory` to the recent memories, evicting the oldest entry if the log
    /// would exceed its capacity.
    pub fn add_memory(&mut self, memory: Memory)
        ensures
            final(self)@ == (RelationshipMemoryView {
                recent_memories: bounded_push(old(self)@.recent_memories, memory@, RECENT_MEMORY_CAPACITY as nat),
                ..old(self)@
            }),
    {
        let ghost before = self.recent_memories@;
        let ghost m = memory@;
        self.recent_memories.push(memory);
        if self.recent_memories.len() > RECENT_MEMORY_CAPACITY {
            self.recent_memories.remove(0);
        }
        proof {
            assert(memory_views(self.recent_memories@) =~= bounded_push(
                memory_views(before),
                m,
                RECENT_MEMORY_CAPACITY as nat,
            ));
        }
    }

    /// Stores the sentiment, limited to `[-1000, 1000]`.
    pub fn update_sentiment(&mut self, sentiment: i32)
        ensures
            final(self)@ == (RelationshipMemoryView {
                current_sentiment: clamp(sentiment as int, -LEVEL_ONE, LEVEL_ONE as int) as i32,
                ..old(self)@
            }),
    {
        self.current_sentiment = clamp_level(sentiment, -LEVEL_ONE, LEVEL_ONE);
    }

    /// Stores the bond, limited to `[-1000, 1000]`.
    pub fn update_bond(&mut self, bond: i32)
        ensures
            final(self)@ == (RelationshipMemoryView {
                overall_bond: clamp(bond as int, -LEVEL_ONE, LEVEL_ONE as int) as i32,
                ..old(self)@
            }),
    {
        self.overall_bond = clamp_level(bond, -LEVEL_ONE, LEVEL_ONE);
    }

    /// Merges one relationship update: context and sentiment are overwritten (the
    /// sentiment limited to `[-1000, 1000]`), a new memory is appended to the bounded
    /// log, a summary replaces the old one, a core memory is appended.
    pub fn apply_update(&mut self, u: RelationshipUpdate)
        ensures
            final(self)@ == merged_relationship(old(self)@, u@),
    {
        let ghost uv = u@;
        let RelationshipUpdate {
            immediate_context,
            new_memory,
            current_sentiment,
            long_term_summary_update,
            potential_core_memory,
        } = u;
        self.immediate_context = immediate_context;
        self.update_sentiment(current_sentiment);
        if let Some(m) = new_memory {
            self.add_memory(m);
        }
        if let Some(summary) = long_term_summary_update {
            self.long_term_summary = summary;
        }
        if let Some(core) = potential_core_memory {
            let ghost before = self.core_memories@;
            self.core_memories.push(core);
            proof {
                assert(texts(self.core_memories@) =~= texts(before).push(uv.potential_core_memory->Some_0));
            }
        }
    }
}

impl Default for RelationshipMemory {
    fn default() -> (r: RelationshipMemory)
        ensures
            r@ == empty_relationship(),
    {
        RelationshipMemory::new()
    }
}

/// What a parsed memory update says of one other character.
pub struct RelationshipUpdate {
    pub immediate_context: String,
    pub new_memory: Option<Memory>,
    /// In thousandths; stored limited to `[-1000, 1000]`.
    pub current_sentiment: i32,
    pub long_term_summary_update: Option<String>,
    pub potential_core_memory: Option<String>,
}

pub struct RelationshipUpdateView {
    pub immediate_context: Seq<char>,
    pub new_memory: Option<MemoryView>,
    pub current_sentiment: i32,
    pub long_term_summary_update: Option<Seq<char>>,
    pub potential_core_memory: Option<Seq<char>>,
}

impl View for RelationshipUpdate {
    type V = RelationshipUpdateView;

    open spec fn view(&self) -> RelationshipUpdateView {
        RelationshipUpdateView {
            immediate_context: self.immediate_context@,
            new_memory: match self.new_memory {
                Some(m) => Some(m@),
                None => None,
            },
            current_sentiment: self.current_sentiment,
            long_term_summary_update: opt_text(self.long_term_summary_update),
            potential_core_memory: opt_text(self.potential_core_memory),
        }
    }
}

/// A relationship record after one update.
pub open spec fn merged_relationship(r: RelationshipMemoryView, u: RelationshipUpdateView) -> RelationshipMemoryView {
    RelationshipMemoryView {
        immediate_context: u.immediate_context,
        current_sentiment: clamp(u.current_sentiment as int, -LEVEL_ONE, LEVEL_ONE as int) as i32,
        recent_memories: match u.new_memory {
            Some(m) => bounded_push(r.recent_memories, m, RECENT_MEMORY_CAPACITY as nat),
            None => r.recent_memories,
        },
        long_term_summary: match u.long_term_summary_update {
            Some(t) => t,
            None => r.long_term_summary,
        },
        core_memories: match u.potential_core_memory {
            Some(c) => r.core_memories.push(c),
            None => r.core_memories,
        },
        overall_bond: r.overall_bond,
    }
}

/// A memory payload parsed from the reasoning backend.
pub struct MemoryUpdate {
    pub immediate_self_context: String,
    pub new_self_memory: Option<String>,
    /// Keyed by the other character's name.
    pub relationship_updates: Vec<(String, RelationshipUpdate)>,
}

pub struct MemoryUpdateView {
    pub immediate_self_context: Seq<char>,
    pub new_self_memory: Option<Seq<char>>,
    pub relationship_updates: Seq<(Seq<char>, RelationshipUpdateView)>,
}

impl View for MemoryUpdate {
    type V = MemoryUpdateView;

    open spec fn view(&self) -> MemoryUpdateView {
        MemoryUpdateView {
            immediate_self_context: self.immediate_self_context@,
            new_self_memory: opt_text(self.new_self_memory),
            relationship_updates: self.relationship_updates@.map_values(
                |e: (String, RelationshipUpdate)| (e.0@, e.1@),
            ),
        }
    }
}

/// A memory that is to fade, and what becomes of it.
pub struct FadeDecision {
    pub memory_to_fade: Memory,
    pub impacts_long_term: bool,
    pub new_long_term_summary: Option<String>,
    pub forms_core_memory: bool,
}

/// The whole memory of one character.
pub struct MemorySystem {
    pub self_memories: SelfMemories,
    /// One record per other character, keyed by name, in order of first reference.
    pub relationships: Vec<(String, RelationshipMemory)>,
}

pub struct MemorySystemView {
    pub self_memories: SelfMemoriesView,
    pub relationships: Seq<(Seq<char>, RelationshipMemoryView)>,
}

impl View for MemorySystem {
    type V = MemorySystemView;

    open spec fn view(&self) -> MemorySystemView {
        MemorySystemView {
            self_memories: self.self_memories@,
            relationships: self.relationships@.map_values(
                |e: (String, RelationshipMemory)| (e.0@, e.1@),
            ),
        }
    }
}

/// `i` is the first record of `rels` about `name`.
pub open spec fn is_first_record(rels: Seq<(Seq<char>, RelationshipMemoryView)>, name: Seq<char>, i: int) -> bool {
    &&& 0 <= i < rels.len()
    &&& rels[i].0 == name
    &&& forall|j: int| 0 <= j < i ==> (#[trigger] rels[j]).0 != name
}

/// The relationship records after one update about `name`: the first record about
/// `name` is updated, or an empty one is made for it at the end and updated.
pub open spec fn merge_relationship(
    rels: Seq<(Seq<char>, RelationshipMemoryView)>,
    name: Seq<char>,
    u: RelationshipUpdateView,
) -> Seq<(Seq<char>, RelationshipMemoryView)> {
    if exists|i: int| is_first_record(rels, name, i) {
        let i = choose|i: int| is_first_record(rels, name, i);
        rels.update(i, (name, merged_relationship(rels[i].1, u)))
    } else {
        rels.push((name, merged_relationship(empty_relationship(), u)))
    }
}

/// The records with one about `name`: as they are if there is one, else with an
/// empty one added at the end.
pub open spec fn with_slot(rels: Seq<(Seq<char>, RelationshipMemoryView)>, name: Seq<char>) -> Seq<
    (Seq<char>, RelationshipMemoryView),
> {
    if exists|i: int| is_first_record(rels, name, i) {
        rels
    } else {
        rels.push((name, empty_relationship()))
    }
}

/// The position of the record about `name` in `with_slot(rels, name)`.
pub open spec fn slot_index(rels: Seq<(Seq<char>, RelationshipMemoryView)>, name: Seq<char>) -> int {
    if exists|i: int| is_first_record(rels, name, i) {
        choose|i: int| is_first_record(rels, name, i)
    } else {
        rels.len() as int
    }
}

/// Relationship updates merged in order.
pub open spec fn merge_relationships(
    rels: Seq<(Seq<char>, RelationshipMemoryView)>,
    us: Seq<(Seq<char>, RelationshipUpdateView)>,
) -> Seq<(Seq<char>, RelationshipMemoryView)>
    decreases us.len(),
{
    if us.len() == 0 {
        rels
    } else {
        let prev = merge_relationships(rels, us.drop_last());
        merge_relationship(prev, us.last().0, us.last().1)
    }
}

/// A memory after one merged update.
pub open spec fn merged(m: MemorySystemView, u: MemoryUpdateView) -> MemorySystemView {
    MemorySystemView {
        self_memories: SelfMemoriesView {
            immediate_context: u.immediate_self_context,
            recent_events: match u.new_self_memory {
                Some(e) => bounded_push(m.self_memories.recent_events, e, RECENT_EVENT_CAPACITY as nat),
                None => m.self_memories.recent_events,
            },
            core_memories: m.self_memories.core_memories,
        },
        relationships: merge_relationships(m.relationships, u.relationship_updates),
    }
}

impl MemorySystem {
    /// An empty memory.
    pub fn new() -> (r: MemorySystem)
        ensures
            r@.self_memories.immediate_context.len() == 0,
            r@.self_memories.recent_events.len() == 0,
            r@.self_memories.core_memories.len() == 0,
            r@.relationships.len() == 0,
    {
        MemorySystem { self_memories: SelfMemories::new(), relationships: Vec::new() }
    }

    /// An empty memory but for the given self-context.
    pub fn with_context(immediate_context: &str) -> (r: MemorySystem)
        ensures
            r@.self_memories.immediate_context == immediate_context@,
            r@.self_memories.recent_events.len() == 0,
            r@.self_memories.core_memories.len() == 0,
            r@.relationships.len() == 0,
    {
        MemorySystem { self_memories: SelfMemories::with_context(immediate_context), relationships: Vec::new() }
    }

    /// Overwrites the self-context.
    pub fn update_self_context(&mut self, context: &str)
        ensures
            final(self)@ == (MemorySystemView {
                self_memories: SelfMemoriesView { immediate_context: context@, ..old(self)@.self_memories },
                ..old(self)@
            }),
    {
        self.self_memories.immediate_context = context.to_owned();
    }

    /// Appends a recent event about itself.
    pub fn add_self_event(&mut self, event: &str)
        ensures
            final(self)@ == (MemorySystemView {
                self_memories: SelfMemoriesView {
                    recent_events: bounded_push(
                        old(self)@.self_memories.recent_events,
                        event@,
                        RECENT_EVENT_CAPACITY as nat,
                    ),
                    ..old(self)@.self_memories
                },
                ..old(self)@
            }),
    {
        self.self_memories.add_recent_event(event);
    }

    /// The position of the first record about `name`, made empty at the end if there
    /// is none.
    pub fn relationship_slot(&mut self, name: &str) -> (i: usize)
        ensures
            i < final(self)@.relationships.len(),
            i == slot_index(old(self)@.relationships, name@),
            is_first_record(final(self)@.relationships, name@, i as int),
            final(self)@.self_memories == old(self)@.self_memories,
            final(self)@.relationships == with_slot(old(self)@.relationships, name@),
    {
        let mut i: usize = 0;
        while i < self.relationships.len()
            invariant
                self == old(self),
                i <= self.relationships.len(),
                forall|j: int| 0 <= j < i ==> (#[trigger] self@.relationships[j]).0 != name@,
            decreases self.relationships.len() - i,
        {
            if text_eq_string(&self.relationships[i].0, name) {
                proof {
                    assert(is_first_record(self@.relationships, name@, i as int));
                    let k = choose|k: int| is_first_record(self@.relationships, name@, k);
                    assert(k == i);
                }
                return i;
            }
            i = i + 1;
        }
        proof {
            assert(!(exists|k: int| is_first_record(old(self)@.relationships, name@, k)));
        }
        self.relationships.push((name.to_owned(), RelationshipMemory::new()));
        proof {
            assert(self@.relationships =~= old(self)@.relationships.push((name@, empty_relationship())));
        }
        i
    }

    /// The record about `npc_name`, made empty at the end of the records on first
    /// reference.
    pub fn get_or_create_relationship(&mut self, npc_name: &str) -> (r: &mut RelationshipMemory)
        ensures
            (*r)@ == with_slot(old(self)@.relationships, npc_name@)[slot_index(old(self)@.relationships, npc_name@)].1,
            final(self)@.self_memories == old(self)@.self_memories,
            final(self)@.relationships == with_slot(old(self)@.relationships, npc_name@).update(
                slot_index(old(self)@.relationships, npc_name@),
                (npc_name@, (*final(r))@),
            ),
    {
        let i = self.relationship_slot(npc_name);
        proof {
            assert(self@.relationships[i as int] == (self.relationships@[i as int].0@, self.relationships@[i as int].1@));
        }
        let r = &mut self.relationships[i].1;
        r
    }

    /// Applies a memory payload: the self-context is overwritten, a new self-event is
    /// appended to the bounded log, and each relationship update is merged in order
    /// into the record about its character, made empty on first reference.
    /// Applying the same payload twice appends its entries twice.
    pub fn merge_update(&mut self, update: MemoryUpdate)
        ensures
            final(self)@ == merged(old(self)@, update@),
    {
        let ghost uv = update@;
        let MemoryUpdate { immediate_self_context, new_self_memory, relationship_updates } = update;
        self.self_memories.immediate_context = immediate_self_context;
        if let Some(e) = new_self_memory {
            self.self_memories.push_recent_event(e);
        }
        let ghost s1 = self@;
        let mut rest = relationship_updates;
        let ghost total = uv.relationship_updates;
        while rest.len() > 0
            invariant
                rest@.len() <= total.len(),
                forall|j: int|
                    0 <= j < rest@.len() ==> ((#[trigger] rest@[j]).0@, rest@[j].1@) == total[total.len() - rest@.len() + j],
                self@.self_memories == s1.self_memories,
                self@.relationships == merge_relationships(
                    s1.relationships,
                    total.subrange(0, total.len() - rest@.len()),
                ),
            decreases rest@.len(),
        {
            let ghost before = rest@;
            let (name, u) = rest.remove(0);
            proof {
                assert(forall|j: int| 0 <= j < rest@.len() ==> rest@[j] == before[j + 1]);
            }
            let ghost done = total.subrange(0, total.len() - rest@.len());
            proof {
                assert(done.drop_last() =~= total.subrange(0, total.len() - rest@.len() - 1));
                assert(done.last() == (name@, u@));
            }
            let ghost pre = self@.relationships;
            let i = self.relationship_slot(name.as_str());
            let ghost r1 = self@.relationships;
            let ghost uu = u@;
            self.relationships[i].1.apply_update(u);
            proof {
                assert(self@.relationships =~= r1.update(i as int, (name@, merged_relationship(r1[i as int].1, uu))));
                if !(exists|k: int| is_first_record(pre, name@, k)) {
                    if (i as int) < pre.len() {
                        assert(forall|j: int| 0 <= j < i ==> r1[j] == pre[j]);
                        assert(is_first_record(pre, name@, i as int));
                    }
                    assert(i as int == pre.len());
                    assert(r1[i as int].1 == empty_relationship());
                }

                assert(self@.relationships =~= merge_relationship(
                    merge_relationships(s1.relationships, done.drop_last()),
                    name@,
                    uu,
                ));
            }
        }
        proof {
            assert(total.subrange(0, total.len() as int) =~= total);
        }
    }
}

impl Default for MemorySystem {
    fn default() -> (r: MemorySystem)
        ensures
            r@.self_memories.immediate_context.len() == 0,
            r@.self_memories.recent_events.len() == 0,
            r@.self_memories.core_memories.len() == 0,
            r@.relationships.len() == 0,
    {
        MemorySystem::new()
    }
}

/// Character-wise equality of a stored name and a given one.
fn text_eq_string(a: &String, b: &str) -> (r: bool)
    ensures
        r == (a@ == b@),
{
    crate::text::text_eq(a.as_str(), b)
}

/// Appending to a full recent-event log keeps it full and evicts exactly its oldest
/// entry: the log then holds the former second to last entries, then the new one.
pub proof fn lemma_full_log_evicts_oldest(log: Seq<Seq<char>>, event: Seq<char>)
    requires
        log.len() == RECENT_EVENT_CAPACITY,
    ensures
        bounded_push(log, event, RECENT_EVENT_CAPACITY as nat).len() == RECENT_EVENT_CAPACITY,
        bounded_push(log, event, RECENT_EVENT_CAPACITY as nat) == log.subrange(1, log.len() as int).push(event),
{
    assert(bounded_push(log, event, RECENT_EVENT_CAPACITY as nat) =~= log.subrange(1, log.len() as int).push(event));
}

/// Where a character's memories come from when they are loaded.
#[derive(Debug, PartialEq, Eq)]
pub enum MemorySource {
    /// The memories saved after the last update.
    Current,
    /// The initial snapshot written for the character.
    Initial,
    /// Nothing was written: an empty memory.
    Fresh,
}

/// Saved memories win over the initial snapshot; with neither, memory starts empty.
pub fn memory_source(has_current: bool, has_initial: bool) -> (r: MemorySource)
    ensures
        has_current ==> r == MemorySource::Current,
        !has_current && has_initial ==> r == MemorySource::Initial,
        !has_current && !has_initial ==> r == MemorySource::Fresh,
{
    if has_current {
        MemorySource::Current
    } else if has_initial {
        MemorySource::Initial
    } else {
        MemorySource::Fresh
    }
}

} // verus!
