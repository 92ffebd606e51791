use social_npc::memory::memory_source;
use social_npc::{Memory, MemorySource, MemorySystem, MemoryUpdate, RelationshipMemory, RelationshipUpdate, SelfMemories};

fn rel_update(context: &str, sentiment: i32, memory: Option<Memory>) -> RelationshipUpdate {
    RelationshipUpdate {
        immediate_context: context.to_string(),
        new_memory: memory,
        current_sentiment: sentiment,
        long_term_summary_update: None,
        potential_core_memory: None,
    }
}

#[test]
fn eleventh_event_evicts_the_first() {
    let mut s = SelfMemories::new();
    for i in 1..=11 {
        s.add_recent_event(&format!("event {}", i));
    }
    assert_eq!(s.recent_events.len(), 10);
    let expected: Vec<String> = (2..=11).map(|i| format!("event {}", i)).collect();
    assert_eq!(s.recent_events, expected);
}

#[test]
fn core_memories_are_never_evicted() {
    let mut s = SelfMemories::with_context("here");
    for i in 0..25 {
        s.add_core_memory(&format!("core {}", i));
    }
    assert_eq!(s.core_memories.len(), 25);
    assert_eq!(s.immediate_context, "here");
}

#[test]
fn sentiment_is_clamped() {
    let mut r = RelationshipMemory::new();
    r.update_sentiment(5000);
    assert_eq!(r.current_sentiment, 1000);
    r.update_sentiment(-5000);
    assert_eq!(r.current_sentiment, -1000);
    r.update_sentiment(250);
    assert_eq!(r.current_sentiment, 250);
    r.update_bond(1001);
    assert_eq!(r.overall_bond, 1000);
}

#[test]
fn relationship_log_keeps_five() {
    let mut r = RelationshipMemory::new();
    for i in 0..7 {
        r.add_memory(Memory::with_timestamp(&format!("m{}", i), "calm", 500, i as i64));
    }
    assert_eq!(r.recent_memories.len(), 5);
    assert_eq!(r.recent_memories[0].event, "m2");
    assert_eq!(r.recent_memories[4].event, "m6");
}

#[test]
fn importance_is_clamped() {
    let m = Memory::with_timestamp("fell", "hurt", 1700, 5);
    assert_eq!(m.importance, 1000);
    assert_eq!(m.timestamp, 5);
    let m = Memory::with_timestamp("fell", "hurt", -3, 5);
    assert_eq!(m.importance, 0);
}

#[test]
fn new_memory_is_stamped_now() {
    let m = Memory::new("met Bob", "happy", 600);
    // 2020-01-01T00:00:00Z in milliseconds.
    assert!(m.timestamp > 1_577_836_800_000);
    assert_eq!(m.importance, 600);
}

#[test]
fn merge_update_applies_all_parts() {
    let mut m = MemorySystem::with_context("old");
    m.add_self_event("before");
    let mut bob = rel_update("likes Bob", 5000, Some(Memory::with_timestamp("cards", "fun", 400, 1)));
    bob.long_term_summary_update = Some("an old friend".to_string());
    bob.potential_core_memory = Some("Bob saved me once".to_string());
    let update = MemoryUpdate {
        immediate_self_context: "new".to_string(),
        new_self_memory: Some("joined the game".to_string()),
        relationship_updates: vec![("Bob".to_string(), bob)],
    };
    m.merge_update(update);
    assert_eq!(m.self_memories.immediate_context, "new");
    assert_eq!(m.self_memories.recent_events, vec!["before".to_string(), "joined the game".to_string()]);
    assert_eq!(m.relationships.len(), 1);
    let (name, rel) = &m.relationships[0];
    assert_eq!(name, "Bob");
    assert_eq!(rel.immediate_context, "likes Bob");
    assert_eq!(rel.current_sentiment, 1000);
    assert_eq!(rel.recent_memories.len(), 1);
    assert_eq!(rel.long_term_summary, "an old friend");
    assert_eq!(rel.core_memories, vec!["Bob saved me once".to_string()]);
    assert_eq!(rel.overall_bond, 0);
}

#[test]
fn merging_twice_appends_twice() {
    let make = || MemoryUpdate {
        immediate_self_context: "ctx".to_string(),
        new_self_memory: Some("e".to_string()),
        relationship_updates: vec![("Bob".to_string(), rel_update("c", -5000, Some(Memory::with_timestamp("x", "y", 1, 1))))],
    };
    let mut m = MemorySystem::new();
    m.merge_update(make());
    m.merge_update(make());
    assert_eq!(m.self_memories.recent_events.len(), 2);
    assert_eq!(m.relationships.len(), 1);
    assert_eq!(m.relationships[0].1.recent_memories.len(), 2);
    assert_eq!(m.relationships[0].1.current_sentiment, -1000);
}

#[test]
fn summary_is_replaced_not_appended() {
    let mut m = MemorySystem::new();
    let mut u = rel_update("c", 0, None);
    u.long_term_summary_update = Some("first".to_string());
    m.merge_update(MemoryUpdate { immediate_self_context: String::new(), new_self_memory: None, relationship_updates: vec![("Ann".to_string(), u)] });
    let mut u = rel_update("c", 0, None);
    u.long_term_summary_update = Some("second".to_string());
    m.merge_update(MemoryUpdate { immediate_self_context: String::new(), new_self_memory: None, relationship_updates: vec![("Ann".to_string(), u)] });
    assert_eq!(m.relationships[0].1.long_term_summary, "second");
    assert!(m.self_memories.recent_events.is_empty());
}

#[test]
fn relationship_slot_creates_once() {
    let mut m = MemorySystem::new();
    let a = m.relationship_slot("Bob");
    let b = m.relationship_slot("Cid");
    let c = m.relationship_slot("Bob");
    assert_eq!((a, b, c), (0, 1, 0));
    assert_eq!(m.relationships.len(), 2);
}

#[test]
fn memory_source_prefers_saved() {
    assert_eq!(memory_source(true, true), MemorySource::Current);
    assert_eq!(memory_source(true, false), MemorySource::Current);
    assert_eq!(memory_source(false, true), MemorySource::Initial);
    assert_eq!(memory_source(false, false), MemorySource::Fresh);
}
