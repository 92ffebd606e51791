use social_npc::{Intent, MemorySystem, Npc};

#[test]
fn test_npc_creation() {
    let npc = Npc::new("Test", "location", "idle");
    assert_eq!(npc.name, "Test");
    assert_eq!(npc.location, "location");
    assert_eq!(npc.activity, "idle");
}

#[test]
fn test_npc_builder() {
    let npc = Npc::builder("Alice")
        .location("tavern")
        .activity("drinking")
        .build();

    assert_eq!(npc.name, "Alice");
    assert_eq!(npc.location, "tavern");
    assert_eq!(npc.activity, "drinking");
}

#[test]
fn test_memory_system() {
    let mut memories = MemorySystem::new();
    memories.update_self_context("Testing");
    assert_eq!(memories.self_memories.immediate_context, "Testing");

    memories.add_self_event("Event 1");
    memories.add_self_event("Event 2");
    assert_eq!(memories.self_memories.recent_events.len(), 2);
}

#[test]
fn test_intent_creation() {
    let intent = Intent::with_target("Alice", "talk", "Bob", "Greeting");
    assert_eq!(intent.npc, "Alice");
    assert_eq!(intent.action, "talk");
    assert_eq!(intent.target, Some("Bob".to_string()));
    assert_eq!(intent.reason, "Greeting");
}

#[test]
fn npc_folder_is_lower_case_name() {
    let npc = Npc::new("Alice", "tavern", "drinking");
    assert_eq!(npc.folder_path, "data/npcs/alice");
    assert!(npc.active_contract.is_none());
    assert!(npc.next_prompt.is_none());
}

#[test]
fn builder_defaults_to_start_and_idle() {
    let npc = Npc::builder("Zed").build();
    assert_eq!(npc.location, "start");
    assert_eq!(npc.activity, "idle");
    assert_eq!(npc.folder_path, "data/npcs/zed");
}

#[test]
fn intent_without_target() {
    let intent = Intent::new("Bob", "order_round", "Feeling generous");
    assert_eq!(intent.npc, "Bob");
    assert_eq!(intent.action, "order_round");
    assert_eq!(intent.reason, "Feeling generous");
    assert!(intent.target.is_none());
    assert!(intent.dialogue.is_none());
}

#[test]
fn decimal_writes_digits() {
    assert_eq!(social_npc::decimal(0), "0");
    assert_eq!(social_npc::decimal(7), "7");
    assert_eq!(social_npc::decimal(1203), "1203");
}

#[test]
fn text_eq_compares_characters() {
    assert!(social_npc::text_eq("create", "create"));
    assert!(!social_npc::text_eq("create", "creatE"));
    assert!(!social_npc::text_eq("end", "ended"));
    assert!(social_npc::text_eq("", ""));
}
