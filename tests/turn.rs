use social_npc::{
    json_object_spans, ContractUpdate, GameState, GmResponse, Intent, Memory, MemorySystem, MemoryUpdate, Npc,
    NpcEngine, PromptBuilder, PromptLoader, RelationshipUpdate,
};

#[test]
fn end_to_end_tavern_turn() {
    let mut engine = NpcEngine::new("data");
    engine.load_npcs(&vec![
        ("Alice".to_string(), "data/npcs/alice".to_string()),
        ("Bob".to_string(), "data/npcs/bob".to_string()),
    ]);
    engine.set_npc_state("Alice", "tavern", "drinking").unwrap();
    engine.set_npc_state("Bob", "tavern", "playing cards").unwrap();
    let mut memories = vec![MemorySystem::new(), MemorySystem::new()];

    let results = vec![
        Some(Intent::with_target("Alice", "join_game", "Bob", "Wants to join the game")),
        Some(Intent::new("Bob", "order_round", "Feeling generous")),
    ];
    let intents = NpcEngine::gather_intents(results);
    assert_eq!(intents.len(), 2);

    let input = engine.prepare_resolution(intents.iter().cloned().collect()).unwrap();
    assert_eq!(input.intents.len(), 2);
    assert_eq!(input.current_state.npcs.len(), 2);

    let gm = GmResponse {
        reality: "Alice joins Bob's game; Bob buys a round.".to_string(),
        state_changes: Vec::new(),
        contracts: vec![ContractUpdate {
            id: "c1".to_string(),
            participants: vec!["Alice".to_string(), "Bob".to_string()],
            action: "create".to_string(),
            transcript_entry: None,
        }],
        next_prompts: Vec::new(),
    };
    let (gm, rejected) = engine.apply_resolution(Ok(gm)).unwrap();
    assert!(rejected.is_empty());
    let state = engine.get_state();
    assert_eq!(state.npcs[0].active_contract, Some("c1".to_string()));
    assert_eq!(state.npcs[1].active_contract, Some("c1".to_string()));

    let inputs = engine.memory_update_inputs(&intents, &gm.reality);
    assert_eq!(inputs.len(), 2);
    for (k, input) in inputs.iter().enumerate() {
        assert_eq!(input.other_npcs_present.len(), 1);
        let other = input.other_npcs_present[0].clone();
        assert_ne!(other, input.npc_name);
        let update = MemoryUpdate {
            immediate_self_context: "At the card table".to_string(),
            new_self_memory: None,
            relationship_updates: vec![(
                other.clone(),
                RelationshipUpdate {
                    immediate_context: "Friendly".to_string(),
                    new_memory: Some(Memory::with_timestamp("Played cards together", "happy", 600, 0)),
                    current_sentiment: 700,
                    long_term_summary_update: None,
                    potential_core_memory: None,
                },
            )],
        };
        memories[k].merge_update(update);
    }
    assert_eq!(memories[0].relationships.len(), 1);
    assert_eq!(memories[0].relationships[0].0, "Bob");
    assert_eq!(memories[0].relationships[0].1.recent_memories.len(), 1);
    assert_eq!(memories[1].relationships[0].0, "Alice");
    assert_eq!(memories[1].relationships[0].1.recent_memories.len(), 1);
}

#[test]
fn spans_skip_braces_in_strings_and_prose() {
    let text = "Sure! {\"a\": \"}{\", \"b\": {\"c\": 1}} trailing {";
    let spans = json_object_spans(text);
    assert_eq!(spans.len(), 2);
    let (s, e) = spans[0];
    assert_eq!(&text[s..e], "{\"a\": \"}{\", \"b\": {\"c\": 1}}");
    let (s, e) = spans[1];
    assert_eq!(&text[s..e], "{\"c\": 1}");
}

#[test]
fn spans_handle_escaped_quotes() {
    let text = "x {\"q\": \"say \\\"}\\\" now\"} y";
    let spans = json_object_spans(text);
    assert_eq!(spans.len(), 1);
    let (s, e) = spans[0];
    assert_eq!(&text[s..e], "{\"q\": \"say \\\"}\\\" now\"}");
    assert!(json_object_spans("no json here").is_empty());
    assert!(json_object_spans("{ never closed").is_empty());
}

#[test]
fn loader_paths() {
    let l = PromptLoader::new("data");
    assert_eq!(l.prompts_dir, "data/prompts");
    let p = l.npc_base_paths();
    assert_eq!(p, vec!["data/prompts/core/npc_base.md".to_string(), "data/prompts/npc_base.md".to_string()]);
    let p = l.gm_base_paths();
    assert_eq!(p, vec!["data/prompts/gm/gm_base.md".to_string(), "data/prompts/gm_base.md".to_string()]);
    assert_eq!(l.custom_path("memory_update"), "data/prompts/memory_update.md");
    assert_eq!(PromptLoader::new("data/").prompts_dir, "data/prompts");
    assert_eq!(PromptLoader::new("").prompts_dir, "prompts");
}

#[test]
fn builder_paths() {
    let b = PromptBuilder::new("world");
    assert_eq!(b.personality_path("alice"), "world/npcs/alice/personality.md");
    assert_eq!(b.memories_path("alice"), "world/npcs/alice/memories.json");
    assert_eq!(b.initial_memories_path("alice"), "world/npcs/alice/initial_memories.json");
    assert_eq!(b.transcript_path("c1"), "world/contracts/c1.json");
}

#[test]
fn gm_prompt_layout() {
    let b = PromptBuilder::new("data");
    assert_eq!(b.build_gm_prompt("BASE", "{}"), "BASE\n\n---\n\n## Current Input\n\n```json\n{}\n```");
}

fn world() -> GameState {
    let mut s = GameState::new();
    s.npcs.push(Npc::new("Alice", "tavern", "drinking"));
    s.npcs.push(Npc::new("Bob", "tavern", "playing cards"));
    s.npcs.push(Npc::new("Cid", "market", "selling"));
    s.apply_gm_response(&GmResponse {
        reality: String::new(),
        state_changes: Vec::new(),
        contracts: vec![ContractUpdate {
            id: "c1".to_string(),
            participants: vec!["Alice".to_string(), "Bob".to_string()],
            action: "create".to_string(),
            transcript_entry: None,
        }],
        next_prompts: Vec::new(),
    });
    s
}

#[test]
fn situation_lists_company_and_engagements() {
    let b = PromptBuilder::new("data");
    let s = world();
    let text = b.format_current_state(&s.npcs[0], &s);
    assert_eq!(
        text,
        "## Current Situation\n\n- You are at: tavern\n- You are: drinking\n\nAlso here:\n- Bob is playing cards\n\nYou are currently engaged in 1 interaction(s)\n"
    );
    let text = b.format_current_state(&s.npcs[2], &s);
    assert_eq!(text, "## Current Situation\n\n- You are at: market\n- You are: selling\n");
}

#[test]
fn intent_prompt_sections() {
    let b = PromptBuilder::new("data");
    let s = world();
    let p = b.build_npc_intent_prompt(&s.npcs[2], &s, "BASE", Some("PERSONA".to_string()), None, Some("T".to_string()));
    assert_eq!(
        p,
        "BASE\n\n---\n\nPERSONA\n\n---\n\n## Current Situation\n\n- You are at: market\n- You are: selling\n\n\n---\n\nWhat do you do next?"
    );
    let mut alice = s.npcs[0].clone();
    alice.next_prompt = Some("Bob deals you in.".to_string());
    let p = b.build_npc_intent_prompt(&alice, &s, "BASE", None, Some("{}".to_string()), Some("T".to_string()));
    assert!(p.starts_with("BASE\n\n---\n\n## Your Current Memories\n\n```json\n{}\n```\n\n---\n\n## Current Situation"));
    assert!(p.ends_with("\n\n---\n\n## Current Interaction\n\nT\n\n---\n\nBob deals you in."));
}

#[test]
fn memory_update_prompt_sections() {
    let b = PromptBuilder::new("data");
    let p = b.build_memory_update_prompt("INSTR", None, "{\"a\":1}", "It rained.", &vec!["Bob".to_string(), "Cid".to_string()]);
    assert_eq!(
        p,
        "INSTR\n\n---\n\n## Your Intent\n\n```json\n{\"a\":1}\n```\n\n---\n\n## What Actually Happened\n\nIt rained.\n\n---\n\n## NPCs Present\n\nBob, Cid"
    );
    let p = b.build_memory_update_prompt("I", Some("M".to_string()), "J", "R", &Vec::new());
    assert_eq!(p, "I\n\n---\n\n## Current Memories\n\n```json\nM\n```\n\n---\n\n## Your Intent\n\n```json\nJ\n```\n\n---\n\n## What Actually Happened\n\nR");
}
