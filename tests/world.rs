use social_npc::{
    ContractUpdate, EngineError, GameState, GmResponse, Intent, NextPrompt, Npc, NpcEngine, StateChange,
};

fn tavern() -> GameState {
    let mut s = GameState::new();
    s.npcs.push(Npc::new("A", "tavern", "drinking"));
    s.npcs.push(Npc::new("B", "tavern", "playing cards"));
    s.npcs.push(Npc::new("C", "market", "selling"));
    s
}

fn update(id: &str, participants: &[&str], action: &str) -> ContractUpdate {
    ContractUpdate {
        id: id.to_string(),
        participants: participants.iter().map(|p| p.to_string()).collect(),
        action: action.to_string(),
        transcript_entry: None,
    }
}

fn response(contracts: Vec<ContractUpdate>) -> GmResponse {
    GmResponse { reality: "It happened.".to_string(), state_changes: Vec::new(), contracts, next_prompts: Vec::new() }
}

fn active(s: &GameState, name: &str) -> Option<String> {
    s.npcs.iter().find(|n| n.name == name).unwrap().active_contract.clone()
}

#[test]
fn create_links_both_participants() {
    let mut s = tavern();
    let rejected = s.apply_gm_response(&response(vec![update("c1", &["A", "B"], "create")]));
    assert!(rejected.is_empty());
    assert_eq!(active(&s, "A"), Some("c1".to_string()));
    assert_eq!(active(&s, "B"), Some("c1".to_string()));
    assert_eq!(active(&s, "C"), None);
    assert_eq!(s.contracts.len(), 1);
    assert_eq!(s.contracts[0].participants, vec!["A".to_string(), "B".to_string()]);
    assert_eq!(s.contracts[0].transcript_file, "data/contracts/c1.json");
    assert!(s.check_wf());
}

#[test]
fn end_clears_both_participants() {
    let mut s = tavern();
    s.apply_gm_response(&response(vec![update("c1", &["A", "B"], "create")]));
    let rejected = s.apply_gm_response(&response(vec![update("c1", &["A", "B"], "end")]));
    assert!(rejected.is_empty());
    assert_eq!(active(&s, "A"), None);
    assert_eq!(active(&s, "B"), None);
    assert!(s.contracts.is_empty());
    assert!(s.find_contract(&"c1".to_string()).is_none());
    assert!(s.check_wf());
}

#[test]
fn end_keeps_references_to_other_contracts() {
    let mut s = tavern();
    s.apply_gm_response(&response(vec![
        update("c1", &["A", "B"], "create"),
        update("c2", &["B", "C"], "create"),
        update("c1", &[], "end"),
    ]));
    assert_eq!(active(&s, "A"), None);
    assert_eq!(active(&s, "B"), Some("c2".to_string()));
    assert_eq!(active(&s, "C"), Some("c2".to_string()));
    assert_eq!(s.contracts.len(), 1);
    assert!(s.check_wf());
}

#[test]
fn unknown_action_is_skipped_rest_applies() {
    let mut s = tavern();
    let mut r = response(vec![update("c1", &["A"], "dance"), update("c2", &["A", "C"], "create")]);
    r.state_changes.push(StateChange { npc: "C".to_string(), location: "tavern".to_string(), activity: "resting".to_string() });
    r.next_prompts.push(NextPrompt { npc: "A".to_string(), prompt: "Bob waves.".to_string() });
    let rejected = s.apply_gm_response(&r);
    assert_eq!(rejected.len(), 1);
    assert!(matches!(rejected[0], EngineError::UnknownAction(_)));
    assert_eq!(active(&s, "A"), Some("c2".to_string()));
    let c = s.npcs.iter().find(|n| n.name == "C").unwrap();
    assert_eq!(c.location, "tavern");
    assert_eq!(c.activity, "resting");
    let a = s.npcs.iter().find(|n| n.name == "A").unwrap();
    assert_eq!(a.next_prompt, Some("Bob waves.".to_string()));
}

#[test]
fn duplicate_create_and_missing_end_are_consistency_errors() {
    let mut s = tavern();
    s.apply_gm_response(&response(vec![update("c1", &["A", "B"], "create")]));
    let e = s.apply_contract_update(&update("c1", &["C"], "create"));
    assert!(matches!(e, Err(EngineError::Consistency(_))));
    assert_eq!(active(&s, "C"), None);
    let e = s.apply_contract_update(&update("zz", &[], "end"));
    assert!(matches!(e, Err(EngineError::Consistency(_))));
    let e = s.apply_contract_update(&update("zz", &[], "update"));
    assert!(matches!(e, Err(EngineError::Consistency(_))));
    assert!(s.apply_contract_update(&update("c1", &[], "update")).is_ok());
    assert_eq!(s.contracts.len(), 1);
}

#[test]
fn state_change_for_unknown_character_changes_nothing() {
    let mut s = tavern();
    s.apply_state_change(&StateChange { npc: "Z".to_string(), location: "x".to_string(), activity: "y".to_string() });
    assert!(s.npcs.iter().all(|n| n.location != "x"));
}

#[test]
fn check_wf_finds_dangling_reference() {
    let mut s = tavern();
    s.npcs[0].active_contract = Some("ghost".to_string());
    assert!(!s.check_wf());
    let mut s = tavern();
    s.npcs.push(Npc::new("A", "x", "y"));
    assert!(!s.check_wf());
}

fn engine_with_tavern() -> NpcEngine {
    let mut e = NpcEngine::new("data");
    e.load_npcs(&vec![
        ("Alice".to_string(), "data/npcs/Alice".to_string()),
        ("Bob".to_string(), "data/npcs/Bob".to_string()),
    ]);
    e.set_npc_state("Alice", "tavern", "drinking").unwrap();
    e.set_npc_state("Bob", "tavern", "playing cards").unwrap();
    e
}

#[test]
fn load_npcs_uses_defaults_and_last_entry_wins() {
    let mut e = NpcEngine::new("data");
    e.load_npcs(&vec![
        ("Ann".to_string(), "a1".to_string()),
        ("Ben".to_string(), "b".to_string()),
        ("Ann".to_string(), "a2".to_string()),
    ]);
    let s = e.get_state();
    assert_eq!(s.npcs.len(), 2);
    assert_eq!(s.npcs[0].name, "Ann");
    assert_eq!(s.npcs[0].folder_path, "a2");
    assert_eq!(s.npcs[1].location, "start");
    assert_eq!(s.npcs[1].activity, "idle");
}

#[test]
fn set_npc_state_unknown_is_not_found() {
    let mut e = engine_with_tavern();
    assert!(matches!(e.set_npc_state("Nobody", "x", "y"), Err(EngineError::NotFound(_))));
    assert!(e.init_npc("Nobody").is_ok());
}

#[test]
fn update_state_rejects_broken_world() {
    let mut e = engine_with_tavern();
    let mut bad = e.get_state();
    bad.npcs[0].active_contract = Some("nope".to_string());
    assert!(matches!(e.update_state(bad), Err(EngineError::Consistency(_))));
    assert!(e.get_state().npcs[0].active_contract.is_none());
    let mut good = e.get_state();
    good.npcs[0].activity = "singing".to_string();
    assert!(e.update_state(good).is_ok());
    assert_eq!(e.get_state().npcs[0].activity, "singing");
}

#[test]
fn all_backends_succeed_gives_one_intent_each() {
    let results = vec![
        Some(Intent::new("A", "a", "r")),
        Some(Intent::new("B", "b", "r")),
        Some(Intent::new("C", "c", "r")),
    ];
    let intents = NpcEngine::gather_intents(results);
    assert_eq!(intents.len(), 3);
    assert_eq!(intents[1].npc, "B");
}

#[test]
fn one_backend_failure_drops_one_intent() {
    let results = vec![Some(Intent::new("A", "a", "r")), None, Some(Intent::new("C", "c", "r"))];
    let intents = NpcEngine::gather_intents(results);
    assert_eq!(intents.len(), 2);
    assert_eq!(intents[0].npc, "A");
    assert_eq!(intents[1].npc, "C");
}

#[test]
fn no_intents_short_circuits() {
    let e = engine_with_tavern();
    assert!(e.prepare_resolution(Vec::new()).is_none());
    let r = NpcEngine::nothing_happened();
    assert_eq!(r.reality, "Nothing happened.");
    assert!(r.state_changes.is_empty() && r.contracts.is_empty() && r.next_prompts.is_empty());
}

#[test]
fn malformed_gm_response_leaves_world_unchanged() {
    let mut e = engine_with_tavern();
    e.apply_resolution(Ok(response(vec![update("c0", &["Alice"], "create")]))).unwrap();
    let before = e.get_state();
    let r = e.apply_resolution(Err(EngineError::Parse("not JSON".to_string())));
    assert!(matches!(r, Err(EngineError::Parse(_))));
    let after = e.get_state();
    assert_eq!(before.npcs.len(), after.npcs.len());
    for (x, y) in before.npcs.iter().zip(after.npcs.iter()) {
        assert_eq!(x.name, y.name);
        assert_eq!(x.location, y.location);
        assert_eq!(x.activity, y.activity);
        assert_eq!(x.active_contract, y.active_contract);
        assert_eq!(x.next_prompt, y.next_prompt);
    }
    assert_eq!(after.contracts.len(), 1);
    assert_eq!(after.contracts[0].id, "c0");
}

#[test]
fn others_present_lists_co_located() {
    let mut e = engine_with_tavern();
    e.load_npcs(&vec![
        ("Alice".to_string(), "a".to_string()),
        ("Bob".to_string(), "b".to_string()),
        ("Cid".to_string(), "c".to_string()),
    ]);
    e.set_npc_state("Alice", "tavern", "drinking").unwrap();
    e.set_npc_state("Bob", "tavern", "cards").unwrap();
    assert_eq!(e.others_present(&"Alice".to_string()), vec!["Bob".to_string()]);
    assert_eq!(e.others_present(&"Cid".to_string()), Vec::<String>::new());
    assert!(e.others_present(&"Nobody".to_string()).is_empty());
}
