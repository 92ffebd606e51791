use vstd::prelude::*;
use vstd::string::*;

use crate::error::EngineError;
use crate::prompts::PromptBuilder;
use crate::state::{
    fresh_npc, has_npc, relocate, resolved_state, after_state_changes, rejected_updates, roster_from,
    unique_names, wf_state,
};
use crate::types::{
    contract_views, copy_contracts, copy_npcs, npc_views, texts, CurrentState, GameState,
    GameStateView, GmInput, GmResponse, Intent, IntentView, MemoryUpdateInput, Npc,
    NpcView, StateChange, StateChangeView,
};

verus! {

/// The views of a list of intents.
pub open spec fn intent_views(v: Seq<Intent>) -> Seq<IntentView> {
    v.map_values(|i: Intent| i@)
}

/// The intents that succeeded, in the order of the attempts.
pub open spec fn collected(results: Seq<Option<Intent>>) -> Seq<IntentView>
    decreases results.len(),
{
    if results.len() == 0 {
        Seq::empty()
    } else {
        let prev = collected(results.drop_last());
        match results.last() {
            Some(i) => prev.push(i@),
            None => prev,
        }
    }
}

/// How many attempts succeeded.
pub open spec fn successes(results: Seq<Option<Intent>>) -> nat
    decreases results.len(),
{
    if results.len() == 0 {
        0
    } else {
        successes(results.drop_last()) + if results.last() is Some { 1nat } else { 0nat }
    }
}

/// `i` is the first character of `npcs` called `name`.
pub open spec fn is_first_npc(npcs: Seq<NpcView>, name: Seq<char>, i: int) -> bool {
    &&& 0 <= i < npcs.len()
    &&& npcs[i].name == name
    &&& forall|j: int| 0 <= j < i ==> (#[trigger] npcs[j]).name != name
}

/// The names of the characters other than `name` at `location`, in roster order.
pub open spec fn present_at(npcs: Seq<NpcView>, name: Seq<char>, location: Seq<char>) -> Seq<Seq<char>>
    decreases npcs.len(),
{
    if npcs.len() == 0 {
        Seq::empty()
    } else {
        let prev = present_at(npcs.drop_last(), name, location);
        if npcs.last().name != name && npcs.last().location == location {
            prev.push(npcs.last().name)
        } else {
            prev
        }
    }
}

/// Who else is where the character `name` is; nobody if there is no such character.
pub open spec fn co_located(npcs: Seq<NpcView>, name: Seq<char>) -> Seq<Seq<char>> {
    if exists|i: int| is_first_npc(npcs, name, i) {
        present_at(npcs, name, npcs[choose|i: int| is_first_npc(npcs, name, i)].location)
    } else {
        Seq::empty()
    }
}

/// The narrative of a turn in which nobody formed an intent.
pub open spec fn nothing_happened_text() -> Seq<char> {
    "Nothing happened."@
}

/// Drives a turn: holds the world state, decides what each phase asks of the
/// reasoning backend, and commits what comes back.
pub struct NpcEngine {
    data_path: String,
    state: GameState,
    prompt_builder: PromptBuilder,
}

impl NpcEngine {
    /// The world state meets its invariant, and prompts are built over the engine's
    /// data directory.
    pub open spec fn wf(&self) -> bool {
        wf_state(self.world()) && self.builder_dir() == self.data_dir()
    }

    /// The world state that the engine holds.
    pub closed spec fn world(&self) -> GameStateView {
        self.state@
    }

    /// The directory that holds the characters and the prompt templates.
    pub closed spec fn data_dir(&self) -> Seq<char> {
        self.data_path@
    }

    /// The directory over which the engine's prompts are built.
    pub closed spec fn builder_dir(&self) -> Seq<char> {
        self.prompt_builder.data_path@
    }

    /// An engine over the data directory `data_path`, with an empty world.
    pub fn new(data_path: &str) -> (r: NpcEngine)
        ensures
            r.world().npcs.len() == 0,
            r.world().contracts.len() == 0,
            r.wf(),
            r.data_dir() == data_path@,
    {
        NpcEngine {
            data_path: data_path.to_owned(),
            state: GameState::new(),
            prompt_builder: PromptBuilder::new(data_path),
        }
    }

    /// The data directory.
    pub fn data_path(&self) -> (r: &String)
        ensures
            r@ == self.data_dir(),
    {
        &self.data_path
    }

    /// The prompt builder over the data directory.
    pub fn prompt_builder(&self) -> (r: &PromptBuilder)
        requires
            self.wf(),
        ensures
            r.data_path@ == self.data_dir(),
    {
        &self.prompt_builder
    }

    /// A deep, point-in-time copy of the world state.
    pub fn get_state(&self) -> (r: GameState)
        requires
            self.wf(),
        ensures
            r@ == self.world(),
            r.wf(),
    {
        self.state.clone()
    }

    /// Replaces the world state, if the new one meets the invariant; otherwise it is
    /// rejected and the world stays as it was.
    pub fn update_state(&mut self, new_state: GameState) -> (r: Result<(), EngineError>)
        requires
            old(self).wf(),
        ensures
            r is Ok <==> wf_state(new_state@),
            r is Ok ==> final(self).world() == new_state@,
            r is Err ==> final(self).world() == old(self).world() && r->Err_0 is Consistency,
            final(self).data_dir() == old(self).data_dir(),
            final(self).wf(),
    {
        if new_state.check_wf() {
            self.state = new_state;
            Ok(())
        } else {
            Err(EngineError::Consistency(String::from_str("the new world state breaks its invariant")))
        }
    }

    /// Moves the character `npc_name` to `location`, doing `activity`.
    pub fn set_npc_state(&mut self, npc_name: &str, location: &str, activity: &str) -> (r: Result<(), EngineError>)
        requires
            old(self).wf(),
        ensures
            r is Ok <==> has_npc(old(self).world().npcs, npc_name@),
            r is Err ==> final(self).world() == old(self).world() && r->Err_0 is NotFound,
            r is Ok ==> final(self).world() == (GameStateView {
                npcs: old(self).world().npcs.map_values(
                    |n: NpcView| relocate(n, StateChangeView { npc: npc_name@, location: location@, activity: activity@ }),
                ),
                contracts: old(self).world().contracts,
            }),
            final(self).data_dir() == old(self).data_dir(),
            final(self).wf(),
    {
        let name = npc_name.to_owned();
        match self.state.find_npc(&name) {
            None => {
                let mut msg = String::from_str("no such character: ");
                msg.append(npc_name);
                Err(EngineError::NotFound(msg))
            },
            Some(i) => {
                proof {
                    assert(self.state@.npcs[i as int] == self.state.npcs@[i as int]@);
                }
                let change = StateChange { npc: name, location: location.to_owned(), activity: activity.to_owned() };
                let ghost before = self.state@;
                proof {
                    crate::state::lemma_relocate_keeps_wf(before, change@);
                }
                self.state.apply_state_change(&change);
                Ok(())
            },
        }
    }

    /// Prepares nothing in the world state for a new character: its files belong to
    /// the storage layer.
    pub fn init_npc(&self, name: &str) -> (r: Result<(), EngineError>)
        ensures
            r is Ok,
    {
        Ok(())
    }

    /// Installs the characters found in the data directory, as `(name, folder)`
    /// entries: each at the default location, idle, with no contract and no
    /// directive; a later entry with the same name replaces an earlier one.
    pub fn load_npcs(&mut self, found: &Vec<(String, String)>)
        requires
            old(self).wf(),
        ensures
            final(self).world().npcs == roster_from(found@.map_values(|e: (String, String)| (e.0@, e.1@))),
            final(self).world().contracts == old(self).world().contracts,
            final(self).data_dir() == old(self).data_dir(),
            final(self).wf(),
    {
        let ghost entries = found@.map_values(|e: (String, String)| (e.0@, e.1@));
        let mut roster = GameState { npcs: Vec::new(), contracts: Vec::new() };
        let mut i: usize = 0;
        while i < found.len()
            invariant
                i <= found.len(),
                entries == found@.map_values(|e: (String, String)| (e.0@, e.1@)),
                roster@.npcs == roster_from(entries.subrange(0, i as int)),
                unique_names(roster@.npcs),
                forall|k: int| 0 <= k < roster@.npcs.len() ==> (#[trigger] roster@.npcs[k]).active_contract is None,
            decreases found.len() - i,
        {
            let npc = Npc {
                name: found[i].0.clone(),
                location: String::from_str("start"),
                activity: String::from_str("idle"),
                folder_path: found[i].1.clone(),
                active_contract: None,
                next_prompt: None,
            };
            proof {
                let es = entries.subrange(0, i + 1);
                assert(es.drop_last() =~= entries.subrange(0, i as int));
                assert(es.last() == entries[i as int]);
                assert(npc@ == fresh_npc(entries[i as int].0, entries[i as int].1));
            }
            roster.insert_npc(npc);
            i = i + 1;
        }
        proof {
            assert(entries.subrange(0, found.len() as int) =~= entries);
        }
        let ghost contracts = self.state@.contracts;
        roster.contracts = copy_contracts(&self.state.contracts);
        proof {
            assert(roster@.contracts == contracts);
        }
        proof {
            assert forall|k: int| 0 <= k < roster@.npcs.len() && (#[trigger] roster@.npcs[k]).active_contract is Some implies false by {}
        }
        self.state = roster;
    }

    /// Keeps the intents of the attempts that succeeded, in the order of the attempts;
    /// a failed attempt contributes nothing.
    pub fn gather_intents(results: Vec<Option<Intent>>) -> (r: Vec<Intent>)
        ensures
            intent_views(r@) == collected(results@),
    {
        let ghost all = results@;
        let mut rest = results;
        let mut r: Vec<Intent> = Vec::new();
        while rest.len() > 0
            invariant
                rest@.len() <= all.len(),
                forall|j: int| 0 <= j < rest@.len() ==> #[trigger] rest@[j] == all[all.len() - rest@.len() + j],
                intent_views(r@) == collected(all.subrange(0, all.len() - rest@.len())),
            decreases rest@.len(),
        {
            let ghost before = rest@;
            let next = rest.remove(0);
            proof {
                assert(forall|j: int| 0 <= j < rest@.len() ==> rest@[j] == before[j + 1]);
                let done = all.subrange(0, all.len() - rest@.len());
                assert(done.drop_last() =~= all.subrange(0, all.len() - rest@.len() - 1));
                assert(done.last() == next);
            }
            if let Some(intent) = next {
                let ghost prev = r@;
                r.push(intent);
                proof {
                    assert(intent_views(r@) =~= intent_views(prev).push(intent@));
                }
            }
        }
        proof {
            assert(all.subrange(0, all.len() as int) =~= all);
        }
        r
    }

    /// The names of the other characters at the location of the character `npc_name`,
    /// in roster order; none if there is no such character.
    pub fn others_present(&self, npc_name: &String) -> (r: Vec<String>)
        ensures
            texts(r@) == co_located(self.world().npcs, npc_name@),
    {
        let npcs = &self.state.npcs;
        let ghost w = self.state@.npcs;
        let me = match self.state.find_npc(npc_name) {
            None => {
                proof {
                    assert(!(exists|i: int| is_first_npc(w, npc_name@, i)));
                }
                return Vec::new();
            },
            Some(me) => me,
        };
        proof {
            assert(w[me as int] == npcs@[me as int]@);
            assert(is_first_npc(w, npc_name@, me as int));
            let k = choose|k: int| is_first_npc(w, npc_name@, k);
            if k < me {
                assert(w[k].name != npc_name@);
            } else if k > me {
                assert(w[me as int].name != npc_name@);
            }
        }
        let location = &npcs[me].location;
        let mut r: Vec<String> = Vec::new();
        let mut j: usize = 0;
        while j < npcs.len()
            invariant
                j <= npcs.len(),
                w == npc_views(npcs@),
                texts(r@) == present_at(w.subrange(0, j as int), npc_name@, location@),
            decreases npcs.len() - j,
        {
            proof {
                let ws = w.subrange(0, j + 1);
                assert(ws.drop_last() =~= w.subrange(0, j as int));
                assert(ws.last() == npcs@[j as int]@);
            }
            if !(npcs[j].name == *npc_name) && npcs[j].location == *location {
                let ghost prev = r@;
                r.push(npcs[j].name.clone());
                proof {
                    assert(texts(r@) =~= texts(prev).push(npcs@[j as int].name@));
                }
            }
            j = j + 1;
        }
        proof {
            assert(w.subrange(0, npcs.len() as int) =~= w);
        }
        r
    }

    /// What the arbiter is asked to resolve: a fresh copy of the world and all the
    /// intents. Nothing, when nobody formed an intent.
    pub fn prepare_resolution(&self, intents: Vec<Intent>) -> (r: Option<GmInput>)
        requires
            self.wf(),
        ensures
            r is None <==> intents@.len() == 0,
            r matches Some(input) ==> npc_views(input.current_state.npcs@) == self.world().npcs
                && contract_views(input.current_state.active_contracts@) == self.world().contracts
                && intent_views(input.intents@) == intent_views(intents@),
    {
        if intents.len() == 0 {
            return None;
        }
        Some(GmInput {
            current_state: CurrentState {
                npcs: copy_npcs(&self.state.npcs),
                active_contracts: copy_contracts(&self.state.contracts),
            },
            intents,
        })
    }

    /// The resolution of a turn in which nobody formed an intent: nothing happened,
    /// and nothing changes.
    pub fn nothing_happened() -> (r: GmResponse)
        ensures
            r@.reality == nothing_happened_text(),
            r@.state_changes.len() == 0,
            r@.contracts.len() == 0,
            r@.next_prompts.len() == 0,
    {
        GmResponse {
            reality: String::from_str("Nothing happened."),
            state_changes: Vec::new(),
            contracts: Vec::new(),
            next_prompts: Vec::new(),
        }
    }

    /// Commits the arbiter's resolution, all of it or nothing: a response that could
    /// not be parsed leaves the world exactly as it was and fails the turn; a parsed
    /// one is applied as one update, and the contract updates it had to skip are
    /// returned beside it.
    pub fn apply_resolution(&mut self, parsed: Result<GmResponse, EngineError>) -> (r: Result<
        (GmResponse, Vec<EngineError>),
        EngineError,
    >)
        requires
            old(self).wf(),
        ensures
            final(self).wf(),
            final(self).data_dir() == old(self).data_dir(),
            parsed is Err ==> final(self).world() == old(self).world(),
            parsed is Err ==> r is Err && r->Err_0 == parsed->Err_0,
            parsed is Ok ==> r is Ok,
            r matches Ok(out) ==> parsed is Ok && out.0@ == parsed->Ok_0@
                && final(self).world() == resolved_state(old(self).world(), out.0@)
                && out.1@.len() == rejected_updates(after_state_changes(old(self).world(), out.0@), out.0@.contracts),
    {
        match parsed {
            Err(e) => Err(e),
            Ok(resp) => {
                let rejected = self.state.apply_gm_response(&resp);
                Ok((resp, rejected))
            },
        }
    }

    /// What each character that acted is asked to remember: its intent, what
    /// happened, and who else is where it now is.
    pub fn memory_update_inputs(&self, intents: &Vec<Intent>, reality: &String) -> (r: Vec<MemoryUpdateInput>)
        ensures
            r@.len() == intents@.len(),
            forall|i: int|
                0 <= i < r@.len() ==> (#[trigger] r@[i]).npc_name@ == intents@[i].npc@ && r@[i].intent@
                    == intents@[i]@ && r@[i].reality@ == reality@ && texts(r@[i].other_npcs_present@)
                    == co_located(self.world().npcs, intents@[i].npc@),
    {
        let mut r: Vec<MemoryUpdateInput> = Vec::new();
        let mut i: usize = 0;
        while i < intents.len()
            invariant
                i <= intents.len(),
                r@.len() == i,
                forall|k: int|
                    0 <= k < i ==> (#[trigger] r@[k]).npc_name@ == intents@[k].npc@ && r@[k].intent@
                        == intents@[k]@ && r@[k].reality@ == reality@ && texts(r@[k].other_npcs_present@)
                        == co_located(self.world().npcs, intents@[k].npc@),
            decreases intents.len() - i,
        {
            let intent = &intents[i];
            let input = MemoryUpdateInput {
                npc_name: intent.npc.clone(),
                intent: intent.clone(),
                reality: reality.clone(),
                other_npcs_present: self.others_present(&intent.npc),
            };
            r.push(input);
            i = i + 1;
        }
        r
    }
}

/// Every attempt that succeeds contributes exactly one intent.
pub proof fn lemma_collected_len(results: Seq<Option<Intent>>)
    ensures
        collected(results).len() == successes(results),
    decreases results.len(),
{
    if results.len() > 0 {
        lemma_collected_len(results.drop_last());
    }
}

/// When every character's attempt succeeds, the collected intents are exactly the
/// ones produced, one per character, in character order: what the attempts return
/// decides the result, not when they complete.
pub proof fn lemma_all_succeed(results: Seq<Option<Intent>>)
    requires
        forall|i: int| 0 <= i < results.len() ==> (#[trigger] results[i]) is Some,
    ensures
        collected(results).len() == results.len(),
        forall|i: int| 0 <= i < results.len() ==> collected(results)[i] == (#[trigger] results[i])->Some_0@,
    decreases results.len(),
{
    if results.len() > 0 {
        let d = results.drop_last();
        assert forall|i: int| 0 <= i < d.len() implies (#[trigger] d[i]) is Some by {
            assert(d[i] == results[i]);
        }
        lemma_all_succeed(d);
        assert forall|i: int| 0 <= i < results.len() implies collected(results)[i] == (#[trigger] results[i])->Some_0@ by {
            if i < d.len() {
                assert(d[i] == results[i]);
            }
        }
    }
}

/// When exactly one character's attempt fails, one intent fewer than there are
/// characters is collected.
pub proof fn lemma_one_fails(results: Seq<Option<Intent>>, x: int)
    requires
        0 <= x < results.len(),
        results[x] is None,
        forall|i: int| 0 <= i < results.len() && i != x ==> (#[trigger] results[i]) is Some,
    ensures
        collected(results).len() == results.len() - 1,
{
    lemma_collected_len(results);
    lemma_successes_one_fails(results, x);
}

proof fn lemma_successes_one_fails(results: Seq<Option<Intent>>, x: int)
    requires
        0 <= x < results.len(),
        results[x] is None,
        forall|i: int| 0 <= i < results.len() && i != x ==> (#[trigger] results[i]) is Some,
    ensures
        successes(results) == results.len() - 1,
    decreases results.len(),
{
    let d = results.drop_last();
    if x == results.len() - 1 {
        assert forall|i: int| 0 <= i < d.len() implies (#[trigger] d[i]) is Some by {
            assert(d[i] == results[i]);
        }
        lemma_successes_all(d);
    } else {
        assert(d[x] == results[x]);
        assert forall|i: int| 0 <= i < d.len() && i != x implies (#[trigger] d[i]) is Some by {
            assert(d[i] == results[i]);
        }
        lemma_successes_one_fails(d, x);
    }
}

proof fn lemma_successes_all(results: Seq<Option<Intent>>)
    requires
        forall|i: int| 0 <= i < results.len() ==> (#[trigger] results[i]) is Some,
    ensures
        successes(results) == results.len(),
    decreases results.len(),
{
    if results.len() > 0 {
        let d = results.drop_last();
        assert forall|i: int| 0 <= i < d.len() implies (#[trigger] d[i]) is Some by {
            assert(d[i] == results[i]);
        }
        lemma_successes_all(d);
    }
}

} // verus!
