use vstd::prelude::*;
use vstd::string::*;

use crate::error::EngineError;
use crate::text::text_eq;
use crate::types::{
    copy_texts, texts, Contract, ContractUpdate, ContractUpdateView, ContractView, GameState,
    GameStateView, GmResponse, GmResponseView, NextPrompt, NextPromptView, NpcView, StateChange, StateChangeView,
};

verus! {

/// Some character of `npcs` is called `name`.
pub open spec fn has_npc(npcs: Seq<NpcView>, name: Seq<char>) -> bool {
    exists|i: int| 0 <= i < npcs.len() && #[trigger] npcs[i].name == name
}

/// Some contract of `cs` has the id `id`.
pub open spec fn has_contract(cs: Seq<ContractView>, id: Seq<char>) -> bool {
    exists|k: int| 0 <= k < cs.len() && #[trigger] cs[k].id == id
}

/// Some contract of `cs` has the id `id` and lists `name` among its participants.
pub open spec fn in_contract(cs: Seq<ContractView>, id: Seq<char>, name: Seq<char>) -> bool {
    exists|k: int| 0 <= k < cs.len() && #[trigger] cs[k].id == id && cs[k].participants.contains(name)
}

/// The world-state invariant: names and contract ids are unique, and every
/// character's active contract exists and lists that character.
pub open spec fn wf_state(s: GameStateView) -> bool {
    &&& forall|i: int, j: int|
        0 <= i < j < s.npcs.len() ==> #[trigger] s.npcs[i].name != #[trigger] s.npcs[j].name
    &&& forall|i: int, j: int|
        0 <= i < j < s.contracts.len() ==> #[trigger] s.contracts[i].id != #[trigger] s.contracts[j].id
    &&& forall|i: int|
        0 <= i < s.npcs.len() && (#[trigger] s.npcs[i]).active_contract is Some ==> in_contract(
            s.contracts,
            s.npcs[i].active_contract->Some_0,
            s.npcs[i].name,
        )
}

/// `b` holds the same characters as `a`, in the same order, with the same contract
/// references: only locations, activities and directives may differ.
pub open spec fn same_roster(a: Seq<NpcView>, b: Seq<NpcView>) -> bool {
    &&& a.len() == b.len()
    &&& forall|i: int|
        0 <= i < a.len() ==> (#[trigger] b[i]).name == a[i].name && b[i].active_contract
            == a[i].active_contract
}

/// A state change applied to one character: it moves if it is the one named.
pub open spec fn relocate(n: NpcView, c: StateChangeView) -> NpcView {
    if n.name == c.npc {
        NpcView { location: c.location, activity: c.activity, ..n }
    } else {
        n
    }
}

/// State changes applied in order.
pub open spec fn apply_state_changes(npcs: Seq<NpcView>, cs: Seq<StateChangeView>) -> Seq<NpcView>
    decreases cs.len(),
{
    if cs.len() == 0 {
        npcs
    } else {
        apply_state_changes(npcs, cs.drop_last()).map_values(|n: NpcView| relocate(n, cs.last()))
    }
}

/// A directive applied to one character: it is stored if it is the one named.
pub open spec fn direct(n: NpcView, p: NextPromptView) -> NpcView {
    if n.name == p.npc {
        NpcView { next_prompt: Some(p.prompt), ..n }
    } else {
        n
    }
}

/// Directives applied in order.
pub open spec fn apply_next_prompts(npcs: Seq<NpcView>, ps: Seq<NextPromptView>) -> Seq<NpcView>
    decreases ps.len(),
{
    if ps.len() == 0 {
        npcs
    } else {
        apply_next_prompts(npcs, ps.drop_last()).map_values(|n: NpcView| direct(n, ps.last()))
    }
}

/// Where the transcript of contract `id` accumulates.
pub open spec fn transcript_path(id: Seq<char>) -> Seq<char> {
    "data/contracts/"@ + id + ".json"@
}

/// The contract that a `create` update makes.
pub open spec fn created_contract(u: ContractUpdateView) -> ContractView {
    ContractView { id: u.id, participants: u.participants, transcript_file: transcript_path(u.id) }
}

/// A character joins contract `u.id` if `u` lists it.
pub open spec fn enlist(n: NpcView, u: ContractUpdateView) -> NpcView {
    if u.participants.contains(n.name) {
        NpcView { active_contract: Some(u.id), ..n }
    } else {
        n
    }
}

/// A character leaves contract `id` if it references it.
pub open spec fn release(n: NpcView, id: Seq<char>) -> NpcView {
    if n.active_contract == Some(id) {
        NpcView { active_contract: None, ..n }
    } else {
        n
    }
}

/// The contracts of `cs` without those whose id is `id`, order kept.
pub open spec fn without_contract(cs: Seq<ContractView>, id: Seq<char>) -> Seq<ContractView>
    decreases cs.len(),
{
    if cs.len() == 0 {
        cs
    } else if cs.last().id == id {
        without_contract(cs.drop_last(), id)
    } else {
        without_contract(cs.drop_last(), id).push(cs.last())
    }
}

pub open spec fn is_create(u: ContractUpdateView) -> bool {
    u.action == "create"@
}

pub open spec fn is_update(u: ContractUpdateView) -> bool {
    u.action == "update"@
}

pub open spec fn is_end(u: ContractUpdateView) -> bool {
    u.action == "end"@
}

/// The contract actions that the world state knows.
pub open spec fn known_action(u: ContractUpdateView) -> bool {
    is_create(u) || is_update(u) || is_end(u)
}

/// A contract update is carried out: a known action whose contract does not exist yet
/// (`create`) or exists (`update`, `end`).
pub open spec fn update_accepted(s: GameStateView, u: ContractUpdateView) -> bool {
    if is_create(u) {
        !has_contract(s.contracts, u.id)
    } else {
        known_action(u) && has_contract(s.contracts, u.id)
    }
}

/// One contract update applied to the world: `create` adds the contract and points
/// every listed character at it; `end` removes it and clears the references to it;
/// `update` and every rejected update leave the world as it is.
pub open spec fn contract_step(s: GameStateView, u: ContractUpdateView) -> GameStateView {
    if !update_accepted(s, u) {
        s
    } else if is_create(u) {
        GameStateView {
            npcs: s.npcs.map_values(|n: NpcView| enlist(n, u)),
            contracts: s.contracts.push(created_contract(u)),
        }
    } else if is_end(u) {
        GameStateView {
            npcs: s.npcs.map_values(|n: NpcView| release(n, u.id)),
            contracts: without_contract(s.contracts, u.id),
        }
    } else {
        s
    }
}

/// Contract updates applied in order.
pub open spec fn apply_contract_updates(s: GameStateView, us: Seq<ContractUpdateView>) -> GameStateView
    decreases us.len(),
{
    if us.len() == 0 {
        s
    } else {
        contract_step(apply_contract_updates(s, us.drop_last()), us.last())
    }
}

/// How many of the updates `us`, applied in order, are rejected.
pub open spec fn rejected_updates(s: GameStateView, us: Seq<ContractUpdateView>) -> nat
    decreases us.len(),
{
    if us.len() == 0 {
        0
    } else {
        let before = apply_contract_updates(s, us.drop_last());
        rejected_updates(s, us.drop_last()) + if update_accepted(before, us.last()) {
            0nat
        } else {
            1nat
        }
    }
}

/// `r` tells whether `name` is among `list`.
pub fn lists_name(list: &Vec<String>, name: &String) -> (r: bool)
    ensures
        r == texts(list@).contains(name@),
{
    let mut i: usize = 0;
    while i < list.len()
        invariant
            i <= list.len(),
            forall|j: int| 0 <= j < i ==> (#[trigger] list@[j])@ != name@,
        decreases list.len() - i,
    {
        if list[i] == *name {
            assert(texts(list@)[i as int] == name@);
            return true;
        }
        i = i + 1;
    }
    proof {
        assert forall|j: int| 0 <= j < texts(list@).len() implies texts(list@)[j] != name@ by {
            assert(texts(list@)[j] == list@[j]@);
        }
    }
    false
}

proof fn lemma_without_contract(cs: Seq<ContractView>, id: Seq<char>)
    ensures
        forall|x: ContractView| #[trigger]
            without_contract(cs, id).contains(x) ==> cs.contains(x) && x.id != id,
        forall|k: int|
            0 <= k < cs.len() && cs[k].id != id ==> without_contract(cs, id).contains(
                #[trigger] cs[k],
            ),
        (forall|i: int, j: int| 0 <= i < j < cs.len() ==> #[trigger] cs[i].id != #[trigger] cs[j].id)
            ==> (forall|i: int, j: int|
            0 <= i < j < without_contract(cs, id).len() ==> #[trigger] without_contract(cs, id)[i].id
                != #[trigger] without_contract(cs, id)[j].id),
    decreases cs.len(),
{
    if cs.len() > 0 {
        let d = cs.drop_last();
        lemma_without_contract(d, id);
        let w = without_contract(d, id);
        assert forall|x: ContractView| #[trigger]
            without_contract(cs, id).contains(x) implies cs.contains(x) && x.id != id by {
            if w.contains(x) {
                let k = choose|k: int| 0 <= k < d.len() && d[k] == x;
                assert(cs[k] == x);
            } else {
                assert(cs[cs.len() - 1] == x);
            }
        }
        assert forall|k: int| 0 <= k < cs.len() && cs[k].id != id implies without_contract(
            cs,
            id,
        ).contains(#[trigger] cs[k]) by {
            if k < cs.len() - 1 {
                assert(d[k] == cs[k]);
                assert(w.contains(d[k]));
                if cs.last().id != id {
                    let m = choose|m: int| 0 <= m < w.len() && w[m] == d[k];
                    assert(without_contract(cs, id)[m] == cs[k]);
                }
            } else {
                assert(without_contract(cs, id)[w.len() as int] == cs[k]);
            }
        }
        if forall|i: int, j: int| 0 <= i < j < cs.len() ==> #[trigger] cs[i].id != #[trigger] cs[j].id {
            assert(forall|i: int, j: int| 0 <= i < j < d.len() ==> #[trigger] d[i].id != #[trigger] d[j].id) by {
                assert forall|i: int, j: int| 0 <= i < j < d.len() implies #[trigger] d[i].id != #[trigger] d[j].id by {
                    assert(d[i] == cs[i] && d[j] == cs[j]);
                }
            }
            if cs.last().id != id {
                let r = without_contract(cs, id);
                assert forall|i: int, j: int| 0 <= i < j < r.len() implies #[trigger] r[i].id != #[trigger] r[j].id by {
                    if j == r.len() - 1 {
                        assert(w.contains(r[i]));
                        let k = choose|k: int| 0 <= k < d.len() && d[k] == r[i];
                        assert(cs[k] == d[k]);
                        assert(cs[k].id != cs[cs.len() - 1].id);
                    } else {
                        assert(r[i] == w[i] && r[j] == w[j]);
                    }
                }
            }
        }
    }
}

/// Changing only locations, activities and directives keeps the invariant.
proof fn lemma_roster_keeps_wf(s: GameStateView, npcs: Seq<NpcView>)
    requires
        wf_state(s),
        same_roster(s.npcs, npcs),
    ensures
        wf_state(GameStateView { npcs, contracts: s.contracts }),
{
    let t = GameStateView { npcs, contracts: s.contracts };
    assert forall|i: int, j: int| 0 <= i < j < t.npcs.len() implies #[trigger] t.npcs[i].name != #[trigger] t.npcs[j].name by {
        assert(s.npcs[i].name != s.npcs[j].name);
    }
    assert forall|i: int| 0 <= i < t.npcs.len() && (#[trigger] t.npcs[i]).active_contract is Some implies in_contract(
        t.contracts,
        t.npcs[i].active_contract->Some_0,
        t.npcs[i].name,
    ) by {
        assert(s.npcs[i].active_contract is Some);
    }
}

/// A `create` of a contract that does not exist yet keeps the invariant.
proof fn lemma_create_keeps_wf(s: GameStateView, u: ContractUpdateView)
    requires
        wf_state(s),
        !has_contract(s.contracts, u.id),
    ensures
        wf_state(
            GameStateView {
                npcs: s.npcs.map_values(|n: NpcView| enlist(n, u)),
                contracts: s.contracts.push(created_contract(u)),
            },
        ),
{
    let t = GameStateView {
        npcs: s.npcs.map_values(|n: NpcView| enlist(n, u)),
        contracts: s.contracts.push(created_contract(u)),
    };
    assert forall|i: int, j: int| 0 <= i < j < t.npcs.len() implies #[trigger] t.npcs[i].name != #[trigger] t.npcs[j].name by {
        assert(s.npcs[i].name != s.npcs[j].name);
    }
    assert forall|i: int, j: int| 0 <= i < j < t.contracts.len() implies #[trigger] t.contracts[i].id != #[trigger] t.contracts[j].id by {
        if j < s.contracts.len() {
            assert(s.contracts[i].id != s.contracts[j].id);
        } else {
            assert(t.contracts[i] == s.contracts[i]);
        }
    }
    assert forall|i: int| 0 <= i < t.npcs.len() && (#[trigger] t.npcs[i]).active_contract is Some implies in_contract(
        t.contracts,
        t.npcs[i].active_contract->Some_0,
        t.npcs[i].name,
    ) by {
        let n = s.npcs[i];
        if u.participants.contains(n.name) {
            let k = s.contracts.len() as int;
            assert(t.contracts[k].id == u.id);
        } else {
            let k = choose|k: int| 0 <= k < s.contracts.len() && #[trigger] s.contracts[k].id == n.active_contract->Some_0 && s.contracts[k].participants.contains(n.name);
            assert(t.contracts[k] == s.contracts[k]);
        }
    }
}

/// An `end` keeps the invariant.
proof fn lemma_end_keeps_wf(s: GameStateView, id: Seq<char>)
    requires
        wf_state(s),
    ensures
        wf_state(
            GameStateView {
                npcs: s.npcs.map_values(|n: NpcView| release(n, id)),
                contracts: without_contract(s.contracts, id),
            },
        ),
{
    let t = GameStateView {
        npcs: s.npcs.map_values(|n: NpcView| release(n, id)),
        contracts: without_contract(s.contracts, id),
    };
    lemma_without_contract(s.contracts, id);
    assert forall|i: int, j: int| 0 <= i < j < t.npcs.len() implies #[trigger] t.npcs[i].name != #[trigger] t.npcs[j].name by {
        assert(s.npcs[i].name != s.npcs[j].name);
    }
    assert forall|i: int| 0 <= i < t.npcs.len() && (#[trigger] t.npcs[i]).active_contract is Some implies in_contract(
        t.contracts,
        t.npcs[i].active_contract->Some_0,
        t.npcs[i].name,
    ) by {
        let n = s.npcs[i];
        let a = n.active_contract->Some_0;
        assert(a != id);
        let k = choose|k: int| 0 <= k < s.contracts.len() && #[trigger] s.contracts[k].id == a && s.contracts[k].participants.contains(n.name);
        assert(t.contracts.contains(s.contracts[k]));
        let m = choose|m: int| 0 <= m < t.contracts.len() && t.contracts[m] == s.contracts[k];
        assert(t.contracts[m].id == a);
    }
}

impl GameState {
    /// An empty world.
    pub fn new() -> (r: GameState)
        ensures
            r@.npcs.len() == 0,
            r@.contracts.len() == 0,
            r.wf(),
    {
        GameState { npcs: Vec::new(), contracts: Vec::new() }
    }

    /// The world-state invariant holds.
    pub open spec fn wf(&self) -> bool {
        wf_state(self@)
    }

    /// The position of the contract with id `id`.
    pub fn find_contract(&self, id: &String) -> (r: Option<usize>)
        ensures
            match r {
                Some(k) => k < self.contracts.len() && self.contracts@[k as int]@.id == id@,
                None => !has_contract(self@.contracts, id@),
            },
    {
        let mut k: usize = 0;
        while k < self.contracts.len()
            invariant
                k <= self.contracts.len(),
                forall|m: int| 0 <= m < k ==> (#[trigger] self.contracts@[m])@.id != id@,
            decreases self.contracts.len() - k,
        {
            if self.contracts[k].id == *id {
                return Some(k);
            }
            k = k + 1;
        }
        proof {
            assert forall|m: int| 0 <= m < self@.contracts.len() implies #[trigger] self@.contracts[m].id != id@ by {
                assert(self@.contracts[m] == self.contracts@[m]@);
            }
        }
        None
    }

    /// The position of the character called `name`.
    pub fn find_npc(&self, name: &String) -> (r: Option<usize>)
        ensures
            match r {
                Some(i) => i < self.npcs.len() && self.npcs@[i as int]@.name == name@
                    && forall|m: int| 0 <= m < i ==> (#[trigger] self@.npcs[m]).name != name@,
                None => !has_npc(self@.npcs, name@),
            },
    {
        let mut i: usize = 0;
        while i < self.npcs.len()
            invariant
                i <= self.npcs.len(),
                forall|m: int| 0 <= m < i ==> (#[trigger] self.npcs@[m])@.name != name@,
            decreases self.npcs.len() - i,
        {
            if self.npcs[i].name == *name {
                proof {
                    assert forall|m: int| 0 <= m < i implies (#[trigger] self@.npcs[m]).name != name@ by {
                        assert(self@.npcs[m] == self.npcs@[m]@);
                    }
                }
                return Some(i);
            }
            i = i + 1;
        }
        proof {
            assert forall|m: int| 0 <= m < self@.npcs.len() implies #[trigger] self@.npcs[m].name != name@ by {
                assert(self@.npcs[m] == self.npcs@[m]@);
            }
        }
        None
    }

    /// Moves the named character to the change's location and activity.
    pub fn apply_state_change(&mut self, c: &StateChange)
        ensures
            final(self)@ == (GameStateView {
                npcs: old(self)@.npcs.map_values(|n: NpcView| relocate(n, c@)),
                contracts: old(self)@.contracts,
            }),
    {
        let mut j: usize = 0;
        while j < self.npcs.len()
            invariant
                self.npcs.len() == old(self).npcs.len(),
                self.contracts == old(self).contracts,
                j <= self.npcs.len(),
                forall|k: int| 0 <= k < j ==> (#[trigger] self.npcs@[k])@ == relocate(old(self).npcs@[k]@, c@),
                forall|k: int| j <= k < self.npcs.len() ==> #[trigger] self.npcs@[k] == old(self).npcs@[k],
            decreases self.npcs.len() - j,
        {
            if self.npcs[j].name == c.npc {
                self.npcs[j].location = c.location.clone();
                self.npcs[j].activity = c.activity.clone();
            }
            j = j + 1;
        }
        proof {
            assert(self@.npcs =~= old(self)@.npcs.map_values(|n: NpcView| relocate(n, c@)));
        }
    }

    /// Stores the directive on the named character.
    pub fn apply_next_prompt(&mut self, p: &NextPrompt)
        ensures
            final(self)@ == (GameStateView {
                npcs: old(self)@.npcs.map_values(|n: NpcView| direct(n, p@)),
                contracts: old(self)@.contracts,
            }),
    {
        let mut j: usize = 0;
        while j < self.npcs.len()
            invariant
                self.npcs.len() == old(self).npcs.len(),
                self.contracts == old(self).contracts,
                j <= self.npcs.len(),
                forall|k: int| 0 <= k < j ==> (#[trigger] self.npcs@[k])@ == direct(old(self).npcs@[k]@, p@),
                forall|k: int| j <= k < self.npcs.len() ==> #[trigger] self.npcs@[k] == old(self).npcs@[k],
            decreases self.npcs.len() - j,
        {
            if self.npcs[j].name == p.npc {
                self.npcs[j].next_prompt = Some(p.prompt.clone());
            }
            j = j + 1;
        }
        proof {
            assert(self@.npcs =~= old(self)@.npcs.map_values(|n: NpcView| direct(n, p@)));
        }
    }

    fn create_contract(&mut self, u: &ContractUpdate)
        ensures
            final(self)@ == (GameStateView {
                npcs: old(self)@.npcs.map_values(|n: NpcView| enlist(n, u@)),
                contracts: old(self)@.contracts.push(created_contract(u@)),
            }),
    {
        let mut j: usize = 0;
        while j < self.npcs.len()
            invariant
                self.npcs.len() == old(self).npcs.len(),
                self.contracts == old(self).contracts,
                j <= self.npcs.len(),
                forall|k: int| 0 <= k < j ==> (#[trigger] self.npcs@[k])@ == enlist(old(self).npcs@[k]@, u@),
                forall|k: int| j <= k < self.npcs.len() ==> #[trigger] self.npcs@[k] == old(self).npcs@[k],
            decreases self.npcs.len() - j,
        {
            if lists_name(&u.participants, &self.npcs[j].name) {
                self.npcs[j].active_contract = Some(u.id.clone());
            }
            j = j + 1;
        }
        let mut transcript_file = String::from_str("data/contracts/");
        transcript_file.append(u.id.as_str());
        transcript_file.append(".json");
        let contract = Contract {
            id: u.id.clone(),
            participants: copy_texts(&u.participants),
            transcript_file,
        };
        self.contracts.push(contract);
        proof {
            assert(self@.npcs =~= old(self)@.npcs.map_values(|n: NpcView| enlist(n, u@)));
            assert(self@.contracts =~= old(self)@.contracts.push(created_contract(u@)));
        }
    }

    fn end_contract(&mut self, id: &String)
        ensures
            final(self)@ == (GameStateView {
                npcs: old(self)@.npcs.map_values(|n: NpcView| release(n, id@)),
                contracts: without_contract(old(self)@.contracts, id@),
            }),
    {
        let mut kept: Vec<Contract> = Vec::new();
        let mut i: usize = 0;
        while i < self.contracts.len()
            invariant
                self == old(self),
                i <= self.contracts.len(),
                crate::types::contract_views(kept@) == without_contract(
                    self@.contracts.subrange(0, i as int),
                    id@,
                ),
            decreases self.contracts.len() - i,
        {
            proof {
                assert(self@.contracts.subrange(0, i + 1).drop_last() =~= self@.contracts.subrange(0, i as int));
            }
            if !(self.contracts[i].id == *id) {
                let c = self.contracts[i].clone();
                kept.push(c);
                proof {
                    assert(crate::types::contract_views(kept@) =~= without_contract(
                        self@.contracts.subrange(0, i as int),
                        id@,
                    ).push(c@));
                }
            }
            i = i + 1;
        }
        proof {
            assert(self@.contracts.subrange(0, self.contracts.len() as int) =~= self@.contracts);
        }
        self.contracts = kept;
        let mut j: usize = 0;
        while j < self.npcs.len()
            invariant
                self.npcs.len() == old(self).npcs.len(),
                crate::types::contract_views(self.contracts@) == without_contract(old(self)@.contracts, id@),
                j <= self.npcs.len(),
                forall|k: int| 0 <= k < j ==> (#[trigger] self.npcs@[k])@ == release(old(self).npcs@[k]@, id@),
                forall|k: int| j <= k < self.npcs.len() ==> #[trigger] self.npcs@[k] == old(self).npcs@[k],
            decreases self.npcs.len() - j,
        {
            let clear = match &self.npcs[j].active_contract {
                Some(a) => *a == *id,
                None => false,
            };
            if clear {
                self.npcs[j].active_contract = None;
            }
            j = j + 1;
        }
        proof {
            assert(self@.npcs =~= old(self)@.npcs.map_values(|n: NpcView| release(n, id@)));
        }
    }

    /// Carries out one contract update, or rejects it and leaves the world as it is:
    /// an unknown action, a `create` of an existing id, or an `update` or `end` of a
    /// missing one.
    pub fn apply_contract_update(&mut self, u: &ContractUpdate) -> (r: Result<(), EngineError>)
        requires
            old(self).wf(),
        ensures
            final(self)@ == contract_step(old(self)@, u@),
            final(self).wf(),
            match r {
                Ok(_) => update_accepted(old(self)@, u@),
                Err(e) => !update_accepted(old(self)@, u@) && (e is UnknownAction <==> !known_action(u@))
                    && (e is Consistency <==> known_action(u@)),
            },
    {
        let create = text_eq(u.action.as_str(), "create");
        let update = text_eq(u.action.as_str(), "update");
        let end = text_eq(u.action.as_str(), "end");
        if !create && !update && !end {
            return Err(EngineError::UnknownAction(u.action.clone()));
        }
        let found = self.find_contract(&u.id);
        proof {
            if let Some(k) = found {
                assert(self@.contracts[k as int] == self.contracts@[k as int]@);
                assert(has_contract(self@.contracts, u@.id));
            }
        }
        if create {
            if found.is_some() {
                let mut msg = String::from_str("contract already exists: ");
                msg.append(u.id.as_str());
                return Err(EngineError::Consistency(msg));
            }
            proof {
                lemma_create_keeps_wf(self@, u@);
            }
            self.create_contract(u);
            Ok(())
        } else if found.is_none() {
            let mut msg = String::from_str("no such contract: ");
            msg.append(u.id.as_str());
            Err(EngineError::Consistency(msg))
        } else if end {
            proof {
                lemma_end_keeps_wf(self@, u@.id);
            }
            self.end_contract(&u.id);
            Ok(())
        } else {
            Ok(())
        }
    }

    /// Applies a whole resolution as one update: first the state changes, then the
    /// contract updates, then the directives, each list in order. The rejected
    /// contract updates are skipped and returned; the rest of the batch still applies.
    pub fn apply_gm_response(&mut self, resp: &GmResponse) -> (rejected: Vec<EngineError>)
        requires
            old(self).wf(),
        ensures
            final(self)@ == resolved_state(old(self)@, resp@),
            final(self).wf(),
            rejected@.len() == rejected_updates(after_state_changes(old(self)@, resp@), resp@.contracts),
    {
        let ghost s0 = self@;
        let mut i: usize = 0;
        while i < resp.state_changes.len()
            invariant
                i <= resp.state_changes.len(),
                self@ == (GameStateView {
                    npcs: apply_state_changes(s0.npcs, resp@.state_changes.subrange(0, i as int)),
                    contracts: s0.contracts,
                }),
                wf_state(s0),
            decreases resp.state_changes.len() - i,
        {
            proof {
                let cs = resp@.state_changes.subrange(0, i + 1);
                assert(cs.drop_last() =~= resp@.state_changes.subrange(0, i as int));
                assert(cs.last() == resp.state_changes@[i as int]@);
            }
            self.apply_state_change(&resp.state_changes[i]);
            i = i + 1;
        }
        proof {
            assert(resp@.state_changes.subrange(0, resp.state_changes.len() as int) =~= resp@.state_changes);
            lemma_state_changes_roster(s0.npcs, resp@.state_changes);
            lemma_roster_keeps_wf(s0, self@.npcs);
        }
        let ghost s1 = self@;
        let mut rejected: Vec<EngineError> = Vec::new();
        let mut i: usize = 0;
        while i < resp.contracts.len()
            invariant
                i <= resp.contracts.len(),
                self@ == apply_contract_updates(s1, resp@.contracts.subrange(0, i as int)),
                self.wf(),
                rejected@.len() == rejected_updates(s1, resp@.contracts.subrange(0, i as int)),
            decreases resp.contracts.len() - i,
        {
            proof {
                let us = resp@.contracts.subrange(0, i + 1);
                assert(us.drop_last() =~= resp@.contracts.subrange(0, i as int));
                assert(us.last() == resp.contracts@[i as int]@);
            }
            match self.apply_contract_update(&resp.contracts[i]) {
                Ok(()) => {},
                Err(e) => {
                    rejected.push(e);
                },
            }
            i = i + 1;
        }
        proof {
            assert(resp@.contracts.subrange(0, resp.contracts.len() as int) =~= resp@.contracts);
        }
        let ghost s2 = self@;
        let mut i: usize = 0;
        while i < resp.next_prompts.len()
            invariant
                i <= resp.next_prompts.len(),
                self@ == (GameStateView {
                    npcs: apply_next_prompts(s2.npcs, resp@.next_prompts.subrange(0, i as int)),
                    contracts: s2.contracts,
                }),
                wf_state(s2),
            decreases resp.next_prompts.len() - i,
        {
            proof {
                let ps = resp@.next_prompts.subrange(0, i + 1);
                assert(ps.drop_last() =~= resp@.next_prompts.subrange(0, i as int));
                assert(ps.last() == resp.next_prompts@[i as int]@);
            }
            self.apply_next_prompt(&resp.next_prompts[i]);
            i = i + 1;
        }
        proof {
            assert(resp@.next_prompts.subrange(0, resp.next_prompts.len() as int) =~= resp@.next_prompts);
            lemma_next_prompts_roster(s2.npcs, resp@.next_prompts);
            lemma_roster_keeps_wf(s2, self@.npcs);
        }
        rejected
    }

    /// Tells whether the world-state invariant holds.
    pub fn check_wf(&self) -> (r: bool)
        ensures
            r == self.wf(),
    {
        let n = self.npcs.len();
        let mut i: usize = 0;
        while i < n
            invariant
                n == self.npcs.len(),
                i <= n,
                forall|a: int, b: int| 0 <= a < i && a < b < n ==> #[trigger] self@.npcs[a].name != #[trigger] self@.npcs[b].name,
            decreases n - i,
        {
            let mut j: usize = i + 1;
            while j < n
                invariant
                    n == self.npcs.len(),
                    i < n,
                    i + 1 <= j <= n,
                    forall|a: int, b: int| 0 <= a < i && a < b < n ==> #[trigger] self@.npcs[a].name != #[trigger] self@.npcs[b].name,
                    forall|b: int| i < b < j ==> self@.npcs[i as int].name != #[trigger] self@.npcs[b].name,
                decreases n - j,
            {
                if self.npcs[i].name == self.npcs[j].name {
                    proof {
                        assert(self@.npcs[i as int].name == self@.npcs[j as int].name);
                    }
                    return false;
                }
                j = j + 1;
            }
            i = i + 1;
        }
        let m = self.contracts.len();
        let mut i: usize = 0;
        while i < m
            invariant
                m == self.contracts.len(),
                i <= m,
                forall|a: int, b: int| 0 <= a < i && a < b < m ==> #[trigger] self@.contracts[a].id != #[trigger] self@.contracts[b].id,
            decreases m - i,
        {
            let mut j: usize = i + 1;
            while j < m
                invariant
                    m == self.contracts.len(),
                    i < m,
                    i + 1 <= j <= m,
                    forall|a: int, b: int| 0 <= a < i && a < b < m ==> #[trigger] self@.contracts[a].id != #[trigger] self@.contracts[b].id,
                    forall|b: int| i < b < j ==> self@.contracts[i as int].id != #[trigger] self@.contracts[b].id,
                decreases m - j,
            {
                if self.contracts[i].id == self.contracts[j].id {
                    proof {
                        assert(self@.contracts[i as int].id == self@.contracts[j as int].id);
                    }
                    return false;
                }
                j = j + 1;
            }
            i = i + 1;
        }
        let mut i: usize = 0;
        while i < n
            invariant
                n == self.npcs.len(),
                i <= n,
                forall|a: int, b: int| 0 <= a < b < m ==> #[trigger] self@.contracts[a].id != #[trigger] self@.contracts[b].id,
                m == self.contracts.len(),
                forall|a: int| 0 <= a < i && (#[trigger] self@.npcs[a]).active_contract is Some ==> in_contract(
                    self@.contracts,
                    self@.npcs[a].active_contract->Some_0,
                    self@.npcs[a].name,
                ),
            decreases n - i,
        {
            if let Some(id) = &self.npcs[i].active_contract {
                proof {
                    assert(self@.npcs[i as int].active_contract == Some(id@));
                }
                match self.find_contract(id) {
                    None => {
                        return false;
                    },
                    Some(k) => {
                        if !lists_name(&self.contracts[k].participants, &self.npcs[i].name) {
                            proof {
                                assert(self@.contracts[k as int] == self.contracts@[k as int]@);
                                if in_contract(self@.contracts, id@, self@.npcs[i as int].name) {
                                    let k2 = choose|k2: int| 0 <= k2 < self@.contracts.len() && #[trigger] self@.contracts[k2].id == id@
                                        && self@.contracts[k2].participants.contains(self@.npcs[i as int].name);
                                    if k2 < k {
                                        assert(self@.contracts[k2].id != self@.contracts[k as int].id);
                                    } else if k2 > k {
                                        assert(self@.contracts[k as int].id != self@.contracts[k2].id);
                                    }
                                }
                            }
                            return false;
                        }
                        proof {
                            assert(self@.contracts[k as int] == self.contracts@[k as int]@);
                            assert(self@.contracts[k as int].id == id@);
                        }
                    },
                }
            }
            i = i + 1;
        }
        true
    }

    /// Puts the character `n` in place of the one of the same name, or adds it.
    pub fn insert_npc(&mut self, n: crate::types::Npc)
        requires
            unique_names(old(self)@.npcs),
        ensures
            final(self)@.npcs == roster_insert(old(self)@.npcs, n@),
            final(self)@.contracts == old(self)@.contracts,
            unique_names(final(self)@.npcs),
    {
        let ghost nv = n@;
        match self.find_npc(&n.name) {
            Some(i) => {
                proof {
                    assert(self@.npcs[i as int] == self.npcs@[i as int]@);
                    let k = choose|k: int| 0 <= k < self@.npcs.len() && #[trigger] self@.npcs[k].name == nv.name;
                    if k < i {
                        assert(self@.npcs[k].name != self@.npcs[i as int].name);
                    } else if k > i {
                        assert(self@.npcs[i as int].name != self@.npcs[k].name);
                    }
                }
                self.npcs.set(i, n);
                proof {
                    assert(self@.npcs =~= old(self)@.npcs.update(i as int, nv));
                }
            },
            None => {
                self.npcs.push(n);
                proof {
                    assert(self@.npcs =~= old(self)@.npcs.push(nv));
                }
            },
        }
    }
}

/// The world after a resolution's state changes alone.
pub open spec fn after_state_changes(s: GameStateView, r: GmResponseView) -> GameStateView {
    GameStateView { npcs: apply_state_changes(s.npcs, r.state_changes), contracts: s.contracts }
}

/// The world after a whole resolution: state changes, then contract updates, then
/// directives.
pub open spec fn resolved_state(s: GameStateView, r: GmResponseView) -> GameStateView {
    let s2 = apply_contract_updates(after_state_changes(s, r), r.contracts);
    GameStateView { npcs: apply_next_prompts(s2.npcs, r.next_prompts), contracts: s2.contracts }
}

proof fn lemma_state_changes_roster(npcs: Seq<NpcView>, cs: Seq<StateChangeView>)
    ensures
        same_roster(npcs, apply_state_changes(npcs, cs)),
    decreases cs.len(),
{
    if cs.len() > 0 {
        lemma_state_changes_roster(npcs, cs.drop_last());
    }
}

proof fn lemma_next_prompts_roster(npcs: Seq<NpcView>, ps: Seq<NextPromptView>)
    ensures
        same_roster(npcs, apply_next_prompts(npcs, ps)),
    decreases ps.len(),
{
    if ps.len() > 0 {
        lemma_next_prompts_roster(npcs, ps.drop_last());
    }
}

proof fn lemma_single_update(s: GameStateView, u: ContractUpdateView)
    ensures
        apply_contract_updates(s, seq![u]) == contract_step(s, u),
        rejected_updates(s, seq![u]) == if update_accepted(s, u) { 0nat } else { 1nat },
{
    let us = seq![u];
    assert(us.drop_last() =~= Seq::<ContractUpdateView>::empty());
    assert(us.last() == u);
    assert(apply_contract_updates(s, us.drop_last()) == s);
    assert(rejected_updates(s, us.drop_last()) == 0);
}

/// A resolution whose one contract update is a `create` of a new id `c` makes every
/// listed character reference `c`, makes `c` exist, and keeps the invariant.
pub proof fn lemma_create_links_participants(s: GameStateView, r: GmResponseView)
    requires
        wf_state(s),
        r.contracts.len() == 1,
        is_create(r.contracts[0]),
        !has_contract(s.contracts, r.contracts[0].id),
    ensures
        wf_state(resolved_state(s, r)),
        has_contract(resolved_state(s, r).contracts, r.contracts[0].id),
        forall|i: int|
            0 <= i < resolved_state(s, r).npcs.len() && r.contracts[0].participants.contains(
                (#[trigger] resolved_state(s, r).npcs[i]).name,
            ) ==> resolved_state(s, r).npcs[i].active_contract == Some(r.contracts[0].id),
{
    let u = r.contracts[0];
    assert(r.contracts =~= seq![u]);
    let s1 = after_state_changes(s, r);
    lemma_state_changes_roster(s.npcs, r.state_changes);
    lemma_roster_keeps_wf(s, s1.npcs);
    lemma_single_update(s1, u);
    let s2 = contract_step(s1, u);
    lemma_create_keeps_wf(s1, u);
    lemma_next_prompts_roster(s2.npcs, r.next_prompts);
    lemma_roster_keeps_wf(s2, resolved_state(s, r).npcs);
    assert(s2.contracts[s1.contracts.len() as int].id == u.id);
    let t = resolved_state(s, r);
    assert forall|i: int|
        0 <= i < t.npcs.len() && u.participants.contains((#[trigger] t.npcs[i]).name) implies t.npcs[i].active_contract
        == Some(u.id) by {
        assert(s2.npcs[i].name == t.npcs[i].name);
        assert(s1.npcs[i].name == s2.npcs[i].name);
    }
}

/// A resolution whose one contract update is an `end` of an existing contract `c`
/// removes `c`, leaves no character referencing it, clears the reference of every
/// character that held it, and keeps the invariant.
pub proof fn lemma_end_releases_participants(s: GameStateView, r: GmResponseView)
    requires
        wf_state(s),
        r.contracts.len() == 1,
        is_end(r.contracts[0]),
        has_contract(s.contracts, r.contracts[0].id),
    ensures
        wf_state(resolved_state(s, r)),
        !has_contract(resolved_state(s, r).contracts, r.contracts[0].id),
        resolved_state(s, r).npcs.len() == s.npcs.len(),
        forall|i: int|
            0 <= i < s.npcs.len() ==> (#[trigger] resolved_state(s, r).npcs[i]).active_contract != Some(
                r.contracts[0].id,
            ),
        forall|i: int|
            0 <= i < s.npcs.len() && (#[trigger] s.npcs[i]).active_contract == Some(r.contracts[0].id)
                ==> resolved_state(s, r).npcs[i].active_contract is None,
{
    let u = r.contracts[0];
    assert(r.contracts =~= seq![u]);
    let s1 = after_state_changes(s, r);
    lemma_state_changes_roster(s.npcs, r.state_changes);
    lemma_roster_keeps_wf(s, s1.npcs);
    lemma_single_update(s1, u);
    assert(!is_create(u)) by {
        reveal_strlit("create");
        reveal_strlit("end");
        assert("create"@.len() != "end"@.len());
    }
    let s2 = contract_step(s1, u);
    lemma_end_keeps_wf(s1, u.id);
    lemma_without_contract(s1.contracts, u.id);
    lemma_next_prompts_roster(s2.npcs, r.next_prompts);
    lemma_roster_keeps_wf(s2, resolved_state(s, r).npcs);
    let t = resolved_state(s, r);
    assert(!has_contract(t.contracts, u.id)) by {
        if has_contract(t.contracts, u.id) {
            let k = choose|k: int| 0 <= k < t.contracts.len() && #[trigger] t.contracts[k].id == u.id;
            assert(t.contracts.contains(t.contracts[k]));
        }
    }
    assert forall|i: int| 0 <= i < s.npcs.len() implies (#[trigger] t.npcs[i]).active_contract != Some(u.id) by {
        assert(s2.npcs[i].active_contract == t.npcs[i].active_contract);
    }
    assert forall|i: int|
        0 <= i < s.npcs.len() && (#[trigger] s.npcs[i]).active_contract == Some(u.id) implies t.npcs[i].active_contract is None by {
        assert(s1.npcs[i].active_contract == s.npcs[i].active_contract);
        assert(s2.npcs[i].active_contract == t.npcs[i].active_contract);
    }
}


/// A character as first loaded: at the default location, idle, with no contract and
/// no directive.
pub open spec fn fresh_npc(name: Seq<char>, folder_path: Seq<char>) -> NpcView {
    NpcView {
        name,
        location: crate::types::default_location(),
        activity: crate::types::default_activity(),
        folder_path,
        active_contract: None,
        next_prompt: None,
    }
}

/// `npcs` with `n` in place of the character of the same name, or with `n` added at
/// the end if there is none.
pub open spec fn roster_insert(npcs: Seq<NpcView>, n: NpcView) -> Seq<NpcView> {
    if has_npc(npcs, n.name) {
        npcs.update(choose|i: int| 0 <= i < npcs.len() && #[trigger] npcs[i].name == n.name, n)
    } else {
        npcs.push(n)
    }
}

/// The roster made from found `(name, folder)` entries, in order; a later entry with
/// the same name replaces the earlier one.
pub open spec fn roster_from(entries: Seq<(Seq<char>, Seq<char>)>) -> Seq<NpcView>
    decreases entries.len(),
{
    if entries.len() == 0 {
        Seq::empty()
    } else {
        roster_insert(roster_from(entries.drop_last()), fresh_npc(entries.last().0, entries.last().1))
    }
}

/// The names of `npcs` are unique.
pub open spec fn unique_names(npcs: Seq<NpcView>) -> bool {
    forall|i: int, j: int| 0 <= i < j < npcs.len() ==> #[trigger] npcs[i].name != #[trigger] npcs[j].name
}


/// Moving a character keeps the invariant.
pub proof fn lemma_relocate_keeps_wf(s: GameStateView, c: StateChangeView)
    requires
        wf_state(s),
    ensures
        wf_state(GameStateView { npcs: s.npcs.map_values(|n: NpcView| relocate(n, c)), contracts: s.contracts }),
{
    lemma_roster_keeps_wf(s, s.npcs.map_values(|n: NpcView| relocate(n, c)));
}

} // verus!
