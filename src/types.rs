use vstd::prelude::*;
use vstd::string::*;

verus! {

/// The view of an optional text.
pub open spec fn opt_text(o: Option<String>) -> Option<Seq<char>> {
    match o {
        Some(s) => Some(s@),
        None => None,
    }
}

/// The views of a list of texts.
pub open spec fn texts(v: Seq<String>) -> Seq<Seq<char>> {
    v.map_values(|s: String| s@)
}

/// Copies an optional text.
pub fn copy_opt_text(o: &Option<String>) -> (r: Option<String>)
    ensures
        opt_text(r) == opt_text(*o),
{
    match o {
        Some(s) => Some(s.clone()),
        None => None,
    }
}

/// Copies a list of texts.
pub fn copy_texts(v: &Vec<String>) -> (r: Vec<String>)
    ensures
        texts(r@) == texts(v@),
{
    let mut r: Vec<String> = Vec::new();
    let mut i: usize = 0;
    while i < v.len()
        invariant
            i <= v.len(),
            r@.len() == i,
            forall|j: int| 0 <= j < i ==> #[trigger] r@[j]@ == v@[j]@,
        decreases v.len() - i,
    {
        r.push(v[i].clone());
        i = i + 1;
    }
    proof {
        assert(texts(r@) =~= texts(v@));
    }
    r
}

/// The path prefix under which a character's files live.
pub open spec fn npc_folder_prefix() -> Seq<char> {
    "data/npcs/"@
}

/// What lower-casing a text gives: the result depends on the characters alone.
pub uninterp spec fn lower_of(s: Seq<char>) -> Seq<char>;

/// Relies on `str::to_lowercase`: the lower-case form of `s`, a function of its
/// characters alone.
#[verifier::external_body]
fn lowercase(s: &str) -> (r: String)
    ensures
        r@ == lower_of(s@),
{
    s.to_lowercase()
}

/// A character of the simulated society.
pub struct Npc {
    /// Unique key of the character.
    pub name: String,
    pub location: String,
    pub activity: String,
    /// Where the character's files live.
    pub folder_path: String,
    /// The id of the contract that the character currently takes part in.
    pub active_contract: Option<String>,
    /// A directive of the arbiter for the character's next turn.
    pub next_prompt: Option<String>,
}

pub struct NpcView {
    pub name: Seq<char>,
    pub location: Seq<char>,
    pub activity: Seq<char>,
    pub folder_path: Seq<char>,
    pub active_contract: Option<Seq<char>>,
    pub next_prompt: Option<Seq<char>>,
}

impl View for Npc {
    type V = NpcView;

    open spec fn view(&self) -> NpcView {
        NpcView {
            name: self.name@,
            location: self.location@,
            activity: self.activity@,
            folder_path: self.folder_path@,
            active_contract: opt_text(self.active_contract),
            next_prompt: opt_text(self.next_prompt),
        }
    }
}

impl Clone for Npc {
    fn clone(&self) -> (r: Self)
        ensures
            r@ == self@,
    {
        Npc {
            name: self.name.clone(),
            location: self.location.clone(),
            activity: self.activity.clone(),
            folder_path: self.folder_path.clone(),
            active_contract: copy_opt_text(&self.active_contract),
            next_prompt: copy_opt_text(&self.next_prompt),
        }
    }
}

impl Npc {
    /// A character at `location` doing `activity`, with no contract and no directive;
    /// its folder is `data/npcs/` followed by the lower-case name.
    pub fn new(name: &str, location: &str, activity: &str) -> (r: Npc)
        ensures
            r.name@ == name@,
            r.location@ == location@,
            r.activity@ == activity@,
            r.folder_path@ == npc_folder_prefix() + lower_of(name@),
            r.active_contract.is_none(),
            r.next_prompt.is_none(),
    {
        let mut folder_path = String::from_str("data/npcs/");
        let lower = lowercase(name);
        folder_path.append(lower.as_str());
        Npc {
            name: name.to_owned(),
            location: location.to_owned(),
            activity: activity.to_owned(),
            folder_path,
            active_contract: None,
            next_prompt: None,
        }
    }

    /// Starts a builder for a character named `name`.
    pub fn builder(name: &str) -> (b: NpcBuilder)
        ensures
            b.name@ == name@,
            b.location@ == default_location(),
            b.activity@ == default_activity(),
    {
        NpcBuilder {
            name: name.to_owned(),
            location: String::from_str("start"),
            activity: String::from_str("idle"),
        }
    }
}

/// Where a character stands until told otherwise.
pub open spec fn default_location() -> Seq<char> {
    "start"@
}

/// What a character does until told otherwise.
pub open spec fn default_activity() -> Seq<char> {
    "idle"@
}

/// Step-by-step construction of an [`Npc`].
pub struct NpcBuilder {
    pub name: String,
    pub location: String,
    pub activity: String,
}

impl NpcBuilder {
    pub fn location(self, location: &str) -> (b: NpcBuilder)
        ensures
            b.name@ == self.name@,
            b.location@ == location@,
            b.activity@ == self.activity@,
    {
        NpcBuilder { location: location.to_owned(), ..self }
    }

    pub fn activity(self, activity: &str) -> (b: NpcBuilder)
        ensures
            b.name@ == self.name@,
            b.location@ == self.location@,
            b.activity@ == activity@,
    {
        NpcBuilder { activity: activity.to_owned(), ..self }
    }

    pub fn build(self) -> (r: Npc)
        ensures
            r.name@ == self.name@,
            r.location@ == self.location@,
            r.activity@ == self.activity@,
            r.folder_path@ == npc_folder_prefix() + lower_of(self.name@),
            r.active_contract.is_none(),
            r.next_prompt.is_none(),
    {
        Npc::new(self.name.as_str(), self.location.as_str(), self.activity.as_str())
    }
}

/// What a character wants to do this turn, before arbitration.
pub struct Intent {
    /// The acting character.
    pub npc: String,
    /// Why the character wants it: its private rationale.
    pub reason: String,
    /// The intended action.
    pub action: String,
    /// The character the action is aimed at, if any.
    pub target: Option<String>,
    /// What the character means to say aloud, if anything.
    pub dialogue: Option<String>,
}

pub struct IntentView {
    pub npc: Seq<char>,
    pub reason: Seq<char>,
    pub action: Seq<char>,
    pub target: Option<Seq<char>>,
    pub dialogue: Option<Seq<char>>,
}

impl View for Intent {
    type V = IntentView;

    open spec fn view(&self) -> IntentView {
        IntentView {
            npc: self.npc@,
            reason: self.reason@,
            action: self.action@,
            target: opt_text(self.target),
            dialogue: opt_text(self.dialogue),
        }
    }
}

impl Clone for Intent {
    fn clone(&self) -> (r: Self)
        ensures
            r@ == self@,
    {
        Intent {
            npc: self.npc.clone(),
            reason: self.reason.clone(),
            action: self.action.clone(),
            target: copy_opt_text(&self.target),
            dialogue: copy_opt_text(&self.dialogue),
        }
    }
}

impl Intent {
    /// An intent with no target and no dialogue.
    pub fn new(npc: &str, action: &str, reason: &str) -> (r: Intent)
        ensures
            r.npc@ == npc@,
            r.action@ == action@,
            r.reason@ == reason@,
            r.target.is_none(),
            r.dialogue.is_none(),
    {
        Intent {
            npc: npc.to_owned(),
            reason: reason.to_owned(),
            action: action.to_owned(),
            target: None,
            dialogue: None,
        }
    }

    /// An intent aimed at the character `target`, with no dialogue.
    pub fn with_target(npc: &str, action: &str, target: &str, reason: &str) -> (r: Intent)
        ensures
            r.npc@ == npc@,
            r.action@ == action@,
            opt_text(r.target) == Some(target@),
            r.reason@ == reason@,
            r.dialogue.is_none(),
    {
        Intent {
            npc: npc.to_owned(),
            reason: reason.to_owned(),
            action: action.to_owned(),
            target: Some(target.to_owned()),
            dialogue: None,
        }
    }
}

/// An action that a character took, as recorded in a transcript.
pub struct NpcAction {
    pub action: String,
    pub dialogue: Option<String>,
}

/// A tracked interaction between two or more characters.
pub struct Contract {
    /// Unique key of the contract.
    pub id: String,
    /// The characters taking part, fixed at creation.
    pub participants: Vec<String>,
    /// Where the interaction's transcript accumulates.
    pub transcript_file: String,
}

pub struct ContractView {
    pub id: Seq<char>,
    pub participants: Seq<Seq<char>>,
    pub transcript_file: Seq<char>,
}

impl View for Contract {
    type V = ContractView;

    open spec fn view(&self) -> ContractView {
        ContractView {
            id: self.id@,
            participants: texts(self.participants@),
            transcript_file: self.transcript_file@,
        }
    }
}

impl Clone for Contract {
    fn clone(&self) -> (r: Self)
        ensures
            r@ == self@,
    {
        Contract {
            id: self.id.clone(),
            participants: copy_texts(&self.participants),
            transcript_file: self.transcript_file.clone(),
        }
    }
}

/// The views of a list of characters.
pub open spec fn npc_views(v: Seq<Npc>) -> Seq<NpcView> {
    v.map_values(|n: Npc| n@)
}

/// The views of a list of contracts.
pub open spec fn contract_views(v: Seq<Contract>) -> Seq<ContractView> {
    v.map_values(|c: Contract| c@)
}

/// Copies a list of characters.
pub fn copy_npcs(v: &Vec<Npc>) -> (r: Vec<Npc>)
    ensures
        npc_views(r@) == npc_views(v@),
{
    let mut r: Vec<Npc> = Vec::new();
    let mut i: usize = 0;
    while i < v.len()
        invariant
            i <= v.len(),
            r@.len() == i,
            forall|j: int| 0 <= j < i ==> #[trigger] r@[j]@ == v@[j]@,
        decreases v.len() - i,
    {
        r.push(v[i].clone());
        i = i + 1;
    }
    proof {
        assert(npc_views(r@) =~= npc_views(v@));
    }
    r
}

/// Copies a list of contracts.
pub fn copy_contracts(v: &Vec<Contract>) -> (r: Vec<Contract>)
    ensures
        contract_views(r@) == contract_views(v@),
{
    let mut r: Vec<Contract> = Vec::new();
    let mut i: usize = 0;
    while i < v.len()
        invariant
            i <= v.len(),
            r@.len() == i,
            forall|j: int| 0 <= j < i ==> #[trigger] r@[j]@ == v@[j]@,
        decreases v.len() - i,
    {
        r.push(v[i].clone());
        i = i + 1;
    }
    proof {
        assert(contract_views(r@) =~= contract_views(v@));
    }
    r
}

/// The shared world: every character by name, every live contract by id.
pub struct GameState {
    pub npcs: Vec<Npc>,
    pub contracts: Vec<Contract>,
}

pub struct GameStateView {
    pub npcs: Seq<NpcView>,
    pub contracts: Seq<ContractView>,
}

impl View for GameState {
    type V = GameStateView;

    open spec fn view(&self) -> GameStateView {
        GameStateView { npcs: npc_views(self.npcs@), contracts: contract_views(self.contracts@) }
    }
}

impl Clone for GameState {
    /// A deep, point-in-time copy.
    fn clone(&self) -> (r: Self)
        ensures
            r@ == self@,
    {
        GameState { npcs: copy_npcs(&self.npcs), contracts: copy_contracts(&self.contracts) }
    }
}

/// What the arbiter is given to resolve a turn.
pub struct GmInput {
    pub current_state: CurrentState,
    pub intents: Vec<Intent>,
}

/// The world as the arbiter sees it.
pub struct CurrentState {
    pub npcs: Vec<Npc>,
    pub active_contracts: Vec<Contract>,
}

/// A new location and activity for one character.
pub struct StateChange {
    pub npc: String,
    pub location: String,
    pub activity: String,
}

pub struct StateChangeView {
    pub npc: Seq<char>,
    pub location: Seq<char>,
    pub activity: Seq<char>,
}

impl View for StateChange {
    type V = StateChangeView;

    open spec fn view(&self) -> StateChangeView {
        StateChangeView { npc: self.npc@, location: self.location@, activity: self.activity@ }
    }
}

/// An entry of a contract's transcript.
pub struct TranscriptEntry {
    pub reality: String,
    /// What each named character did.
    pub details: Vec<(String, NpcAction)>,
}

/// A change to a contract: `create`, `update` or `end`.
pub struct ContractUpdate {
    pub id: String,
    pub participants: Vec<String>,
    pub action: String,
    pub transcript_entry: Option<TranscriptEntry>,
}

pub struct ContractUpdateView {
    pub id: Seq<char>,
    pub participants: Seq<Seq<char>>,
    pub action: Seq<char>,
}

impl View for ContractUpdate {
    type V = ContractUpdateView;

    open spec fn view(&self) -> ContractUpdateView {
        ContractUpdateView {
            id: self.id@,
            participants: texts(self.participants@),
            action: self.action@,
        }
    }
}

/// A directive for one character's next turn.
pub struct NextPrompt {
    pub npc: String,
    pub prompt: String,
}

pub struct NextPromptView {
    pub npc: Seq<char>,
    pub prompt: Seq<char>,
}

impl View for NextPrompt {
    type V = NextPromptView;

    open spec fn view(&self) -> NextPromptView {
        NextPromptView { npc: self.npc@, prompt: self.prompt@ }
    }
}

/// The arbiter's resolution of a turn.
pub struct GmResponse {
    /// What actually happened, as narrative.
    pub reality: String,
    pub state_changes: Vec<StateChange>,
    pub contracts: Vec<ContractUpdate>,
    pub next_prompts: Vec<NextPrompt>,
}

pub struct GmResponseView {
    pub reality: Seq<char>,
    pub state_changes: Seq<StateChangeView>,
    pub contracts: Seq<ContractUpdateView>,
    pub next_prompts: Seq<NextPromptView>,
}

impl View for GmResponse {
    type V = GmResponseView;

    open spec fn view(&self) -> GmResponseView {
        GmResponseView {
            reality: self.reality@,
            state_changes: self.state_changes@.map_values(|c: StateChange| c@),
            contracts: self.contracts@.map_values(|u: ContractUpdate| u@),
            next_prompts: self.next_prompts@.map_values(|p: NextPrompt| p@),
        }
    }
}

/// What a character's memory update is derived from.
pub struct MemoryUpdateInput {
    pub npc_name: String,
    pub intent: Intent,
    pub reality: String,
    /// The other characters at the same location after resolution.
    pub other_npcs_present: Vec<String>,
}

} // verus!
