use vstd::prelude::*;
use vstd::string::*;

use super::loader::{join_path, path_join, PromptLoader};
use crate::text::{decimal, decimal_of};
use crate::types::{opt_text, texts, ContractView, GameState, Npc, NpcView};
use crate::state::lists_name;

verus! {

/// What separates the sections of a prompt.
pub open spec fn section_sep() -> Seq<char> {
    "\n\n---\n\n"@
}

/// `parts` with `sep` between each two of them.
pub open spec fn joined(parts: Seq<Seq<char>>, sep: Seq<char>) -> Seq<char>
    decreases parts.len(),
{
    if parts.len() == 0 {
        Seq::empty()
    } else if parts.len() == 1 {
        parts[0]
    } else {
        joined(parts.drop_last(), sep) + sep + parts.last()
    }
}

/// Joins `parts` with `sep` between each two of them.
pub fn join_texts(parts: &Vec<String>, sep: &str) -> (r: String)
    ensures
        r@ == joined(texts(parts@), sep@),
{
    if parts.len() == 0 {
        return String::new();
    }
    let mut r = parts[0].clone();
    let mut i: usize = 1;
    proof {
        assert(texts(parts@).subrange(0, 1).len() == 1);
    }
    while i < parts.len()
        invariant
            1 <= i <= parts.len(),
            r@ == joined(texts(parts@).subrange(0, i as int), sep@),
        decreases parts.len() - i,
    {
        proof {
            let ps = texts(parts@).subrange(0, i + 1);
            assert(ps.drop_last() =~= texts(parts@).subrange(0, i as int));
            assert(ps.last() == parts@[i as int]@);
        }
        r.append(sep);
        r.append(parts[i].as_str());
        i = i + 1;
    }
    proof {
        assert(texts(parts@).subrange(0, parts.len() as int) =~= texts(parts@));
    }
    r
}

/// `body` in a fenced JSON block under `heading`.
pub open spec fn json_section(heading: Seq<char>, body: Seq<char>) -> Seq<char> {
    heading + "\n\n```json\n"@ + body + "\n```"@
}

fn json_block(heading: &str, body: &str) -> (r: String)
    ensures
        r@ == json_section(heading@, body@),
{
    let mut r = heading.to_owned();
    r.append("\n\n```json\n");
    r.append(body);
    r.append("\n```");
    r
}

/// `body` under `heading`.
pub open spec fn plain_section(heading: Seq<char>, body: Seq<char>) -> Seq<char> {
    heading + "\n\n"@ + body
}

fn plain_block(heading: &str, body: &str) -> (r: String)
    ensures
        r@ == plain_section(heading@, body@),
{
    let mut r = heading.to_owned();
    r.append("\n\n");
    r.append(body);
    r
}

/// The other characters at `location`, in roster order.
pub open spec fn others_here(npcs: Seq<NpcView>, name: Seq<char>, location: Seq<char>) -> Seq<NpcView>
    decreases npcs.len(),
{
    if npcs.len() == 0 {
        Seq::empty()
    } else {
        let prev = others_here(npcs.drop_last(), name, location);
        if npcs.last().name != name && npcs.last().location == location {
            prev.push(npcs.last())
        } else {
            prev
        }
    }
}

/// One line per character: its name and what it is doing.
pub open spec fn presence_lines(others: Seq<NpcView>) -> Seq<char>
    decreases others.len(),
{
    if others.len() == 0 {
        Seq::empty()
    } else {
        presence_lines(others.drop_last()) + "- "@ + others.last().name + " is "@ + others.last().activity + "\n"@
    }
}

/// How many contracts list `name`.
pub open spec fn engagements(cs: Seq<ContractView>, name: Seq<char>) -> nat
    decreases cs.len(),
{
    if cs.len() == 0 {
        0
    } else {
        engagements(cs.drop_last(), name) + if cs.last().participants.contains(name) { 1nat } else { 0nat }
    }
}

/// The situation of character `n` in the world: where it is and what it does, who
/// else is there, and in how many interactions it is engaged.
pub open spec fn situation(n: NpcView, npcs: Seq<NpcView>, cs: Seq<ContractView>) -> Seq<char> {
    let others = others_here(npcs, n.name, n.location);
    let count = engagements(cs, n.name);
    "## Current Situation\n\n"@ + "- You are at: "@ + n.location + "\n"@ + "- You are: "@ + n.activity + "\n"@
        + (if others.len() > 0 { "\nAlso here:\n"@ + presence_lines(others) } else { Seq::empty() })
        + (if count > 0 {
        "\nYou are currently engaged in "@ + decimal_of(count) + " interaction(s)\n"@
    } else {
        Seq::empty()
    })
}

/// What a character is asked when the arbiter gave it no directive.
pub open spec fn default_directive() -> Seq<char> {
    "What do you do next?"@
}

/// The sections of a character's intent prompt: its base instructions, its
/// personality and memories when there are any, its situation, the transcript of its
/// interaction when it is in one, and the arbiter's directive or the default question.
pub open spec fn intent_sections(
    n: NpcView,
    npcs: Seq<NpcView>,
    cs: Seq<ContractView>,
    base: Seq<char>,
    personality: Option<Seq<char>>,
    memories_json: Option<Seq<char>>,
    transcript: Option<Seq<char>>,
) -> Seq<Seq<char>> {
    seq![base] + (match personality {
        Some(p) => seq![p],
        None => Seq::empty(),
    }) + (match memories_json {
        Some(m) => seq![json_section("## Your Current Memories"@, m)],
        None => Seq::empty(),
    }) + seq![situation(n, npcs, cs)] + (match (n.active_contract, transcript) {
        (Some(_), Some(t)) => seq![plain_section("## Current Interaction"@, t)],
        _ => Seq::empty(),
    }) + seq![
        match n.next_prompt {
            Some(p) => p,
            None => default_directive(),
        },
    ]
}

/// The sections of a memory-update prompt: the instructions, the current memories
/// when there are any, the intent, what happened, and who was present when anyone was.
pub open spec fn memory_update_sections(
    instructions: Seq<char>,
    memories_json: Option<Seq<char>>,
    intent_json: Seq<char>,
    reality: Seq<char>,
    others: Seq<Seq<char>>,
) -> Seq<Seq<char>> {
    seq![instructions] + (match memories_json {
        Some(m) => seq![json_section("## Current Memories"@, m)],
        None => Seq::empty(),
    }) + seq![
        json_section("## Your Intent"@, intent_json),
        plain_section("## What Actually Happened"@, reality),
    ] + (if others.len() > 0 {
        seq![plain_section("## NPCs Present"@, joined(others, ", "@))]
    } else {
        Seq::empty()
    })
}

/// Puts together the prompts for characters and for the arbiter.
pub struct PromptBuilder {
    pub loader: PromptLoader,
    pub data_path: String,
}

impl PromptBuilder {
    pub fn new(data_path: &str) -> (r: PromptBuilder)
        ensures
            r.data_path@ == data_path@,
            r.loader.prompts_dir@ == path_join(data_path@, "prompts"@),
    {
        PromptBuilder { loader: PromptLoader::new(data_path), data_path: data_path.to_owned() }
    }

    /// The folder of the character `npc_name`.
    pub fn npc_dir(&self, npc_name: &str) -> (r: String)
        ensures
            r@ == path_join(path_join(self.data_path@, "npcs"@), npc_name@),
    {
        let npcs = join_path(self.data_path.as_str(), "npcs");
        join_path(npcs.as_str(), npc_name)
    }

    /// Where the personality of the character `npc_name` is written.
    pub fn personality_path(&self, npc_name: &str) -> (r: String)
        ensures
            r@ == path_join(path_join(path_join(self.data_path@, "npcs"@), npc_name@), "personality.md"@),
    {
        let dir = self.npc_dir(npc_name);
        join_path(dir.as_str(), "personality.md")
    }

    /// Where the memories of the character `npc_name` are kept.
    pub fn memories_path(&self, npc_name: &str) -> (r: String)
        ensures
            r@ == path_join(path_join(path_join(self.data_path@, "npcs"@), npc_name@), "memories.json"@),
    {
        let dir = self.npc_dir(npc_name);
        join_path(dir.as_str(), "memories.json")
    }

    /// Where the initial memories of the character `npc_name` are kept.
    pub fn initial_memories_path(&self, npc_name: &str) -> (r: String)
        ensures
            r@ == path_join(
                path_join(path_join(self.data_path@, "npcs"@), npc_name@),
                "initial_memories.json"@,
            ),
    {
        let dir = self.npc_dir(npc_name);
        join_path(dir.as_str(), "initial_memories.json")
    }

    /// Where the transcript of the contract `contract_id` is kept.
    pub fn transcript_path(&self, contract_id: &str) -> (r: String)
        ensures
            r@ == path_join(path_join(self.data_path@, "contracts"@), contract_id@ + ".json"@),
    {
        let dir = join_path(self.data_path.as_str(), "contracts");
        let mut file = contract_id.to_owned();
        file.append(".json");
        join_path(dir.as_str(), file.as_str())
    }

    /// The arbiter's prompt: its base instructions, then the input in a JSON block.
    pub fn build_gm_prompt(&self, gm_base: &str, input_json: &str) -> (r: String)
        ensures
            r@ == gm_base@ + section_sep() + json_section("## Current Input"@, input_json@),
    {
        let mut r = gm_base.to_owned();
        r.append("\n\n---\n\n");
        let block = json_block("## Current Input", input_json);
        r.append(block.as_str());
        r
    }

    /// The situation of `npc` in `game_state`.
    pub fn format_current_state(&self, npc: &Npc, game_state: &GameState) -> (r: String)
        ensures
            r@ == situation(npc@, game_state@.npcs, game_state@.contracts),
    {
        let mut state = String::from_str("## Current Situation\n\n");
        state.append("- You are at: ");
        state.append(npc.location.as_str());
        state.append("\n");
        state.append("- You are: ");
        state.append(npc.activity.as_str());
        state.append("\n");
        let ghost head = state@;
        let npcs = &game_state.npcs;
        let ghost w = game_state@.npcs;
        let mut lines = String::new();
        let mut any = false;
        let mut j: usize = 0;
        while j < npcs.len()
            invariant
                j <= npcs.len(),
                w == game_state@.npcs,
                w == crate::types::npc_views(npcs@),
                lines@ == presence_lines(others_here(w.subrange(0, j as int), npc.name@, npc.location@)),
                any == (others_here(w.subrange(0, j as int), npc.name@, npc.location@).len() > 0),
            decreases npcs.len() - j,
        {
            proof {
                let ws = w.subrange(0, j + 1);
                assert(ws.drop_last() =~= w.subrange(0, j as int));
                assert(ws.last() == npcs@[j as int]@);
            }
            let other = &npcs[j];
            let ghost prev_others = others_here(w.subrange(0, j as int), npc.name@, npc.location@);
            if !(other.name == npc.name) && other.location == npc.location {
                proof {
                    assert(prev_others.push(other@).drop_last() =~= prev_others);
                }
                lines.append("- ");
                lines.append(other.name.as_str());
                lines.append(" is ");
                lines.append(other.activity.as_str());
                lines.append("\n");
                any = true;
            }
            j = j + 1;
        }
        proof {
            assert(w.subrange(0, npcs.len() as int) =~= w);
        }
        if any {
            state.append("\nAlso here:\n");
            state.append(lines.as_str());
        }
        let ghost mid = state@;
        let cs = &game_state.contracts;
        let ghost cv = game_state@.contracts;
        let mut count: usize = 0;
        let mut k: usize = 0;
        while k < cs.len()
            invariant
                k <= cs.len(),
                cv == crate::types::contract_views(cs@),
                count == engagements(cv.subrange(0, k as int), npc.name@),
                count <= k,
            decreases cs.len() - k,
        {
            proof {
                let ks = cv.subrange(0, k + 1);
                assert(ks.drop_last() =~= cv.subrange(0, k as int));
                assert(ks.last() == cs@[k as int]@);
            }
            if lists_name(&cs[k].participants, &npc.name) {
                count = count + 1;
            }
            k = k + 1;
        }
        proof {
            assert(cv.subrange(0, cs.len() as int) =~= cv);
        }
        if count > 0 {
            state.append("\nYou are currently engaged in ");
            let digits = decimal(count);
            state.append(digits.as_str());
            state.append(" interaction(s)\n");
        }
        proof {
            let others = others_here(w, npc.name@, npc.location@);
            let n = engagements(cv, npc.name@);
            assert(state@ =~= situation(npc@, w, cv));
        }
        state
    }

    /// A character's intent prompt, its sections separated by rules. `npc_base`,
    /// `personality`, `memories_json` and `transcript` are the material found for it;
    /// the transcript is used only while the character is in an interaction.
    pub fn build_npc_intent_prompt(
        &self,
        npc: &Npc,
        game_state: &GameState,
        npc_base: &str,
        personality: Option<String>,
        memories_json: Option<String>,
        transcript: Option<String>,
    ) -> (r: String)
        ensures
            r@ == joined(
                intent_sections(
                    npc@,
                    game_state@.npcs,
                    game_state@.contracts,
                    npc_base@,
                    opt_text(personality),
                    opt_text(memories_json),
                    opt_text(transcript),
                ),
                section_sep(),
            ),
    {
        let ghost pv = opt_text(personality);
        let ghost mv = opt_text(memories_json);
        let ghost tv = opt_text(transcript);
        let mut sections: Vec<String> = Vec::new();
        sections.push(npc_base.to_owned());
        let ghost s1 = texts(sections@);
        if let Some(p) = personality {
            sections.push(p);
        }
        let ghost s2 = texts(sections@);
        proof {
            assert(s2 =~= s1 + match pv {
                Some(p) => seq![p],
                None => Seq::<Seq<char>>::empty(),
            });
        }
        if let Some(m) = memories_json {
            sections.push(json_block("## Your Current Memories", m.as_str()));
        }
        let ghost s3 = texts(sections@);
        proof {
            assert(s3 =~= s2 + match mv {
                Some(m) => seq![json_section("## Your Current Memories"@, m)],
                None => Seq::<Seq<char>>::empty(),
            });
        }
        sections.push(self.format_current_state(npc, game_state));
        let ghost s4 = texts(sections@);
        if npc.active_contract.is_some() {
            if let Some(t) = transcript {
                sections.push(plain_block("## Current Interaction", t.as_str()));
            }
        }
        let ghost s5 = texts(sections@);
        proof {
            assert(s5 =~= s4 + match (npc@.active_contract, tv) {
                (Some(_), Some(t)) => seq![plain_section("## Current Interaction"@, t)],
                _ => Seq::<Seq<char>>::empty(),
            });
        }
        let directive = match &npc.next_prompt {
            Some(p) => p.clone(),
            None => String::from_str("What do you do next?"),
        };
        sections.push(directive);
        proof {
            assert(texts(sections@) =~= intent_sections(
                npc@,
                game_state@.npcs,
                game_state@.contracts,
                npc_base@,
                pv,
                mv,
                tv,
            ));
        }
        join_texts(&sections, "\n\n---\n\n")
    }

    /// A character's memory-update prompt, its sections separated by rules.
    /// `instructions` and `memories_json` are the material found for it.
    pub fn build_memory_update_prompt(
        &self,
        instructions: &str,
        memories_json: Option<String>,
        intent_json: &str,
        reality: &str,
        other_npcs: &Vec<String>,
    ) -> (r: String)
        ensures
            r@ == joined(
                memory_update_sections(
                    instructions@,
                    opt_text(memories_json),
                    intent_json@,
                    reality@,
                    texts(other_npcs@),
                ),
                section_sep(),
            ),
    {
        let ghost mv = opt_text(memories_json);
        let mut sections: Vec<String> = Vec::new();
        sections.push(instructions.to_owned());
        let ghost s1 = texts(sections@);
        if let Some(m) = memories_json {
            sections.push(json_block("## Current Memories", m.as_str()));
        }
        let ghost s2 = texts(sections@);
        proof {
            assert(s2 =~= s1 + match mv {
                Some(m) => seq![json_section("## Current Memories"@, m)],
                None => Seq::<Seq<char>>::empty(),
            });
        }
        sections.push(json_block("## Your Intent", intent_json));
        sections.push(plain_block("## What Actually Happened", reality));
        let ghost s3 = texts(sections@);
        if other_npcs.len() > 0 {
            let names = join_texts(other_npcs, ", ");
            sections.push(plain_block("## NPCs Present", names.as_str()));
        }
        proof {
            assert(texts(sections@) =~= memory_update_sections(
                instructions@,
                mv,
                intent_json@,
                reality@,
                texts(other_npcs@),
            ));
        }
        join_texts(&sections, "\n\n---\n\n")
    }
}

} // verus!
