//! Orchestration core for a small society of characters driven by a reasoning
//! backend: the shared world state and its mutation rules, the per-character memory
//! model, prompt composition, and the decisions of each turn.

mod error;
mod text;

pub mod engine;
pub mod json;
pub mod memory;
pub mod prompts;
pub mod state;
pub mod traits;
pub mod types;

pub use engine::NpcEngine;
pub use error::EngineError;
pub use json::json_object_spans;
pub use memory::{
    memory_source, FadeDecision, Memory, MemorySource, MemorySystem, MemoryUpdate, RelationshipMemory,
    RelationshipUpdate, SelfMemories,
};
pub use prompts::{PromptBuilder, PromptLoader};
pub use text::{decimal, text_eq};
pub use traits::{Context, InteractionResult, Perception, PerceptionResult};
pub use types::{
    ContractUpdate, Contract, CurrentState, GameState, GmInput, GmResponse, Intent, MemoryUpdateInput,
    NextPrompt, Npc, NpcAction, NpcBuilder, StateChange, TranscriptEntry,
};
