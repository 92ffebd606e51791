use vstd::prelude::*;
use vstd::string::*;

use crate::types::Npc;

verus! {

/// What a character can learn of the world around it when it decides.
pub trait Context {
    /// The characters visible to the current character.
    fn get_visible_npcs(&self) -> Vec<&Npc>;

    /// A description of the surroundings.
    fn get_environment(&self) -> &str;

    /// Where the character `npc_name` is, if it is known.
    fn get_npc_location(&self, npc_name: &str) -> Option<String>;

    /// The interactions that the character `npc_name` takes part in.
    fn get_active_interactions(&self, npc_name: &str) -> Vec<String>;
}

/// Decides what a character perceives of its surroundings.
pub trait Perception {
    fn perceive<C: Context>(&self, npc: &Npc, context: &C) -> PerceptionResult;
}

/// What a character perceived.
pub struct PerceptionResult {
    pub visible_npcs: Vec<String>,
    pub audible_events: Vec<String>,
    pub environmental_details: Vec<String>,
}

impl PerceptionResult {
    /// Nothing perceived.
    pub fn new() -> (r: PerceptionResult)
        ensures
            r.visible_npcs@.len() == 0,
            r.audible_events@.len() == 0,
            r.environmental_details@.len() == 0,
    {
        PerceptionResult { visible_npcs: Vec::new(), audible_events: Vec::new(), environmental_details: Vec::new() }
    }
}

/// The outcome of a social interaction.
pub struct InteractionResult {
    pub success: bool,
    pub description: String,
    /// In thousandths.
    pub sentiment_change: i32,
    /// In thousandths.
    pub relationship_impact: i32,
}

impl InteractionResult {
    /// A successful interaction with no effect on feelings yet.
    pub fn success(description: &str) -> (r: InteractionResult)
        ensures
            r.success,
            r.description@ == description@,
            r.sentiment_change == 0,
            r.relationship_impact == 0,
    {
        InteractionResult { success: true, description: description.to_owned(), sentiment_change: 0, relationship_impact: 0 }
    }

    /// A failed interaction with no effect on feelings yet.
    pub fn failure(description: &str) -> (r: InteractionResult)
        ensures
            !r.success,
            r.description@ == description@,
            r.sentiment_change == 0,
            r.relationship_impact == 0,
    {
        InteractionResult { success: false, description: description.to_owned(), sentiment_change: 0, relationship_impact: 0 }
    }

    pub fn with_sentiment(self, change: i32) -> (r: InteractionResult)
        ensures
            r.success == self.success,
            r.description == self.description,
            r.sentiment_change == change,
            r.relationship_impact == self.relationship_impact,
    {
        InteractionResult { sentiment_change: change, ..self }
    }

    pub fn with_relationship_impact(self, impact: i32) -> (r: InteractionResult)
        ensures
            r.success == self.success,
            r.description == self.description,
            r.sentiment_change == self.sentiment_change,
            r.relationship_impact == impact,
    {
        InteractionResult { relationship_impact: impact, ..self }
    }
}

} // verus!
