//! Prompt material: where it is found and how it is put together.

pub mod builder;
pub mod loader;

pub use builder::PromptBuilder;
pub use loader::PromptLoader;
