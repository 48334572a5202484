pub mod analyze;
pub mod classifier;
pub mod input;
pub mod json;
pub mod llm;
pub mod text;
