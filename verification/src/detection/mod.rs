//! Detecting latent invariants: the evidence given to the model, and what
//! its answers are turned into.
pub mod evidence;
pub mod parsing;
pub mod answer;
pub mod prompts;
pub mod inference;
pub mod validation;
pub mod legacy;
