pub mod agent;
pub mod cli;
pub mod detection;
pub mod llm;
pub mod dup;
pub mod navigation;
pub mod parser;
pub mod report;
pub mod search;
pub mod text;
pub mod translation;
pub mod typestate_example;
