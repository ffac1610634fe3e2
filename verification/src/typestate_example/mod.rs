//! A small example of typestate: a configuration builder, a database
//! connection, a file handle and resources, whose states the type system
//! tracks. The analysis is meant to recognise such code.
pub mod builder;
pub mod database;
pub mod file_handle;
pub mod resource;

pub use builder::{Builder, BuilderComplete, BuilderEmpty, BuilderWithName, Config, Token};
pub use database::{Connected, Connection, Disconnected, Transaction};
pub use file_handle::{Closed, FileHandle, Open};
pub use resource::{Resource, ResourceGuard};
