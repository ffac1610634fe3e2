//! What the program decides about its model clients: which provider serves
//! a request, what a response carries, when a failed request is retried and
//! after how long, and how token usage is counted.
pub mod retry;
pub mod tracking;
pub mod types;
