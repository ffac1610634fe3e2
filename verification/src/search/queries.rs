//! The semantic search queries that surface latent-invariant signals.
use vstd::prelude::*;

verus! {

/// One search query: its text, the search mode (`code` or `docs`), and
/// what it looks for.
#[derive(Debug, Clone, Copy)]
pub struct InvariantQuery {
    pub query: &'static str,
    pub mode: &'static str,
    pub description: &'static str,
}

/// The queries as text: each query, its mode, and what it looks for.
pub open spec fn query_texts() -> Seq<(Seq<char>, Seq<char>, Seq<char>)> {
    seq![
        ("must call before initialize first"@, "docs"@, "Comment-based ordering requirements"@),
        ("not initialized not connected not open error"@, "code"@, "Error messages revealing ordering invariants"@),
        ("assert initialized assert connected check state"@, "code"@, "Runtime assertions checking state preconditions"@),
        ("is_open is_closed is_connected initialized ready"@, "code"@, "Boolean fields tracking runtime state"@),
        ("enum State Connecting Connected Closed"@, "code"@, "Enums used for runtime state dispatch"@),
        ("open close connect disconnect acquire release"@, "code"@, "Resource lifecycle method pairs"@),
        ("impl Drop cleanup free deallocate"@, "code"@, "Drop implementations and cleanup code"@),
        ("init setup configure start begin"@, "code"@, "Initialization and setup sequences"@),
        ("shutdown finalize teardown stop end flush"@, "code"@, "Shutdown and finalization sequences"@),
        ("SAFETY assumes precondition invariant caller must ensure"@, "docs"@, "Safety comments documenting invariants"@),
        ("unsafe is_null ptr valid"@, "code"@, "Unsafe code with validity preconditions"@),
        ("must_use guard token capability permit"@, "code"@, "Must-use types and capability tokens"@)
    ]
}

pub open spec fn query_views(qs: Seq<InvariantQuery>) -> Seq<(Seq<char>, Seq<char>, Seq<char>)> {
    qs.map_values(|q: InvariantQuery| (q.query@, q.mode@, q.description@))
}

/// The queries, by category: temporal ordering, state tracking, resource
/// lifecycle, preconditions and protocols.
pub fn invariant_queries() -> (res: Vec<InvariantQuery>)
    ensures
        query_views(res@) == query_texts(),
{
    let v = vec![
        InvariantQuery { query: "must call before initialize first", mode: "docs", description: "Comment-based ordering requirements" },
        InvariantQuery { query: "not initialized not connected not open error", mode: "code", description: "Error messages revealing ordering invariants" },
        InvariantQuery { query: "assert initialized assert connected check state", mode: "code", description: "Runtime assertions checking state preconditions" },
        InvariantQuery { query: "is_open is_closed is_connected initialized ready", mode: "code", description: "Boolean fields tracking runtime state" },
        InvariantQuery { query: "enum State Connecting Connected Closed", mode: "code", description: "Enums used for runtime state dispatch" },
        InvariantQuery { query: "open close connect disconnect acquire release", mode: "code", description: "Resource lifecycle method pairs" },
        InvariantQuery { query: "impl Drop cleanup free deallocate", mode: "code", description: "Drop implementations and cleanup code" },
        InvariantQuery { query: "init setup configure start begin", mode: "code", description: "Initialization and setup sequences" },
        InvariantQuery { query: "shutdown finalize teardown stop end flush", mode: "code", description: "Shutdown and finalization sequences" },
        InvariantQuery { query: "SAFETY assumes precondition invariant caller must ensure", mode: "docs", description: "Safety comments documenting invariants" },
        InvariantQuery { query: "unsafe is_null ptr valid", mode: "code", description: "Unsafe code with validity preconditions" },
        InvariantQuery { query: "must_use guard token capability permit", mode: "code", description: "Must-use types and capability tokens" }
    ];
    assert(query_views(v@) =~= query_texts());
    v
}

} // verus!
