//! Progress of an analysis run: which chunks are done, how many failed,
//! how many invariants and tokens so far, and whether the token budget is
//! spent.
use vstd::prelude::*;
use crate::dup::views;
use crate::text::{contains_string, str_eq};

verus! {

/// One line of a run's progress file.
#[derive(Debug, Clone)]
pub struct ProgressEntry {
    /// The chunk the line is about
    pub module_name: String,
    /// `completed` or `failed`
    pub status: String,
    pub invariants_found: usize,
    pub tokens_used: u64,
    pub timestamp: String,
    pub error: Option<String>,
}

/// `a + b` wrapping around at the top of `usize`.
pub open spec fn wrap_usize(a: usize, b: usize) -> usize {
    if a + b > usize::MAX {
        (a + b - usize::MAX - 1) as usize
    } else {
        (a + b) as usize
    }
}

/// `a + b` wrapping around at the top of `u64`.
pub open spec fn wrap_u64(a: u64, b: u64) -> u64 {
    if a + b > u64::MAX {
        (a + b - u64::MAX - 1) as u64
    } else {
        (a + b) as u64
    }
}

/// The counters and the set of finished chunks of a run.
pub struct ProgressState {
    /// The chunks that are done (completed or failed), each once
    pub completed: Vec<String>,
    pub total_chunks: usize,
    pub completed_count: usize,
    pub failed_count: usize,
    pub invariants_found: usize,
    pub total_tokens: u64,
    /// The token budget, 0 for none
    pub token_budget: u64,
}

/// No text occurs twice in `s`.
pub open spec fn distinct(s: Seq<Seq<char>>) -> bool {
    forall|i: int, j: int| 0 <= i < j < s.len() ==> s[i] != s[j]
}

/// The budget is spent: there is one and the tokens used reach it.
pub open spec fn budget_spent(budget: u64, tokens: u64) -> bool {
    budget != 0 && tokens >= budget
}

impl ProgressState {
    /// The finished chunks, each once.
    pub open spec fn done(&self) -> Seq<Seq<char>> {
        views(self.completed@)
    }

    pub open spec fn wf(&self) -> bool {
        distinct(self.done())
    }

    /// A run of `total_chunks` chunks with nothing done yet.
    pub fn new(total_chunks: usize, token_budget: u64) -> (res: Self)
        ensures
            res.wf(),
            res.done() == Seq::<Seq<char>>::empty(),
            res.total_chunks == total_chunks,
            res.token_budget == token_budget,
            res.completed_count == 0 && res.failed_count == 0 && res.invariants_found == 0
                && res.total_tokens == 0,
    {
        let s = ProgressState {
            completed: Vec::new(),
            total_chunks,
            completed_count: 0,
            failed_count: 0,
            invariants_found: 0,
            total_tokens: 0,
            token_budget,
        };
        assert(s.done() =~= Seq::<Seq<char>>::empty());
        s
    }

    /// Takes over the chunks a checkpoint lists as completed; the
    /// completed count becomes their number.
    pub fn restore_from_checkpoint(&mut self, checkpoint: Vec<String>)
        requires
            distinct(views(checkpoint@)),
        ensures
            final(self).wf(),
            final(self).done() == views(checkpoint@),
            final(self).completed_count == checkpoint@.len(),
            final(self).failed_count == old(self).failed_count,
            final(self).invariants_found == old(self).invariants_found,
            final(self).total_tokens == old(self).total_tokens,
            final(self).total_chunks == old(self).total_chunks,
            final(self).token_budget == old(self).token_budget,
    {
        let count = checkpoint.len();
        self.completed = checkpoint;
        self.completed_count = count;
    }

    /// Whether the chunk named `module_name` is done.
    pub fn is_completed(&self, module_name: &str) -> (res: bool)
        ensures
            res == self.done().contains(module_name@),
    {
        contains_string(&self.completed, module_name)
    }

    /// Records the outcome of one chunk: it is done; a `completed` one adds
    /// to the completed count and its invariants to the total, anything
    /// else to the failures; its tokens add to the total used. The counters
    /// wrap around as atomic counters do.
    pub fn record_result(&mut self, module_name: &str, status: &str, invariant_count: usize, tokens: u64)
        requires
            old(self).wf(),
        ensures
            final(self).wf(),
            final(self).done().contains(module_name@),
            forall|m: Seq<char>| old(self).done().contains(m) ==> #[trigger] final(self).done().contains(m),
            forall|m: Seq<char>| #[trigger] final(self).done().contains(m) ==> m == module_name@ || old(self).done().contains(m),
            status@ == "completed"@ ==> final(self).completed_count == wrap_usize(old(self).completed_count, 1)
                && final(self).invariants_found == wrap_usize(old(self).invariants_found, invariant_count)
                && final(self).failed_count == old(self).failed_count,
            status@ != "completed"@ ==> final(self).failed_count == wrap_usize(old(self).failed_count, 1)
                && final(self).completed_count == old(self).completed_count
                && final(self).invariants_found == old(self).invariants_found,
            final(self).total_tokens == wrap_u64(old(self).total_tokens, tokens),
            final(self).total_chunks == old(self).total_chunks,
            final(self).token_budget == old(self).token_budget,
    {
        if !contains_string(&self.completed, module_name) {
            let ghost before = self.done();
            self.completed.push(String::from_str(module_name));
            proof {
                assert(self.done() =~= before.push(module_name@));
                assert forall|i: int, j: int| 0 <= i < j < self.done().len() implies self.done()[i]
                    != self.done()[j] by {
                    if j == before.len() {
                        assert(before.contains(before[i]));
                    }
                }
                assert forall|m: Seq<char>| #[trigger] self.done().contains(m) implies m == module_name@
                    || before.contains(m) by {
                    let k = choose|k: int| 0 <= k < self.done().len() && self.done()[k] == m;
                    if k < before.len() {
                        assert(before[k] == m);
                    }
                }
                assert forall|m: Seq<char>| before.contains(m) implies #[trigger] self.done().contains(m) by {
                    let k = choose|k: int| 0 <= k < before.len() && before[k] == m;
                    assert(self.done()[k] == m);
                }
                assert(self.done()[before.len() as int] == module_name@);
            }
        }
        if str_eq(status, "completed") {
            self.completed_count = self.completed_count.wrapping_add(1);
            self.invariants_found = self.invariants_found.wrapping_add(invariant_count);
        } else {
            self.failed_count = self.failed_count.wrapping_add(1);
        }
        self.total_tokens = self.total_tokens.wrapping_add(tokens);
    }

    /// Whether the token budget is spent.
    pub fn budget_exceeded(&self) -> (res: bool)
        ensures
            res == budget_spent(self.token_budget, self.total_tokens),
    {
        if self.token_budget == 0 {
            return false;
        }
        self.total_tokens >= self.token_budget
    }
}

/// The chunks a progress file lists as completed, each once, in the order
/// of their first completed line; failed chunks are left to retry.
pub open spec fn checkpoint_of(entries: Seq<(Seq<char>, Seq<char>)>) -> Seq<Seq<char>>
    decreases entries.len(),
{
    if entries.len() == 0 {
        Seq::empty()
    } else {
        let before = checkpoint_of(entries.drop_last());
        let e = entries.last();
        if e.1 == "completed"@ && !before.contains(e.0) {
            before.push(e.0)
        } else {
            before
        }
    }
}

/// The chunk names and statuses of progress entries.
pub open spec fn entry_views(entries: Seq<ProgressEntry>) -> Seq<(Seq<char>, Seq<char>)> {
    entries.map_values(|e: ProgressEntry| (e.module_name@, e.status@))
}

/// The chunks a progress file's entries list as completed, each once.
pub fn load_checkpoint(entries: &Vec<ProgressEntry>) -> (res: Vec<String>)
    ensures
        views(res@) == checkpoint_of(entry_views(entries@)),
        distinct(views(res@)),
{
    let ghost es = entry_views(entries@);
    let mut out: Vec<String> = Vec::new();
    let mut k: usize = 0;
    assert(es.take(0) =~= Seq::<(Seq<char>, Seq<char>)>::empty());
    while k < entries.len()
        invariant
            k <= entries@.len(),
            es == entry_views(entries@),
            views(out@) == checkpoint_of(es.take(k as int)),
            distinct(views(out@)),
        decreases entries@.len() - k,
    {
        let e = &entries[k];
        proof {
            assert(es.take(k + 1).drop_last() =~= es.take(k as int));
            assert(es.take(k + 1).last() == (e.module_name@, e.status@));
        }
        if str_eq(e.status.as_str(), "completed") && !contains_string(&out, e.module_name.as_str()) {
            let ghost before = views(out@);
            out.push(e.module_name.clone());
            proof {
                assert(views(out@) =~= before.push(e.module_name@));
                assert forall|i: int, j: int| 0 <= i < j < views(out@).len() implies views(out@)[i]
                    != views(out@)[j] by {
                    if j == before.len() {
                        assert(before.contains(before[i]));
                    }
                }
            }
        }
        k += 1;
    }
    assert(es.take(k as int) =~= es);
    out
}

/// Some entry records `m` as completed.
pub open spec fn completed_entry(es: Seq<(Seq<char>, Seq<char>)>, m: Seq<char>) -> bool {
    exists|i: int| 0 <= i < es.len() && es[i].0 == m && es[i].1 == "completed"@
}

/// Resuming skips exactly the completed chunks: a chunk is in the
/// checkpoint of a progress file if and only if some line records it as
/// completed; a chunk that only failed is retried.
pub proof fn law_checkpoint_completed_only(es: Seq<(Seq<char>, Seq<char>)>, m: Seq<char>)
    ensures
        checkpoint_of(es).contains(m) <==> completed_entry(es, m),
    decreases es.len(),
{
    if es.len() > 0 {
        let d = es.drop_last();
        law_checkpoint_completed_only(d, m);
        let before = checkpoint_of(d);
        let e = es.last();
        if completed_entry(d, m) {
            let i = choose|i: int| 0 <= i < d.len() && d[i].0 == m && d[i].1 == "completed"@;
            assert(es[i] == d[i]);
        }
        if completed_entry(es, m) && !completed_entry(d, m) {
            let i = choose|i: int| 0 <= i < es.len() && es[i].0 == m && es[i].1 == "completed"@;
            if i < d.len() {
                assert(d[i] == es[i]);
            }
        }
        if e.1 == "completed"@ && !before.contains(e.0) {
            assert(before.push(e.0).contains(m) <==> (before.contains(m) || m == e.0)) by {
                if before.push(e.0).contains(m) {
                    let k = choose|k: int| 0 <= k < before.push(e.0).len() && before.push(e.0)[k] == m;
                    if k < before.len() {
                        assert(before[k] == m);
                    }
                }
                if before.contains(m) {
                    let k = choose|k: int| 0 <= k < before.len() && before[k] == m;
                    assert(before.push(e.0)[k] == m);
                }
                if m == e.0 {
                    assert(before.push(e.0)[before.len() as int] == m);
                }
            }
            if m == e.0 {
                assert(es[es.len() - 1] == e);
            }
        } else if m == e.0 && e.1 == "completed"@ {
            assert(es[es.len() - 1] == e);
        }
    }
}

/// Once the token budget is spent it stays spent while the counter grows
/// without wrapping around.
pub proof fn law_budget_stays_spent(budget: u64, tokens: u64, more: u64)
    requires
        budget_spent(budget, tokens),
        tokens + more <= u64::MAX,
    ensures
        budget_spent(budget, wrap_u64(tokens, more)),
{
}

} // verus!
