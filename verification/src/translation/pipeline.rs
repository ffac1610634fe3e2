//! The decisions of one program's translation: after each outcome of the
//! model, the build or the tests, whether to try again (with feedback),
//! to go on, or to stop with a result. Asking the model, building, testing
//! and measuring are done by the caller, which hands the outcome back.
use vstd::prelude::*;
use crate::dup::{opt_view, views};
use crate::text::{
    decimal, find, push_str, seq_contains, seq_find, seq_lines, slice_range, split_lines, to_chars,
    contains_str, from_chars, usize_to_string,
};
use crate::translation::feedback::{
    build_feedback, cuttable, error_feedback, failures_feedback, failures_text, FeedbackFormatter,
};
use crate::translation::types::{ProgramStatus, ProgramType, TestVectorResults};

verus! {

/// Where one program's translation stands.
pub struct TranslationRun {
    /// Attempts begun so far
    pub attempts: usize,
    /// Tokens the model used so far
    pub total_tokens: usize,
    /// What to tell the model on the next attempt
    pub last_feedback: Option<String>,
    pub max_retries: usize,
    pub skip_tests: bool,
}

/// An outcome handed back by the caller.
pub enum AttemptEvent {
    /// The model could not be asked; the error's full message
    LlmFailed { message: String },
    /// The model answered, using `tokens` tokens
    Translated { tokens: usize },
    /// The build failed: the error's full message, and its own message
    BuildFailed { message: String, display: String },
    BuildSucceeded,
    /// The tests ran
    TestsRan { results: TestVectorResults },
    /// The tests could not run; the error's message
    TestsErred { message: String },
}

/// What the caller is to do next.
pub enum NextStep {
    /// Ask the model, with `last_feedback`
    Translate,
    /// Write the translation and build it
    Build,
    RunTests,
    /// Measure the translation and report success
    Succeed { tests: Option<TestVectorResults> },
    /// Report the translation as ended with this status
    Stop {
        status: ProgramStatus,
        reason: String,
        tests: Option<TestVectorResults>,
        last_build_error: Option<String>,
    },
}

/// The model's context was too small for the program.
pub open spec fn context_exceeded(msg: Seq<char>) -> bool {
    seq_contains(msg, "context_length_exceeded"@) || seq_contains(msg, "maximum context length"@)
}

/// The first line of a message, or the whole message when it has no line.
pub open spec fn first_line(msg: Seq<char>) -> Seq<char> {
    if seq_lines(msg).len() > 0 {
        seq_lines(msg)[0]
    } else {
        msg
    }
}

/// The reason given when a program is skipped for its size.
pub open spec fn too_long_reason(max_lines: nat, lines: nat) -> Seq<char> {
    "File exceeds "@ + decimal(max_lines) + " lines ("@ + decimal(lines) + " lines)"@
}

/// The result for a program whose source has more lines than allowed,
/// before any attempt.
pub fn size_check(line_count: usize, max_lines: usize) -> (res: Option<NextStep>)
    ensures
        line_count <= max_lines <==> res is None,
        res matches Some(NextStep::Stop { status, reason, tests, last_build_error }) ==> status
            == ProgramStatus::Skipped && reason@ == too_long_reason(max_lines as nat, line_count as nat)
            && tests is None && last_build_error is None,
        res matches Some(s) ==> s is Stop,
{
    if line_count > max_lines {
        let mut reason = String::from_str("File exceeds ");
        push_str(&mut reason, usize_to_string(max_lines).as_str());
        push_str(&mut reason, " lines (");
        push_str(&mut reason, usize_to_string(line_count).as_str());
        push_str(&mut reason, " lines)");
        Some(NextStep::Stop { status: ProgramStatus::Skipped, reason, tests: None, last_build_error: None })
    } else {
        None
    }
}

/// The first line of a message.
fn first_line_of(msg: &str) -> (res: String)
    ensures
        res@ == first_line(msg@),
{
    let cs = to_chars(msg);
    let lines = split_lines(cs.as_slice());
    if lines.len() > 0 {
        from_chars(lines[0].as_slice())
    } else {
        String::from_str(msg)
    }
}

/// `attempts` with `n` appended as text.
fn with_number(prefix: &str, n: usize, suffix: &str) -> (res: String)
    ensures
        res@ == prefix@ + decimal(n as nat) + suffix@,
{
    let mut s = String::from_str(prefix);
    push_str(&mut s, usize_to_string(n).as_str());
    push_str(&mut s, suffix);
    s
}

impl TranslationRun {
    /// The state of a run is sound: an attempt has begun, and no more than
    /// the allowed number (or the first one when none is allowed).
    pub open spec fn wf(&self) -> bool {
        1 <= self.attempts && (self.attempts <= self.max_retries || self.attempts == 1)
    }

    /// A run that begins its first attempt: the caller is to ask the model.
    pub fn start(max_retries: usize, skip_tests: bool) -> (res: (TranslationRun, NextStep))
        ensures
            res.0.wf(),
            res.0.attempts == 1,
            res.0.total_tokens == 0,
            res.0.last_feedback is None,
            res.0.max_retries == max_retries,
            res.0.skip_tests == skip_tests,
            res.1 is Translate,
    {
        (
            TranslationRun { attempts: 1, total_tokens: 0, last_feedback: None, max_retries, skip_tests },
            NextStep::Translate,
        )
    }

    /// Begins another attempt.
    fn retry(&mut self)
        requires
            old(self).wf(),
            old(self).attempts < old(self).max_retries,
        ensures
            final(self).wf(),
            final(self).attempts == old(self).attempts + 1,
            final(self).total_tokens == old(self).total_tokens,
            final(self).last_feedback == old(self).last_feedback,
            final(self).max_retries == old(self).max_retries,
            final(self).skip_tests == old(self).skip_tests,
    {
        self.attempts = self.attempts + 1;
    }

    /// The next step after an outcome:
    /// - the model failed: skip the program when its context was too small,
    ///   fail it when the attempts are used up, else ask again;
    /// - the model answered: count its tokens and build;
    /// - the build failed: fail when the attempts are used up (keeping the
    ///   build error), else ask again with the build error as feedback;
    /// - the build succeeded: succeed without tests when they are skipped,
    ///   else run them;
    /// - the tests ran: succeed when none failed, fail when the attempts are
    ///   used up, else ask again with the failures as feedback;
    /// - the tests could not run: fail when the attempts are used up, else
    ///   ask again with the error as feedback.
    pub fn step(&mut self, event: AttemptEvent) -> (res: NextStep)
        requires
            old(self).wf(),
            event matches AttemptEvent::Translated { tokens } ==> old(self).total_tokens + tokens
                <= usize::MAX,
            event matches AttemptEvent::BuildFailed { display, .. } ==> cuttable(display@, 2000),
            event matches AttemptEvent::TestsRan { results } ==> cuttable(
                failures_text(views(results.failures@)),
                2000,
            ),
            event matches AttemptEvent::TestsErred { message } ==> cuttable(message@, 2000),
        ensures
            final(self).wf(),
            final(self).max_retries == old(self).max_retries,
            final(self).skip_tests == old(self).skip_tests,
            res is Translate ==> final(self).attempts == old(self).attempts + 1 && old(self).attempts
                < old(self).max_retries,
            !(res is Translate) ==> final(self).attempts == old(self).attempts,
            res matches NextStep::Stop { status, .. } && status == ProgramStatus::Failed
                ==> old(self).attempts >= old(self).max_retries,
            res matches NextStep::Succeed { tests } ==> (tests matches Some(t) ==> t.failed == 0),
            match event {
                AttemptEvent::LlmFailed { message } => {
                    &&& final(self).total_tokens == old(self).total_tokens
                    &&& final(self).last_feedback == old(self).last_feedback
                    &&& if context_exceeded(message@) {
                        res matches NextStep::Stop { status, reason, tests, last_build_error }
                            && status == ProgramStatus::Skipped && reason@
                            == "LLM context length exceeded"@ && tests is None
                            && last_build_error is None
                    } else if old(self).attempts >= old(self).max_retries {
                        res matches NextStep::Stop { status, reason, tests, last_build_error }
                            && status == ProgramStatus::Failed && reason@ == "LLM error after "@
                            + decimal(old(self).attempts as nat) + " attempts: "@ + first_line(message@)
                            && tests is None && last_build_error is None
                    } else {
                        res is Translate
                    }
                },
                AttemptEvent::Translated { tokens } => {
                    &&& final(self).total_tokens == old(self).total_tokens + tokens
                    &&& final(self).last_feedback == old(self).last_feedback
                    &&& res is Build
                },
                AttemptEvent::BuildFailed { message, display } => {
                    &&& final(self).total_tokens == old(self).total_tokens
                    &&& if old(self).attempts >= old(self).max_retries {
                        &&& res matches NextStep::Stop { status, reason, tests, last_build_error }
                            && status == ProgramStatus::Failed && reason@ == "Build failed after "@
                            + decimal(old(self).attempts as nat) + " attempts"@ && tests is None
                            && opt_view(last_build_error) == Some(message@)
                        &&& final(self).last_feedback == old(self).last_feedback
                    } else {
                        &&& res is Translate
                        &&& opt_view(final(self).last_feedback) == Some(
                            build_feedback(display@, ProgramType::Library),
                        )
                    }
                },
                AttemptEvent::BuildSucceeded => {
                    &&& final(self).total_tokens == old(self).total_tokens
                    &&& final(self).last_feedback == old(self).last_feedback
                    &&& if old(self).skip_tests {
                        res matches NextStep::Succeed { tests } && tests is None
                    } else {
                        res is RunTests
                    }
                },
                AttemptEvent::TestsRan { results } => {
                    &&& final(self).total_tokens == old(self).total_tokens
                    &&& if results.failed == 0 {
                        &&& res matches NextStep::Succeed { tests } && tests == Some(results)
                        &&& final(self).last_feedback == old(self).last_feedback
                    } else if old(self).attempts >= old(self).max_retries {
                        &&& res matches NextStep::Stop { status, reason, tests, last_build_error }
                            && status == ProgramStatus::Failed && reason@ == "Tests failed after "@
                            + decimal(old(self).attempts as nat) + " attempts"@ && tests == Some(
                            results,
                        ) && last_build_error is None
                        &&& final(self).last_feedback == old(self).last_feedback
                    } else {
                        &&& res is Translate
                        &&& opt_view(final(self).last_feedback) == Some(
                            failures_feedback(
                                results.failed as nat,
                                results.total as nat,
                                views(results.failures@),
                                ProgramType::Library,
                            ),
                        )
                    }
                },
                AttemptEvent::TestsErred { message } => {
                    &&& final(self).total_tokens == old(self).total_tokens
                    &&& if old(self).attempts >= old(self).max_retries {
                        &&& res matches NextStep::Stop { status, reason, tests, last_build_error }
                            && status == ProgramStatus::Failed && reason@
                            == "Test execution failed: "@ + message@ && tests is None
                            && last_build_error is None
                        &&& final(self).last_feedback == old(self).last_feedback
                    } else {
                        &&& res is Translate
                        &&& opt_view(final(self).last_feedback) == Some(
                            error_feedback(message@, ProgramType::Library),
                        )
                    }
                },
            },
    {
        let out_of_attempts = self.attempts >= self.max_retries;
        match event {
            AttemptEvent::LlmFailed { message } => {
                let mc = to_chars(message.as_str());
                if contains_str(mc.as_slice(), "context_length_exceeded") || contains_str(
                    mc.as_slice(),
                    "maximum context length",
                ) {
                    return NextStep::Stop {
                        status: ProgramStatus::Skipped,
                        reason: String::from_str("LLM context length exceeded"),
                        tests: None,
                        last_build_error: None,
                    };
                }
                if out_of_attempts {
                    let mut reason = with_number("LLM error after ", self.attempts, " attempts: ");
                    push_str(&mut reason, first_line_of(message.as_str()).as_str());
                    return NextStep::Stop { status: ProgramStatus::Failed, reason, tests: None, last_build_error: None };
                }
                self.retry();
                NextStep::Translate
            },
            AttemptEvent::Translated { tokens } => {
                self.total_tokens = self.total_tokens + tokens;
                NextStep::Build
            },
            AttemptEvent::BuildFailed { message, display } => {
                if out_of_attempts {
                    let reason = with_number("Build failed after ", self.attempts, " attempts");
                    return NextStep::Stop {
                        status: ProgramStatus::Failed,
                        reason,
                        tests: None,
                        last_build_error: Some(message),
                    };
                }
                let f = FeedbackFormatter::new();
                self.last_feedback = Some(f.format_build_error(display.as_str()));
                self.retry();
                NextStep::Translate
            },
            AttemptEvent::BuildSucceeded => {
                if self.skip_tests {
                    NextStep::Succeed { tests: None }
                } else {
                    NextStep::RunTests
                }
            },
            AttemptEvent::TestsRan { results } => {
                if results.failed == 0 {
                    return NextStep::Succeed { tests: Some(results) };
                }
                if out_of_attempts {
                    let reason = with_number("Tests failed after ", self.attempts, " attempts");
                    return NextStep::Stop {
                        status: ProgramStatus::Failed,
                        reason,
                        tests: Some(results),
                        last_build_error: None,
                    };
                }
                let f = FeedbackFormatter::new();
                self.last_feedback = Some(f.format_test_failures(&results));
                self.retry();
                NextStep::Translate
            },
            AttemptEvent::TestsErred { message } => {
                if out_of_attempts {
                    let mut reason = String::from_str("Test execution failed: ");
                    push_str(&mut reason, message.as_str());
                    return NextStep::Stop { status: ProgramStatus::Failed, reason, tests: None, last_build_error: None };
                }
                let f = FeedbackFormatter::new();
                self.last_feedback = Some(f.format_test_error(message.as_str()));
                self.retry();
                NextStep::Translate
            },
        }
    }
}

/// A run never begins more attempts than allowed, and at least one: every
/// state that `start` and `step` give is sound, and a sound state has
/// begun between one and `max(max_retries, 1)` attempts.
pub proof fn law_attempts_bounded(run: TranslationRun)
    requires
        run.wf(),
    ensures
        1 <= run.attempts <= if run.max_retries >= 1 {
            run.max_retries
        } else {
            1
        },
{
}

/// The times a sequence of steps tells the caller to ask the model.
pub open spec fn asks(steps: Seq<NextStep>) -> nat
    decreases steps.len(),
{
    if steps.len() == 0 {
        0
    } else {
        asks(steps.drop_last()) + if steps.last() is Translate {
            1nat
        } else {
            0nat
        }
    }
}

/// The states of a run, one after each step, as `step` relates them: a
/// `Translate` step begins one more attempt, any other step none.
pub open spec fn steps_follow(runs: Seq<TranslationRun>, steps: Seq<NextStep>) -> bool {
    &&& runs.len() == steps.len() + 1
    &&& forall|i: int| 0 <= i < steps.len() ==> (#[trigger] steps[i] is Translate ==> runs[i + 1].attempts
        == runs[i].attempts + 1)
    &&& forall|i: int| 0 <= i < steps.len() ==> (!(#[trigger] steps[i] is Translate) ==> runs[i + 1].attempts
        == runs[i].attempts)
}

/// The model is asked once per attempt: a run that `start` began (its
/// first attempt, with the caller told to ask the model) has, after any
/// sequence of steps, begun one attempt more than the `Translate` steps
/// among them.
pub proof fn law_attempts_are_asks(runs: Seq<TranslationRun>, steps: Seq<NextStep>)
    requires
        steps_follow(runs, steps),
        runs[0].attempts == 1,
    ensures
        runs[runs.len() - 1].attempts == 1 + asks(steps),
    decreases steps.len(),
{
    if steps.len() > 0 {
        let n = steps.len() - 1;
        assert(steps_follow(runs.drop_last(), steps.drop_last())) by {
            assert forall|i: int| 0 <= i < steps.drop_last().len() implies (#[trigger] steps.drop_last()[i] is Translate
                ==> runs.drop_last()[i + 1].attempts == runs.drop_last()[i].attempts + 1) by {
                assert(steps.drop_last()[i] == steps[i]);
            }
            assert forall|i: int| 0 <= i < steps.drop_last().len() implies (!(#[trigger] steps.drop_last()[i] is Translate)
                ==> runs.drop_last()[i + 1].attempts == runs.drop_last()[i].attempts) by {
                assert(steps.drop_last()[i] == steps[i]);
            }
        }
        law_attempts_are_asks(runs.drop_last(), steps.drop_last());
        assert(steps[n] is Translate ==> runs[n + 1].attempts == runs[n].attempts + 1);
        assert(!(steps[n] is Translate) ==> runs[n + 1].attempts == runs[n].attempts);
    }
}

} // verus!
