//! Trying a transaction again where its nonce was wrong.

use crate::text::{
    ascii_lowered, ascii_uppered, contains_text, lower_ascii, occurs_in, stands_at,
};
use vstd::prelude::*;

verus! {

/// How often a transaction is tried, and how long to wait in between.
#[derive(Clone, Copy, Debug)]
pub struct RetryConfig {
    pub max_retries: u32,
    pub delay_ms: u64,
}

impl Default for RetryConfig {
    fn default() -> (config: Self)
        ensures
            config.max_retries == 3,
            config.delay_ms == 1000,
    {
        RetryConfig { max_retries: 3, delay_ms: 1000 }
    }
}

/// Whether a text in lower case speaks of a wrong nonce.
pub open spec fn speaks_of_nonce(lower: Seq<char>) -> bool {
    ||| occurs_in(lower, "invalid nonce"@)
    ||| occurs_in(lower, "nonce too low"@)
    ||| occurs_in(lower, "nonce conflict"@)
    ||| occurs_in(lower, "nonce too high"@)
    ||| occurs_in(lower, "replacement transaction underpriced"@)
}

/// Whether a text in lower case speaks of a wrong nonce.
pub fn mentions_nonce(lower: &str) -> (r: bool)
    ensures
        r == speaks_of_nonce(lower@),
{
    contains_text(lower, "invalid nonce") || contains_text(lower, "nonce too low")
        || contains_text(lower, "nonce conflict") || contains_text(lower, "nonce too high")
        || contains_text(lower, "replacement transaction underpriced")
}

/// Whether a text speaks of a wrong nonce, in whatever case. Only the case of ASCII
/// letters matters: of all other characters, the Kelvin sign and the dotted `I`
/// alone have a lower-case form with a letter of ASCII in it, and neither `k`, nor
/// `i` with a combining dot behind it, stands in any of the phrases.
pub open spec fn is_nonce_text(message: Seq<char>) -> bool {
    speaks_of_nonce(ascii_lowered(message))
}

/// Whether an error speaks of a wrong nonce, in whatever case.
pub fn is_nonce_error(error_msg: &str) -> (r: bool)
    ensures
        r == is_nonce_text(error_msg@),
{
    let error_lower = lower_ascii(error_msg);
    mentions_nonce(error_lower.as_str())
}

proof fn lemma_occurs_inside(a: Seq<char>, s: Seq<char>, b: Seq<char>, needle: Seq<char>)
    requires
        occurs_in(s, needle),
    ensures
        occurs_in(a + s + b, needle),
{
    let at = choose|at: int| #[trigger] stands_at(s, needle, at);
    let whole = a + s + b;
    assert(whole.subrange(a.len() + at, a.len() + at + needle.len()) =~= s.subrange(
        at,
        at + needle.len(),
    ));
    assert(stands_at(whole, needle, a.len() + at));
}

/// In a text in lower case, what stands around the words that speak of a wrong
/// nonce does not matter.
pub proof fn law_lower_surroundings_do_not_matter(a: Seq<char>, s: Seq<char>, b: Seq<char>)
    requires
        speaks_of_nonce(s),
    ensures
        speaks_of_nonce(a + s + b),
{
    if occurs_in(s, "invalid nonce"@) {
        lemma_occurs_inside(a, s, b, "invalid nonce"@);
    } else if occurs_in(s, "nonce too low"@) {
        lemma_occurs_inside(a, s, b, "nonce too low"@);
    } else if occurs_in(s, "nonce conflict"@) {
        lemma_occurs_inside(a, s, b, "nonce conflict"@);
    } else if occurs_in(s, "nonce too high"@) {
        lemma_occurs_inside(a, s, b, "nonce too high"@);
    } else {
        lemma_occurs_inside(a, s, b, "replacement transaction underpriced"@);
    }
}

/// What stands around the words that speak of a wrong nonce does not matter,
/// whatever the texts.
pub proof fn law_surroundings_do_not_matter(before: Seq<char>, message: Seq<char>, after: Seq<char>)
    requires
        is_nonce_text(message),
    ensures
        is_nonce_text(before + message + after),
{
    let a = ascii_lowered(before);
    let s = ascii_lowered(message);
    let b = ascii_lowered(after);
    assert(ascii_lowered(before + message + after) =~= a + s + b);
    law_lower_surroundings_do_not_matter(a, s, b);
}

/// The case of ASCII letters does not matter to whether a text, whatever it is,
/// speaks of a wrong nonce.
pub proof fn law_case_does_not_matter(message: Seq<char>)
    ensures
        is_nonce_text(ascii_uppered(message)) == is_nonce_text(message),
        is_nonce_text(ascii_lowered(message)) == is_nonce_text(message),
{
    let lower = ascii_lowered(message);
    assert(ascii_lowered(ascii_uppered(message)) =~= lower);
    assert(ascii_lowered(lower) =~= lower);
}

/// What to do after an attempt.
#[derive(Clone, Copy, PartialEq, Eq, Structural, Debug)]
pub enum RetryStep {
    /// Hand the outcome back.
    Return,
    /// Wait, then try again; so many attempts were made.
    Retry { attempts: u32, delay_ms: u64 },
}

/// What follows an attempt, given whether it failed for its nonce.
pub open spec fn after_attempt(config: RetryConfig, made: u32, nonce_error: bool) -> RetryStep {
    if nonce_error && made + 1 < config.max_retries {
        RetryStep::Retry { attempts: (made + 1) as u32, delay_ms: config.delay_ms }
    } else {
        RetryStep::Return
    }
}

/// Decides what follows an attempt that failed for its nonce or did not.
pub fn decide_retry(config: &RetryConfig, made: u32, nonce_error: bool) -> (step: RetryStep)
    requires
        made < config.max_retries || made == 0,
    ensures
        step == after_attempt(*config, made, nonce_error),
{
    let attempts: u32 = made + 1;
    if nonce_error && attempts < config.max_retries {
        RetryStep::Retry { attempts, delay_ms: config.delay_ms }
    } else {
        RetryStep::Return
    }
}

/// Decides what follows an attempt, given its error if it failed. An outcome is
/// handed back unless it is a nonce error with attempts left.
pub fn retry_on_nonce_error(config: &RetryConfig, made: u32, error: Option<&str>) -> (step:
    RetryStep)
    requires
        made < config.max_retries || made == 0,
    ensures
        step == after_attempt(
            *config,
            made,
            match error {
                Some(message) => is_nonce_text(message@),
                None => false,
            },
        ),
{
    let nonce_error = match error {
        Some(message) => is_nonce_error(message),
        None => false,
    };
    decide_retry(config, made, nonce_error)
}

/// Whether a row of steps is a run of attempts: each but the last is followed by
/// another, and each counts those before it.
pub open spec fn retry_run(
    config: RetryConfig,
    failures: Seq<bool>,
    steps: Seq<RetryStep>,
) -> bool {
    &&& failures.len() == steps.len()
    &&& forall|i: int|
        0 <= i < steps.len() ==> #[trigger] steps[i] == after_attempt(
            config,
            attempts_before(steps, i),
            failures[i],
        )
    &&& forall|i: int| 0 <= i < steps.len() - 1 ==> #[trigger] steps[i] is Retry
}

/// How many attempts were made before a step.
pub open spec fn attempts_before(steps: Seq<RetryStep>, i: int) -> u32 {
    if i <= 0 {
        0
    } else {
        match steps[i - 1] {
            RetryStep::Retry { attempts, .. } => attempts,
            RetryStep::Return => 0,
        }
    }
}

proof fn lemma_attempts_counted(
    config: RetryConfig,
    failures: Seq<bool>,
    steps: Seq<RetryStep>,
    i: int,
)
    requires
        retry_run(config, failures, steps),
        0 <= i < steps.len(),
    ensures
        attempts_before(steps, i) == i,
        i > 0 ==> i < config.max_retries && failures[i - 1],
    decreases i,
{
    if i > 0 {
        lemma_attempts_counted(config, failures, steps, i - 1);
        assert(steps[i - 1] is Retry);
        assert(steps[i - 1] == after_attempt(
            config,
            attempts_before(steps, i - 1),
            failures[i - 1],
        ));
    }
}

/// A transaction is tried at most as often as the limit says, and once in any
/// case; it is tried again only after a nonce error.
pub proof fn law_attempts_are_bounded(
    config: RetryConfig,
    failures: Seq<bool>,
    steps: Seq<RetryStep>,
)
    requires
        retry_run(config, failures, steps),
    ensures
        steps.len() <= 1 || steps.len() <= config.max_retries,
        forall|i: int| 0 <= i < steps.len() - 1 ==> #[trigger] failures[i],
{
    if steps.len() > 1 {
        lemma_attempts_counted(config, failures, steps, steps.len() - 1);
        assert forall|i: int| 0 <= i < steps.len() - 1 implies #[trigger] failures[i] by {
            lemma_attempts_counted(config, failures, steps, i + 1);
        }
    }
}

/// A text in lower case speaks of a wrong nonce exactly if one of five phrases stands
/// in it somewhere.
pub proof fn law_five_phrases_speak_of_nonces(lower: Seq<char>)
    ensures
        forall|at: int, phrase: Seq<char>|
            #![trigger stands_at(lower, phrase, at)]
            (phrase == "invalid nonce"@ || phrase == "nonce too low"@ || phrase
                == "nonce conflict"@ || phrase == "nonce too high"@ || phrase
                == "replacement transaction underpriced"@) && stands_at(lower, phrase, at)
                ==> speaks_of_nonce(lower),
        speaks_of_nonce(lower) ==> exists|at: int, phrase: Seq<char>|
            #![trigger stands_at(lower, phrase, at)]
            (phrase == "invalid nonce"@ || phrase == "nonce too low"@ || phrase
                == "nonce conflict"@ || phrase == "nonce too high"@ || phrase
                == "replacement transaction underpriced"@) && stands_at(lower, phrase, at),
{
}

/// An attempt is followed by another exactly if it failed for its nonce and attempts
/// are left: after the delay that is set, with one more attempt counted.
pub proof fn law_nonce_errors_are_tried_again(config: RetryConfig, made: u32, nonce_error: bool)
    requires
        made < config.max_retries || made == 0,
    ensures
        after_attempt(config, made, nonce_error) is Retry <==> nonce_error && made + 1
            < config.max_retries,
        after_attempt(config, made, nonce_error) matches RetryStep::Retry { attempts, delay_ms }
            ==> attempts == made + 1 && delay_ms == config.delay_ms,
{
}

/// A transaction that fails for its nonce every time is tried as often as the limit
/// says.
pub proof fn law_attempts_are_used_up(
    config: RetryConfig,
    failures: Seq<bool>,
    steps: Seq<RetryStep>,
)
    requires
        retry_run(config, failures, steps),
        steps.len() > 0,
        forall|i: int| 0 <= i < failures.len() ==> failures[i],
    ensures
        steps.last() is Return <==> steps.len() >= config.max_retries,
{
    lemma_attempts_counted(config, failures, steps, steps.len() - 1);
    assert(steps.last() == steps[steps.len() - 1]);
}

} // verus!
