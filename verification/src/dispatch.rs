//! Classification of compiler invocations and the resulting decision.
//!
//! An invocation is a metadata-only check — and may be skipped — exactly
//! when some single argument token starts with `--emit=`, mentions
//! `metadata` after that prefix, and does not mention `link` anywhere in
//! the same token.  Everything else is a real compile and must be
//! delegated to the actual compiler executable.

use crate::search::has_substring;
use crate::search::lemma_occurrence_char;
use crate::search::occurs_at;
use crate::search::contains_str;
use crate::search::starts_with_str;
use vstd::prelude::*;

verus! {

/// A token requests a metadata-only check: it begins with `--emit=`,
/// contains `metadata` somewhere after that prefix, and does not contain
/// `link` anywhere.
pub open spec fn is_metadata_only_token(t: Seq<char>) -> bool {
    &&& "--emit="@.is_prefix_of(t)
    &&& exists|i: int| i >= "--emit="@.len() && occurs_at(t, "metadata"@, i)
    &&& !has_substring(t, "link"@)
}

/// An argument sequence is skippable when any single token of it requests
/// a metadata-only check.
pub open spec fn should_skip(args: Seq<String>) -> bool {
    exists|i: int| 0 <= i < args.len() && is_metadata_only_token(args[i]@)
}

/// In a token that starts with `--emit=`, an occurrence of `metadata`
/// anywhere is the same as an occurrence after the prefix: no occurrence
/// can begin inside the prefix itself.
pub proof fn lemma_metadata_is_after_prefix(t: Seq<char>)
    requires
        "--emit="@.is_prefix_of(t),
    ensures
        has_substring(t, "metadata"@) <==> (exists|i: int|
            i >= "--emit="@.len() && occurs_at(t, "metadata"@, i)),
{
    reveal_strlit("--emit=");
    reveal_strlit("metadata");
    if has_substring(t, "metadata"@) {
        let i = choose|i: int| occurs_at(t, "metadata"@, i);
        if i < 7 {
            assert forall|j: int| 0 <= j < 7 implies t[j] == "--emit="@[j] by {
                assert(t.subrange(0, 7)[j] == t[j]);
            }
            lemma_occurrence_char(t, "metadata"@, i, 0);
            lemma_occurrence_char(t, "metadata"@, i, 1);
            assert(t[i] == 'm' && t[i + 1] == 'e');
            assert(false);
        }
        assert(i >= "--emit="@.len() && occurs_at(t, "metadata"@, i));
    }
}

/// The decision for one invocation: answer it with a synthetic success
/// (`Skip`), or spawn the real compiler and relay its status (`Run`).
#[derive(Clone, Copy, Debug, PartialEq, Eq, Structural)]
pub enum Dispatch {
    Skip,
    Run,
}

/// Tests one argument token against the metadata-only classification rule.
pub fn token_is_metadata_only(t: &str) -> (b: bool)
    ensures
        b == is_metadata_only_token(t@),
{
    if !starts_with_str(t, "--emit=") {
        return false;
    }
    let mentions_metadata = contains_str(t, "metadata");
    let mentions_link = contains_str(t, "link");
    proof {
        lemma_metadata_is_after_prefix(t@);
    }
    mentions_metadata && !mentions_link
}

/// Classifies a whole argument sequence: `Skip` exactly when some token
/// requests a metadata-only check, `Run` otherwise.
pub fn classify(args: &Vec<String>) -> (d: Dispatch)
    ensures
        (d == Dispatch::Skip) <==> should_skip(args@),
{
    let n = args.len();
    let mut i: usize = 0;
    while i < n
        invariant
            n == args@.len(),
            i <= n,
            forall|k: int| 0 <= k < i ==> !is_metadata_only_token(#[trigger] args@[k]@),
        decreases n - i,
    {
        if token_is_metadata_only(args[i].as_str()) {
            proof {
                assert(is_metadata_only_token(args@[i as int]@));
            }
            return Dispatch::Skip;
        }
        i += 1;
    }
    proof {
        assert forall|k: int| 0 <= k < args@.len() implies !is_metadata_only_token(
            args@[k]@,
        ) by {}
    }
    Dispatch::Run
}

/// A token exactly equal to `--emit=metadata` requests a metadata-only
/// check.
pub proof fn lemma_exact_metadata_token_is_metadata_only(t: Seq<char>)
    requires
        t == "--emit=metadata"@,
    ensures
        is_metadata_only_token(t),
{
    reveal_strlit("--emit=metadata");
    reveal_strlit("--emit=");
    reveal_strlit("metadata");
    reveal_strlit("link");
    assert("--emit="@ =~= t.subrange(0, 7));
    assert(t.subrange(7, 15) =~= "metadata"@);
    assert(occurs_at(t, "metadata"@, 7));
    assert forall|i: int| !occurs_at(t, "link"@, i) by {
        if occurs_at(t, "link"@, i) {
            lemma_occurrence_char(t, "link"@, i, 0);
            assert(t[i] == 'l');
        }
    }
}

/// Any argument sequence containing a token exactly equal to
/// `--emit=metadata` is classified as skippable.
pub proof fn lemma_exact_metadata_token_skips(args: Seq<String>, i: int)
    requires
        0 <= i < args.len(),
        args[i]@ == "--emit=metadata"@,
    ensures
        should_skip(args),
{
    lemma_exact_metadata_token_is_metadata_only(args[i]@);
}

/// A token that mentions both `metadata` and `link` after the `--emit=`
/// prefix — such as `--emit=link-metadata` or `--emit=metadata,link` —
/// does not request a metadata-only check.
pub proof fn lemma_link_and_metadata_token_is_not_metadata_only(t: Seq<char>)
    requires
        t == "--emit=link-metadata"@ || t == "--emit=metadata,link"@,
    ensures
        !is_metadata_only_token(t),
{
    reveal_strlit("--emit=link-metadata");
    reveal_strlit("--emit=metadata,link");
    reveal_strlit("link");
    if t == "--emit=link-metadata"@ {
        assert(t.subrange(7, 11) =~= "link"@);
        assert(occurs_at(t, "link"@, 7));
    } else {
        assert(t.subrange(16, 20) =~= "link"@);
        assert(occurs_at(t, "link"@, 16));
    }
}

/// A token exactly equal to `--emit=link` does not request a metadata-only
/// check: it never mentions `metadata`.
pub proof fn lemma_link_only_token_is_not_metadata_only(t: Seq<char>)
    requires
        t == "--emit=link"@,
    ensures
        !is_metadata_only_token(t),
{
    reveal_strlit("--emit=link");
    reveal_strlit("metadata");
    assert forall|i: int| !occurs_at(t, "metadata"@, i) by {
        if occurs_at(t, "metadata"@, i) {
            lemma_occurrence_char(t, "metadata"@, i, 0);
            lemma_occurrence_char(t, "metadata"@, i, 1);
            assert(t[i] == 'm' && t[i + 1] == 'e');
        }
    }
    assert(!has_substring(t, "metadata"@));
}

/// An argument sequence none of whose tokens starts with `--emit=` is
/// never skippable, regardless of its other content.
pub proof fn lemma_no_emit_prefix_runs(args: Seq<String>)
    requires
        forall|i: int| 0 <= i < args.len() ==> !"--emit="@.is_prefix_of(#[trigger] args[i]@),
    ensures
        !should_skip(args),
{
    if should_skip(args) {
        let i = choose|i: int| 0 <= i < args.len() && is_metadata_only_token(args[i]@);
        assert(!"--emit="@.is_prefix_of(args[i]@));
    }
}

/// An argument sequence no token of which requests a metadata-only check
/// is classified as a real compile.
pub proof fn lemma_no_metadata_only_token_runs(args: Seq<String>)
    requires
        forall|i: int| 0 <= i < args.len() ==> !is_metadata_only_token(#[trigger] args[i]@),
    ensures
        !should_skip(args),
{
}

/// An argument sequence whose `--emit=`-prefixed tokens all request
/// linking — `--emit=link`, or a combined form that also mentions
/// `metadata` — is classified as a real compile.
pub proof fn lemma_link_requesting_tokens_run(args: Seq<String>)
    requires
        forall|i: int|
            0 <= i < args.len() ==> {
                ||| #[trigger] args[i]@ == "--emit=link"@
                ||| args[i]@ == "--emit=link-metadata"@
                ||| args[i]@ == "--emit=metadata,link"@
                ||| !"--emit="@.is_prefix_of(args[i]@)
            },
    ensures
        !should_skip(args),
{
    if should_skip(args) {
        let i = choose|i: int| 0 <= i < args.len() && is_metadata_only_token(args[i]@);
        if args[i]@ == "--emit=link"@ {
            lemma_link_only_token_is_not_metadata_only(args[i]@);
        } else if args[i]@ == "--emit=link-metadata"@ || args[i]@ == "--emit=metadata,link"@ {
            lemma_link_and_metadata_token_is_not_metadata_only(args[i]@);
        }
    }
}

/// Classification is order-independent: a single token that requests a
/// metadata-only check makes the sequence skippable from any position.
pub proof fn lemma_any_position_skips(args: Seq<String>, i: int)
    requires
        0 <= i < args.len(),
        is_metadata_only_token(args[i]@),
    ensures
        should_skip(args),
{
}

/// Classification is a function of the argument sequence alone: any two
/// decisions that satisfy the classification contract for the same
/// arguments are equal, so repeated calls always agree.
pub proof fn lemma_classification_deterministic(args: Seq<String>, d1: Dispatch, d2: Dispatch)
    requires
        (d1 == Dispatch::Skip) <==> should_skip(args),
        (d2 == Dispatch::Skip) <==> should_skip(args),
    ensures
        d1 == d2,
{
    match d1 {
        Dispatch::Skip => {
        },
        Dispatch::Run => {
            match d2 {
                Dispatch::Skip => {
                },
                Dispatch::Run => {
                },
            }
        },
    }
}

/// Exit status of a delegated process: `Some(code)` when the process
/// terminated normally with `code`, `None` when it was terminated without a
/// portable exit code (for example by a signal).
pub struct ExitCode(pub Option<i32>);

impl ExitCode {
    /// The synthesized "check succeeded" status returned for a skipped
    /// metadata-only invocation.
    pub fn synthetic_success() -> (e: ExitCode)
        ensures
            e.0 == Some(0i32),
    {
        ExitCode(Some(0))
    }
}

} // verus!

