//! Narrator range as a fixed window of recent commits (the range used when
//! the narrator summarizes the latest `BOOTSTRAP_COMMIT_COUNT` commits).

use vstd::prelude::*;
use crate::error::AppError;
use crate::text::{byte_prefix, byte_prefix_str, byte_slice_ok, concat, owned};

verus! {

/// Number of commits to summarize for narrator.
pub const BOOTSTRAP_COMMIT_COUNT: usize = 20;

#[derive(Debug, PartialEq)]
pub struct RangeContext {
    pub from_commit: String,
    pub to_commit: String,
}

/// Range from the `BOOTSTRAP_COMMIT_COUNT`-th ancestor of `head_sha` to it.
pub fn determine_range_strategy<B>(head_sha: &str, get_bootstrap_commit: B) -> (r: Result<
    RangeContext,
    AppError,
>) where B: Fn(&str, usize) -> Result<String, AppError>
    requires
        forall|a: &str, n: usize| call_requires(get_bootstrap_commit, (a, n)),
    ensures
        exists|out: Result<String, AppError>|
            #[trigger] call_ensures(get_bootstrap_commit, (head_sha, BOOTSTRAP_COMMIT_COUNT), out)
                && match out {
                Ok(b) => r matches Ok(ctx) && ctx.from_commit@ == b@ && ctx.to_commit@ == head_sha@,
                Err(e) => r == Err::<RangeContext, AppError>(e),
            },
{
    let out = get_bootstrap_commit(head_sha, BOOTSTRAP_COMMIT_COUNT);
    match out {
        Ok(bootstrap_from) => Ok(RangeContext { from_commit: bootstrap_from, to_commit: owned(head_sha) }),
        Err(e) => Err(e),
    }
}

/// Range for a head: the `BOOTSTRAP_COMMIT_COUNT`-th ancestor when the
/// history is that long, else the first commit.
pub fn determine_range<N, F>(head_sha: &str, nth_ancestor: N, first_commit: F) -> (r: Result<
    RangeContext,
    AppError,
>) where N: Fn(&str, usize) -> Result<Option<String>, AppError>, F: Fn(&str) -> Result<String, AppError>
    requires
        forall|a: &str, n: usize| call_requires(nth_ancestor, (a, n)),
        forall|a: &str| call_requires(first_commit, (a,)),
    ensures
        exists|anc: Result<Option<String>, AppError>|
            #[trigger] call_ensures(nth_ancestor, (head_sha, BOOTSTRAP_COMMIT_COUNT), anc)
                && match anc {
                Err(e) => r == Err::<RangeContext, AppError>(e),
                Ok(Some(c)) => r matches Ok(ctx) && ctx.from_commit@ == c@ && ctx.to_commit@ == head_sha@,
                Ok(None) => exists|first: Result<String, AppError>|
                    #[trigger] call_ensures(first_commit, (head_sha,), first) && match first {
                        Ok(c) => r matches Ok(ctx) && ctx.from_commit@ == c@ && ctx.to_commit@ == head_sha@,
                        Err(e) => r == Err::<RangeContext, AppError>(e),
                    },
            },
{
    let anc = nth_ancestor(head_sha, BOOTSTRAP_COMMIT_COUNT);
    let from = match anc {
        Err(e) => {
            return Err(e);
        },
        Ok(Some(c)) => c,
        Ok(None) => {
            let first = first_commit(head_sha);
            match first {
                Ok(c) => c,
                Err(e) => {
                    return Err(e);
                },
            }
        },
    };
    Ok(RangeContext { from_commit: from, to_commit: owned(head_sha) })
}

pub open spec fn window_description(from: Seq<char>, to: Seq<char>) -> Seq<char> {
    "Summarize the most recent 20 commits with non-.jules/.jlo scope (commits "@ + byte_prefix(
        from,
        7,
    ) + ".."@ + byte_prefix(to, 7) + ")."@
}

/// Build the narrator's range description for the recent-commit window.
pub fn build_range_description(range: &RangeContext) -> (r: String)
    requires
        byte_slice_ok(range.from_commit@, 7),
        byte_slice_ok(range.to_commit@, 7),
    ensures
        r@ == window_description(range.from_commit@, range.to_commit@),
{
    let short_from = byte_prefix_str(range.from_commit.as_str(), 7);
    let short_to = byte_prefix_str(range.to_commit.as_str(), 7);
    let mut s = concat(
        "Summarize the most recent 20 commits with non-.jules/.jlo scope (commits ",
        short_from,
    );
    s.append("..");
    s.append(short_to);
    s.append(").");
    s
}

} // verus!
