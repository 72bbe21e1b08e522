//! Narrator commit-range selection: incremental from the `created_at`
//! cursor of the previous `changes.yml`, or a bootstrap window of recent
//! commits.

use vstd::prelude::*;
use crate::data::{get_text, parse_yaml, yaml_tree};
use crate::error::AppError;
use crate::text::{byte_prefix, byte_prefix_str, byte_slice_ok, concat, concat3, owned};

verus! {

/// Number of commits to use for bootstrap when no prior summary exists.
pub const BOOTSTRAP_COMMIT_COUNT: usize = 20;

/// Range selection context for Narrator.
#[derive(Debug, PartialEq)]
pub struct RangeContext {
    /// The from_commit (exclusive).
    pub from_commit: String,
    /// The to_commit (inclusive, HEAD).
    pub to_commit: String,
    /// Selection mode: "incremental" or "bootstrap".
    pub selection_mode: String,
    /// Selection detail (non-empty when bootstrapping).
    pub selection_detail: String,
    /// RFC3339 timestamp used as incremental cursor, if present.
    pub changes_since: Option<String>,
}

/// Whether `text` is accepted by `chrono::DateTime::parse_from_rfc3339`;
/// `None` when it is, else the parser's error message.
pub uninterp spec fn rfc3339_error(text: Seq<char>) -> Option<Seq<char>>;

/// `chrono::DateTime::parse_from_rfc3339`: the contract claims that the
/// result is `Ok` exactly when the parser accepts `text` (named
/// `rfc3339_error`), and carries the parser's message otherwise.
#[verifier::external_body]
fn check_rfc3339(text: &str) -> (r: Result<(), String>)
    ensures
        r is Ok <==> rfc3339_error(text@) is None,
        r matches Err(e) ==> rfc3339_error(text@) == Some(e@),
{
    chrono::DateTime::parse_from_rfc3339(text).map(|_| ()).map_err(|e| e.to_string())
}

/// The `created_at` cursor of a `changes.yml`: a non-empty RFC3339 string
/// at the top level of the document.
pub open spec fn created_at_of(content: Seq<char>) -> Option<Seq<char>> {
    match yaml_tree(content) {
        Ok(doc) => match get_text(doc, "created_at"@) {
            Some(c) => if c.len() > 0 && rfc3339_error(c) is None {
                Some(c)
            } else {
                None
            },
            None => None,
        },
        Err(_) => None,
    }
}

/// Extract and validate created_at from latest.yml content.
pub fn extract_created_at(content: &str) -> (r: Result<String, AppError>)
    ensures
        r matches Ok(c) ==> created_at_of(content@) == Some(c@),
        r is Err <==> created_at_of(content@) is None,
        match yaml_tree(content@) {
            Err(d) => r matches Err(AppError::ParseError { what, details }) && what@
                == ".jules/exchange/changes.yml"@ && details@ == d,
            Ok(doc) => match get_text(doc, "created_at"@) {
                Some(c) if c.len() > 0 => match rfc3339_error(c) {
                    None => r matches Ok(x) && x@ == c,
                    Some(err) => r matches Err(AppError::Validation(m)) && m@
                        == "changes.yml created_at must be RFC3339: "@ + c + " ("@ + err + ")"@,
                },
                _ => r matches Err(AppError::Validation(m)) && m@
                    == "changes.yml must contain non-empty created_at for incremental narrator runs"@,
            },
        },
{
    let data = match parse_yaml(content) {
        Ok(d) => d,
        Err(details) => {
            return Err(
                AppError::ParseError { what: owned(".jules/exchange/changes.yml"), details },
            );
        },
    };
    let created_at = match data.get_text("created_at") {
        Some(c) if c.unicode_len() > 0 => c,
        _ => {
            return Err(
                AppError::Validation(
                    owned(
                        "changes.yml must contain non-empty created_at for incremental narrator runs",
                    ),
                ),
            );
        },
    };
    match check_rfc3339(created_at) {
        Ok(()) => Ok(owned(created_at)),
        Err(err) => {
            let mut msg = concat("changes.yml created_at must be RFC3339: ", created_at);
            msg.append(" (");
            msg.append(err.as_str());
            msg.append(")");
            Err(AppError::Validation(msg))
        },
    }
}

/// The range of a bootstrap run from `from` to `head`.
pub open spec fn bootstrap_range(
    ctx: RangeContext,
    from: Seq<char>,
    head: Seq<char>,
    detail: Seq<char>,
    since: Option<Seq<char>>,
) -> bool {
    &&& ctx.from_commit@ == from
    &&& ctx.to_commit@ == head
    &&& ctx.selection_mode@ == "bootstrap"@
    &&& ctx.selection_detail@ == detail
    &&& crate::text::opt_string_view(ctx.changes_since) == since
}

/// What a bootstrap commit lookup that returned `out` makes of the range.
pub open spec fn after_bootstrap(
    r: Result<RangeContext, AppError>,
    out: Result<String, AppError>,
    head: Seq<char>,
    detail: Seq<char>,
    since: Option<Seq<char>>,
) -> bool {
    match out {
        Ok(b) => r matches Ok(ctx) && bootstrap_range(ctx, b@, head, detail, since),
        Err(e) => r == Err::<RangeContext, AppError>(e),
    }
}

pub open spec fn fallback_detail(cursor: Seq<char>) -> Seq<char> {
    "Fallback bootstrap: no commit found before previous created_at ("@ + cursor + ")"@
}

/// Determine the commit range strategy based on inputs.
///
/// Without a previous summary the last `BOOTSTRAP_COMMIT_COUNT` commits are
/// used. With one, its `created_at` cursor must be valid; the range then
/// starts at the last commit before the cursor, or falls back to bootstrap
/// when there is none.
pub fn determine_range_strategy<B, C>(
    head_sha: &str,
    latest_yml_content: Option<&str>,
    get_bootstrap_commit: B,
    get_commit_before_time: C,
) -> (r: Result<RangeContext, AppError>) where
    B: Fn(&str, usize) -> Result<String, AppError>,
    C: Fn(&str, &str) -> Result<Option<String>, AppError>,

    requires
        forall|a: &str, n: usize| call_requires(get_bootstrap_commit, (a, n)),
        forall|a: &str, b: &str| call_requires(get_commit_before_time, (a, b)),
    ensures
        latest_yml_content is None ==> exists|out: Result<String, AppError>|
            #[trigger] call_ensures(get_bootstrap_commit, (head_sha, BOOTSTRAP_COMMIT_COUNT), out)
                && after_bootstrap(
                r,
                out,
                head_sha@,
                "Last 20 commits with non-.jules/ changes"@,
                None,
            ),
        latest_yml_content matches Some(content) ==> match created_at_of(content@) {
            None => r is Err,
            Some(cursor) => exists|t: &str, before: Result<Option<String>, AppError>|
                t@ == cursor && #[trigger] call_ensures(
                    get_commit_before_time,
                    (head_sha, t),
                    before,
                ) && match before {
                    Err(e) => r == Err::<RangeContext, AppError>(e),
                    Ok(Some(base)) => r matches Ok(ctx) && ctx.from_commit@ == base@
                        && ctx.to_commit@ == head_sha@ && ctx.selection_mode@ == "incremental"@
                        && ctx.selection_detail@ == Seq::<char>::empty()
                        && crate::text::opt_string_view(ctx.changes_since) == Some(cursor),
                    Ok(None) => exists|out: Result<String, AppError>|
                        #[trigger] call_ensures(
                            get_bootstrap_commit,
                            (head_sha, BOOTSTRAP_COMMIT_COUNT),
                            out,
                        ) && after_bootstrap(
                            r,
                            out,
                            head_sha@,
                            fallback_detail(cursor),
                            Some(cursor),
                        ),
                },
        },
{
    if let Some(content) = latest_yml_content {
        let previous_created_at = extract_created_at(content)?;
        let before = get_commit_before_time(head_sha, previous_created_at.as_str());
        match before {
            Err(e) => {
                return Err(e);
            },
            Ok(Some(base_commit)) => {
                return Ok(
                    RangeContext {
                        from_commit: base_commit,
                        to_commit: owned(head_sha),
                        selection_mode: owned("incremental"),
                        selection_detail: String::new(),
                        changes_since: Some(previous_created_at),
                    },
                );
            },
            Ok(None) => {},
        }
        let out = get_bootstrap_commit(head_sha, BOOTSTRAP_COMMIT_COUNT);
        let bootstrap_from = match out {
            Ok(b) => b,
            Err(e) => {
                return Err(e);
            },
        };
        let detail = concat3(
            "Fallback bootstrap: no commit found before previous created_at (",
            previous_created_at.as_str(),
            ")",
        );
        return Ok(
            RangeContext {
                from_commit: bootstrap_from,
                to_commit: owned(head_sha),
                selection_mode: owned("bootstrap"),
                selection_detail: detail,
                changes_since: Some(previous_created_at),
            },
        );
    }
    let out = get_bootstrap_commit(head_sha, BOOTSTRAP_COMMIT_COUNT);
    let bootstrap_from = match out {
        Ok(b) => b,
        Err(e) => {
            return Err(e);
        },
    };
    Ok(
        RangeContext {
            from_commit: bootstrap_from,
            to_commit: owned(head_sha),
            selection_mode: owned("bootstrap"),
            selection_detail: owned("Last 20 commits with non-.jules/ changes"),
            changes_since: None,
        },
    )
}


/// The description of a commit range that the narrator prompt receives.
pub open spec fn range_description(
    mode: Seq<char>,
    detail: Seq<char>,
    since: Option<Seq<char>>,
    from: Seq<char>,
    to: Seq<char>,
) -> Seq<char> {
    let commits = " (commits "@ + byte_prefix(from, 7) + ".."@ + byte_prefix(to, 7) + ")."@;
    if mode == "incremental"@ {
        "Summarize changes since "@ + (match since {
            Some(s) => s,
            None => "unknown"@,
        }) + commits
    } else if mode == "bootstrap"@ {
        "First summary \u{2014} "@ + (if detail.len() == 0 {
            "recent commits"@
        } else {
            detail
        }) + commits
    } else {
        "Commits "@ + byte_prefix(from, 7) + ".."@ + byte_prefix(to, 7) + "."@
    }
}

/// Build a human-readable description of the commit range for the model.
pub fn build_range_description(range: &RangeContext) -> (r: String)
    requires
        byte_slice_ok(range.from_commit@, 7),
        byte_slice_ok(range.to_commit@, 7),
    ensures
        r@ == range_description(
            range.selection_mode@,
            range.selection_detail@,
            crate::text::opt_string_view(range.changes_since),
            range.from_commit@,
            range.to_commit@,
        ),
{
    let short_from = byte_prefix_str(range.from_commit.as_str(), 7);
    let short_to = byte_prefix_str(range.to_commit.as_str(), 7);
    let mut commits = concat(" (commits ", short_from);
    commits.append("..");
    commits.append(short_to);
    commits.append(").");
    if crate::text::str_eq(range.selection_mode.as_str(), "incremental") {
        let since = match &range.changes_since {
            Some(s) => s.as_str(),
            None => "unknown",
        };
        concat3("Summarize changes since ", since, commits.as_str())
    } else if crate::text::str_eq(range.selection_mode.as_str(), "bootstrap") {
        let detail = if range.selection_detail.as_str().unicode_len() == 0 {
            "recent commits"
        } else {
            range.selection_detail.as_str()
        };
        concat3("First summary \u{2014} ", detail, commits.as_str())
    } else {
        let mut s = concat("Commits ", short_from);
        s.append("..");
        s.append(short_to);
        s.append(".");
        s
    }
}

/// The prompt run mode for a selection mode: an incremental range
/// overwrites the previous summary.
pub fn narrator_run_mode(selection_mode: &str) -> (r: &str)
    ensures
        selection_mode@ == "incremental"@ ==> r@ == "overwrite"@,
        selection_mode@ != "incremental"@ ==> r@ == selection_mode@,
{
    if crate::text::str_eq(selection_mode, "incremental") {
        "overwrite"
    } else {
        selection_mode
    }
}

/// The commit that `git rev-list -1 --before=<cursor> <head>` printed, if
/// any: its output trimmed, `None` when empty.
pub fn commit_from_rev_list(output: &str) -> (r: Option<String>)
    ensures
        crate::text::opt_string_view(r) == (if crate::text::trim(output@).len() == 0 {
            None
        } else {
            Some(crate::text::trim(output@))
        }),
{
    let commit = crate::text::trim_str(output);
    if commit.unicode_len() == 0 {
        None
    } else {
        Some(owned(commit))
    }
}

} // verus!
