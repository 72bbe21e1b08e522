//! Checks that a requirement or issue file handed to a run lies inside the
//! exchange directory.

use vstd::prelude::*;
use crate::error::AppError;
use crate::path::{path_segments, segments};
use crate::text::{chars_of, concat3, owned, str_eq};

verus! {

/// A path that starts at the root.
pub open spec fn is_absolute(p: Seq<char>) -> bool {
    p.len() > 0 && p[0] == '/'
}

/// `Path::starts_with` on canonical paths: both start at the root or
/// neither does, and the components of `base` begin those of `p`.
pub open spec fn path_starts_with(p: Seq<char>, base: Seq<char>) -> bool {
    &&& is_absolute(p) == is_absolute(base)
    &&& segments(base).len() <= segments(p).len()
    &&& segments(p).subrange(0, segments(base).len() as int) == segments(base)
}

/// Whether one of the path's components is `name`.
pub open spec fn has_component(p: Seq<char>, name: Seq<char>) -> bool {
    segments(p).contains(name)
}

fn absolute(p: &str) -> (r: bool)
    ensures
        r == is_absolute(p@),
{
    let cs = chars_of(p);
    cs.len() > 0 && cs[0] == '/'
}

/// `Path::starts_with` on canonical paths, as `path_starts_with` states it.
pub fn starts_with_path(p: &str, base: &str) -> (r: bool)
    ensures
        r == path_starts_with(p@, base@),
{
    if absolute(p) != absolute(base) {
        return false;
    }
    let ps = path_segments(p);
    let bs = path_segments(base);
    if bs.len() > ps.len() {
        return false;
    }
    let mut k: usize = 0;
    while k < bs.len()
        invariant
            k <= bs.len() <= ps.len(),
            ps.len() == segments(p@).len(),
            bs.len() == segments(base@).len(),
            forall|j: int| 0 <= j < ps.len() ==> #[trigger] ps[j]@ == segments(p@)[j],
            forall|j: int| 0 <= j < bs.len() ==> #[trigger] bs[j]@ == segments(base@)[j],
            forall|j: int| 0 <= j < k ==> segments(p@)[j] == segments(base@)[j],
        decreases bs.len() - k,
    {
        if !str_eq(ps[k], bs[k]) {
            assert(segments(p@).subrange(0, segments(base@).len() as int)[k as int] != segments(
                base@,
            )[k as int]);
            return false;
        }
        k = k + 1;
    }
    assert(segments(p@).subrange(0, segments(base@).len() as int) =~= segments(base@));
    true
}

/// Whether one of the path's components is `name`.
pub fn path_has_component(p: &str, name: &str) -> (r: bool)
    ensures
        r == has_component(p@, name@),
{
    let ps = path_segments(p);
    let mut k: usize = 0;
    while k < ps.len()
        invariant
            k <= ps.len(),
            ps.len() == segments(p@).len(),
            forall|j: int| 0 <= j < ps.len() ==> #[trigger] ps[j]@ == segments(p@)[j],
            forall|j: int| 0 <= j < k ==> segments(p@)[j] != name@,
        decreases ps.len() - k,
    {
        if str_eq(ps[k], name) {
            assert(segments(p@)[k as int] == name@);
            return true;
        }
        k = k + 1;
    }
    false
}

/// A requirement file that passed the checks.
#[derive(Debug, Clone)]
pub struct RequirementPathInfo {
    pub requirement_path_str: String,
}

/// Check a requirement file for a run: it must exist (`exists`), and its
/// canonical path must lie within the canonical exchange directory and pass
/// through a `requirements` directory. `canonical_exchange_dir` is `None`
/// when the exchange directory could not be resolved.
pub fn validate_requirement_path(
    requirement_path: &str,
    exists: bool,
    canonical_path: &str,
    canonical_exchange_dir: Option<&str>,
) -> (r: Result<RequirementPathInfo, AppError>)
    ensures
        !exists ==> (r matches Err(AppError::RequirementFileNotFound(p)) && p@ == requirement_path@),
        exists && canonical_exchange_dir is None ==> r == Err::<RequirementPathInfo, AppError>(
            AppError::ExchangeDirectoryNotFound,
        ),
        exists ==> (canonical_exchange_dir matches Some(x) ==> {
            if path_starts_with(canonical_path@, x@) && has_component(
                canonical_path@,
                "requirements"@,
            ) {
                r matches Ok(info) && info.requirement_path_str@ == requirement_path@
            } else {
                r matches Err(e) && e is Validation
            }
        }),
{
    if !exists {
        return Err(AppError::RequirementFileNotFound(owned(requirement_path)));
    }
    let exchange = match canonical_exchange_dir {
        Some(x) => x,
        None => {
            return Err(AppError::ExchangeDirectoryNotFound);
        },
    };
    if !starts_with_path(canonical_path, exchange) || !path_has_component(
        canonical_path,
        "requirements",
    ) {
        return Err(
            AppError::Validation(
                concat3("Requirement file must be within ", exchange, "/requirements/"),
            ),
        );
    }
    Ok(RequirementPathInfo { requirement_path_str: owned(requirement_path) })
}

/// An issue file that passed the checks.
#[derive(Debug, Clone)]
pub struct IssuePathInfo {
    pub issue_path_str: String,
    pub canonical_path: String,
}

/// Check an issue file for a run, as `validate_requirement_path` does, with
/// an `issues` directory in place of `requirements`.
pub fn validate_issue_path(
    issue_path: &str,
    exists: bool,
    canonical_path: &str,
    canonical_exchange_dir: Option<&str>,
) -> (r: Result<IssuePathInfo, AppError>)
    ensures
        !exists ==> (r matches Err(AppError::IssueFileNotFound(p)) && p@ == issue_path@),
        exists && canonical_exchange_dir is None ==> r == Err::<IssuePathInfo, AppError>(
            AppError::ExchangeDirectoryNotFound,
        ),
        exists ==> (canonical_exchange_dir matches Some(x) ==> {
            if path_starts_with(canonical_path@, x@) && has_component(canonical_path@, "issues"@) {
                r matches Ok(info) && info.issue_path_str@ == issue_path@ && info.canonical_path@
                    == canonical_path@
            } else {
                r matches Err(e) && e is Validation
            }
        }),
{
    if !exists {
        return Err(AppError::IssueFileNotFound(owned(issue_path)));
    }
    let exchange = match canonical_exchange_dir {
        Some(x) => x,
        None => {
            return Err(AppError::ExchangeDirectoryNotFound);
        },
    };
    if !starts_with_path(canonical_path, exchange) || !path_has_component(canonical_path, "issues") {
        return Err(AppError::Validation(concat3("Issue file must be within ", exchange, "/*/issues/")));
    }
    Ok(IssuePathInfo { issue_path_str: owned(issue_path), canonical_path: owned(canonical_path) })
}

/// Lying within a directory is transitive: a path within `mid`, itself
/// within `base`, lies within `base`.
pub proof fn lemma_within_is_transitive(p: Seq<char>, mid: Seq<char>, base: Seq<char>)
    requires
        path_starts_with(p, mid),
        path_starts_with(mid, base),
    ensures
        path_starts_with(p, base),
{
    assert(segments(p).subrange(0, segments(base).len() as int) =~= segments(mid).subrange(
        0,
        segments(base).len() as int,
    ));
}

} // verus!
