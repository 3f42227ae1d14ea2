use crate::paths::{parent_cut, parent_of, path_starts_with, seg_prefix};
use vstd::prelude::*;

verus! {

/// Relies on dirs::download_dir: the platform's download directory, when the
/// platform defines one. Its result depends on the host's environment, so
/// nothing is promised of it. `None` also when the path is not Unicode.
#[verifier::external_body]
fn download_dir_string() -> (r: Option<String>) {
    dirs::download_dir().and_then(|p| p.to_str().map(|s| s.to_owned()))
}

/// Relies on dirs::document_dir: the platform's document directory, when the
/// platform defines one. Its result depends on the host's environment, so
/// nothing is promised of it. `None` also when the path is not Unicode.
#[verifier::external_body]
fn document_dir_string() -> (r: Option<String>) {
    dirs::document_dir().and_then(|p| p.to_str().map(|s| s.to_owned()))
}

/// Relies on dirs::desktop_dir: the platform's desktop directory, when the
/// platform defines one. Its result depends on the host's environment, so
/// nothing is promised of it. `None` also when the path is not Unicode.
#[verifier::external_body]
fn desktop_dir_string() -> (r: Option<String>) {
    dirs::desktop_dir().and_then(|p| p.to_str().map(|s| s.to_owned()))
}

/// Relies on std::path::Path::canonicalize: the canonical, absolute,
/// symlink-free form of an existing path, reflecting the filesystem at the
/// moment of the call, so nothing more than non-emptiness is promised of it.
/// `None` when canonicalization fails or the result is not Unicode.
#[verifier::external_body]
fn canonicalize_str(path: &str) -> (r: Option<String>)
    ensures
        r is Some ==> r.unwrap()@.len() > 0,
{
    match std::path::Path::new(path).canonicalize() {
        Ok(p) => match p.to_str() {
            Some(s) => Some(s.to_owned()),
            None => None,
        },
        Err(_) => None,
    }
}

/// The values of `opts` that are present, in their original order.
pub open spec fn present_in_order(opts: Seq<Option<String>>) -> Seq<String>
    decreases opts.len(),
{
    if opts.len() == 0 {
        Seq::empty()
    } else {
        let rest = present_in_order(opts.drop_last());
        match opts.last() {
            Option::Some(s) => rest.push(s),
            Option::None => rest,
        }
    }
}

/// Keeps exactly the present values of `opts`, in order: the assembly step
/// shared by the root listing and the containment check, pinned so that an
/// absent or dropped entry can never reappear in the result.
fn collect_present(opts: &Vec<Option<String>>) -> (r: Vec<String>)
    ensures
        r@ == present_in_order(opts@),
        r@.len() <= opts@.len(),
{
    let mut kept: Vec<String> = Vec::new();
    let mut i: usize = 0;
    while i < opts.len()
        invariant
            i <= opts@.len(),
            kept@ == present_in_order(opts@.take(i as int)),
            kept@.len() <= i,
        decreases opts@.len() - i,
    {
        proof {
            assert(opts@.take(i + 1).drop_last() =~= opts@.take(i as int));
            assert(opts@.take(i + 1).last() == opts@[i as int]);
        }
        match &opts[i] {
            Some(s) => kept.push(s.clone()),
            None => {},
        }
        i += 1;
    }
    proof {
        assert(opts@.take(opts@.len() as int) =~= opts@);
    }
    kept
}

/// A well-known-directory lookup confirmed against the filesystem: the value
/// is kept only when it canonicalizes right now (that is, when the directory
/// actually exists); an absent or unresolvable entry yields `None` and a kept
/// entry is handed back verbatim. Whether canonicalization succeeds depends
/// on the disk, so only those two sides are pinned.
fn confirm_exists(looked_up: Option<String>) -> (r: Option<String>)
    ensures
        looked_up is None ==> r is None,
        r is Some ==> looked_up is Some && r == looked_up,
{
    match looked_up {
        Some(dir) => {
            if canonicalize_str(dir.as_str()).is_some() {
                Some(dir)
            } else {
                None
            }
        },
        None => None,
    }
}

/// The allowed roots of this host, right now: of its download, document and
/// desktop directories, in that order, those that the platform defines and
/// that actually exist; absent ones are silently omitted. A pure lookup with
/// no guard chain: it never fails and reports at most three entries, each the
/// lookup's own value (see [`confirm_exists`] and [`collect_present`], which
/// pin how the list is assembled).
pub fn get_allowed_dirs() -> (r: Vec<String>)
    ensures
        r@.len() <= 3,
{
    let mut opts: Vec<Option<String>> = Vec::new();
    opts.push(confirm_exists(download_dir_string()));
    opts.push(confirm_exists(document_dir_string()));
    opts.push(confirm_exists(desktop_dir_string()));
    collect_present(&opts)
}

/// The containment fold over outside results: whether some canonical root is
/// a component-wise prefix (see [`seg_prefix`]) of the resolved candidate.
pub fn roots_match(resolved: &str, canon_roots: &Vec<String>) -> (r: bool)
    ensures
        r == exists|i: int|
            0 <= i < canon_roots@.len() && seg_prefix(canon_roots@[i]@, resolved@),
{
    let mut i: usize = 0;
    while i < canon_roots.len()
        invariant
            i <= canon_roots@.len(),
            forall|j: int| 0 <= j < i ==> !seg_prefix(canon_roots@[j]@, resolved@),
        decreases canon_roots@.len() - i,
    {
        if path_starts_with(resolved, canon_roots[i].as_str()) {
            proof {
                assert(seg_prefix(canon_roots@[i as int]@, resolved@));
            }
            return true;
        }
        i += 1;
    }
    false
}

/// The containment decision on outside results: a candidate is allowed iff
/// it resolved to a canonical form at all, and that form lies component-wise
/// under one of the canonical roots. An unresolvable candidate, and every
/// candidate when no root is usable, is refused.
pub fn is_allowed_resolved(resolved: &Option<String>, canon_roots: &Vec<String>) -> (r: bool)
    ensures
        r == (resolved is Some && exists|i: int|
            0 <= i < canon_roots@.len() && seg_prefix(canon_roots@[i]@, resolved.unwrap()@)),
{
    match resolved {
        Some(candidate) => roots_match(candidate.as_str(), canon_roots),
        None => false,
    }
}

/// The fallback half of the resolve choice: the canonical form of the
/// candidate's parent. A candidate with no parent resolves to nothing; for
/// the rest the outcome is the filesystem's.
fn canonicalize_parent(path: &str) -> (r: Option<String>)
    ensures
        parent_cut(path@) is None ==> r is None,
{
    match parent_of(path) {
        Some(parent) => canonicalize_str(parent),
        None => None,
    }
}

/// Whether `path` resolves inside one of `roots`. The candidate is
/// canonicalized — falling back to its parent when the target does not exist
/// yet, the deliberate accommodation for files about to be created — each
/// root is canonicalized, roots that fail to are dropped, and the decision is
/// [`is_allowed_resolved`] on those outcomes, which pins everything after the
/// filesystem has spoken. With no roots nothing is allowed.
pub fn is_allowed_under(path: &str, roots: &Vec<String>) -> (r: bool)
    ensures
        roots@.len() == 0 ==> r == false,
{
    let resolved: Option<String> = match canonicalize_str(path) {
        Some(c) => Some(c),
        None => canonicalize_parent(path),
    };
    let mut canon_opts: Vec<Option<String>> = Vec::new();
    let mut i: usize = 0;
    while i < roots.len()
        invariant
            i <= roots@.len(),
            canon_opts@.len() == i,
        decreases roots@.len() - i,
    {
        canon_opts.push(canonicalize_str(roots[i].as_str()));
        i += 1;
    }
    let canon_roots = collect_present(&canon_opts);
    is_allowed_resolved(&resolved, &canon_roots)
}

/// Whether `path` resolves inside one of the allowed roots as the platform
/// defines them at this moment. The roots are recomputed on every call; no
/// caching is assumed across calls. The decision on what the filesystem
/// returned is pinned in [`is_allowed_resolved`].
pub fn is_path_allowed(path: &str) -> (r: bool) {
    let roots = get_allowed_dirs();
    is_allowed_under(path, &roots)
}

} // verus!
