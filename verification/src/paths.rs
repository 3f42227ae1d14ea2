//! Path strings read by character, with `/` as the component separator: the
//! POSIX convention of the hosts this gateway targets. A platform whose
//! structured paths use another separator would need these functions taught
//! it before the parent fallback and the containment comparison carry over.

use crate::errors::GuardError;
use vstd::prelude::*;
use vstd::string::StrSliceExecFns;

verus! {

/// Length of `s` once trailing separators are dropped (the whole length when
/// the last character is not a separator).
pub open spec fn strip_len(s: Seq<char>) -> int
    decreases s.len(),
{
    if s.len() > 0 && s.last() == '/' {
        strip_len(s.drop_last())
    } else {
        s.len() as int
    }
}

/// The position of the last occurrence of `c` in `s`, if any.
pub open spec fn rfind(s: Seq<char>, c: char) -> Option<int>
    decreases s.len(),
{
    if s.len() == 0 {
        Option::None
    } else if s.last() == c {
        Option::Some(s.len() - 1)
    } else {
        rfind(s.drop_last(), c)
    }
}

/// The final component of a path: what follows the last separator, once
/// trailing separators are dropped.
pub open spec fn file_name(s: Seq<char>) -> Seq<char> {
    let t = s.take(strip_len(s));
    match rfind(t, '/') {
        Option::None => t,
        Option::Some(i) => t.subrange(i + 1, t.len() as int),
    }
}

/// The extension of a path: what follows the last dot of its file name,
/// provided that dot is not the name's first character. `None` for a name
/// without a dot, for a leading-dot name with no further dot, and for the
/// bare `.` and `..` components; `Some` but empty for a name ending in a dot.
pub open spec fn ext_of(s: Seq<char>) -> Option<Seq<char>> {
    let name = file_name(s);
    if name.len() == 0 || name == seq!['.'] || name == seq!['.', '.'] {
        Option::None
    } else {
        match rfind(name, '.') {
            Option::None => Option::None,
            Option::Some(i) => if i == 0 {
                Option::None
            } else {
                Option::Some(name.subrange(i + 1, name.len() as int))
            },
        }
    }
}

/// ASCII lowercasing of one character; anything outside `A`..`Z` is kept.
pub open spec fn lower_char(c: char) -> char {
    if 'A' <= c && c <= 'Z' {
        (((c as u8) + 32) as u8) as char
    } else {
        c
    }
}

/// ASCII lowercasing of a character sequence.
pub open spec fn lower_seq(s: Seq<char>) -> Seq<char> {
    Seq::new(s.len(), |i: int| lower_char(s[i]))
}

/// The extension sets of the exposed operations: text operations admit
/// `json` and `xml`, the binary write admits `xlsx`, in any letter case.
pub enum ExtensionRule {
    Text,
    Binary,
}

/// Whether the rule admits the extension `e`, compared case-insensitively.
pub open spec fn ext_allowed(rule: ExtensionRule, e: Seq<char>) -> bool {
    match rule {
        ExtensionRule::Text => lower_seq(e) == "json"@ || lower_seq(e) == "xml"@,
        ExtensionRule::Binary => lower_seq(e) == "xlsx"@,
    }
}

/// Component-wise prefix: `p` lies under `root` when `root` is a nonempty
/// string prefix of `p` that ends on a component boundary — at the end of
/// `p`, just before a separator of `p`, or with the root's own trailing
/// separator.
pub open spec fn seg_prefix(root: Seq<char>, p: Seq<char>) -> bool {
    &&& root.len() > 0
    &&& p.len() >= root.len()
    &&& p.take(root.len() as int) == root
    &&& (p.len() == root.len() || p[root.len() as int] == '/' || root.last() == '/')
}

/// A sibling whose name merely extends an allowed root by further characters
/// (as `Downloads2` extends `Downloads`) is not under that root: a raw string
/// prefix does not count unless it ends on a component boundary.
pub proof fn lemma_no_sibling_prefix_match(root: Seq<char>, p: Seq<char>)
    requires
        p.len() > root.len(),
        p[root.len() as int] != '/',
        root.len() > 0 ==> root.last() != '/',
    ensures
        !seg_prefix(root, p),
{
}

/// Length of `path` in characters once trailing separators are dropped.
fn strip_len_exec(path: &str) -> (e: usize)
    ensures
        e == strip_len(path@),
{
    let n = path.unicode_len();
    let mut e: usize = 0;
    let mut i: usize = 0;
    while i < n
        invariant
            i <= n == path@.len(),
            e <= i,
            e == strip_len(path@.take(i as int)),
        decreases n - i,
    {
        let c = path.get_char(i);
        proof {
            assert(path@.take(i + 1).drop_last() =~= path@.take(i as int));
            assert(path@.take(i + 1).last() == path@[i as int]);
        }
        if c != '/' {
            e = i + 1;
        }
        i += 1;
    }
    proof {
        assert(path@.take(n as int) =~= path@);
    }
    e
}

/// The absolute position of the last occurrence of `c` within
/// `path[start..end)`, if any.
fn rfind_range(path: &str, c: char, start: usize, end: usize) -> (r: Option<usize>)
    requires
        start <= end <= path@.len(),
    ensures
        match r {
            Option::Some(a) => start <= a < end && rfind(path@.subrange(start as int, end as int), c)
                == Option::Some(a - start),
            Option::None => rfind(path@.subrange(start as int, end as int), c) is None,
        },
{
    let mut best: Option<usize> = None;
    let mut i: usize = start;
    while i < end
        invariant
            start <= i <= end <= path@.len(),
            match best {
                Option::Some(a) => start <= a < i && rfind(
                    path@.subrange(start as int, i as int),
                    c,
                ) == Option::Some(a - start),
                Option::None => rfind(path@.subrange(start as int, i as int), c) is None,
            },
        decreases end - i,
    {
        let ch = path.get_char(i);
        proof {
            assert(path@.subrange(start as int, i + 1).drop_last() =~= path@.subrange(
                start as int,
                i as int,
            ));
            assert(path@.subrange(start as int, i + 1).last() == path@[i as int]);
        }
        if ch == c {
            best = Some(i);
        }
        i += 1;
    }
    best
}

/// The parent of a path, mirroring [`parent_cut`]: the prefix up to the last
/// separator. `None` for the root and for the empty path; the empty string for
/// a single relative component.
pub fn parent_of(path: &str) -> (r: Option<&str>)
    ensures
        match parent_cut(path@) {
            Option::Some(cut) => r is Some && r.unwrap()@ == path@.take(cut),
            Option::None => r is None,
        },
{
    let e = strip_len_exec(path);
    proof {
        lemma_strip_len_bounds(path@);
        assert(path@.subrange(0, e as int) =~= path@.take(e as int));
    }
    if e == 0 {
        return None;
    }
    match rfind_range(path, '/', 0, e) {
        None => Some(path.substring_char(0, 0)),
        Some(i) => {
            let cut = if i == 0 {
                1
            } else {
                i
            };
            Some(path.substring_char(0, cut))
        },
    }
}

/// Where to cut a path to get its parent: at the last separator (after it
/// when it is the leading one), or at the start when there is none. `None`
/// when nothing remains once trailing separators are dropped.
pub open spec fn parent_cut(s: Seq<char>) -> Option<int> {
    let e = strip_len(s);
    if e == 0 {
        Option::None
    } else {
        match rfind(s.take(e), '/') {
            Option::None => Option::Some(0),
            Option::Some(i) => if i == 0 {
                Option::Some(1)
            } else {
                Option::Some(i)
            },
        }
    }
}

proof fn lemma_strip_len_bounds(s: Seq<char>)
    ensures
        0 <= strip_len(s) <= s.len(),
    decreases s.len(),
{
    if s.len() > 0 && s.last() == '/' {
        lemma_strip_len_bounds(s.drop_last());
    }
}

/// ASCII lowercasing of one character.
fn lower_char_exec(c: char) -> (r: char)
    ensures
        r == lower_char(c),
{
    if c >= 'A' && c <= 'Z' {
        ((c as u8) + 32) as char
    } else {
        c
    }
}

/// Whether `e`, lowered, is exactly `target` (itself already lowercase).
fn ext_is(e: &str, target: &str) -> (r: bool)
    ensures
        r == (lower_seq(e@) == target@),
{
    let el = e.unicode_len();
    let tl = target.unicode_len();
    if el != tl {
        proof {
            assert(lower_seq(e@).len() != target@.len());
        }
        return false;
    }
    let mut i: usize = 0;
    while i < el
        invariant
            i <= el == e@.len() == target@.len(),
            forall|j: int| 0 <= j < i ==> lower_char(e@[j]) == target@[j],
        decreases el - i,
    {
        let lc = lower_char_exec(e.get_char(i));
        if lc != target.get_char(i) {
            proof {
                assert(lower_seq(e@)[i as int] != target@[i as int]);
            }
            return false;
        }
        i += 1;
    }
    proof {
        assert(lower_seq(e@) =~= target@);
    }
    true
}

/// The extension of `path`, as [`ext_of`] reads it.
pub fn extension_of(path: &str) -> (r: Option<&str>)
    ensures
        match ext_of(path@) {
            Option::Some(e) => r is Some && r.unwrap()@ == e,
            Option::None => r is None,
        },
{
    let e = strip_len_exec(path);
    proof {
        lemma_strip_len_bounds(path@);
    }
    let ns: usize = match rfind_range(path, '/', 0, e) {
        None => 0,
        Some(i) => i + 1,
    };
    proof {
        assert(path@.subrange(0, e as int) =~= path@.take(e as int));
        assert(file_name(path@) =~= path@.subrange(ns as int, e as int));
    }
    let ghost name = file_name(path@);
    if ns == e {
        return None;
    }
    if e - ns == 1 && path.get_char(ns) == '.' {
        proof {
            assert(name =~= seq!['.']);
        }
        return None;
    }
    if e - ns == 2 && path.get_char(ns) == '.' && path.get_char(ns + 1) == '.' {
        proof {
            assert(name =~= seq!['.', '.']);
        }
        return None;
    }
    proof {
        assert(name != seq!['.'] && name != seq!['.', '.']) by {
            if name == seq!['.'] {
                assert(name.len() == 1 && name[0] == '.');
            }
            if name == seq!['.', '.'] {
                assert(name.len() == 2 && name[0] == '.' && name[1] == '.');
            }
        }
    }
    match rfind_range(path, '.', ns, e) {
        None => {
            proof {
                assert(rfind(name, '.') is None);
            }
            None
        },
        Some(d) => {
            proof {
                assert(path@.subrange(ns as int, e as int) == name);
            }
            if d == ns {
                None
            } else {
                let ext = path.substring_char(d + 1, e);
                proof {
                    assert(ext@ =~= name.subrange(d - ns + 1, name.len() as int));
                }
                Some(ext)
            }
        },
    }
}

/// The extension stage of the guard chain: `MissingExtension` for a path
/// without an extension, `DisallowedExtension` for one outside the rule's
/// set, compared case-insensitively.
pub fn check_extension(path: &str, rule: ExtensionRule) -> (r: Result<(), GuardError>)
    ensures
        match ext_of(path@) {
            Option::None => r == Err::<(), GuardError>(GuardError::MissingExtension),
            Option::Some(e) => if ext_allowed(rule, e) {
                r is Ok
            } else {
                r == Err::<(), GuardError>(GuardError::DisallowedExtension)
            },
        },
{
    match extension_of(path) {
        None => Err(GuardError::MissingExtension),
        Some(ext) => {
            let ok = match rule {
                ExtensionRule::Text => ext_is(ext, "json") || ext_is(ext, "xml"),
                ExtensionRule::Binary => ext_is(ext, "xlsx"),
            };
            if ok {
                Ok(())
            } else {
                Err(GuardError::DisallowedExtension)
            }
        },
    }
}

/// Whether `p` lies under `root` component-wise (see [`seg_prefix`]).
pub fn path_starts_with(p: &str, root: &str) -> (r: bool)
    ensures
        r == seg_prefix(root@, p@),
{
    let rl = root.unicode_len();
    let pl = p.unicode_len();
    if rl == 0 || pl < rl {
        return false;
    }
    let mut i: usize = 0;
    while i < rl
        invariant
            i <= rl == root@.len(),
            rl <= pl == p@.len(),
            rl > 0,
            forall|j: int| 0 <= j < i ==> p@[j] == root@[j],
        decreases rl - i,
    {
        if p.get_char(i) != root.get_char(i) {
            proof {
                assert(p@.take(rl as int)[i as int] != root@[i as int]);
            }
            return false;
        }
        i += 1;
    }
    proof {
        assert(p@.take(rl as int) =~= root@);
    }
    if pl == rl {
        return true;
    }
    if p.get_char(rl) == '/' {
        return true;
    }
    root.get_char(rl - 1) == '/'
}

} // verus!
