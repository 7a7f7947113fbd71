//! Path names as character sequences.
//!
//! Every path the walker handles is a slash-separated string. This module
//! gives the specification-level vocabulary for such strings — the name of a
//! child entry, the file-name portion of a path, prefix/suffix tests, the
//! descendant relation — together with verified executable counterparts.

use vstd::prelude::*;

verus! {

/// The path of a directory entry: the parent's path, a separator, the
/// entry's own name.
pub open spec fn child_path(parent: Seq<char>, name: Seq<char>) -> Seq<char> {
    parent + seq!['/'] + name
}

/// The file-name portion of a path: the characters after the last
/// separator, or the whole path when it has none.
pub open spec fn file_name(s: Seq<char>) -> Seq<char>
    decreases s.len(),
{
    if s.len() == 0 {
        s
    } else if s.last() == '/' {
        Seq::empty()
    } else {
        file_name(s.drop_last()).push(s.last())
    }
}

/// `s` begins with `prefix`.
pub open spec fn starts_with(s: Seq<char>, prefix: Seq<char>) -> bool {
    prefix.len() <= s.len() && s.subrange(0, prefix.len() as int) == prefix
}

/// `s` ends with `suffix`.
pub open spec fn ends_with(s: Seq<char>, suffix: Seq<char>) -> bool {
    suffix.len() <= s.len() && s.subrange(s.len() - suffix.len(), s.len() as int) == suffix
}

/// `p` lies in the subtree rooted at `ancestor`: it is `ancestor` itself or
/// extends it past a separator.
pub open spec fn descends(ancestor: Seq<char>, p: Seq<char>) -> bool {
    p == ancestor || (p.len() > ancestor.len() && p.subrange(0, ancestor.len() as int)
        == ancestor && p[ancestor.len() as int] == '/')
}

/// The descendant relation is transitive.
pub proof fn lemma_descends_trans(a: Seq<char>, b: Seq<char>, p: Seq<char>)
    requires
        descends(a, b),
        descends(b, p),
    ensures
        descends(a, p),
{
    if a != b && b != p {
        assert(p.subrange(0, a.len() as int) =~= b.subrange(0, a.len() as int));
    }
}

/// A path under one child of a directory never lies under a differently
/// named sibling, provided entry names are nonempty and separator-free.
pub proof fn lemma_sibling_separation(
    parent: Seq<char>,
    name_a: Seq<char>,
    name_b: Seq<char>,
    p: Seq<char>,
)
    requires
        name_a != name_b,
        name_a.len() > 0,
        name_b.len() > 0,
        forall|i: int| 0 <= i < name_a.len() ==> name_a[i] != '/',
        forall|i: int| 0 <= i < name_b.len() ==> name_b[i] != '/',
        descends(child_path(parent, name_b), p),
    ensures
        !descends(child_path(parent, name_a), p),
{
    let ca = child_path(parent, name_a);
    let cb = child_path(parent, name_b);
    let la = ca.len() as int;
    let lb = cb.len() as int;
    if descends(ca, p) {
        if la == lb {
            assert(p.subrange(0, la) == ca && p.subrange(0, lb) == cb);
            assert(name_a =~= name_b) by {
                assert(forall|i: int|
                    0 <= i < name_a.len() ==> ca[parent.len() + 1 + i] == name_a[i]
                        && cb[parent.len() + 1 + i] == name_b[i]);
            }
        } else if la < lb {
            // `p` extends `ca` past a separator that falls inside `name_b`.
            assert(p.len() > la);
            assert(p[la] == '/');
            assert(p[la] == cb[la]);
            assert(cb[la] == name_b[la - parent.len() - 1]);
        } else {
            // `ca` extends `cb` past a separator that falls inside `name_a`.
            assert(p.len() >= la > lb);
            assert(p[lb] == '/');
            assert(ca[lb] == p[lb]) by {
                assert(p.subrange(0, la)[lb] == p[lb]);
            }
            assert(ca[lb] == name_a[lb - parent.len() - 1]);
        }
    }
}

/// When every character from position `i` on is a non-separator and position
/// `i` sits at the start or just after a separator, the file name is exactly
/// the suffix from `i`.
pub proof fn lemma_file_name_suffix(s: Seq<char>, i: int)
    requires
        0 <= i <= s.len(),
        forall|j: int| i <= j < s.len() ==> s[j] != '/',
        i == 0 || s[i - 1] == '/',
    ensures
        file_name(s) == s.subrange(i, s.len() as int),
    decreases s.len(),
{
    if s.len() == 0 {
        assert(file_name(s) =~= s.subrange(i, s.len() as int));
    } else if i == s.len() {
        assert(s.last() == '/');
        assert(file_name(s) =~= s.subrange(i, s.len() as int));
    } else {
        assert(s.last() != '/');
        let t = s.drop_last();
        lemma_file_name_suffix(t, i);
        assert(file_name(s) == file_name(t).push(s.last()));
        assert(file_name(t).push(s.last()) =~= s.subrange(i, s.len() as int));
    }
}

/// Joins a parent path and an entry name with a separator.
pub fn join_path(parent: &String, name: &String) -> (r: String)
    ensures
        r@ == child_path(parent@, name@),
{
    let mut r = parent.clone();
    r.append("/");
    r.append(name.as_str());
    proof {
        reveal_strlit("/");
        assert(r@ =~= child_path(parent@, name@));
    }
    r
}

/// The file-name portion of a path string.
pub fn str_file_name<'a>(s: &'a str) -> (r: &'a str)
    ensures
        r@ == file_name(s@),
{
    let n = s.unicode_len();
    let mut cut = n;
    while cut > 0 && s.get_char(cut - 1) != '/'
        invariant
            cut <= n,
            n == s@.len(),
            forall|j: int| cut <= j < n ==> s@[j] != '/',
        decreases cut,
    {
        cut = cut - 1;
    }
    proof {
        lemma_file_name_suffix(s@, cut as int);
    }
    s.substring_char(cut, n)
}

/// Whether `s` ends with `suffix`, character for character.
pub fn str_ends_with(s: &str, suffix: &str) -> (r: bool)
    ensures
        r == ends_with(s@, suffix@),
{
    let n = s.unicode_len();
    let k = suffix.unicode_len();
    if k > n {
        return false;
    }
    let mut j: usize = 0;
    while j < k
        invariant
            j <= k,
            k <= n,
            n == s@.len(),
            k == suffix@.len(),
            forall|t: int| 0 <= t < j ==> s@[n - k + t] == suffix@[t],
        decreases k - j,
    {
        if s.get_char(n - k + j) != suffix.get_char(j) {
            proof {
                assert(s@.subrange(n - k, n as int)[j as int] == s@[n - k + j]);
            }
            return false;
        }
        j = j + 1;
    }
    proof {
        assert(s@.subrange(n - k, n as int) =~= suffix@);
    }
    true
}

/// Whether `s` begins with `prefix`, character for character.
pub fn str_starts_with(s: &str, prefix: &str) -> (r: bool)
    ensures
        r == starts_with(s@, prefix@),
{
    let n = s.unicode_len();
    let k = prefix.unicode_len();
    if k > n {
        return false;
    }
    let mut j: usize = 0;
    while j < k
        invariant
            j <= k,
            k <= n,
            n == s@.len(),
            k == prefix@.len(),
            forall|t: int| 0 <= t < j ==> s@[t] == prefix@[t],
        decreases k - j,
    {
        if s.get_char(j) != prefix.get_char(j) {
            proof {
                assert(s@.subrange(0, k as int)[j as int] == s@[j as int]);
            }
            return false;
        }
        j = j + 1;
    }
    proof {
        assert(s@.subrange(0, k as int) =~= prefix@);
    }
    true
}

} // verus!
