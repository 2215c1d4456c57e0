//! Paths: the configured root, object keys under it, and paths relative to it.
use vstd::prelude::*;
use crate::text::push_char;

verus! {

/// `s` with every run of `/` reduced to one and leading slashes dropped.
pub open spec fn collapse_slashes(s: Seq<char>) -> Seq<char>
    decreases s.len(),
{
    if s.len() == 0 {
        seq![]
    } else {
        let prev = collapse_slashes(s.drop_last());
        if s.last() != '/' {
            prev.push(s.last())
        } else if s.len() >= 2 && s[s.len() - 2] != '/' {
            prev.push('/')
        } else {
            prev
        }
    }
}

/// The canonical absolute form of a root: empty segments dropped, one `/` in
/// front and one at the end (so the empty root is `/`).
pub open spec fn normalized_root(s: Seq<char>) -> Seq<char> {
    if s.len() > 0 && s.last() != '/' {
        seq!['/'] + collapse_slashes(s) + seq!['/']
    } else {
        seq!['/'] + collapse_slashes(s)
    }
}

/// A root that begins and ends with `/`.
pub open spec fn valid_root(r: Seq<char>) -> bool {
    r.len() >= 1 && r[0] == '/' && r.last() == '/'
}

/// A path that an operation accepts: the root itself (`/`), or one relative to
/// the root, which does not begin with `/`.
pub open spec fn valid_path(p: Seq<char>) -> bool {
    p == seq!['/'] || p.len() == 0 || p[0] != '/'
}

/// Whether `p` ends with `/`, which names a directory.
pub open spec fn is_dir_path(p: Seq<char>) -> bool {
    p.len() > 0 && p.last() == '/'
}

/// The object key of `path` under `root`: the root without its leading `/`,
/// followed by the path (nothing for the root itself).
pub open spec fn abs_path(root: Seq<char>, path: Seq<char>) -> Seq<char> {
    if path == seq!['/'] {
        root.drop_first()
    } else {
        root.drop_first() + path
    }
}

/// The path relative to `root` of the object key `key`, when the key lies
/// under the root.
pub open spec fn rel_path(root: Seq<char>, key: Seq<char>) -> Option<Seq<char>> {
    let prefix = root.drop_first();
    if prefix.len() <= key.len() && key.subrange(0, prefix.len() as int) == prefix {
        Some(key.subrange(prefix.len() as int, key.len() as int))
    } else {
        None
    }
}

proof fn lemma_collapse_ends(s: Seq<char>)
    requires
        s.len() > 0,
        s.last() == '/',
    ensures
        collapse_slashes(s).len() == 0 || collapse_slashes(s).last() == '/',
    decreases s.len(),
{
    let t = s.drop_last();
    if s.len() >= 2 && s[s.len() - 2] == '/' {
        assert(t.last() == s[s.len() - 2]);
        lemma_collapse_ends(t);
    } else if s.len() == 1 {
        assert(collapse_slashes(t) == Seq::<char>::empty());
    }
}

/// Brings a root into its canonical absolute form.
pub fn normalize_root(s: &str) -> (r: String)
    ensures
        r@ == normalized_root(s@),
        valid_root(r@),
{
    let n = s.unicode_len();
    let mut out = String::new();
    push_char(&mut out, '/');
    let mut i: usize = 0;
    while i < n
        invariant
            i <= n,
            n == s@.len(),
            out@ == seq!['/'] + collapse_slashes(s@.subrange(0, i as int)),
        decreases n - i,
    {
        let c = s.get_char(i);
        let ghost p = s@.subrange(0, i + 1);
        proof {
            assert(p.drop_last() =~= s@.subrange(0, i as int));
            assert(p.last() == c);
        }
        if c != '/' {
            push_char(&mut out, c);
        } else if i >= 1 && s.get_char(i - 1) != '/' {
            proof {
                assert(p[p.len() - 2] == s@[i - 1]);
            }
            push_char(&mut out, '/');
        } else {
            proof {
                if i >= 1 {
                    assert(p[p.len() - 2] == s@[i - 1]);
                }
            }
        }
        proof {
            assert(out@ =~= seq!['/'] + collapse_slashes(p));
        }
        i = i + 1;
    }
    proof {
        assert(s@.subrange(0, n as int) =~= s@);
    }
    if n > 0 && s.get_char(n - 1) != '/' {
        push_char(&mut out, '/');
        proof {
            assert(out@ =~= seq!['/'] + collapse_slashes(s@) + seq!['/']);
        }
    } else {
        proof {
            if n > 0 {
                lemma_collapse_ends(s@);
            }
            assert(out@.last() == '/');
        }
    }
    out
}

/// Whether the path is exactly `/`.
pub fn is_root_path(path: &str) -> (r: bool)
    ensures
        r == (path@ == seq!['/']),
{
    let r = path.unicode_len() == 1 && path.get_char(0) == '/';
    proof {
        if path@.len() == 1 {
            if path@[0] == '/' {
                assert(path@ =~= seq!['/']);
            }
        }
    }
    r
}

/// Whether the path ends with `/`.
pub fn ends_with_slash(path: &str) -> (r: bool)
    ensures
        r == is_dir_path(path@),
{
    let n = path.unicode_len();
    n > 0 && path.get_char(n - 1) == '/'
}

/// Whether `s` begins with `p`.
pub fn starts_with(s: &str, p: &str) -> (r: bool)
    ensures
        r == (p@.len() <= s@.len() && s@.subrange(0, p@.len() as int) == p@),
{
    let n = s.unicode_len();
    let m = p.unicode_len();
    if m > n {
        return false;
    }
    let mut i: usize = 0;
    while i < m
        invariant
            i <= m <= n,
            n == s@.len(),
            m == p@.len(),
            forall|j: int| 0 <= j < i ==> s@[j] == p@[j],
        decreases m - i,
    {
        if s.get_char(i) != p.get_char(i) {
            proof {
                assert(s@.subrange(0, m as int)[i as int] != p@[i as int]);
            }
            return false;
        }
        i = i + 1;
    }
    proof {
        assert(s@.subrange(0, m as int) =~= p@);
    }
    true
}

/// Whether `a` and `b` are the same text.
pub fn same_text(a: &str, b: &str) -> (r: bool)
    ensures
        r == (a@ == b@),
{
    let r = a.unicode_len() == b.unicode_len() && starts_with(a, b);
    proof {
        if a@.len() == b@.len() {
            assert(a@.subrange(0, b@.len() as int) =~= a@);
        }
    }
    r
}

/// Whether `s` ends with `p`.
pub fn ends_with(s: &str, p: &str) -> (r: bool)
    ensures
        r == (p@.len() <= s@.len() && s@.subrange(s@.len() - p@.len(), s@.len() as int) == p@),
{
    let n = s.unicode_len();
    let m = p.unicode_len();
    if m > n {
        return false;
    }
    let d = n - m;
    let mut i: usize = 0;
    while i < m
        invariant
            i <= m <= n,
            d == n - m,
            n == s@.len(),
            m == p@.len(),
            forall|j: int| 0 <= j < i ==> s@[d + j] == p@[j],
        decreases m - i,
    {
        if s.get_char(d + i) != p.get_char(i) {
            proof {
                assert(s@.subrange(d as int, n as int)[i as int] != p@[i as int]);
            }
            return false;
        }
        i = i + 1;
    }
    proof {
        assert(s@.subrange(d as int, n as int) =~= p@);
    }
    true
}

/// The object key of `path` under `root`.
pub fn build_abs_path(root: &str, path: &str) -> (r: String)
    requires
        valid_root(root@),
        valid_path(path@),
    ensures
        r@ == abs_path(root@, path@),
{
    let n = root.unicode_len();
    let mut r = String::from_str(root.substring_char(1, n));
    proof {
        assert(r@ =~= root@.drop_first());
    }
    if !is_root_path(path) {
        r.append(path);
    }
    r
}

/// The path relative to `root` of the object key `key`, or `None` when the key
/// lies outside the root.
pub fn build_rel_path(root: &str, key: &str) -> (r: Option<String>)
    requires
        valid_root(root@),
    ensures
        r matches Some(v) ==> rel_path(root@, key@) == Some(v@),
        r is None ==> rel_path(root@, key@) is None,
{
    let n = root.unicode_len();
    let prefix = root.substring_char(1, n);
    proof {
        assert(prefix@ =~= root@.drop_first());
    }
    if starts_with(key, prefix) {
        let m = key.unicode_len();
        Some(String::from_str(key.substring_char(n - 1, m)))
    } else {
        None
    }
}

} // verus!
