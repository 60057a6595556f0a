//! A path is kept as a plain `String`; `/` separates its components.
//! This module defines the spec-level vocabulary over such paths (depth,
//! strict ancestry, lexicographic order, base name) together with the
//! executable functions the rest of the crate uses.

use vstd::prelude::*;

verus! {

/// Number of `/` characters in `p`; for a canonical absolute path this
/// orders paths by component count.
pub open spec fn path_depth(p: Seq<char>) -> nat
    decreases p.len(),
{
    if p.len() == 0 {
        0
    } else {
        path_depth(p.drop_last()) + if p.last() == '/' {
            1nat
        } else {
            0nat
        }
    }
}

/// `anc` is a strict character prefix of `desc`.
pub open spec fn is_strict_prefix(anc: Seq<char>, desc: Seq<char>) -> bool {
    anc.len() < desc.len() && desc.subrange(0, anc.len() as int) == anc
}

/// `anc` names a directory strictly containing `desc`: it is a strict
/// prefix and the split falls on a component boundary. Equal paths are
/// never ancestors of one another.
pub open spec fn is_ancestor_path(anc: Seq<char>, desc: Seq<char>) -> bool {
    is_strict_prefix(anc, desc) && ((anc.len() > 0 && anc.last() == '/') || desc[anc.len() as int]
        == '/')
}

/// Strict lexicographic order on character sequences, by code point.
pub open spec fn lex_lt(a: Seq<char>, b: Seq<char>) -> bool
    decreases a.len() + b.len(),
{
    if b.len() == 0 {
        false
    } else if a.len() == 0 {
        true
    } else if a.first() == b.first() {
        lex_lt(a.drop_first(), b.drop_first())
    } else {
        (a.first() as u32) < (b.first() as u32)
    }
}

/// The base name: the maximal suffix of `p` free of `/`.
pub open spec fn base_name_of(p: Seq<char>) -> Seq<char>
    decreases p.len(),
{
    if p.len() == 0 {
        p
    } else if p.last() == '/' {
        Seq::empty()
    } else {
        base_name_of(p.drop_last()).push(p.last())
    }
}

/// Distinct characters have distinct code points.
proof fn lemma_char_code_injective(c1: char, c2: char)
    requires
        c1 as u32 == c2 as u32,
    ensures
        c1 == c2,
{
}

/// Exactly one of `lex_lt(a, b)`, `lex_lt(b, a)`, `a == b` holds.
pub proof fn lemma_lex_trichotomy(a: Seq<char>, b: Seq<char>)
    ensures
        lex_lt(a, b) || lex_lt(b, a) || a == b,
        lex_lt(a, b) ==> !lex_lt(b, a) && a != b,
        lex_lt(b, a) ==> !lex_lt(a, b) && a != b,
    decreases a.len() + b.len(),
{
    if a.len() == 0 && b.len() == 0 {
        assert(a =~= b);
    } else if a.len() != 0 && b.len() != 0 {
        if a.first() == b.first() {
            lemma_lex_trichotomy(a.drop_first(), b.drop_first());
            if a.drop_first() == b.drop_first() {
                assert forall|i: int| 0 <= i < a.len() implies a[i] == b[i] by {
                    if i > 0 {
                        assert(a[i] == a.drop_first()[i - 1]);
                        assert(b[i] == b.drop_first()[i - 1]);
                    }
                }
                assert(a =~= b);
            }
            if a == b {
                assert(a.drop_first() =~= b.drop_first());
            }
        } else {
            if a.first() as u32 == b.first() as u32 {
                lemma_char_code_injective(a.first(), b.first());
            }
        }
    }
}

/// Lexicographic order is transitive.
pub proof fn lemma_lex_transitive(a: Seq<char>, b: Seq<char>, c: Seq<char>)
    requires
        lex_lt(a, b),
        lex_lt(b, c),
    ensures
        lex_lt(a, c),
    decreases a.len() + b.len() + c.len(),
{
    if b.len() == 0 {
        // lex_lt(a, b) impossible
    } else if a.len() == 0 {
        // c.len() > 0 since lex_lt(b, c) and b nonempty
    } else {
        if a.first() == b.first() && b.first() == c.first() {
            lemma_lex_transitive(a.drop_first(), b.drop_first(), c.drop_first());
        }
    }
}

/// Depth is additive over concatenation.
pub proof fn lemma_depth_concat(s: Seq<char>, t: Seq<char>)
    ensures
        path_depth(s + t) == path_depth(s) + path_depth(t),
    decreases t.len(),
{
    if t.len() == 0 {
        assert(s + t =~= s);
    } else {
        assert((s + t).drop_last() =~= s + t.drop_last());
        assert((s + t).last() == t.last());
        lemma_depth_concat(s, t.drop_last());
    }
}

/// A strict prefix comes strictly first in lexicographic order.
pub proof fn lemma_strict_prefix_lex_lt(a: Seq<char>, b: Seq<char>)
    requires
        is_strict_prefix(a, b),
    ensures
        lex_lt(a, b),
    decreases a.len(),
{
    if a.len() > 0 {
        assert(a[0] == b.subrange(0, a.len() as int)[0]);
        assert(is_strict_prefix(a.drop_first(), b.drop_first())) by {
            assert forall|k: int| 0 <= k < a.len() - 1 implies b.drop_first().subrange(
                0,
                a.len() - 1,
            )[k] == a.drop_first()[k] by {
                assert(a[k + 1] == b.subrange(0, a.len() as int)[k + 1]);
            }
            assert(b.drop_first().subrange(0, a.len() - 1) =~= a.drop_first());
        }
        lemma_strict_prefix_lex_lt(a.drop_first(), b.drop_first());
    }
}

/// An ancestor is strictly shallower, or of equal depth and strictly
/// first in lexicographic order.
pub proof fn lemma_ancestor_ordering(a: Seq<char>, b: Seq<char>)
    requires
        is_ancestor_path(a, b),
    ensures
        path_depth(a) < path_depth(b) || (path_depth(a) == path_depth(b) && lex_lt(a, b)),
{
    lemma_strict_prefix_lex_lt(a, b);
    let rest = b.subrange(a.len() as int, b.len() as int);
    assert(b =~= b.subrange(0, a.len() as int) + rest);
    lemma_depth_concat(a, rest);
}

/// Number of `/` characters in `p`.
pub fn count_depth(p: &str) -> (r: usize)
    ensures
        r == path_depth(p@),
{
    let len = p.unicode_len();
    let mut i: usize = 0;
    let mut count: usize = 0;
    assert(p@.subrange(0, 0) =~= Seq::<char>::empty());
    while i < len
        invariant
            i <= len,
            len == p@.len(),
            count <= i,
            count == path_depth(p@.subrange(0, i as int)),
        decreases len - i,
    {
        let c = p.get_char(i);
        proof {
            let pre = p@.subrange(0, i as int);
            let post = p@.subrange(0, i + 1int);
            assert(post.drop_last() =~= pre);
            assert(post.last() == p@[i as int]);
        }
        if c == '/' {
            count += 1;
        }
        i += 1;
    }
    proof {
        assert(p@.subrange(0, len as int) =~= p@);
    }
    count
}

/// Does the directory at `ancestor` strictly contain `descendant`?
///
/// Equal paths are not related; `/a/b` contains `/a/b/c` but not `/a/bc`.
pub fn is_ancestor(ancestor: &str, descendant: &str) -> (r: bool)
    ensures
        r == is_ancestor_path(ancestor@, descendant@),
{
    let alen = ancestor.unicode_len();
    let dlen = descendant.unicode_len();
    if alen >= dlen {
        return false;
    }
    let mut i: usize = 0;
    while i < alen
        invariant
            i <= alen,
            alen == ancestor@.len(),
            dlen == descendant@.len(),
            alen < dlen,
            forall|j: int| 0 <= j < i ==> ancestor@[j] == descendant@[j],
        decreases alen - i,
    {
        if ancestor.get_char(i) != descendant.get_char(i) {
            proof {
                if descendant@.subrange(0, alen as int) == ancestor@ {
                    assert(descendant@.subrange(0, alen as int)[i as int] == descendant@[i as int]);
                }
            }
            return false;
        }
        i += 1;
    }
    proof {
        assert(descendant@.subrange(0, alen as int) =~= ancestor@);
    }
    if alen > 0 && ancestor.get_char(alen - 1) == '/' {
        return true;
    }
    descendant.get_char(alen) == '/'
}

/// Is `a` lexicographically (strictly) before `b`, by code point?
pub fn str_lex_lt(a: &str, b: &str) -> (r: bool)
    ensures
        r == lex_lt(a@, b@),
{
    let alen = a.unicode_len();
    let blen = b.unicode_len();
    let mut i: usize = 0;
    proof {
        assert(a@.skip(0) =~= a@);
        assert(b@.skip(0) =~= b@);
    }
    loop
        invariant
            i <= alen,
            i <= blen,
            alen == a@.len(),
            blen == b@.len(),
            lex_lt(a@, b@) == lex_lt(a@.skip(i as int), b@.skip(i as int)),
        decreases alen - i,
    {
        if i >= blen {
            proof {
                assert(b@.skip(i as int) =~= Seq::<char>::empty());
            }
            return false;
        }
        if i >= alen {
            proof {
                assert(a@.skip(i as int) =~= Seq::<char>::empty());
            }
            return true;
        }
        let ca = a.get_char(i);
        let cb = b.get_char(i);
        if ca != cb {
            proof {
                assert(a@.skip(i as int).first() == a@[i as int]);
                assert(b@.skip(i as int).first() == b@[i as int]);
            }
            return (ca as u32) < (cb as u32);
        }
        proof {
            assert(a@.skip(i as int).drop_first() =~= a@.skip(i + 1int));
            assert(b@.skip(i as int).drop_first() =~= b@.skip(i + 1int));
            assert(a@.skip(i as int).first() == a@[i as int]);
            assert(b@.skip(i as int).first() == b@[i as int]);
        }
        i += 1;
    }
}

/// Character-for-character string equality.
pub fn str_eq(a: &str, b: &str) -> (r: bool)
    ensures
        r == (a@ == b@),
{
    let alen = a.unicode_len();
    let blen = b.unicode_len();
    if alen != blen {
        proof {
            if a@ == b@ {
                assert(a@.len() == b@.len());
            }
        }
        return false;
    }
    let mut i: usize = 0;
    while i < alen
        invariant
            i <= alen,
            alen == a@.len(),
            alen == b@.len(),
            forall|j: int| 0 <= j < i ==> a@[j] == b@[j],
        decreases alen - i,
    {
        if a.get_char(i) != b.get_char(i) {
            proof {
                if a@ == b@ {
                    assert(a@[i as int] == b@[i as int]);
                }
            }
            return false;
        }
        i += 1;
    }
    proof {
        assert(a@ =~= b@);
    }
    true
}

/// Does `s` hold the character `c`?
pub fn str_contains_char(s: &str, c: char) -> (r: bool)
    ensures
        r == s@.contains(c),
{
    let len = s.unicode_len();
    let mut i: usize = 0;
    while i < len
        invariant
            i <= len,
            len == s@.len(),
            forall|j: int| 0 <= j < i ==> s@[j] != c,
        decreases len - i,
    {
        if s.get_char(i) == c {
            proof {
                assert(s@[i as int] == c);
            }
            return true;
        }
        i += 1;
    }
    false
}

/// The base name of `p`: everything after the last `/`, or all of `p`
/// when it holds no separator.
pub fn base_name(p: &str) -> (r: String)
    ensures
        r@ == base_name_of(p@),
{
    let len = p.unicode_len();
    let mut j: usize = len;
    while j > 0 && p.get_char(j - 1) != '/'
        invariant
            j <= len,
            len == p@.len(),
            forall|k: int| j <= k < len ==> p@[k] != '/',
        decreases j,
    {
        j -= 1;
    }
    proof {
        lemma_base_name_suffix(p@, j as int);
    }
    let r = p.substring_char(j, len);
    r.to_owned()
}

/// When positions `j..` of `p` are separator-free and position `j - 1`
/// (if any) holds a separator, the base name is the suffix from `j`.
proof fn lemma_base_name_suffix(p: Seq<char>, j: int)
    requires
        0 <= j <= p.len(),
        forall|k: int| j <= k < p.len() ==> p[k] != '/',
        j > 0 ==> p[j - 1] == '/',
    ensures
        base_name_of(p) == p.subrange(j, p.len() as int),
    decreases p.len(),
{
    if p.len() == 0 {
        assert(p.subrange(0, 0) =~= p);
    } else if j == p.len() {
        assert(p.last() == '/');
        assert(p.subrange(j, p.len() as int) =~= Seq::<char>::empty());
    } else {
        assert(p.last() != '/');
        let q = p.drop_last();
        lemma_base_name_suffix(q, j);
        assert(q.subrange(j, q.len() as int).push(p.last()) =~= p.subrange(j, p.len() as int));
    }
}

} // verus!
