//! Label sets as sorted vectors of unique names. The tracker treats a
//! label set as unordered, but submissions are sorted lexicographically
//! so that every call is reproducible.

use vstd::prelude::*;
use vstd::string::StrSliceExecFns;

use crate::text::views;

verus! {

/// Lexicographic order on character sequences, by code point.
pub open spec fn lex_le(a: Seq<char>, b: Seq<char>) -> bool
    decreases a.len(),
{
    if a.len() == 0 {
        true
    } else if b.len() == 0 {
        false
    } else if (a[0] as u32) < (b[0] as u32) {
        true
    } else if (a[0] as u32) > (b[0] as u32) {
        false
    } else {
        lex_le(a.skip(1), b.skip(1))
    }
}

/// The sequence is lexicographically sorted.
pub open spec fn lex_sorted(q: Seq<Seq<char>>) -> bool {
    forall|i: int, j: int|
        0 <= i < j < q.len() ==> lex_le(#[trigger] q[i], #[trigger] q[j])
}

/// Two characters with the same code point are the same character.
proof fn lemma_char_inj(c1: char, c2: char)
    requires
        c1 as u32 == c2 as u32,
    ensures
        c1 == c2,
{
    vstd::utf8::char_u32_cast(c1, c1 as u32);
    vstd::utf8::char_u32_cast(c2, c2 as u32);
}

pub proof fn lemma_lex_refl(a: Seq<char>)
    ensures
        lex_le(a, a),
    decreases a.len(),
{
    if a.len() > 0 {
        lemma_lex_refl(a.skip(1));
    }
}

pub proof fn lemma_lex_total(a: Seq<char>, b: Seq<char>)
    ensures
        lex_le(a, b) || lex_le(b, a),
    decreases a.len(),
{
    if a.len() > 0 && b.len() > 0 && (a[0] as u32) == (b[0] as u32) {
        lemma_lex_total(a.skip(1), b.skip(1));
    }
}

pub proof fn lemma_lex_antisym(a: Seq<char>, b: Seq<char>)
    requires
        lex_le(a, b),
        lex_le(b, a),
    ensures
        a == b,
    decreases a.len(),
{
    if a.len() == 0 {
        assert(b.len() == 0);
        assert(a =~= b);
    } else {
        assert(b.len() > 0);
        assert((a[0] as u32) == (b[0] as u32));
        lemma_char_inj(a[0], b[0]);
        lemma_lex_antisym(a.skip(1), b.skip(1));
        assert(a.skip(1).len() == a.len() - 1);
        assert(b.skip(1).len() == b.len() - 1);
        assert(a.len() == b.len());
        assert forall|i: int| 0 <= i < a.len() implies a[i] == b[i] by {
            if i > 0 {
                assert(a[i] == a.skip(1)[i - 1]);
                assert(b[i] == b.skip(1)[i - 1]);
            }
        }
        assert(a =~= b);
    }
}

pub proof fn lemma_lex_trans(a: Seq<char>, b: Seq<char>, c: Seq<char>)
    requires
        lex_le(a, b),
        lex_le(b, c),
    ensures
        lex_le(a, c),
    decreases a.len(),
{
    if a.len() > 0 && b.len() > 0 && c.len() > 0 && (a[0] as u32) == (b[0] as u32) && (b[0] as u32)
        == (c[0] as u32) {
        lemma_lex_trans(a.skip(1), b.skip(1), c.skip(1));
    }
}

/// Runtime lexicographic comparison, matching [`lex_le`].
pub fn lex_leq(a: &str, b: &str) -> (r: bool)
    ensures
        r == lex_le(a@, b@),
{
    let al: usize = a.unicode_len();
    let bl: usize = b.unicode_len();
    let mut i: usize = 0;
    proof {
        assert(a@.skip(0) =~= a@);
        assert(b@.skip(0) =~= b@);
    }
    while i < al && i < bl
        invariant
            0 <= i <= al,
            0 <= i <= bl,
            al == a@.len(),
            bl == b@.len(),
            lex_le(a@, b@) == lex_le(a@.skip(i as int), b@.skip(i as int)),
        decreases al - i,
    {
        let ca: char = a.get_char(i);
        let cb: char = b.get_char(i);
        proof {
            assert(a@.skip(i as int)[0] == a@[i as int]);
            assert(b@.skip(i as int)[0] == b@[i as int]);
        }
        if (ca as u32) < (cb as u32) {
            return true;
        }
        if (ca as u32) > (cb as u32) {
            return false;
        }
        proof {
            assert(ca == cb);
            assert(a@.skip(i as int).skip(1) =~= a@.skip(i as int + 1));
            assert(b@.skip(i as int).skip(1) =~= b@.skip(i as int + 1));
        }
        i = i + 1;
    }
    if i == al {
        proof {
            assert(a@.skip(al as int).len() == 0);
        }
        true
    } else {
        proof {
            assert(b@.skip(i as int).len() == 0);
            assert(a@.skip(i as int).len() > 0);
        }
        false
    }
}

/// A well-formed label vector: lexicographically sorted, no duplicates.
pub open spec fn label_vec_wf(v: Seq<String>) -> bool {
    &&& lex_sorted(views(v))
    &&& views(v).no_duplicates()
}

/// Whether some entry of `v` has the same characters as `name`.
pub fn contains_label(v: &Vec<String>, name: &String) -> (r: bool)
    ensures
        r == views(v@).contains(name@),
{
    let n: usize = v.len();
    let mut i: usize = 0;
    while i < n
        invariant
            0 <= i <= n,
            n == v@.len(),
            forall|j: int| 0 <= j < i ==> views(v@)[j] != name@,
        decreases n - i,
    {
        if v[i] == *name {
            proof {
                assert(views(v@)[i as int] == name@);
            }
            return true;
        }
        i = i + 1;
    }
    false
}

/// Inserts a name into a sorted unique label vector, keeping it sorted
/// and unique; a name already present is not duplicated.
pub fn insert_label(v: Vec<String>, x: String) -> (r: Vec<String>)
    requires
        label_vec_wf(v@),
    ensures
        label_vec_wf(r@),
        views(r@).to_set() == views(v@).to_set().insert(x@),
{
    let ghost w = views(v@);
    let n: usize = v.len();
    let mut pos: usize = 0;
    while pos < n && !lex_leq(x.as_str(), v[pos].as_str())
        invariant
            0 <= pos <= n,
            n == v@.len(),
            w == views(v@),
            forall|j: int| 0 <= j < pos ==> !lex_le(x@, #[trigger] w[j]),
        decreases n - pos,
    {
        pos = pos + 1;
    }
    proof {
        assert forall|j: int| 0 <= j < pos implies #[trigger] lex_le(w[j], x@) && w[j] != x@ by {
            lemma_lex_total(x@, w[j]);
            lemma_lex_refl(x@);
        }
    }
    if pos < n && v[pos] == x {
        proof {
            assert(w.contains(x@)) by {
                assert(w[pos as int] == x@);
            }
            assert(views(v@).to_set() =~= views(v@).to_set().insert(x@));
        }
        return v;
    }
    let ghost sv = v@;
    let ghost gx = x;
    let mut v = v;
    v.insert(pos, x);
    proof {
        let nw = views(v@);
        assert(v@ == sv.insert(pos as int, gx));
        assert(nw.len() == w.len() + 1);
        assert forall|j: int| 0 <= j < nw.len() implies nw[j] == (if j < pos {
            w[j]
        } else if j == pos {
            gx@
        } else {
            w[j - 1]
        }) by {
            assert(nw[j] == v@[j]@);
        }
        let ghost x = gx;
        // sortedness
        assert forall|i: int, j: int| 0 <= i < j < nw.len() implies lex_le(
            #[trigger] nw[i],
            #[trigger] nw[j],
        ) by {
            if i == pos && j > pos {
                lemma_lex_refl(w[pos as int]);
                lemma_lex_trans(x@, w[pos as int], w[j - 1]);
            } else if i < pos && j > pos {
                lemma_lex_refl(w[pos as int]);
                lemma_lex_trans(x@, w[pos as int], w[j - 1]);
                lemma_lex_trans(w[i], x@, w[j - 1]);
            }
        }
        // uniqueness: x differs from every old entry
        assert forall|j: int| 0 <= j < w.len() implies w[j] != x@ by {
            if j >= pos {
                if pos < n {
                    if w[j] == x@ {
                        lemma_lex_trans(x@, w[pos as int], w[j]);
                        lemma_lex_antisym(x@, w[pos as int]);
                    }
                } else {
                    assert(false);
                }
            }
        }
        assert(nw.no_duplicates());
        // set relation
        assert forall|y: Seq<char>| nw.contains(y) implies w.to_set().insert(x@).contains(y) by {
            let k = choose|k: int| 0 <= k < nw.len() && nw[k] == y;
            if k < pos {
                assert(w[k] == y);
            } else if k > pos {
                assert(w[k - 1] == y);
            }
        }
        assert forall|y: Seq<char>| w.to_set().insert(x@).contains(y) implies nw.contains(y) by {
            if y == x@ {
                assert(nw[pos as int] == y);
            } else {
                let k = choose|k: int| 0 <= k < w.len() && w[k] == y;
                if k < pos {
                    assert(nw[k] == y);
                } else {
                    assert(nw[k + 1] == y);
                }
            }
        }
        assert(nw.to_set() =~= w.to_set().insert(x@));
    }
    v
}

} // verus!
