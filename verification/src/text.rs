//! Character-sequence utilities shared by the whole generator:
//! executable string equality and lexicographic comparison with exact
//! specifications, and sorting of name lists (used to order-normalize
//! union keys).

use vstd::prelude::*;
use vstd::relations::{sorted_by, total_ordering};
use vstd::seq_lib::lemma_sorted_unique;

verus! {

/// View of a sequence of owned strings as a sequence of character
/// sequences.
pub open spec fn names_view(v: Seq<String>) -> Seq<Seq<char>> {
    v.map_values(|s: String| s@)
}

/// Lexicographic "less than or equal" on character sequences, with
/// characters ordered by their scalar values.
pub open spec fn chars_le(a: Seq<char>, b: Seq<char>) -> bool
    decreases a.len(),
{
    if a.len() == 0 {
        true
    } else if b.len() == 0 {
        false
    } else if a[0] != b[0] {
        (a[0] as u32) < (b[0] as u32)
    } else {
        chars_le(a.drop_first(), b.drop_first())
    }
}

/// The lexicographic order as a first-class relation, the form the
/// sequence-sorting lemmas expect.
pub open spec fn cle() -> spec_fn(Seq<char>, Seq<char>) -> bool {
    (|a: Seq<char>, b: Seq<char>| chars_le(a, b))
}

proof fn lemma_cle_refl(a: Seq<char>)
    ensures
        chars_le(a, a),
    decreases a.len(),
{
    if a.len() > 0 {
        lemma_cle_refl(a.drop_first());
    }
}

proof fn lemma_cle_antisym(a: Seq<char>, b: Seq<char>)
    requires
        chars_le(a, b),
        chars_le(b, a),
    ensures
        a == b,
    decreases a.len(),
{
    if a.len() == 0 {
        assert(b.len() == 0);
        assert(a =~= b);
    } else {
        assert(b.len() > 0);
        if a[0] != b[0] {
            assert(false);
        } else {
            let at = a.drop_first();
            let bt = b.drop_first();
            lemma_cle_antisym(at, bt);
            assert(at == bt);
            assert(at.len() == bt.len());
            assert(a.len() == at.len() + 1);
            assert(b.len() == bt.len() + 1);
            assert(a.len() == b.len());
            assert forall|i: int| 0 <= i < a.len() implies a[i] == b[i] by {
                if i > 0 {
                    assert(a[i] == at[i - 1]);
                    assert(b[i] == bt[i - 1]);
                }
            }
            assert(a =~= b);
        }
    }
}

proof fn lemma_cle_trans(a: Seq<char>, b: Seq<char>, c: Seq<char>)
    requires
        chars_le(a, b),
        chars_le(b, c),
    ensures
        chars_le(a, c),
    decreases a.len(),
{
    if a.len() == 0 {
    } else {
        assert(b.len() > 0);
        assert(c.len() > 0);
        if a[0] == b[0] && b[0] == c[0] {
            lemma_cle_trans(a.drop_first(), b.drop_first(), c.drop_first());
        }
    }
}

proof fn lemma_char_cast_distinct(c: char, d: char)
    requires
        c != d,
    ensures
        c as u32 != d as u32,
{
}

proof fn lemma_cle_connected(a: Seq<char>, b: Seq<char>)
    ensures
        chars_le(a, b) || chars_le(b, a),
    decreases a.len(),
{
    if a.len() == 0 {
        assert(chars_le(a, b));
    } else if b.len() == 0 {
        assert(chars_le(b, a));
    } else if a[0] == b[0] {
        lemma_cle_connected(a.drop_first(), b.drop_first());
    } else {
        let x = a[0];
        let y = b[0];
        assert(x != y);
        lemma_char_cast_distinct(x, y);
        assert(x as u32 != y as u32);
        assert(chars_le(a, b) || chars_le(b, a));
    }
}

/// The lexicographic order on character sequences is a total order,
/// so sorting by it yields one canonical arrangement of any name set.
pub proof fn lemma_cle_total_ordering()
    ensures
        total_ordering(cle()),
{
    assert forall|x: Seq<char>| #[trigger] cle()(x, x) by {
        lemma_cle_refl(x);
    }
    assert forall|x: Seq<char>, y: Seq<char>| #[trigger] cle()(x, y) && #[trigger] cle()(y, x)
        implies x == y by {
        lemma_cle_antisym(x, y);
    }
    assert forall|x: Seq<char>, y: Seq<char>, z: Seq<char>|
        #[trigger] cle()(x, y) && #[trigger] cle()(y, z) implies cle()(x, z) by {
        lemma_cle_trans(x, y, z);
    }
    assert forall|x: Seq<char>, y: Seq<char>| #[trigger] cle()(x, y) || #[trigger] cle()(y, x) by {
        lemma_cle_connected(x, y);
    }
}

/// Executable string equality, pinned to view equality.
pub fn str_eq(a: &str, b: &str) -> (r: bool)
    ensures
        r == (a@ == b@),
{
    let alen = a.unicode_len();
    let blen = b.unicode_len();
    if alen != blen {
        assert(a@ != b@) by {
            assert(a@.len() != b@.len());
        }
        return false;
    }
    let mut i: usize = 0;
    while i < alen
        invariant
            alen == a@.len(),
            blen == b@.len(),
            alen == blen,
            0 <= i <= alen,
            forall|j: int| 0 <= j < i ==> a@[j] == b@[j],
        decreases alen - i,
    {
        if a.get_char(i) != b.get_char(i) {
            return false;
        }
        i = i + 1;
    }
    assert(a@ =~= b@);
    true
}

/// Executable lexicographic comparison, pinned to `chars_le`.
pub fn str_le(a: &str, b: &str) -> (r: bool)
    ensures
        r == chars_le(a@, b@),
{
    let alen = a.unicode_len();
    let blen = b.unicode_len();
    let mut i: usize = 0;
    proof {
        assert(a@.skip(0) =~= a@);
        assert(b@.skip(0) =~= b@);
    }
    loop
        invariant
            alen == a@.len(),
            blen == b@.len(),
            0 <= i <= alen,
            i <= blen,
            chars_le(a@, b@) == chars_le(a@.skip(i as int), b@.skip(i as int)),
        decreases alen - i,
    {
        if i >= alen {
            assert(a@.skip(i as int).len() == 0);
            return true;
        }
        if i >= blen {
            assert(b@.skip(i as int).len() == 0);
            assert(a@.skip(i as int).len() > 0);
            return false;
        }
        let ca = a.get_char(i);
        let cb = b.get_char(i);
        if ca != cb {
            assert(a@.skip(i as int)[0] == ca);
            assert(b@.skip(i as int)[0] == cb);
            return (ca as u32) < (cb as u32);
        }
        proof {
            assert(a@.skip(i as int).drop_first() =~= a@.skip(i as int + 1));
            assert(b@.skip(i as int).drop_first() =~= b@.skip(i as int + 1));
            assert(a@.skip(i as int)[0] == b@.skip(i as int)[0]);
        }
        i = i + 1;
    }
}

/// Executable equality of two name lists, pinned to view equality.
pub fn names_eq(a: &Vec<String>, b: &Vec<String>) -> (r: bool)
    ensures
        r == (names_view(a@) == names_view(b@)),
{
    if a.len() != b.len() {
        assert(names_view(a@).len() != names_view(b@).len());
        return false;
    }
    let mut i: usize = 0;
    while i < a.len()
        invariant
            a@.len() == b@.len(),
            0 <= i <= a@.len(),
            forall|j: int| 0 <= j < i ==> names_view(a@)[j] == names_view(b@)[j],
        decreases a@.len() - i,
    {
        if !str_eq(a[i].as_str(), b[i].as_str()) {
            assert(names_view(a@)[i as int] != names_view(b@)[i as int]);
            return false;
        }
        i = i + 1;
    }
    assert(names_view(a@) =~= names_view(b@));
    true
}

/// Sorts a list of names into the canonical lexicographic order; the
/// result is exactly `sort_by` of the input under `cle`.
pub fn sort_names(v: &Vec<String>) -> (r: Vec<String>)
    ensures
        names_view(r@) == names_view(v@).sort_by(cle()),
{
    let mut r: Vec<String> = Vec::new();
    let mut idx: usize = 0;
    proof {
        lemma_cle_total_ordering();
        assert(names_view(r@) =~= Seq::<Seq<char>>::empty());
        assert(names_view(v@.subrange(0, 0)) =~= Seq::<Seq<char>>::empty());
    }
    while idx < v.len()
        invariant
            0 <= idx <= v@.len(),
            sorted_by(names_view(r@), cle()),
            names_view(r@).to_multiset() == names_view(v@.subrange(0, idx as int)).to_multiset(),
        decreases v@.len() - idx,
    {
        let ghost old_r = r@;
        let x = v[idx].clone();
        let mut j: usize = 0;
        while j < r.len() && str_le(r[j].as_str(), x.as_str())
            invariant
                0 <= j <= r@.len(),
                forall|k: int| 0 <= k < j ==> chars_le(names_view(r@)[k], x@),
            decreases r@.len() - j,
        {
            j = j + 1;
        }
        proof {
            lemma_cle_total_ordering();
            if j < r@.len() {
                assert(!chars_le(r@[j as int]@, x@));
                lemma_cle_connected(x@, r@[j as int]@);
                assert(cle()(x@, r@[j as int]@));
            }
        }
        r.insert(j, x);
        proof {
            broadcast use vstd::seq_lib::to_multiset_insert;
            broadcast use vstd::seq_lib::to_multiset_build;

            let nv = names_view(r@);
            let ov = names_view(old_r);
            assert(nv =~= ov.insert(j as int, x@));
            // sortedness of the extended arrangement
            assert forall|p: int, q: int| 0 <= p < q < nv.len() implies #[trigger] cle()(
                nv[p],
                nv[q],
            ) by {
                if q < j {
                    assert(cle()(ov[p], ov[q]));
                } else if p > j {
                    assert(cle()(ov[p - 1], ov[q - 1]));
                } else if q == j {
                    assert(chars_le(ov[p], x@));
                } else if p == j {
                    // x <= first kept element, then transitivity along the old order
                    assert(!chars_le(ov[j as int], x@));
                    assert(cle()(x@, ov[j as int]));
                    if q - 1 > j {
                        assert(cle()(ov[j as int], ov[q - 1]));
                        lemma_cle_trans(x@, ov[j as int], ov[q - 1]);
                    }
                } else {
                    // p < j < q
                    assert(chars_le(ov[p], x@));
                    if q - 1 == j {
                        assert(nv[q] == ov[j as int]);
                        assert(cle()(x@, ov[j as int]));
                        lemma_cle_trans(ov[p], x@, ov[j as int]);
                    } else {
                        assert(cle()(ov[p], ov[q - 1]));
                    }
                }
            }
            // multiset bookkeeping for the consumed prefix
            assert(names_view(v@.subrange(0, idx as int + 1)) =~= names_view(
                v@.subrange(0, idx as int),
            ).push(v@[idx as int]@));
            assert(nv.to_multiset() =~= ov.to_multiset().insert(x@));
        }
        idx = idx + 1;
    }
    proof {
        lemma_cle_total_ordering();
        assert(v@.subrange(0, v@.len() as int) =~= v@);
        names_view(v@).lemma_sort_by_ensures(cle());
        lemma_sorted_unique(names_view(r@), names_view(v@).sort_by(cle()), cle());
        assert(names_view(r@) =~= names_view(v@).sort_by(cle()));
    }
    r
}

} // verus!
