//! The library-wide laws, each proved from what the modules state.

use vstd::prelude::*;

use crate::methods::{opt_pred, reorder_params, req_pred};
use crate::naming::{joined, reserved_type, type_ident, union_key, union_name};
use crate::schema::{all_resolved, build_spec, declared_names, is_alnum, is_type_name,
    model_decl, model_resolved, ref_names_resolvable, structurally_ok, tokens_resolved, MemberV,
    RawSpecV};
use crate::text::{cle, lemma_cle_total_ordering};
use crate::schema::{ApiSpecV, TypeV};
use crate::types::{all_type_keys, fcount, fkeys_from, keys_before, tcount, tkeys_before,
    tkeys_from, type_keys, types_output, ref_key};
use vstd::seq_lib::lemma_sorted_unique;

verus! {

/// Determinism: the generated blocks are pure functions of the input
/// specification (and, for the types block, of the starting registry
/// key set), so running the generator twice on the same input yields
/// byte-identical output for both blocks.  The generator functions'
/// contracts pin their results to exactly these functions.
pub proof fn lemma_determinism(r1: RawSpecV, r2: RawSpecV, seen: Set<Seq<Seq<char>>>)
    requires
        r1 == r2,
    ensures
        build_spec(r1) == build_spec(r2),
        types_output(build_spec(r1), seen) == types_output(build_spec(r2), seen),
        crate::methods::methods_output(build_spec(r1)) == crate::methods::methods_output(
            build_spec(r2),
        ),
{
}

/// Reference closure: in a specification that parses, every
/// reference and every union constituent of the built model resolves
/// to a scalar, the file-attachment pseudo-type, or a type declared
/// in the model itself — so everything the emitted fields and
/// parameters mention is present in the emitted type block.
pub proof fn lemma_reference_closure(raw: RawSpecV)
    requires
        structurally_ok(raw),
        all_resolved(raw),
    ensures
        model_resolved(build_spec(raw)),
{
    let s = build_spec(raw);
    assert(model_decl(s) =~= declared_names(raw));
    assert forall|i: int, j: int|
        0 <= i < s.types.len() && 0 <= j < s.types[i].fields.len() implies ref_names_resolvable(
        (#[trigger] s.types[i].fields[j]).ty,
        model_decl(s),
    ) by {
        assert(crate::schema::rawtype_resolved(raw.types[i], declared_names(raw)));
        assert(tokens_resolved(raw.types[i].fields[j].types, declared_names(raw)));
    }
    assert forall|i: int, j: int|
        0 <= i < s.methods.len() && 0 <= j < s.methods[i].params.len()
        implies ref_names_resolvable(
        (#[trigger] s.methods[i].params[j]).ty,
        model_decl(s),
    ) by {
        assert(crate::schema::rawmethod_resolved(raw.methods[i], declared_names(raw)));
        assert(tokens_resolved(raw.methods[i].params[j].types, declared_names(raw)));
    }
    assert forall|i: int| 0 <= i < s.methods.len() implies ref_names_resolvable(
        (#[trigger] s.methods[i]).returns,
        model_decl(s),
    ) by {
        assert(crate::schema::rawmethod_resolved(raw.methods[i], declared_names(raw)));
        assert(tokens_resolved(raw.methods[i].returns, declared_names(raw)));
    }
}

/// Union-name stability: two unions with the same multiset of
/// candidate type names — whatever their declaration order — get the
/// same normalized key, and therefore the identical synthesized
/// variant-type name.
pub proof fn lemma_union_name_stability(a: Seq<Seq<char>>, b: Seq<Seq<char>>)
    requires
        a.to_multiset() == b.to_multiset(),
    ensures
        union_key(a) == union_key(b),
        union_name(union_key(a)) == union_name(union_key(b)),
{
    lemma_cle_total_ordering();
    a.lemma_sort_by_ensures(cle());
    b.lemma_sort_by_ensures(cle());
    lemma_sorted_unique(a.sort_by(cle()), b.sort_by(cle()), cle());
    assert(union_key(a) =~= union_key(b));
}

/// Parameter ordering: in the emitted order, every required
/// parameter stands before every optional one, and each group keeps
/// the declared relative order — the required prefix is exactly the
/// declared sequence filtered to required parameters, and the
/// optional suffix exactly the rest.
pub proof fn lemma_parameter_ordering(ps: Seq<MemberV>)
    ensures
        reorder_params(ps) == ps.filter(req_pred()) + ps.filter(opt_pred()),
        forall|i: int|
            0 <= i < ps.filter(req_pred()).len() ==> (#[trigger] reorder_params(ps)[i]).required,
        forall|i: int|
            ps.filter(req_pred()).len() <= i < reorder_params(ps).len() ==> !(
            #[trigger] reorder_params(ps)[i]).required,
        forall|i: int, j: int|
            0 <= i < j < reorder_params(ps).len() && !reorder_params(ps)[i].required
                ==> !reorder_params(ps)[j].required,
{
    broadcast use vstd::seq_lib::group_filter_ensures;

    let a = ps.filter(req_pred());
    let b = ps.filter(opt_pred());
    assert forall|i: int| 0 <= i < a.len() implies (#[trigger] reorder_params(ps)[i]).required by {
        assert(reorder_params(ps)[i] == a[i]);
        assert(req_pred()(a[i]));
    }
    assert forall|i: int| a.len() <= i < reorder_params(ps).len() implies !(
    #[trigger] reorder_params(ps)[i]).required by {
        assert(reorder_params(ps)[i] == b[i - a.len()]);
        assert(opt_pred()(b[i - a.len()]));
    }
}

} // verus!

verus! {

proof fn lemma_keys_split(fs: Seq<MemberV>, j: int)
    requires
        0 <= j <= fs.len(),
    ensures
        keys_before(fs, fs.len() as int) == keys_before(fs, j).union(fkeys_from(fs, j)),
    decreases fs.len() - j,
{
    if j == fs.len() {
        assert(fkeys_from(fs, j) =~= Set::<Seq<Seq<char>>>::empty());
        assert(keys_before(fs, j).union(fkeys_from(fs, j)) =~= keys_before(fs, j));
    } else {
        lemma_keys_split(fs, j + 1);
        match ref_key(fs[j].ty) {
            Option::Some(k) => {
                assert(keys_before(fs, j + 1) =~= keys_before(fs, j).insert(k));
                assert(keys_before(fs, j + 1).union(fkeys_from(fs, j + 1)) =~= keys_before(
                    fs,
                    j,
                ).union(fkeys_from(fs, j + 1).insert(k)));
            },
            Option::None => {
                assert(keys_before(fs, j + 1) == keys_before(fs, j));
            },
        }
    }
}

proof fn lemma_tkeys_split(ts: Seq<TypeV>, i: int)
    requires
        0 <= i <= ts.len(),
    ensures
        tkeys_before(ts, ts.len() as int) == tkeys_before(ts, i).union(tkeys_from(ts, i)),
    decreases ts.len() - i,
{
    if i == ts.len() {
        assert(tkeys_from(ts, i) =~= Set::<Seq<Seq<char>>>::empty());
        assert(tkeys_before(ts, i).union(tkeys_from(ts, i)) =~= tkeys_before(ts, i));
    } else {
        lemma_tkeys_split(ts, i + 1);
        let fs = ts[i].fields;
        lemma_keys_split(fs, 0);
        assert(keys_before(fs, 0) =~= Set::<Seq<Seq<char>>>::empty());
        assert(type_keys(ts[i]) =~= fkeys_from(fs, 0));
        assert(tkeys_before(ts, i + 1) == tkeys_before(ts, i).union(type_keys(ts[i])));
        assert(tkeys_before(ts, i).union(type_keys(ts[i])).union(tkeys_from(ts, i + 1))
            =~= tkeys_before(ts, i).union(fkeys_from(fs, 0).union(tkeys_from(ts, i + 1))));
    }
}

proof fn lemma_fcount(fs: Seq<MemberV>, j: int, seen: Set<Seq<Seq<char>>>, k: Seq<Seq<char>>)
    ensures
        fcount(fs, j, seen, k) == if !seen.contains(k) && fkeys_from(fs, j).contains(k) {
            1nat
        } else {
            0nat
        },
    decreases fs.len() - j,
{
    if j < 0 || j >= fs.len() {
    } else {
        match ref_key(fs[j].ty) {
            Option::Some(k2) => {
                if seen.contains(k2) {
                    lemma_fcount(fs, j + 1, seen, k);
                } else {
                    lemma_fcount(fs, j + 1, seen.insert(k2), k);
                }
            },
            Option::None => {
                lemma_fcount(fs, j + 1, seen, k);
            },
        }
    }
}

proof fn lemma_tcount(ts: Seq<TypeV>, i: int, seen: Set<Seq<Seq<char>>>, k: Seq<Seq<char>>)
    ensures
        tcount(ts, i, seen, k) == if !seen.contains(k) && tkeys_from(ts, i).contains(k) {
            1nat
        } else {
            0nat
        },
    decreases ts.len() - i,
{
    if i < 0 || i >= ts.len() {
    } else {
        let fs = ts[i].fields;
        lemma_fcount(fs, 0, seen, k);
        lemma_keys_split(fs, 0);
        assert(keys_before(fs, 0) =~= Set::<Seq<Seq<char>>>::empty());
        assert(type_keys(ts[i]) =~= fkeys_from(fs, 0));
        lemma_tcount(ts, i + 1, seen.union(type_keys(ts[i])), k);
    }
}

/// Exactly one definition is emitted for a synthesized variant type:
/// the types block emits the sum type of key `k` once when some
/// union field introduces `k` and it was not already registered, and
/// never otherwise — so no key's definition is duplicated and no
/// registered key is re-emitted.
pub proof fn lemma_single_union_emission(s: ApiSpecV, seen: Set<Seq<Seq<char>>>, k: Seq<Seq<char>>)
    ensures
        tcount(s.types, 0, seen, k) == if !seen.contains(k) && all_type_keys(s).contains(k) {
            1nat
        } else {
            0nat
        },
{
    lemma_tcount(s.types, 0, seen, k);
    lemma_tkeys_split(s.types, 0);
    assert(tkeys_before(s.types, 0) =~= Set::<Seq<Seq<char>>>::empty());
    assert(all_type_keys(s) =~= tkeys_from(s.types, 0));
}

/// Synthesized names stay in their own namespace: the name derived
/// for a union of two or more constituents contains the `_`
/// delimiter, which no declared type identifier — alphanumeric by
/// validation, even after `Tg` escaping — can contain, so a
/// synthesized variant type can never collide with a declared type.
pub proof fn lemma_union_names_disjoint_from_types(key: Seq<Seq<char>>, n: Seq<char>)
    requires
        key.len() >= 2,
        is_type_name(n),
    ensures
        union_name(key) != type_ident(n),
{
    reveal_strlit("_");
    reveal_strlit("E");
    reveal_strlit("Tg");
    let u = union_name(key);
    let j = joined(key);
    let pos = 1 + key[0].len() as int;
    assert(j == key[0] + "_"@ + joined(key.drop_first()));
    assert(j[key[0].len() as int] == '_');
    assert(u == "E"@ + j);
    assert(u[pos] == '_');
    assert(!is_alnum('_')) by {
        assert('_' as u32 == 95);
    }
    let t = type_ident(n);
    assert forall|i: int| 0 <= i < t.len() implies is_alnum(#[trigger] t[i]) by {
        if reserved_type(n) {
            assert(t == "Tg"@ + n);
            if i == 0 {
                assert(t[i] == 'T');
            } else if i == 1 {
                assert(t[i] == 'g');
            } else {
                assert(t[i] == n[i - 2]);
            }
        } else {
            assert(t[i] == n[i]);
        }
    }
    if u == t {
        assert(0 <= pos < t.len());
        assert(is_alnum(t[pos]));
        assert(false);
    }
}

/// A name that cannot contain the join delimiter.
pub open spec fn delimiter_free(n: Seq<char>) -> bool {
    forall|i: int| 0 <= i < n.len() ==> n[i] != '_'
}

/// What every union key is made of: non-empty names free of the
/// delimiter (declared type names and scalars are alphanumeric).
pub open spec fn plain_names(ns: Seq<Seq<char>>) -> bool {
    forall|i: int| 0 <= i < ns.len() ==> (#[trigger] ns[i]).len() > 0 && delimiter_free(ns[i])
}

proof fn lemma_joined_injective(a: Seq<Seq<char>>, b: Seq<Seq<char>>)
    requires
        plain_names(a),
        plain_names(b),
        joined(a) == joined(b),
    ensures
        a == b,
    decreases a.len(),
{
    reveal_strlit("_");
    let ja = joined(a);
    let jb = joined(b);
    if a.len() == 0 {
        assert(ja.len() == 0);
        if b.len() == 1 {
            assert(jb == b[0]);
            assert(b[0].len() > 0);
            assert(false);
        } else if b.len() >= 2 {
            assert(jb == b[0] + "_"@ + joined(b.drop_first()));
            assert(jb.len() > 0);
            assert(false);
        }
        assert(a =~= b);
    } else if a.len() == 1 {
        assert(ja == a[0]);
        if b.len() == 0 {
            assert(jb.len() == 0);
            assert(a[0].len() > 0);
            assert(false);
        } else if b.len() == 1 {
            assert(a[0] == b[0]);
            assert(a =~= b);
        } else {
            assert(jb == b[0] + "_"@ + joined(b.drop_first()));
            assert(jb[b[0].len() as int] == '_');
            assert(0 <= b[0].len() < a[0].len() || a[0].len() <= b[0].len());
            assert(ja.len() == jb.len());
            assert(b[0].len() < a[0].len());
            assert(a[0][b[0].len() as int] == '_');
            assert(delimiter_free(a[0]));
            assert(false);
        }
    } else {
        let ra = joined(a.drop_first());
        assert(ja == a[0] + "_"@ + ra);
        assert(ja[a[0].len() as int] == '_');
        if b.len() == 0 {
            assert(jb.len() == 0);
            assert(false);
        } else if b.len() == 1 {
            assert(jb == b[0]);
            assert(b[0][a[0].len() as int] == '_');
            assert(delimiter_free(b[0]));
            assert(false);
        } else {
            let rb = joined(b.drop_first());
            assert(jb == b[0] + "_"@ + rb);
            assert(jb[b[0].len() as int] == '_');
            if a[0].len() < b[0].len() {
                assert(jb[a[0].len() as int] == b[0][a[0].len() as int]);
                assert(b[0][a[0].len() as int] == '_');
                assert(delimiter_free(b[0]));
                assert(false);
            }
            if b[0].len() < a[0].len() {
                assert(ja[b[0].len() as int] == a[0][b[0].len() as int]);
                assert(a[0][b[0].len() as int] == '_');
                assert(delimiter_free(a[0]));
                assert(false);
            }
            assert(a[0].len() == b[0].len());
            assert forall|i: int| 0 <= i < a[0].len() implies a[0][i] == b[0][i] by {
                assert(ja[i] == a[0][i]);
                assert(jb[i] == b[0][i]);
            }
            assert(a[0] =~= b[0]);
            assert(ra.len() == rb.len());
            assert forall|i: int| 0 <= i < ra.len() implies ra[i] == rb[i] by {
                assert(ja[a[0].len() + 1 + i] == ra[i]);
                assert(jb[b[0].len() + 1 + i] == rb[i]);
            }
            assert(ra =~= rb);
            assert(plain_names(a.drop_first())) by {
                assert forall|i: int|
                    0 <= i < a.drop_first().len() implies (#[trigger] a.drop_first()[i]).len() > 0
                    && delimiter_free(a.drop_first()[i]) by {
                    assert(a.drop_first()[i] == a[i + 1]);
                }
            }
            assert(plain_names(b.drop_first())) by {
                assert forall|i: int|
                    0 <= i < b.drop_first().len() implies (#[trigger] b.drop_first()[i]).len() > 0
                    && delimiter_free(b.drop_first()[i]) by {
                    assert(b.drop_first()[i] == b[i + 1]);
                }
            }
            lemma_joined_injective(a.drop_first(), b.drop_first());
            assert forall|i: int| 0 <= i < a.len() implies a[i] == b[i] by {
                if i > 0 {
                    assert(a[i] == a.drop_first()[i - 1]);
                    assert(b[i] == b.drop_first()[i - 1]);
                }
            }
            assert(a =~= b);
        }
    }
}

/// The synthesized-name derivation is strictly injective: two
/// different (normalized) keys never collide on the same name.  The
/// derivation is the fixed marker `E` followed by the sorted
/// constituent names joined with `_`, a delimiter that cannot occur
/// inside the purely alphanumeric constituent names.
pub proof fn lemma_union_name_injective(a: Seq<Seq<char>>, b: Seq<Seq<char>>)
    requires
        plain_names(a),
        plain_names(b),
        union_name(a) == union_name(b),
    ensures
        a == b,
{
    reveal_strlit("E");
    let ua = union_name(a);
    let ub = union_name(b);
    assert(ua == "E"@ + joined(a));
    assert(ub == "E"@ + joined(b));
    assert(joined(a).len() == joined(b).len());
    assert forall|i: int| 0 <= i < joined(a).len() implies joined(a)[i] == joined(b)[i] by {
        assert(ua[i + 1] == joined(a)[i]);
        assert(ub[i + 1] == joined(b)[i]);
    }
    assert(joined(a) =~= joined(b));
    lemma_joined_injective(a, b);
}

/// Closure of the emitted blocks: when method generation succeeds
/// against the keys that type generation registered, every union a
/// method's parameter or return type references has its synthesized
/// sum-type definition emitted in the types block — exactly once.
pub proof fn lemma_method_unions_are_emitted(s: ApiSpecV, k: Seq<Seq<char>>)
    requires
        crate::methods::all_method_unions_resolved(s, all_type_keys(s)),
        exists|i: int, j: int|
            0 <= i < s.methods.len() && 0 <= j < s.methods[i].params.len() && ref_key(
                #[trigger] s.methods[i].params[j].ty,
            ) == Option::Some(k),
    ensures
        tcount(s.types, 0, Set::empty(), k) == 1,
{
    let (i, j) = choose|i: int, j: int|
        0 <= i < s.methods.len() && 0 <= j < s.methods[i].params.len() && ref_key(
            #[trigger] s.methods[i].params[j].ty,
        ) == Option::Some(k);
    assert(crate::methods::method_unions_resolved(s.methods[i], all_type_keys(s)));
    assert(crate::methods::ref_resolved_in(s.methods[i].params[j].ty, all_type_keys(s)));
    assert(all_type_keys(s).contains(k));
    lemma_single_union_emission(s, Set::empty(), k);
}

} // verus!
