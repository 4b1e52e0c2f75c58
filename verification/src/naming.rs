//! Pure, deterministic translation of spec-level names into
//! target-identifier-safe names, and derivation of the stable
//! synthetic name of a union variant type.
//!
//! A union's key is the order-normalized (sorted) list of its
//! constituent type names; the synthesized name is the fixed marker
//! `E` followed by the constituents joined with `_`.  Since declared
//! type names are purely alphanumeric, the delimiter cannot occur
//! inside a constituent, so the derivation is injective.

use vstd::prelude::*;

use crate::text::{cle, names_view, sort_names, str_eq};

verus! {

/// Reserved words of the target language; a member or method name
/// equal to one is escaped by prefixing `tg_`, while the original
/// spec string is kept beside it as the wire-serialization key.
pub open spec fn reserved_member(n: Seq<char>) -> bool {
    ||| n == "type"@
    ||| n == "fn"@
    ||| n == "struct"@
    ||| n == "enum"@
    ||| n == "impl"@
    ||| n == "use"@
    ||| n == "mod"@
    ||| n == "self"@
    ||| n == "ref"@
    ||| n == "match"@
    ||| n == "loop"@
    ||| n == "async"@
}

/// Target-language container names that a declared type name must
/// not shadow; escaped by prefixing `Tg`.
pub open spec fn reserved_type(n: Seq<char>) -> bool {
    n == "Vec"@ || n == "Option"@ || n == "Box"@
}

pub open spec fn type_ident(n: Seq<char>) -> Seq<char> {
    if reserved_type(n) {
        "Tg"@ + n
    } else {
        n
    }
}

pub open spec fn member_ident(n: Seq<char>) -> Seq<char> {
    if reserved_member(n) {
        "tg_"@ + n
    } else {
        n
    }
}

/// The order-normalized registry key of a union: its constituent
/// names, sorted.
pub open spec fn union_key(names: Seq<Seq<char>>) -> Seq<Seq<char>> {
    names.sort_by(cle())
}

/// The constituents joined with the `_` delimiter.
pub open spec fn joined(names: Seq<Seq<char>>) -> Seq<char>
    decreases names.len(),
{
    if names.len() == 0 {
        Seq::empty()
    } else if names.len() == 1 {
        names[0]
    } else {
        names[0] + "_"@ + joined(names.drop_first())
    }
}

/// The synthesized variant-type name for a normalized key.
pub open spec fn union_name(key: Seq<Seq<char>>) -> Seq<char> {
    "E"@ + joined(key)
}

proof fn lemma_joined_push(s: Seq<Seq<char>>, x: Seq<char>)
    ensures
        joined(s.push(x)) == if s.len() == 0 {
            x
        } else {
            joined(s) + "_"@ + x
        },
    decreases s.len(),
{
    if s.len() == 0 {
        assert(s.push(x)[0] == x);
        assert(joined(s.push(x)) == x);
    } else {
        assert(s.push(x).drop_first() =~= s.drop_first().push(x));
        lemma_joined_push(s.drop_first(), x);
        if s.len() == 1 {
            assert(joined(s.push(x)) == s[0] + "_"@ + x);
            assert(joined(s) == s[0]);
        } else {
            assert(joined(s.push(x)) == s[0] + "_"@ + (joined(s.drop_first()) + "_"@ + x));
            assert(s[0] + "_"@ + (joined(s.drop_first()) + "_"@ + x) =~= (s[0] + "_"@ + joined(
                s.drop_first(),
            )) + "_"@ + x);
        }
    }
}

/// Escapes a declared type name into a target type identifier.
pub fn to_type_identifier(n: &str) -> (r: String)
    ensures
        r@ == type_ident(n@),
{
    if str_eq(n, "Vec") || str_eq(n, "Option") || str_eq(n, "Box") {
        String::from_str("Tg").concat(n)
    } else {
        n.to_owned()
    }
}

/// Escapes a field, parameter or method name into a target
/// identifier.
pub fn to_field_identifier(n: &str) -> (r: String)
    ensures
        r@ == member_ident(n@),
{
    let reserved = str_eq(n, "type") || str_eq(n, "fn") || str_eq(n, "struct") || str_eq(n, "enum")
        || str_eq(n, "impl") || str_eq(n, "use") || str_eq(n, "mod") || str_eq(n, "self") || str_eq(
        n,
        "ref",
    ) || str_eq(n, "match") || str_eq(n, "loop") || str_eq(n, "async");
    if reserved {
        String::from_str("tg_").concat(n)
    } else {
        n.to_owned()
    }
}

/// Derives the synthesized variant-type name of a union from its
/// constituent names: order-independent, since the key is sorted
/// first.
pub fn synthesize_union_name(names: &Vec<String>) -> (r: String)
    ensures
        r@ == union_name(union_key(names_view(names@))),
{
    let sorted = sort_names(names);
    let ghost kv = union_key(names_view(names@));
    let mut out = String::from_str("E");
    let mut i: usize = 0;
    proof {
        assert(kv.take(0) =~= Seq::<Seq<char>>::empty());
        assert(out@ =~= "E"@ + joined(kv.take(0)));
    }
    while i < sorted.len()
        invariant
            names_view(sorted@) == kv,
            0 <= i <= sorted@.len(),
            out@ == "E"@ + joined(kv.take(i as int)),
        decreases sorted@.len() - i,
    {
        if i > 0 {
            out.append("_");
        }
        out.append(sorted[i].as_str());
        proof {
            let prev = kv.take(i as int);
            assert(kv.take(i as int + 1) =~= prev.push(kv[i as int]));
            lemma_joined_push(prev, kv[i as int]);
            assert(kv[i as int] == sorted@[i as int]@);
            if i == 0 {
                assert(out@ =~= "E"@ + joined(kv.take(i as int + 1)));
            } else {
                assert(("E"@ + joined(prev)) + "_"@ + kv[i as int] =~= "E"@ + (joined(prev) + "_"@
                    + kv[i as int]));
                assert(out@ =~= "E"@ + joined(kv.take(i as int + 1)));
            }
        }
        i = i + 1;
    }
    proof {
        assert(kv.take(sorted@.len() as int) =~= kv);
    }
    out
}

} // verus!
