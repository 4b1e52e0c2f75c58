//! Type generation: walks the parsed types in declaration order,
//! emits one definition per type with fields in declared order, and
//! registers every union field in the multitype registry, emitting
//! each synthesized sum type once, before its first use.
//!
//! The emitted text is pinned exactly by the spec functions below, so
//! identical input always yields byte-identical output.

use vstd::prelude::*;

use crate::naming::{member_ident, type_ident, union_key, union_name, synthesize_union_name,
    to_field_identifier, to_type_identifier};
use crate::registry::MultitypeRegistry;
use crate::schema::{is_scalar_name, is_scalar_str, distinct_names, names_distinct, ApiSpec,
    ApiSpecV, MemberDef, MemberV, TypeDef, TypeRef, TypeRefV, TypeV};
use crate::text::{names_view, str_eq};
use crate::NamingError;

verus! {

// ---------------------------------------------------------------------------
// Rendering of type references.
// ---------------------------------------------------------------------------

/// Target representation of a scalar name.
pub open spec fn scalar_target(n: Seq<char>) -> Seq<char> {
    if n == "String"@ {
        "String"@
    } else if n == "Integer"@ {
        "i64"@
    } else if n == "Float"@ {
        "f64"@
    } else {
        "bool"@
    }
}

pub open spec fn opens(d: nat) -> Seq<char>
    decreases d,
{
    if d == 0 {
        Seq::empty()
    } else {
        "Vec<"@ + opens((d - 1) as nat)
    }
}

pub open spec fn closes(d: nat) -> Seq<char>
    decreases d,
{
    if d == 0 {
        Seq::empty()
    } else {
        ">"@ + closes((d - 1) as nat)
    }
}

/// `d` levels of ordered-sequence nesting around a rendered type.
pub open spec fn wrap_arrays(inner: Seq<char>, d: nat) -> Seq<char> {
    opens(d) + inner + closes(d)
}

/// The target text of a resolved type reference.
pub open spec fn render_ref(t: TypeRefV) -> Seq<char> {
    match t {
        TypeRefV::Scalar { array_depth, name } => wrap_arrays(scalar_target(name), array_depth),
        TypeRefV::Reference { array_depth, name } => wrap_arrays(type_ident(name), array_depth),
        TypeRefV::Union { names } => union_name(union_key(names)),
    }
}

/// An optional member is wrapped in a nullable type.
pub open spec fn render_member_type(t: TypeRefV, required: bool) -> Seq<char> {
    if required {
        render_ref(t)
    } else {
        "Option<"@ + render_ref(t) + ">"@
    }
}

// ---------------------------------------------------------------------------
// Emitted text of one type definition.
// ---------------------------------------------------------------------------

/// When a member name had to be escaped, the original spec string is
/// kept beside the member as its wire-serialization key.
pub open spec fn wire_note(n: Seq<char>) -> Seq<char> {
    if member_ident(n) == n {
        Seq::empty()
    } else {
        "    // wire: "@ + n + "\n"@
    }
}

pub open spec fn field_text(f: MemberV) -> Seq<char> {
    "    /// "@ + f.description + "\n"@ + wire_note(f.name) + "    "@ + member_ident(f.name)
        + ": "@ + render_member_type(f.ty, f.required) + ",\n"@
}

pub open spec fn fields_text(fs: Seq<MemberV>, j: int) -> Seq<char>
    decreases fs.len() - j,
{
    if j < 0 || j >= fs.len() {
        Seq::empty()
    } else {
        field_text(fs[j]) + fields_text(fs, j + 1)
    }
}

pub open spec fn struct_decl(t: TypeV) -> Seq<char> {
    "/// "@ + t.description + "\n"@ + "struct "@ + type_ident(t.name) + " {\n"@ + fields_text(
        t.fields,
        0,
    ) + "}\n\n"@
}

// ---------------------------------------------------------------------------
// Emitted text of one synthesized union type.
// ---------------------------------------------------------------------------

/// What a union variant holds: the constituent's own target type.
pub open spec fn variant_target(n: Seq<char>) -> Seq<char> {
    if is_scalar_name(n) {
        scalar_target(n)
    } else {
        type_ident(n)
    }
}

pub open spec fn variant_text(n: Seq<char>) -> Seq<char> {
    "    "@ + n + "("@ + variant_target(n) + "),\n"@
}

pub open spec fn variants_text(ns: Seq<Seq<char>>, j: int) -> Seq<char>
    decreases ns.len() - j,
{
    if j < 0 || j >= ns.len() {
        Seq::empty()
    } else {
        variant_text(ns[j]) + variants_text(ns, j + 1)
    }
}

/// The sum-type definition for a normalized union key: one variant
/// per constituent, each holding that constituent's value.
pub open spec fn union_decl(key: Seq<Seq<char>>) -> Seq<char> {
    "enum "@ + union_name(key) + " {\n"@ + variants_text(key, 0) + "}\n\n"@
}

/// The fixed definition of the file-attachment pseudo-type: either
/// raw binary content or a textual reference.
pub open spec fn input_file_decl() -> Seq<char> {
    "enum InputFile {\n    Bytes(Vec<u8>),\n    Text(String),\n}\n\n"@
}

// ---------------------------------------------------------------------------
// Union keys occurring in fields, and the whole types block.
// ---------------------------------------------------------------------------

/// The registry key of a union reference, if the reference is one.
pub open spec fn ref_key(t: TypeRefV) -> Option<Seq<Seq<char>>> {
    match t {
        TypeRefV::Union { names } => Option::Some(union_key(names)),
        _ => Option::None,
    }
}

/// Union keys among the first `j` fields.
pub open spec fn keys_before(fs: Seq<MemberV>, j: int) -> Set<Seq<Seq<char>>>
    decreases j,
{
    if j <= 0 {
        Set::empty()
    } else {
        match ref_key(fs[j - 1].ty) {
            Option::Some(k) => keys_before(fs, j - 1).insert(k),
            Option::None => keys_before(fs, j - 1),
        }
    }
}

pub open spec fn type_keys(t: TypeV) -> Set<Seq<Seq<char>>> {
    keys_before(t.fields, t.fields.len() as int)
}

/// Union keys among the first `i` types.
pub open spec fn tkeys_before(ts: Seq<TypeV>, i: int) -> Set<Seq<Seq<char>>>
    decreases i,
{
    if i <= 0 {
        Set::empty()
    } else {
        tkeys_before(ts, i - 1).union(type_keys(ts[i - 1]))
    }
}

pub open spec fn all_type_keys(s: ApiSpecV) -> Set<Seq<Seq<char>>> {
    tkeys_before(s.types, s.types.len() as int)
}

/// Sum-type definitions for the union fields of one type, from field
/// `j` on: each key not yet seen is emitted, exactly once, before the
/// type that uses it.
pub open spec fn unions_text(fs: Seq<MemberV>, j: int, seen: Set<Seq<Seq<char>>>) -> Seq<char>
    decreases fs.len() - j,
{
    if j < 0 || j >= fs.len() {
        Seq::empty()
    } else {
        match ref_key(fs[j].ty) {
            Option::Some(k) => if seen.contains(k) {
                unions_text(fs, j + 1, seen)
            } else {
                union_decl(k) + unions_text(fs, j + 1, seen.insert(k))
            },
            Option::None => unions_text(fs, j + 1, seen),
        }
    }
}

/// The types block from type `i` on, given the keys seen so far.
pub open spec fn types_text(ts: Seq<TypeV>, i: int, seen: Set<Seq<Seq<char>>>) -> Seq<char>
    decreases ts.len() - i,
{
    if i < 0 || i >= ts.len() {
        Seq::empty()
    } else {
        unions_text(ts[i].fields, 0, seen) + struct_decl(ts[i]) + types_text(
            ts,
            i + 1,
            seen.union(type_keys(ts[i])),
        )
    }
}

/// The whole generated types block.
pub open spec fn types_output(s: ApiSpecV, seen: Set<Seq<Seq<char>>>) -> Seq<char> {
    input_file_decl() + types_text(s.types, 0, seen)
}


/// Union keys among fields `j` and onward.
pub open spec fn fkeys_from(fs: Seq<MemberV>, j: int) -> Set<Seq<Seq<char>>>
    decreases fs.len() - j,
{
    if j < 0 || j >= fs.len() {
        Set::empty()
    } else {
        match ref_key(fs[j].ty) {
            Option::Some(k) => fkeys_from(fs, j + 1).insert(k),
            Option::None => fkeys_from(fs, j + 1),
        }
    }
}

/// Union keys in types `i` and onward.
pub open spec fn tkeys_from(ts: Seq<TypeV>, i: int) -> Set<Seq<Seq<char>>>
    decreases ts.len() - i,
{
    if i < 0 || i >= ts.len() {
        Set::empty()
    } else {
        fkeys_from(ts[i].fields, 0).union(tkeys_from(ts, i + 1))
    }
}

/// How many sum-type definitions for key `k` the union text of the
/// fields from `j` on emits; follows the same recursion as
/// `unions_text`, counting its `union_decl` emissions.
pub open spec fn fcount(fs: Seq<MemberV>, j: int, seen: Set<Seq<Seq<char>>>, k: Seq<Seq<char>>) -> nat
    decreases fs.len() - j,
{
    if j < 0 || j >= fs.len() {
        0
    } else {
        match ref_key(fs[j].ty) {
            Option::Some(k2) => if seen.contains(k2) {
                fcount(fs, j + 1, seen, k)
            } else {
                (if k2 == k {
                    1nat
                } else {
                    0nat
                }) + fcount(fs, j + 1, seen.insert(k2), k)
            },
            Option::None => fcount(fs, j + 1, seen, k),
        }
    }
}

/// How many sum-type definitions for key `k` the whole types block
/// emits, following the recursion of `types_text`.
pub open spec fn tcount(ts: Seq<TypeV>, i: int, seen: Set<Seq<Seq<char>>>, k: Seq<Seq<char>>) -> nat
    decreases ts.len() - i,
{
    if i < 0 || i >= ts.len() {
        0
    } else {
        fcount(ts[i].fields, 0, seen, k) + tcount(ts, i + 1, seen.union(type_keys(ts[i])), k)
    }
}

// ---------------------------------------------------------------------------
// Identifier collisions.
// ---------------------------------------------------------------------------

pub open spec fn type_ident_list(s: ApiSpecV) -> Seq<Seq<char>> {
    s.types.map_values(|t: TypeV| type_ident(t.name))
}

pub open spec fn member_ident_list(fs: Seq<MemberV>) -> Seq<Seq<char>> {
    fs.map_values(|f: MemberV| member_ident(f.name))
}

/// No two distinct type names escape to the same identifier, and
/// within each type no two field names do.
pub open spec fn types_collision_free(s: ApiSpecV) -> bool {
    &&& names_distinct(type_ident_list(s))
    &&& forall|i: int|
        0 <= i < s.types.len() ==> names_distinct(member_ident_list(
            (#[trigger] s.types[i]).fields,
        ))
}

// ---------------------------------------------------------------------------
// Executable rendering.
// ---------------------------------------------------------------------------

fn scalar_target_exec(n: &str) -> (r: String)
    ensures
        r@ == scalar_target(n@),
{
    if str_eq(n, "String") {
        String::from_str("String")
    } else if str_eq(n, "Integer") {
        String::from_str("i64")
    } else if str_eq(n, "Float") {
        String::from_str("f64")
    } else {
        String::from_str("bool")
    }
}

proof fn lemma_opens_snoc(d: nat)
    ensures
        opens(d) + "Vec<"@ =~= opens(d + 1),
    decreases d,
{
    if d == 0 {
        assert(opens(0) + "Vec<"@ =~= "Vec<"@ + opens(0));
    } else {
        lemma_opens_snoc((d - 1) as nat);
        assert(("Vec<"@ + opens((d - 1) as nat)) + "Vec<"@ =~= "Vec<"@ + (opens((d - 1) as nat)
            + "Vec<"@));
    }
}

proof fn lemma_closes_snoc(d: nat)
    ensures
        closes(d) + ">"@ =~= closes(d + 1),
    decreases d,
{
    if d == 0 {
        assert(closes(0) + ">"@ =~= ">"@ + closes(0));
    } else {
        lemma_closes_snoc((d - 1) as nat);
        assert((">"@ + closes((d - 1) as nat)) + ">"@ =~= ">"@ + (closes((d - 1) as nat) + ">"@));
    }
}

fn wrap_arrays_exec(inner: &str, depth: usize) -> (r: String)
    ensures
        r@ == wrap_arrays(inner@, depth as nat),
{
    let mut out = String::new();
    let mut i: usize = 0;
    proof {
        assert(out@ =~= opens(0));
    }
    while i < depth
        invariant
            0 <= i <= depth,
            out@ == opens(i as nat),
        decreases depth - i,
    {
        out.append("Vec<");
        proof {
            lemma_opens_snoc(i as nat);
        }
        i = i + 1;
    }
    out.append(inner);
    let mut j: usize = 0;
    let ghost mid = out@;
    proof {
        assert(mid + closes(0) =~= mid);
    }
    while j < depth
        invariant
            0 <= j <= depth,
            mid == opens(depth as nat) + inner@,
            out@ == mid + closes(j as nat),
        decreases depth - j,
    {
        out.append(">");
        proof {
            lemma_closes_snoc(j as nat);
            assert((mid + closes(j as nat)) + ">"@ =~= mid + (closes(j as nat) + ">"@));
        }
        j = j + 1;
    }
    proof {
        assert(out@ =~= wrap_arrays(inner@, depth as nat));
    }
    out
}

/// Renders one resolved type reference into target text.
pub fn render_type_ref(t: &TypeRef) -> (r: String)
    ensures
        r@ == render_ref(t@),
{
    match t {
        TypeRef::Scalar { array_depth, name } => {
            let s = scalar_target_exec(name.as_str());
            wrap_arrays_exec(s.as_str(), *array_depth)
        },
        TypeRef::Reference { array_depth, name } => {
            let s = to_type_identifier(name.as_str());
            wrap_arrays_exec(s.as_str(), *array_depth)
        },
        TypeRef::Union { names } => synthesize_union_name(names),
    }
}

pub(crate) fn render_member_type_exec(t: &TypeRef, required: bool) -> (r: String)
    ensures
        r@ == render_member_type(t@, required),
{
    let inner = render_type_ref(t);
    if required {
        inner
    } else {
        let mut out = String::from_str("Option<");
        out.append(inner.as_str());
        out.append(">");
        proof {
            assert(out@ =~= render_member_type(t@, required));
        }
        out
    }
}

fn emit_field(f: &MemberDef) -> (r: String)
    ensures
        r@ == field_text(f@),
{
    let mut out = String::from_str("    /// ");
    out.append(f.description.as_str());
    out.append("\n");
    let ident = to_field_identifier(f.name.as_str());
    if !str_eq(ident.as_str(), f.name.as_str()) {
        out.append("    // wire: ");
        out.append(f.name.as_str());
        out.append("\n");
    }
    out.append("    ");
    out.append(ident.as_str());
    out.append(": ");
    let ty = render_member_type_exec(&f.ty, f.required);
    out.append(ty.as_str());
    out.append(",\n");
    proof {
        assert(out@ =~= field_text(f@));
    }
    out
}

fn emit_struct(t: &TypeDef) -> (r: String)
    ensures
        r@ == struct_decl(t@),
{
    let mut out = String::from_str("/// ");
    out.append(t.description.as_str());
    out.append("\n");
    out.append("struct ");
    let ident = to_type_identifier(t.name.as_str());
    out.append(ident.as_str());
    out.append(" {\n");
    let ghost head = out@;
    let mut j: usize = 0;
    proof {
        assert(head + fields_text(t@.fields, 0) == head + fields_text(t@.fields, 0));
    }
    while j < t.fields.len()
        invariant
            0 <= j <= t.fields@.len(),
            out@ + fields_text(t@.fields, j as int) == head + fields_text(t@.fields, 0),
        decreases t.fields@.len() - j,
    {
        let ft = emit_field(&t.fields[j]);
        let ghost before = out@;
        out.append(ft.as_str());
        proof {
            assert(t@.fields[j as int] == t.fields@[j as int]@);
            assert(out@ + fields_text(t@.fields, j as int + 1) =~= before + (field_text(
                t@.fields[j as int],
            ) + fields_text(t@.fields, j as int + 1)));
        }
        j = j + 1;
    }
    out.append("}\n\n");
    proof {
        assert(out@ =~= struct_decl(t@));
    }
    out
}

/// Emits the sum-type definition for the union over `names`.
fn emit_union(names: &Vec<String>) -> (r: String)
    ensures
        r@ == union_decl(union_key(names_view(names@))),
{
    let ghost k = union_key(names_view(names@));
    let mut out = String::from_str("enum ");
    let uname = synthesize_union_name(names);
    out.append(uname.as_str());
    out.append(" {\n");
    let ghost head = out@;
    let sorted = crate::text::sort_names(names);
    let mut j: usize = 0;
    while j < sorted.len()
        invariant
            names_view(sorted@) == k,
            0 <= j <= sorted@.len(),
            out@ + variants_text(k, j as int) == head + variants_text(k, 0),
        decreases sorted@.len() - j,
    {
        let n = &sorted[j];
        out.append("    ");
        out.append(n.as_str());
        out.append("(");
        let vt = if is_scalar_str(n.as_str()) {
            scalar_target_exec(n.as_str())
        } else {
            to_type_identifier(n.as_str())
        };
        out.append(vt.as_str());
        out.append("),\n");
        proof {
            assert(k[j as int] == sorted@[j as int]@);
            assert(out@ + variants_text(k, j as int + 1) =~= (head + variants_text(k, 0)));
        }
        j = j + 1;
    }
    out.append("}\n\n");
    proof {
        assert(out@ =~= union_decl(k));
    }
    out
}

/// Checks that escaped identifiers stay collision-free: across type
/// names, and across the field names of each type.
fn check_types_collisions(spec: &ApiSpec) -> (r: bool)
    ensures
        r == types_collision_free(spec@),
{
    let mut tids: Vec<String> = Vec::new();
    let mut i: usize = 0;
    while i < spec.types.len()
        invariant
            0 <= i <= spec.types@.len(),
            tids@.len() == i,
            forall|p: int| 0 <= p < i ==> tids@[p]@ == type_ident(spec@.types[p].name),
        decreases spec.types@.len() - i,
    {
        tids.push(to_type_identifier(spec.types[i].name.as_str()));
        i = i + 1;
    }
    if !distinct_names(&tids) {
        assert(names_view(tids@) =~= type_ident_list(spec@));
        return false;
    }
    assert(names_view(tids@) =~= type_ident_list(spec@));
    let mut ti: usize = 0;
    while ti < spec.types.len()
        invariant
            0 <= ti <= spec.types@.len(),
            names_distinct(type_ident_list(spec@)),
            forall|p: int|
                0 <= p < ti ==> names_distinct(member_ident_list(
                    (#[trigger] spec@.types[p]).fields,
                )),
        decreases spec.types@.len() - ti,
    {
        let t = &spec.types[ti];
        let mut fids: Vec<String> = Vec::new();
        let mut j: usize = 0;
        while j < t.fields.len()
            invariant
                0 <= ti < spec.types@.len(),
                t == spec.types@[ti as int],
                0 <= j <= t.fields@.len(),
                fids@.len() == j,
                forall|p: int| 0 <= p < j ==> fids@[p]@ == member_ident(t@.fields[p].name),
            decreases t.fields@.len() - j,
        {
            fids.push(to_field_identifier(t.fields[j].name.as_str()));
            j = j + 1;
        }
        if !distinct_names(&fids) {
            assert(names_view(fids@) =~= member_ident_list(spec@.types[ti as int].fields));
            return false;
        }
        assert(names_view(fids@) =~= member_ident_list(spec@.types[ti as int].fields));
        ti = ti + 1;
    }
    true
}

/// Emits the whole types block, in declaration order, registering the
/// key of every union field and emitting each synthesized sum type
/// exactly once, before its first use.  Fails, touching nothing, when
/// escaped identifiers collide.
pub fn generate_types_text(spec: &ApiSpec, reg: &mut MultitypeRegistry) -> (r: Result<
    String,
    NamingError,
>)
    requires
        old(reg).wf(),
    ensures
        final(reg).wf(),
        r is Ok <==> types_collision_free(spec@),
        r is Err ==> r->Err_0 == NamingError::ReservedCollision && *final(reg) == *old(reg),
        r is Ok ==> r->Ok_0@ == types_output(spec@, old(reg).keys()),
        r is Ok ==> final(reg).keys() == old(reg).keys().union(all_type_keys(spec@)),
{
    if !check_types_collisions(spec) {
        return Err(NamingError::ReservedCollision);
    }
    let ghost seen0 = old(reg).keys();
    let ghost sv = spec@;
    let ghost target = input_file_decl() + types_text(sv.types, 0, seen0);
    let mut out = String::from_str("enum InputFile {\n    Bytes(Vec<u8>),\n    Text(String),\n}\n\n");
    proof {
        assert(out@ =~= input_file_decl());
    }
    let mut i: usize = 0;
    while i < spec.types.len()
        invariant
            reg.wf(),
            sv == spec@,
            seen0 == old(reg).keys(),
            target == input_file_decl() + types_text(sv.types, 0, seen0),
            0 <= i <= spec.types@.len(),
            reg.keys() == seen0.union(tkeys_before(sv.types, i as int)),
            out@ + types_text(sv.types, i as int, reg.keys()) == target,
        decreases spec.types@.len() - i,
    {
        let t = &spec.types[i];
        let ghost fs = sv.types[i as int].fields;
        let ghost seen_i = reg.keys();
        let ghost after_type = types_text(sv.types, i as int + 1, seen_i.union(type_keys(sv.types[i as int])));
        proof {
            assert(t@ == sv.types[i as int]);
            assert(types_text(sv.types, i as int, seen_i) == unions_text(fs, 0, seen_i)
                + struct_decl(sv.types[i as int]) + after_type);
            assert(keys_before(fs, 0) =~= Set::<Seq<Seq<char>>>::empty());
            assert(seen_i.union(keys_before(fs, 0)) =~= seen_i);
        }
        let mut j: usize = 0;
        while j < t.fields.len()
            invariant
                reg.wf(),
                sv == spec@,
                0 <= i < spec.types@.len(),
                t == spec.types@[i as int],
                fs == sv.types[i as int].fields,
                seen_i == seen0.union(tkeys_before(sv.types, i as int)),
                after_type == types_text(sv.types, i as int + 1, seen_i.union(type_keys(sv.types[i as int]))),
                0 <= j <= t.fields@.len(),
                reg.keys() == seen_i.union(keys_before(fs, j as int)),
                out@ + unions_text(fs, j as int, reg.keys()) + struct_decl(sv.types[i as int])
                    + after_type == target,
            decreases t.fields@.len() - j,
        {
            let ghost seen_j = reg.keys();
            match &t.fields[j].ty {
                TypeRef::Union { names } => {
                    let ghost k = union_key(names_view(names@));
                    proof {
                        assert(fs[j as int] == t.fields@[j as int]@);
                        assert(ref_key(fs[j as int].ty) == Option::Some(k));
                    }
                    let (_uname, is_new) = reg.get_or_create(names);
                    if is_new {
                        let txt = emit_union(names);
                        let ghost before = out@;
                        out.append(txt.as_str());
                        proof {
                            assert(unions_text(fs, j as int, seen_j) == union_decl(k)
                                + unions_text(fs, j as int + 1, seen_j.insert(k)));
                            assert(reg.keys() =~= seen_j.insert(k));
                            assert(out@ + unions_text(fs, j as int + 1, reg.keys()) =~= before
                                + unions_text(fs, j as int, seen_j));
                            assert(reg.keys() =~= seen_i.union(keys_before(fs, j as int + 1)));
                        }
                    } else {
                        proof {
                            assert(seen_j.contains(k));
                            assert(unions_text(fs, j as int, seen_j) == unions_text(
                                fs,
                                j as int + 1,
                                seen_j,
                            ));
                            assert(reg.keys() =~= seen_j);
                            assert(reg.keys() =~= seen_i.union(keys_before(fs, j as int + 1)));
                        }
                    }
                },
                TypeRef::Scalar { .. } => {
                    proof {
                        assert(fs[j as int] == t.fields@[j as int]@);
                        assert(ref_key(fs[j as int].ty) is None);
                        assert(unions_text(fs, j as int, seen_j) == unions_text(
                            fs,
                            j as int + 1,
                            seen_j,
                        ));
                        assert(reg.keys() =~= seen_i.union(keys_before(fs, j as int + 1)));
                    }
                },
                TypeRef::Reference { .. } => {
                    proof {
                        assert(fs[j as int] == t.fields@[j as int]@);
                        assert(ref_key(fs[j as int].ty) is None);
                        assert(unions_text(fs, j as int, seen_j) == unions_text(
                            fs,
                            j as int + 1,
                            seen_j,
                        ));
                        assert(reg.keys() =~= seen_i.union(keys_before(fs, j as int + 1)));
                    }
                },
            }
            j = j + 1;
        }
        proof {
            assert(unions_text(fs, t.fields@.len() as int, reg.keys()) =~= Seq::<char>::empty());
            assert(type_keys(sv.types[i as int]) == keys_before(fs, fs.len() as int));
            assert(fs.len() == t.fields@.len());
            assert(reg.keys() =~= seen_i.union(type_keys(sv.types[i as int])));
        }
        let st = emit_struct(t);
        let ghost before = out@;
        out.append(st.as_str());
        proof {
            assert(out@ + after_type =~= before + unions_text(
                fs,
                t.fields@.len() as int,
                reg.keys(),
            ) + struct_decl(sv.types[i as int]) + after_type);
            assert(tkeys_before(sv.types, i as int + 1) == tkeys_before(sv.types, i as int).union(
                type_keys(sv.types[i as int]),
            ));
            assert(reg.keys() =~= seen0.union(tkeys_before(sv.types, i as int + 1)));
            assert(after_type == types_text(sv.types, i as int + 1, reg.keys()));
        }
        i = i + 1;
    }
    proof {
        assert(types_text(sv.types, spec.types@.len() as int, reg.keys()) =~= Seq::<char>::empty());
        assert(out@ =~= target);
        assert(all_type_keys(sv) == tkeys_before(sv.types, sv.types.len() as int));
        assert(reg.keys() =~= old(reg).keys().union(all_type_keys(spec@)));
    }
    Ok(out)
}

} // verus!
