//! Method generation: walks the parsed methods in declaration order
//! and emits one callable binding per method.  Required parameters
//! are placed before optional ones (a stable reordering), union
//! parameters and return types are resolved by looking keys up in the
//! registry — never by creating them — and parameters whose type is
//! the file-attachment pseudo-type are marked for the transport
//! layer.

use vstd::prelude::*;

use crate::naming::{member_ident, union_key};
use crate::registry::MultitypeRegistry;
use crate::schema::{contains_name, distinct_names, input_file, names_distinct, ApiSpec, ApiSpecV,
    MemberDef, MemberV, MethodDef, MethodV, TypeRef, TypeRefV};
use crate::text::{names_view, str_eq};
use crate::types::{member_ident_list, render_member_type, render_member_type_exec, render_ref,
    render_type_ref};
use crate::{GenError, GenerationError, NamingError};

verus! {

// ---------------------------------------------------------------------------
// Parameter reordering.
// ---------------------------------------------------------------------------

pub open spec fn req_pred() -> spec_fn(MemberV) -> bool {
    (|p: MemberV| p.required)
}

pub open spec fn opt_pred() -> spec_fn(MemberV) -> bool {
    (|p: MemberV| !p.required)
}

/// The emitted parameter order: all required parameters first, then
/// all optional ones, each group keeping its declared relative order.
pub open spec fn reorder_params(ps: Seq<MemberV>) -> Seq<MemberV> {
    ps.filter(req_pred()) + ps.filter(opt_pred())
}

// ---------------------------------------------------------------------------
// Emitted text of one method binding.
// ---------------------------------------------------------------------------

/// Whether a parameter's resolved type is the file-attachment
/// pseudo-type, directly or as a union constituent.
pub open spec fn is_input_file_ty(t: TypeRefV) -> bool {
    match t {
        TypeRefV::Reference { array_depth, name } => array_depth == 0 && name == input_file(),
        TypeRefV::Union { names } => names.contains(input_file()),
        TypeRefV::Scalar { .. } => false,
    }
}

/// The marking handed to the (external) transport layer: which
/// parameters need multipart encoding.  This is the only encoding
/// information the generator exposes.
pub open spec fn multipart_note(p: MemberV) -> Seq<char> {
    if is_input_file_ty(p.ty) {
        "// multipart: "@ + member_ident(p.name) + "\n"@
    } else {
        Seq::empty()
    }
}

pub open spec fn multipart_notes(ps: Seq<MemberV>, j: int) -> Seq<char>
    decreases ps.len() - j,
{
    if j < 0 || j >= ps.len() {
        Seq::empty()
    } else {
        multipart_note(ps[j]) + multipart_notes(ps, j + 1)
    }
}

pub open spec fn sig_one(p: MemberV) -> Seq<char> {
    member_ident(p.name) + ": "@ + render_member_type(p.ty, p.required)
}

pub open spec fn params_sig(ps: Seq<MemberV>, j: int) -> Seq<char>
    decreases ps.len() - j,
{
    if j < 0 || j >= ps.len() {
        Seq::empty()
    } else if j == ps.len() - 1 {
        sig_one(ps[j])
    } else {
        sig_one(ps[j]) + ", "@ + params_sig(ps, j + 1)
    }
}

pub open spec fn method_text(m: MethodV) -> Seq<char> {
    "/// "@ + m.description + "\n"@ + multipart_notes(reorder_params(m.params), 0) + "fn "@
        + member_ident(m.name) + "("@ + params_sig(reorder_params(m.params), 0) + ") -> "@
        + render_ref(m.returns) + ";\n\n"@
}

pub open spec fn methods_text_from(ms: Seq<MethodV>, i: int) -> Seq<char>
    decreases ms.len() - i,
{
    if i < 0 || i >= ms.len() {
        Seq::empty()
    } else {
        method_text(ms[i]) + methods_text_from(ms, i + 1)
    }
}

/// The whole generated methods block.
pub open spec fn methods_output(s: ApiSpecV) -> Seq<char> {
    methods_text_from(s.methods, 0)
}

// ---------------------------------------------------------------------------
// Collisions and union resolution.
// ---------------------------------------------------------------------------

pub open spec fn method_ident_list(s: ApiSpecV) -> Seq<Seq<char>> {
    s.methods.map_values(|m: MethodV| member_ident(m.name))
}

pub open spec fn methods_collision_free(s: ApiSpecV) -> bool {
    &&& names_distinct(method_ident_list(s))
    &&& forall|i: int|
        0 <= i < s.methods.len() ==> names_distinct(member_ident_list(
            (#[trigger] s.methods[i]).params,
        ))
}

/// A reference resolves against the registry unless it is a union
/// whose key was never registered.
pub open spec fn ref_resolved_in(t: TypeRefV, keys: Set<Seq<Seq<char>>>) -> bool {
    match t {
        TypeRefV::Union { names } => keys.contains(union_key(names)),
        _ => true,
    }
}

pub open spec fn method_unions_resolved(m: MethodV, keys: Set<Seq<Seq<char>>>) -> bool {
    &&& forall|i: int|
        0 <= i < m.params.len() ==> ref_resolved_in((#[trigger] m.params[i]).ty, keys)
    &&& ref_resolved_in(m.returns, keys)
}

pub open spec fn all_method_unions_resolved(s: ApiSpecV, keys: Set<Seq<Seq<char>>>) -> bool {
    forall|i: int| 0 <= i < s.methods.len() ==> method_unions_resolved(#[trigger] s.methods[i], keys)
}

// ---------------------------------------------------------------------------
// Executable reordering.
// ---------------------------------------------------------------------------

/// Computes the emitted parameter order as indices into the declared
/// parameter list: required first, then optional, stably.
fn reorder_indices(ps: &Vec<MemberDef>) -> (r: Vec<usize>)
    ensures
        r@.len() == reorder_params(ps@.map_values(|m: MemberDef| m@)).len(),
        forall|j: int| 0 <= j < r@.len() ==> (#[trigger] r@[j]) < ps@.len(),
        r@.map_values(|u: usize| ps@.map_values(|m: MemberDef| m@)[u as int]) == reorder_params(
            ps@.map_values(|m: MemberDef| m@),
        ),
{
    let ghost pv = ps@.map_values(|m: MemberDef| m@);
    let mut r: Vec<usize> = Vec::new();
    let mut i: usize = 0;
    proof {
        assert(pv.take(0) =~= Seq::<MemberV>::empty());
        reveal_with_fuel(Seq::filter, 1);
        assert(r@.map_values(|u: usize| pv[u as int]) =~= pv.take(0).filter(req_pred()));
    }
    while i < ps.len()
        invariant
            pv == ps@.map_values(|m: MemberDef| m@),
            0 <= i <= ps@.len(),
            forall|j: int| 0 <= j < r@.len() ==> (#[trigger] r@[j]) < i,
            r@.map_values(|u: usize| pv[u as int]) == pv.take(i as int).filter(req_pred()),
        decreases ps@.len() - i,
    {
        let ghost prev = r@.map_values(|u: usize| pv[u as int]);
        proof {
            reveal_with_fuel(Seq::<MemberV>::filter, 2);
            assert(pv.take(i as int + 1).drop_last() =~= pv.take(i as int));
            assert(pv.take(i as int + 1).last() == pv[i as int]);
        }
        if ps[i].required {
            r.push(i);
            proof {
                assert(r@.map_values(|u: usize| pv[u as int]) =~= prev.push(pv[i as int]));
            }
        }
        i = i + 1;
    }
    proof {
        assert(pv.take(ps@.len() as int) =~= pv);
    }
    let ghost reqs = r@.map_values(|u: usize| pv[u as int]);
    let mut i2: usize = 0;
    proof {
        assert(pv.take(0) =~= Seq::<MemberV>::empty());
        assert(r@.map_values(|u: usize| pv[u as int]) =~= reqs + pv.take(0).filter(opt_pred()));
    }
    while i2 < ps.len()
        invariant
            pv == ps@.map_values(|m: MemberDef| m@),
            reqs == pv.filter(req_pred()),
            0 <= i2 <= ps@.len(),
            forall|j: int| 0 <= j < r@.len() ==> (#[trigger] r@[j]) < ps@.len(),
            r@.map_values(|u: usize| pv[u as int]) == reqs + pv.take(i2 as int).filter(opt_pred()),
        decreases ps@.len() - i2,
    {
        let ghost prev = r@.map_values(|u: usize| pv[u as int]);
        proof {
            reveal_with_fuel(Seq::<MemberV>::filter, 2);
            assert(pv.take(i2 as int + 1).drop_last() =~= pv.take(i2 as int));
            assert(pv.take(i2 as int + 1).last() == pv[i2 as int]);
        }
        if !ps[i2].required {
            r.push(i2);
            proof {
                assert(r@.map_values(|u: usize| pv[u as int]) =~= prev.push(pv[i2 as int]));
                assert(prev.push(pv[i2 as int]) =~= reqs + pv.take(i2 as int).filter(
                    opt_pred(),
                ).push(pv[i2 as int]));
            }
        }
        i2 = i2 + 1;
    }
    proof {
        assert(pv.take(ps@.len() as int) =~= pv);
        assert(r@.map_values(|u: usize| pv[u as int]) == reorder_params(pv));
    }
    r
}

fn is_input_file_exec(t: &TypeRef) -> (r: bool)
    ensures
        r == is_input_file_ty(t@),
{
    match t {
        TypeRef::Reference { array_depth, name } => *array_depth == 0 && str_eq(
            name.as_str(),
            "InputFile",
        ),
        TypeRef::Union { names } => contains_name(names, "InputFile"),
        TypeRef::Scalar { .. } => false,
    }
}

// ---------------------------------------------------------------------------
// Executable method emission.
// ---------------------------------------------------------------------------

/// Emits one method binding; fails exactly when a union the method
/// references was never registered during type generation.  The
/// looked-up name is, by the registry invariant, the synthesized name
/// of the key, which is what the rendering emits.
fn emit_method(m: &MethodDef, reg: &MultitypeRegistry) -> (r: Result<String, GenerationError>)
    requires
        reg.wf(),
    ensures
        r is Ok <==> method_unions_resolved(m@, reg.keys()),
        r is Ok ==> r->Ok_0@ == method_text(m@),
        r is Err ==> r->Err_0 == GenerationError::UnresolvedUnion,
{
    // Resolve every union reference by registry lookup, never by
    // creation: a miss aborts the whole run.
    let mut ci: usize = 0;
    while ci < m.params.len()
        invariant
            reg.wf(),
            0 <= ci <= m.params@.len(),
            forall|i: int|
                0 <= i < ci ==> ref_resolved_in((#[trigger] m@.params[i]).ty, reg.keys()),
        decreases m.params@.len() - ci,
    {
        match &m.params[ci].ty {
            TypeRef::Union { names } => {
                match reg.lookup(names) {
                    Option::Some(_) => {
                        proof {
                            assert(ref_resolved_in(m@.params[ci as int].ty, reg.keys()));
                        }
                    },
                    Option::None => {
                        assert(!ref_resolved_in(m@.params[ci as int].ty, reg.keys()));
                        return Err(GenerationError::UnresolvedUnion);
                    },
                }
            },
            _ => {
                proof {
                    assert(ref_resolved_in(m@.params[ci as int].ty, reg.keys()));
                }
            },
        }
        ci = ci + 1;
    }
    match &m.returns {
        TypeRef::Union { names } => {
            match reg.lookup(names) {
                Option::Some(_) => {},
                Option::None => {
                    assert(!ref_resolved_in(m@.returns, reg.keys()));
                    return Err(GenerationError::UnresolvedUnion);
                },
            }
        },
        _ => {},
    }
    assert(method_unions_resolved(m@, reg.keys()));

    let ghost pv = m.params@.map_values(|p: MemberDef| p@);
    let ghost rp = reorder_params(pv);
    let order = reorder_indices(&m.params);

    let mut out = String::from_str("/// ");
    out.append(m.description.as_str());
    out.append("\n");
    let ghost head = out@;
    let mut j: usize = 0;
    proof {
        assert(out@ + multipart_notes(rp, 0) == head + multipart_notes(rp, 0));
    }
    while j < order.len()
        invariant
            pv == m.params@.map_values(|p: MemberDef| p@),
            rp == reorder_params(pv),
            order@.len() == rp.len(),
            forall|q: int| 0 <= q < order@.len() ==> (#[trigger] order@[q]) < m.params@.len(),
            order@.map_values(|u: usize| pv[u as int]) == rp,
            0 <= j <= order@.len(),
            out@ + multipart_notes(rp, j as int) == head + multipart_notes(rp, 0),
        decreases order@.len() - j,
    {
        let p = &m.params[order[j]];
        proof {
            assert(order@.map_values(|u: usize| pv[u as int])[j as int] == rp[j as int]);
            assert(p@ == rp[j as int]);
        }
        let ghost before = out@;
        if is_input_file_exec(&p.ty) {
            out.append("// multipart: ");
            let ident = crate::naming::to_field_identifier(p.name.as_str());
            out.append(ident.as_str());
            out.append("\n");
        }
        proof {
            assert(out@ =~= before + multipart_note(rp[j as int]));
            assert(out@ + multipart_notes(rp, j as int + 1) =~= before + multipart_notes(
                rp,
                j as int,
            ));
        }
        j = j + 1;
    }
    proof {
        assert(multipart_notes(rp, order@.len() as int) =~= Seq::<char>::empty());
        assert(out@ =~= head + multipart_notes(rp, 0));
    }
    out.append("fn ");
    let mident = crate::naming::to_field_identifier(m.name.as_str());
    out.append(mident.as_str());
    out.append("(");
    let ghost head2 = out@;
    let mut j2: usize = 0;
    proof {
        assert(out@ + params_sig(rp, 0) == head2 + params_sig(rp, 0));
    }
    while j2 < order.len()
        invariant
            pv == m.params@.map_values(|p: MemberDef| p@),
            rp == reorder_params(pv),
            order@.len() == rp.len(),
            forall|q: int| 0 <= q < order@.len() ==> (#[trigger] order@[q]) < m.params@.len(),
            order@.map_values(|u: usize| pv[u as int]) == rp,
            0 <= j2 <= order@.len(),
            out@ + params_sig(rp, j2 as int) == head2 + params_sig(rp, 0),
        decreases order@.len() - j2,
    {
        let p = &m.params[order[j2]];
        proof {
            assert(order@.map_values(|u: usize| pv[u as int])[j2 as int] == rp[j2 as int]);
            assert(p@ == rp[j2 as int]);
        }
        let ghost before = out@;
        let ident = crate::naming::to_field_identifier(p.name.as_str());
        out.append(ident.as_str());
        out.append(": ");
        let ty = render_member_type_exec(&p.ty, p.required);
        out.append(ty.as_str());
        proof {
            assert(out@ =~= before + sig_one(rp[j2 as int]));
        }
        if j2 + 1 < order.len() {
            out.append(", ");
            proof {
                assert(out@ + params_sig(rp, j2 as int + 1) =~= before + params_sig(
                    rp,
                    j2 as int,
                ));
            }
        } else {
            proof {
                assert(j2 as int == rp.len() - 1);
                assert(params_sig(rp, j2 as int) == sig_one(rp[j2 as int]));
                assert(out@ + params_sig(rp, j2 as int + 1) =~= before + params_sig(
                    rp,
                    j2 as int,
                ));
            }
        }
        j2 = j2 + 1;
    }
    proof {
        assert(params_sig(rp, order@.len() as int) =~= Seq::<char>::empty());
        assert(out@ =~= head2 + params_sig(rp, 0));
    }
    out.append(") -> ");
    let rret = render_type_ref(&m.returns);
    out.append(rret.as_str());
    out.append(";\n\n");
    proof {
        assert(out@ =~= method_text(m@));
    }
    Ok(out)
}

/// Checks that escaped method identifiers, and the escaped parameter
/// identifiers within each method, stay collision-free.
fn check_methods_collisions(spec: &ApiSpec) -> (r: bool)
    ensures
        r == methods_collision_free(spec@),
{
    let mut mids: Vec<String> = Vec::new();
    let mut i: usize = 0;
    while i < spec.methods.len()
        invariant
            0 <= i <= spec.methods@.len(),
            mids@.len() == i,
            forall|p: int| 0 <= p < i ==> mids@[p]@ == member_ident(spec@.methods[p].name),
        decreases spec.methods@.len() - i,
    {
        mids.push(crate::naming::to_field_identifier(spec.methods[i].name.as_str()));
        i = i + 1;
    }
    if !distinct_names(&mids) {
        assert(names_view(mids@) =~= method_ident_list(spec@));
        return false;
    }
    assert(names_view(mids@) =~= method_ident_list(spec@));
    let mut mi: usize = 0;
    while mi < spec.methods.len()
        invariant
            0 <= mi <= spec.methods@.len(),
            names_distinct(method_ident_list(spec@)),
            forall|p: int|
                0 <= p < mi ==> names_distinct(member_ident_list(
                    (#[trigger] spec@.methods[p]).params,
                )),
        decreases spec.methods@.len() - mi,
    {
        let m = &spec.methods[mi];
        let mut pids: Vec<String> = Vec::new();
        let mut j: usize = 0;
        while j < m.params.len()
            invariant
                0 <= mi < spec.methods@.len(),
                m == spec.methods@[mi as int],
                0 <= j <= m.params@.len(),
                pids@.len() == j,
                forall|p: int| 0 <= p < j ==> pids@[p]@ == member_ident(m@.params[p].name),
            decreases m.params@.len() - j,
        {
            pids.push(crate::naming::to_field_identifier(m.params[j].name.as_str()));
            j = j + 1;
        }
        if !distinct_names(&pids) {
            assert(names_view(pids@) =~= member_ident_list(spec@.methods[mi as int].params));
            return false;
        }
        assert(names_view(pids@) =~= member_ident_list(spec@.methods[mi as int].params));
        mi = mi + 1;
    }
    true
}

/// Emits the whole methods block, in declaration order.  Fails with a
/// naming error when escaped identifiers collide, and with an
/// unresolved-union error when a method references a union key absent
/// from the registry; either failure produces no output.
pub fn generate_methods_text(spec: &ApiSpec, reg: &MultitypeRegistry) -> (r: Result<
    String,
    GenError,
>)
    requires
        reg.wf(),
    ensures
        r is Ok <==> methods_collision_free(spec@) && all_method_unions_resolved(
            spec@,
            reg.keys(),
        ),
        r is Ok ==> r->Ok_0@ == methods_output(spec@),
        (r is Err && r->Err_0 == GenError::Naming(NamingError::ReservedCollision))
            <==> !methods_collision_free(spec@),
        (r is Err && r->Err_0 == GenError::Generation(GenerationError::UnresolvedUnion))
            <==> (methods_collision_free(spec@) && !all_method_unions_resolved(
            spec@,
            reg.keys(),
        )),
{
    if !check_methods_collisions(spec) {
        return Err(GenError::Naming(NamingError::ReservedCollision));
    }
    let ghost sv = spec@;
    let ghost target = methods_text_from(sv.methods, 0);
    let mut out = String::new();
    let mut i: usize = 0;
    proof {
        assert(out@ + methods_text_from(sv.methods, 0) =~= target);
    }
    while i < spec.methods.len()
        invariant
            reg.wf(),
            sv == spec@,
            target == methods_text_from(sv.methods, 0),
            methods_collision_free(sv),
            0 <= i <= spec.methods@.len(),
            out@ + methods_text_from(sv.methods, i as int) == target,
            forall|p: int|
                0 <= p < i ==> method_unions_resolved(#[trigger] sv.methods[p], reg.keys()),
        decreases spec.methods@.len() - i,
    {
        let m = &spec.methods[i];
        match emit_method(m, reg) {
            Ok(txt) => {
                let ghost before = out@;
                out.append(txt.as_str());
                proof {
                    assert(m@ == sv.methods[i as int]);
                    assert(out@ + methods_text_from(sv.methods, i as int + 1) =~= before
                        + methods_text_from(sv.methods, i as int));
                }
            },
            Err(_) => {
                proof {
                    assert(m@ == sv.methods[i as int]);
                    assert(!method_unions_resolved(sv.methods[i as int], reg.keys()));
                    assert(!all_method_unions_resolved(sv, reg.keys()));
                }
                return Err(GenError::Generation(GenerationError::UnresolvedUnion));
            },
        }
        i = i + 1;
    }
    proof {
        assert(methods_text_from(sv.methods, spec.methods@.len() as int) =~= Seq::<char>::empty());
        assert(out@ =~= target);
        assert(all_method_unions_resolved(sv, reg.keys()));
    }
    Ok(out)
}

} // verus!
