//! Schema-driven source generator: parses a machine-readable API
//! description (named types with fields, methods with parameters and
//! return types) into an in-memory model, synthesizes sum types for
//! fields and parameters that accept more than one type, and emits
//! deterministic source text for both the type definitions and the
//! method bindings.

use vstd::prelude::*;

pub mod laws;
pub mod methods;
pub mod naming;
pub mod registry;
pub mod schema;
pub mod text;
pub mod types;

verus! {

/// The raw input could not be turned into the data model.
#[derive(Clone, Copy, Debug, PartialEq, Eq, Structural)]
pub enum SchemaError {
    /// The input is structurally invalid: an empty or duplicated
    /// name, an empty type-token list, or a union over anything but
    /// distinct plain type names.
    Malformed,
    /// A type token references a name that is neither a scalar nor
    /// any declared type after a full parse pass.
    UnknownType,
}

/// A naming failure during generation.
#[derive(Clone, Copy, Debug, PartialEq, Eq, Structural)]
pub enum NamingError {
    /// Two distinct spec-level names resolve to the same target
    /// identifier after escaping; fatal, never silently disambiguated.
    ReservedCollision,
}

/// A generation-phase failure.
#[derive(Clone, Copy, Debug, PartialEq, Eq, Structural)]
pub enum GenerationError {
    /// A method references a union key never registered during type
    /// generation: an ordering violation or an inconsistent input.
    UnresolvedUnion,
}

/// Any error a generation run can abort with; callers see exactly the
/// first error encountered, and no partial output.
#[derive(Clone, Copy, Debug, PartialEq, Eq, Structural)]
pub enum GenError {
    Schema(SchemaError),
    Naming(NamingError),
    Generation(GenerationError),
}

} // verus!

use crate::registry::MultitypeRegistry;
use crate::schema::{all_resolved, build_spec, parse, structurally_ok, ApiSpec, ApiSpecV, RawSpec};
use crate::methods::{all_method_unions_resolved, generate_methods_text, methods_collision_free,
    methods_output};
use crate::types::{all_type_keys, generate_types_text, types_collision_free, types_output};

verus! {

/// Generator for both the types block and the methods block of one
/// specification: the parsed model plus the multitype registry shared
/// by the two generation phases.
pub struct Generate {
    spec: ApiSpec,
    multitypes: MultitypeRegistry,
}

impl Generate {
    /// The registry invariant carried between the phases.
    pub closed spec fn wf(self) -> bool {
        self.multitypes.wf()
    }

    /// The parsed specification model this generator works from.
    pub closed spec fn spec_model(self) -> ApiSpecV {
        self.spec@
    }

    /// The union keys registered so far.
    pub closed spec fn keys(self) -> Set<Seq<Seq<char>>> {
        self.multitypes.keys()
    }

    /// Parses a raw specification into a generator with an empty
    /// registry.  Succeeds exactly when the input is structurally
    /// valid and every referenced name resolves.
    pub fn new(raw: &RawSpec) -> (r: Result<Generate, SchemaError>)
        ensures
            r is Ok <==> structurally_ok(raw@) && all_resolved(raw@),
            r is Ok ==> {
                &&& r->Ok_0.wf()
                &&& r->Ok_0.spec_model() == build_spec(raw@)
                &&& r->Ok_0.keys() == Set::<Seq<Seq<char>>>::empty()
            },
            (r is Err && r->Err_0 == SchemaError::Malformed) <==> !structurally_ok(raw@),
            (r is Err && r->Err_0 == SchemaError::UnknownType) <==> (structurally_ok(raw@)
                && !all_resolved(raw@)),
    {
        match parse(raw) {
            Ok(spec) => Ok(Generate { spec, multitypes: MultitypeRegistry::new() }),
            Err(e) => Err(e),
        }
    }

    /// Emits the types block, populating the multitype registry with
    /// every union key the type definitions use.  Must complete
    /// before method generation begins: the registry is read-only
    /// afterwards.
    pub fn generate_types(&mut self) -> (r: Result<String, GenError>)
        requires
            old(self).wf(),
        ensures
            final(self).wf(),
            final(self).spec_model() == old(self).spec_model(),
            r is Ok <==> types_collision_free(old(self).spec_model()),
            r is Ok ==> r->Ok_0@ == types_output(old(self).spec_model(), old(self).keys()),
            r is Ok ==> final(self).keys() == old(self).keys().union(
                all_type_keys(old(self).spec_model()),
            ),
            r is Err ==> r->Err_0 == GenError::Naming(NamingError::ReservedCollision)
                && *final(self) == *old(self),
    {
        match generate_types_text(&self.spec, &mut self.multitypes) {
            Ok(text) => Ok(text),
            Err(e) => Err(GenError::Naming(e)),
        }
    }

    /// Emits the methods block, resolving every union the methods
    /// reference by registry lookup; a key never registered during
    /// type generation aborts the run.
    pub fn generate_methods(&self) -> (r: Result<String, GenError>)
        requires
            self.wf(),
        ensures
            r is Ok <==> methods_collision_free(self.spec_model()) && all_method_unions_resolved(
                self.spec_model(),
                self.keys(),
            ),
            r is Ok ==> r->Ok_0@ == methods_output(self.spec_model()),
            (r is Err && r->Err_0 == GenError::Naming(NamingError::ReservedCollision))
                <==> !methods_collision_free(self.spec_model()),
            (r is Err && r->Err_0 == GenError::Generation(GenerationError::UnresolvedUnion)) <==> (
            methods_collision_free(self.spec_model()) && !all_method_unions_resolved(
                self.spec_model(),
                self.keys(),
            )),
    {
        generate_methods_text(&self.spec, &self.multitypes)
    }

    /// Sequences the two phases: the types block is generated first
    /// and fully populates the registry, then the methods block is
    /// generated against it.  Aborts on the first error from either
    /// stage; no partial output is returned.
    pub fn generate(&mut self) -> (r: Result<(String, String), GenError>)
        requires
            old(self).wf(),
        ensures
            final(self).wf(),
            r is Ok <==> (types_collision_free(old(self).spec_model()) && methods_collision_free(
                old(self).spec_model(),
            ) && all_method_unions_resolved(
                old(self).spec_model(),
                old(self).keys().union(all_type_keys(old(self).spec_model())),
            )),
            r is Ok ==> r->Ok_0.0@ == types_output(old(self).spec_model(), old(self).keys()),
            r is Ok ==> r->Ok_0.1@ == methods_output(old(self).spec_model()),
    {
        let types_block = match self.generate_types() {
            Ok(t) => t,
            Err(e) => {
                return Err(e);
            },
        };
        let methods_block = match self.generate_methods() {
            Ok(m) => m,
            Err(e) => {
                return Err(e);
            },
        };
        Ok((types_block, methods_block))
    }
}

/// The whole generation run: parses the raw specification, generates
/// the types block (populating the registry), then the methods block
/// against it.  Aborts on the first error from any stage — either
/// both blocks are fully produced or generation fails as a whole.
pub fn run_generation(raw: &RawSpec) -> (r: Result<(String, String), GenError>)
    ensures
        r is Ok <==> (structurally_ok(raw@) && all_resolved(raw@) && types_collision_free(
            build_spec(raw@),
        ) && methods_collision_free(build_spec(raw@)) && all_method_unions_resolved(
            build_spec(raw@),
            all_type_keys(build_spec(raw@)),
        )),
        r is Ok ==> r->Ok_0.0@ == types_output(build_spec(raw@), Set::empty()),
        r is Ok ==> r->Ok_0.1@ == methods_output(build_spec(raw@)),
        (r is Err && r->Err_0 == GenError::Schema(SchemaError::Malformed))
            <==> !structurally_ok(raw@),
        (r is Err && r->Err_0 == GenError::Schema(SchemaError::UnknownType)) <==> (
        structurally_ok(raw@) && !all_resolved(raw@)),
        (r is Err && r->Err_0 == GenError::Naming(NamingError::ReservedCollision)) <==> (
        structurally_ok(raw@) && all_resolved(raw@) && !(types_collision_free(build_spec(raw@))
            && methods_collision_free(build_spec(raw@)))),
        (r is Err && r->Err_0 == GenError::Generation(GenerationError::UnresolvedUnion)) <==> (
        structurally_ok(raw@) && all_resolved(raw@) && types_collision_free(build_spec(raw@))
            && methods_collision_free(build_spec(raw@)) && !all_method_unions_resolved(
            build_spec(raw@),
            all_type_keys(build_spec(raw@)),
        )),
{
    let mut g = match Generate::new(raw) {
        Ok(g) => g,
        Err(e) => {
            return Err(GenError::Schema(e));
        },
    };
    let types_block = match g.generate_types() {
        Ok(t) => t,
        Err(e) => {
            return Err(e);
        },
    };
    proof {
        assert(Set::<Seq<Seq<char>>>::empty().union(all_type_keys(build_spec(raw@)))
            =~= all_type_keys(build_spec(raw@)));
    }
    let methods_block = match g.generate_methods() {
        Ok(m) => m,
        Err(e) => {
            return Err(e);
        },
    };
    Ok((types_block, methods_block))
}

} // verus!
