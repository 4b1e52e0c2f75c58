//! The specification model: raw input shape, the parsed type/method
//! graph, and the validating parser that turns one into the other.
//!
//! A field or parameter "type token" is a string: either a scalar
//! name, the name of a declared type, or `Array of X` where `X` is
//! itself a type token.  A list of two or more tokens denotes a union
//! over plain type names.  Tokens are parsed here, once; nothing
//! downstream re-inspects raw strings.

use vstd::prelude::*;

use crate::text::{names_view, str_eq};
use crate::SchemaError;

verus! {

// ---------------------------------------------------------------------------
// Raw input: the loosely-typed shape handed in by the caller.
// ---------------------------------------------------------------------------

/// A raw field of a type definition, or a raw parameter of a method.
pub struct RawMember {
    pub name: String,
    /// One type token, or two or more tokens denoting a union.
    pub types: Vec<String>,
    pub required: bool,
    pub description: String,
}

/// A raw type definition: a name and its fields in declaration order.
pub struct RawType {
    pub name: String,
    pub description: String,
    pub fields: Vec<RawMember>,
}

/// A raw method definition: parameters in declaration order and the
/// return type token list.
pub struct RawMethod {
    pub name: String,
    pub description: String,
    pub params: Vec<RawMember>,
    pub returns: Vec<String>,
}

/// The whole raw specification document.
pub struct RawSpec {
    pub types: Vec<RawType>,
    pub methods: Vec<RawMethod>,
}

pub struct RawMemberV {
    pub name: Seq<char>,
    pub types: Seq<Seq<char>>,
    pub required: bool,
    pub description: Seq<char>,
}

pub struct RawTypeV {
    pub name: Seq<char>,
    pub description: Seq<char>,
    pub fields: Seq<RawMemberV>,
}

pub struct RawMethodV {
    pub name: Seq<char>,
    pub description: Seq<char>,
    pub params: Seq<RawMemberV>,
    pub returns: Seq<Seq<char>>,
}

pub struct RawSpecV {
    pub types: Seq<RawTypeV>,
    pub methods: Seq<RawMethodV>,
}

impl View for RawMember {
    type V = RawMemberV;

    open spec fn view(&self) -> RawMemberV {
        RawMemberV {
            name: self.name@,
            types: names_view(self.types@),
            required: self.required,
            description: self.description@,
        }
    }
}

impl View for RawType {
    type V = RawTypeV;

    open spec fn view(&self) -> RawTypeV {
        RawTypeV {
            name: self.name@,
            description: self.description@,
            fields: self.fields@.map_values(|m: RawMember| m@),
        }
    }
}

impl View for RawMethod {
    type V = RawMethodV;

    open spec fn view(&self) -> RawMethodV {
        RawMethodV {
            name: self.name@,
            description: self.description@,
            params: self.params@.map_values(|m: RawMember| m@),
            returns: names_view(self.returns@),
        }
    }
}

impl View for RawSpec {
    type V = RawSpecV;

    open spec fn view(&self) -> RawSpecV {
        RawSpecV {
            types: self.types@.map_values(|t: RawType| t@),
            methods: self.methods@.map_values(|m: RawMethod| m@),
        }
    }
}

// ---------------------------------------------------------------------------
// Parsed model.
// ---------------------------------------------------------------------------

/// The parsed representation of a field, parameter or return type.
/// `Array of X` tokens are folded into `array_depth` levels of
/// sequence nesting around the base name.
pub enum TypeRef {
    /// A built-in scalar, possibly under array nesting.
    Scalar { array_depth: usize, name: String },
    /// A reference to a declared type or to the file-attachment
    /// pseudo-type, possibly under array nesting.
    Reference { array_depth: usize, name: String },
    /// A union over two or more plain type names, kept in source
    /// order; the registry key is derived by order-normalizing them.
    Union { names: Vec<String> },
}

/// A parsed field of a type definition, or a parsed parameter of a
/// method: name, type, required flag and description.
pub struct MemberDef {
    pub name: String,
    pub ty: TypeRef,
    pub required: bool,
    pub description: String,
}

/// A parsed type definition; field order is declaration order and
/// determines emitted member order.
pub struct TypeDef {
    pub name: String,
    pub description: String,
    pub fields: Vec<MemberDef>,
}

/// A parsed method definition; parameter order is declaration order.
pub struct MethodDef {
    pub name: String,
    pub description: String,
    pub params: Vec<MemberDef>,
    pub returns: TypeRef,
}

/// The parsed specification: types and methods in declaration order,
/// immutable once built.
pub struct ApiSpec {
    pub types: Vec<TypeDef>,
    pub methods: Vec<MethodDef>,
}

pub enum TypeRefV {
    Scalar { array_depth: nat, name: Seq<char> },
    Reference { array_depth: nat, name: Seq<char> },
    Union { names: Seq<Seq<char>> },
}

pub struct MemberV {
    pub name: Seq<char>,
    pub ty: TypeRefV,
    pub required: bool,
    pub description: Seq<char>,
}

pub struct TypeV {
    pub name: Seq<char>,
    pub description: Seq<char>,
    pub fields: Seq<MemberV>,
}

pub struct MethodV {
    pub name: Seq<char>,
    pub description: Seq<char>,
    pub params: Seq<MemberV>,
    pub returns: TypeRefV,
}

pub struct ApiSpecV {
    pub types: Seq<TypeV>,
    pub methods: Seq<MethodV>,
}

impl View for TypeRef {
    type V = TypeRefV;

    open spec fn view(&self) -> TypeRefV {
        match self {
            TypeRef::Scalar { array_depth, name } => TypeRefV::Scalar {
                array_depth: *array_depth as nat,
                name: name@,
            },
            TypeRef::Reference { array_depth, name } => TypeRefV::Reference {
                array_depth: *array_depth as nat,
                name: name@,
            },
            TypeRef::Union { names } => TypeRefV::Union { names: names_view(names@) },
        }
    }
}

impl View for MemberDef {
    type V = MemberV;

    open spec fn view(&self) -> MemberV {
        MemberV {
            name: self.name@,
            ty: self.ty@,
            required: self.required,
            description: self.description@,
        }
    }
}

impl View for TypeDef {
    type V = TypeV;

    open spec fn view(&self) -> TypeV {
        TypeV {
            name: self.name@,
            description: self.description@,
            fields: self.fields@.map_values(|m: MemberDef| m@),
        }
    }
}

impl View for MethodDef {
    type V = MethodV;

    open spec fn view(&self) -> MethodV {
        MethodV {
            name: self.name@,
            description: self.description@,
            params: self.params@.map_values(|m: MemberDef| m@),
            returns: self.returns@,
        }
    }
}

impl View for ApiSpec {
    type V = ApiSpecV;

    open spec fn view(&self) -> ApiSpecV {
        ApiSpecV {
            types: self.types@.map_values(|t: TypeDef| t@),
            methods: self.methods@.map_values(|m: MethodDef| m@),
        }
    }
}

// ---------------------------------------------------------------------------
// Names, scalars and tokens.
// ---------------------------------------------------------------------------

pub open spec fn is_alnum(c: char) -> bool {
    (('a' as u32) <= (c as u32) && (c as u32) <= ('z' as u32)) || (('A' as u32) <= (c as u32) && (c
        as u32) <= ('Z' as u32)) || (('0' as u32) <= (c as u32) && (c as u32) <= ('9' as u32))
}

/// Declared type names are non-empty and purely alphanumeric; this
/// keeps the delimiter of synthesized union names out of them.
pub open spec fn is_type_name(s: Seq<char>) -> bool {
    s.len() > 0 && (forall|i: int| 0 <= i < s.len() ==> is_alnum(#[trigger] s[i]))
}

/// Field, parameter and method names also allow underscores.
pub open spec fn is_member_name(s: Seq<char>) -> bool {
    s.len() > 0 && (forall|i: int| 0 <= i < s.len() ==> is_alnum(#[trigger] s[i]) || s[i] == '_')
}

pub open spec fn is_scalar_name(n: Seq<char>) -> bool {
    n == "String"@ || n == "Integer"@ || n == "Boolean"@ || n == "Float"@ || n == "True"@
}

/// Name of the file-attachment pseudo-type: always resolvable, never
/// declarable, emitted as a fixed two-variant sum type.
pub open spec fn input_file() -> Seq<char> {
    "InputFile"@
}

/// The token prefix that adds one level of array nesting.
pub open spec fn array_marker() -> Seq<char> {
    seq!['A', 'r', 'r', 'a', 'y', ' ', 'o', 'f', ' ']
}

proof fn lemma_array_marker()
    ensures
        "Array of "@ == array_marker(),
        array_marker().len() == 9,
{
    reveal_strlit("Array of ");
    assert("Array of "@ =~= array_marker());
}

pub open spec fn has_array_marker(s: Seq<char>) -> bool {
    s.len() >= array_marker().len() && s.take(array_marker().len() as int) == array_marker()
}

/// Number of `Array of ` layers at the front of a token.
pub open spec fn token_depth(s: Seq<char>) -> nat
    decreases s.len(),
{
    if has_array_marker(s) {
        1 + token_depth(s.skip(array_marker().len() as int))
    } else {
        0
    }
}

/// The token with all `Array of ` layers stripped.
pub open spec fn token_base(s: Seq<char>) -> Seq<char>
    decreases s.len(),
{
    if has_array_marker(s) {
        token_base(s.skip(array_marker().len() as int))
    } else {
        s
    }
}

/// A name resolves if it is a scalar, the file-attachment
/// pseudo-type, or a declared type name.
pub open spec fn resolvable(n: Seq<char>, decl: Seq<Seq<char>>) -> bool {
    is_scalar_name(n) || n == input_file() || decl.contains(n)
}

pub open spec fn declared_names(r: RawSpecV) -> Seq<Seq<char>> {
    r.types.map_values(|t: RawTypeV| t.name)
}

// ---------------------------------------------------------------------------
// Structural validity (violations are `SchemaError::Malformed`).
// ---------------------------------------------------------------------------

/// Pairwise distinctness of a name list.
pub open spec fn names_distinct(s: Seq<Seq<char>>) -> bool {
    forall|i: int, j: int| 0 <= i < j < s.len() ==> s[i] != s[j]
}

pub open spec fn member_names(ms: Seq<RawMemberV>) -> Seq<Seq<char>> {
    ms.map_values(|m: RawMemberV| m.name)
}

pub open spec fn method_names_of(r: RawSpecV) -> Seq<Seq<char>> {
    r.methods.map_values(|m: RawMethodV| m.name)
}

/// A union token list ranges over plain type names: no array layers,
/// no duplicate constituents.
pub open spec fn union_ok(tokens: Seq<Seq<char>>) -> bool {
    &&& forall|i: int| 0 <= i < tokens.len() ==> !has_array_marker(#[trigger] tokens[i])
    &&& names_distinct(tokens)
}

pub open spec fn member_tokens_ok(tokens: Seq<Seq<char>>) -> bool {
    &&& tokens.len() >= 1
    &&& tokens.len() >= 2 ==> union_ok(tokens)
}

pub open spec fn member_ok(m: RawMemberV) -> bool {
    &&& is_member_name(m.name)
    &&& member_tokens_ok(m.types)
}

pub open spec fn rawtype_ok(t: RawTypeV) -> bool {
    &&& is_type_name(t.name)
    &&& !is_scalar_name(t.name)
    &&& t.name != input_file()
    &&& forall|i: int| 0 <= i < t.fields.len() ==> member_ok(#[trigger] t.fields[i])
    &&& names_distinct(member_names(t.fields))
}

pub open spec fn rawmethod_ok(m: RawMethodV) -> bool {
    &&& is_member_name(m.name)
    &&& forall|i: int| 0 <= i < m.params.len() ==> member_ok(#[trigger] m.params[i])
    &&& names_distinct(member_names(m.params))
    &&& member_tokens_ok(m.returns)
}

/// All structural conditions; a raw specification failing any of them
/// cannot be parsed into the data model at all.
pub open spec fn structurally_ok(r: RawSpecV) -> bool {
    &&& forall|i: int| 0 <= i < r.types.len() ==> rawtype_ok(#[trigger] r.types[i])
    &&& names_distinct(declared_names(r))
    &&& forall|i: int| 0 <= i < r.methods.len() ==> rawmethod_ok(#[trigger] r.methods[i])
    &&& names_distinct(method_names_of(r))
}

// ---------------------------------------------------------------------------
// Resolution (violations are `SchemaError::UnknownType`).  Forward
// references are legal: the namespace is the full declared set.
// ---------------------------------------------------------------------------

pub open spec fn tokens_resolved(tokens: Seq<Seq<char>>, decl: Seq<Seq<char>>) -> bool {
    if tokens.len() == 1 {
        resolvable(token_base(tokens[0]), decl)
    } else {
        forall|i: int| 0 <= i < tokens.len() ==> resolvable(#[trigger] tokens[i], decl)
    }
}

pub open spec fn rawtype_resolved(t: RawTypeV, decl: Seq<Seq<char>>) -> bool {
    forall|i: int| 0 <= i < t.fields.len() ==> tokens_resolved(#[trigger] t.fields[i].types, decl)
}

pub open spec fn rawmethod_resolved(m: RawMethodV, decl: Seq<Seq<char>>) -> bool {
    &&& forall|i: int|
        0 <= i < m.params.len() ==> tokens_resolved(#[trigger] m.params[i].types, decl)
    &&& tokens_resolved(m.returns, decl)
}

pub open spec fn all_resolved(r: RawSpecV) -> bool {
    &&& forall|i: int|
        0 <= i < r.types.len() ==> rawtype_resolved(#[trigger] r.types[i], declared_names(r))
    &&& forall|i: int|
        0 <= i < r.methods.len() ==> rawmethod_resolved(#[trigger] r.methods[i], declared_names(r))
}

// ---------------------------------------------------------------------------
// Model construction: a total function of the raw view, so parsing is
// deterministic by definition.
// ---------------------------------------------------------------------------

pub open spec fn model_type_ref(tokens: Seq<Seq<char>>) -> TypeRefV {
    if tokens.len() == 1 {
        let b = token_base(tokens[0]);
        let d = token_depth(tokens[0]);
        if is_scalar_name(b) {
            TypeRefV::Scalar { array_depth: d, name: b }
        } else {
            TypeRefV::Reference { array_depth: d, name: b }
        }
    } else {
        TypeRefV::Union { names: tokens }
    }
}

pub open spec fn model_member(m: RawMemberV) -> MemberV {
    MemberV {
        name: m.name,
        ty: model_type_ref(m.types),
        required: m.required,
        description: m.description,
    }
}

pub open spec fn model_type(t: RawTypeV) -> TypeV {
    TypeV {
        name: t.name,
        description: t.description,
        fields: t.fields.map_values(|m: RawMemberV| model_member(m)),
    }
}

pub open spec fn model_method(m: RawMethodV) -> MethodV {
    MethodV {
        name: m.name,
        description: m.description,
        params: m.params.map_values(|p: RawMemberV| model_member(p)),
        returns: model_type_ref(m.returns),
    }
}

/// The parsed model as a function of the raw specification.
pub open spec fn build_spec(r: RawSpecV) -> ApiSpecV {
    ApiSpecV {
        types: r.types.map_values(|t: RawTypeV| model_type(t)),
        methods: r.methods.map_values(|m: RawMethodV| model_method(m)),
    }
}


// ---------------------------------------------------------------------------
// Resolution restated over the built model.
// ---------------------------------------------------------------------------

/// The declared type namespace of the built model.
pub open spec fn model_decl(s: ApiSpecV) -> Seq<Seq<char>> {
    s.types.map_values(|t: TypeV| t.name)
}

/// Every name a reference carries resolves to a scalar, the
/// file-attachment pseudo-type, or a declared type.
pub open spec fn ref_names_resolvable(t: TypeRefV, decl: Seq<Seq<char>>) -> bool {
    match t {
        TypeRefV::Scalar { .. } => true,
        TypeRefV::Reference { array_depth, name } => resolvable(name, decl),
        TypeRefV::Union { names } => forall|k: int|
            0 <= k < names.len() ==> resolvable(#[trigger] names[k], decl),
    }
}

pub open spec fn type_refs_resolvable(t: TypeV, decl: Seq<Seq<char>>) -> bool {
    forall|j: int| 0 <= j < t.fields.len() ==> ref_names_resolvable((#[trigger] t.fields[j]).ty, decl)
}

pub open spec fn method_refs_resolvable(m: MethodV, decl: Seq<Seq<char>>) -> bool {
    &&& forall|j: int|
        0 <= j < m.params.len() ==> ref_names_resolvable((#[trigger] m.params[j]).ty, decl)
    &&& ref_names_resolvable(m.returns, decl)
}

/// Every reference and union constituent anywhere in the model
/// resolves within the model's own namespace.
pub open spec fn model_resolved(s: ApiSpecV) -> bool {
    &&& forall|i: int|
        0 <= i < s.types.len() ==> type_refs_resolvable(#[trigger] s.types[i], model_decl(s))
    &&& forall|i: int|
        0 <= i < s.methods.len() ==> method_refs_resolvable(#[trigger] s.methods[i], model_decl(s))
}

// ---------------------------------------------------------------------------
// Executable validation helpers.
// ---------------------------------------------------------------------------

fn check_type_name(s: &str) -> (r: bool)
    ensures
        r == is_type_name(s@),
{
    let n = s.unicode_len();
    if n == 0 {
        return false;
    }
    let mut i: usize = 0;
    while i < n
        invariant
            n == s@.len(),
            0 <= i <= n,
            forall|j: int| 0 <= j < i ==> is_alnum(#[trigger] s@[j]),
        decreases n - i,
    {
        let c = s.get_char(i);
        let u = c as u32;
        if !((97 <= u && u <= 122) || (65 <= u && u <= 90) || (48 <= u && u <= 57)) {
            assert(!is_alnum(s@[i as int]));
            return false;
        }
        i = i + 1;
    }
    true
}

fn check_member_name(s: &str) -> (r: bool)
    ensures
        r == is_member_name(s@),
{
    let n = s.unicode_len();
    if n == 0 {
        return false;
    }
    let mut i: usize = 0;
    while i < n
        invariant
            n == s@.len(),
            0 <= i <= n,
            forall|j: int| 0 <= j < i ==> is_alnum(#[trigger] s@[j]) || s@[j] == '_',
        decreases n - i,
    {
        let c = s.get_char(i);
        let u = c as u32;
        if !((97 <= u && u <= 122) || (65 <= u && u <= 90) || (48 <= u && u <= 57) || c == '_') {
            assert(!(is_alnum(s@[i as int]) || s@[i as int] == '_'));
            return false;
        }
        i = i + 1;
    }
    true
}

pub(crate) fn is_scalar_str(s: &str) -> (r: bool)
    ensures
        r == is_scalar_name(s@),
{
    str_eq(s, "String") || str_eq(s, "Integer") || str_eq(s, "Boolean") || str_eq(s, "Float")
        || str_eq(s, "True")
}

fn has_marker(s: &str) -> (r: bool)
    ensures
        r == has_array_marker(s@),
{
    proof {
        lemma_array_marker();
    }
    let n = s.unicode_len();
    if n < 9 {
        return false;
    }
    let head = s.substring_char(0, 9);
    assert(head@ =~= s@.take(9));
    str_eq(head, "Array of ")
}

/// Splits a token into its base name and the number of `Array of `
/// layers wrapped around it.
fn strip_token(s: &str) -> (r: (String, usize))
    ensures
        r.0@ == token_base(s@),
        r.1 as nat == token_depth(s@),
{
    let n = s.unicode_len();
    let mut i: usize = 0;
    let mut depth: usize = 0;
    proof {
        assert(s@.skip(0) =~= s@);
    }
    loop
        invariant
            n == s@.len(),
            0 <= i <= n,
            i == 9 * depth,
            token_depth(s@) == depth + token_depth(s@.skip(i as int)),
            token_base(s@) == token_base(s@.skip(i as int)),
        ensures
            n == s@.len(),
            0 <= i <= n,
            token_depth(s@) == depth + token_depth(s@.skip(i as int)),
            token_base(s@) == token_base(s@.skip(i as int)),
            !has_array_marker(s@.skip(i as int)),
        decreases n - i,
    {
        proof {
            lemma_array_marker();
        }
        if n - i < 9 {
            assert(s@.skip(i as int).len() < array_marker().len());
            assert(!has_array_marker(s@.skip(i as int)));
            break;
        }
        let head = s.substring_char(i, i + 9);
        assert(head@ =~= s@.skip(i as int).take(9));
        if !str_eq(head, "Array of ") {
            assert(!has_array_marker(s@.skip(i as int)));
            break;
        }
        proof {
            assert(has_array_marker(s@.skip(i as int)));
            assert(s@.skip(i as int).skip(9) =~= s@.skip(i as int + 9));
            assert(token_depth(s@.skip(i as int)) == 1 + token_depth(s@.skip(i as int + 9)));
            assert(token_base(s@.skip(i as int)) == token_base(s@.skip(i as int + 9)));
        }
        i = i + 9;
        depth = depth + 1;
    }
    let base = s.substring_char(i, n).to_owned();
    proof {
        assert(base@ =~= s@.skip(i as int));
        assert(token_base(s@.skip(i as int)) == s@.skip(i as int));
        assert(token_depth(s@.skip(i as int)) == 0);
    }
    (base, depth)
}

/// True when every pair of names in the list differs.
pub(crate) fn distinct_names(v: &Vec<String>) -> (r: bool)
    ensures
        r == names_distinct(names_view(v@)),
{
    let n = v.len();
    let mut i: usize = 0;
    while i < n
        invariant
            n == v@.len(),
            0 <= i <= n,
            forall|p: int, q: int| 0 <= p < q < i ==> names_view(v@)[p] != names_view(v@)[q],
        decreases n - i,
    {
        let mut j: usize = 0;
        while j < i
            invariant
                n == v@.len(),
                0 <= j <= i < n,
                forall|p: int| 0 <= p < j ==> names_view(v@)[p] != names_view(v@)[i as int],
            decreases i - j,
        {
            if str_eq(v[j].as_str(), v[i].as_str()) {
                assert(!names_distinct(names_view(v@))) by {
                    assert(names_view(v@)[j as int] == names_view(v@)[i as int]);
                }
                return false;
            }
            j = j + 1;
        }
        i = i + 1;
    }
    true
}

pub(crate) fn contains_name(decl: &Vec<String>, n: &str) -> (r: bool)
    ensures
        r == names_view(decl@).contains(n@),
{
    let mut i: usize = 0;
    while i < decl.len()
        invariant
            0 <= i <= decl@.len(),
            forall|j: int| 0 <= j < i ==> names_view(decl@)[j] != n@,
        decreases decl@.len() - i,
    {
        if str_eq(decl[i].as_str(), n) {
            assert(names_view(decl@)[i as int] == n@);
            return true;
        }
        i = i + 1;
    }
    assert(!names_view(decl@).contains(n@)) by {
        assert(forall|j: int|
            0 <= j < names_view(decl@).len() ==> names_view(decl@)[j] != n@);
    }
    false
}

fn resolves(n: &str, decl: &Vec<String>) -> (r: bool)
    ensures
        r == resolvable(n@, names_view(decl@)),
{
    if is_scalar_str(n) {
        return true;
    }
    if str_eq(n, "InputFile") {
        return true;
    }
    contains_name(decl, n)
}

/// Structural check of one raw member (field or parameter).
fn check_member(m: &RawMember) -> (r: bool)
    ensures
        r == member_ok(m@),
{
    if !check_member_name(m.name.as_str()) {
        return false;
    }
    if m.types.len() == 0 {
        assert(m@.types.len() == 0);
        return false;
    }
    if m.types.len() >= 2 {
        let mut k: usize = 0;
        while k < m.types.len()
            invariant
                m.types@.len() >= 2,
                0 <= k <= m.types@.len(),
                forall|l: int| 0 <= l < k ==> !has_array_marker(#[trigger] m@.types[l]),
            decreases m.types@.len() - k,
        {
            if has_marker(m.types[k].as_str()) {
                assert(has_array_marker(m@.types[k as int]));
                assert(!union_ok(m@.types));
                return false;
            }
            k = k + 1;
        }
        if !distinct_names(&m.types) {
            assert(!union_ok(m@.types));
            return false;
        }
        assert(union_ok(m@.types));
    }
    true
}

fn clone_names(v: &Vec<String>) -> (r: Vec<String>)
    ensures
        names_view(r@) == names_view(v@),
{
    let mut r: Vec<String> = Vec::new();
    let mut i: usize = 0;
    while i < v.len()
        invariant
            0 <= i <= v@.len(),
            r@.len() == i,
            forall|j: int| 0 <= j < i ==> r@[j]@ == v@[j]@,
        decreases v@.len() - i,
    {
        r.push(v[i].clone());
        i = i + 1;
    }
    assert(names_view(r@) =~= names_view(v@));
    r
}

/// Parses one token list into its `TypeRef`, resolving names against
/// the declared namespace.
fn build_type_ref(tokens: &Vec<String>, decl: &Vec<String>) -> (r: Result<TypeRef, SchemaError>)
    requires
        member_tokens_ok(names_view(tokens@)),
    ensures
        r is Ok <==> tokens_resolved(names_view(tokens@), names_view(decl@)),
        r is Ok ==> r->Ok_0@ == model_type_ref(names_view(tokens@)),
        r is Err ==> r->Err_0 == SchemaError::UnknownType,
{
    if tokens.len() == 1 {
        assert(names_view(tokens@)[0] == tokens@[0]@);
        let (base, depth) = strip_token(tokens[0].as_str());
        if !resolves(base.as_str(), decl) {
            assert(!tokens_resolved(names_view(tokens@), names_view(decl@)));
            return Err(SchemaError::UnknownType);
        }
        if is_scalar_str(base.as_str()) {
            let t = TypeRef::Scalar { array_depth: depth, name: base };
            assert(t@ == model_type_ref(names_view(tokens@)));
            Ok(t)
        } else {
            let t = TypeRef::Reference { array_depth: depth, name: base };
            assert(t@ == model_type_ref(names_view(tokens@)));
            Ok(t)
        }
    } else {
        let mut k: usize = 0;
        while k < tokens.len()
            invariant
                tokens@.len() >= 2,
                0 <= k <= tokens@.len(),
                forall|l: int|
                    0 <= l < k ==> resolvable(#[trigger] names_view(tokens@)[l], names_view(decl@)),
            decreases tokens@.len() - k,
        {
            if !resolves(tokens[k].as_str(), decl) {
                assert(!tokens_resolved(names_view(tokens@), names_view(decl@))) by {
                    assert(!resolvable(names_view(tokens@)[k as int], names_view(decl@)));
                }
                return Err(SchemaError::UnknownType);
            }
            k = k + 1;
        }
        let t = TypeRef::Union { names: clone_names(tokens) };
        assert(t@ == model_type_ref(names_view(tokens@)));
        Ok(t)
    }
}

/// Parses and resolves one raw member.
fn build_member(m: &RawMember, decl: &Vec<String>) -> (r: Result<MemberDef, SchemaError>)
    requires
        member_ok(m@),
    ensures
        r is Ok <==> tokens_resolved(m@.types, names_view(decl@)),
        r is Ok ==> r->Ok_0@ == model_member(m@),
        r is Err ==> r->Err_0 == SchemaError::UnknownType,
{
    let ty = match build_type_ref(&m.types, decl) {
        Ok(t) => t,
        Err(e) => {
            return Err(e);
        },
    };
    Ok(
        MemberDef {
            name: m.name.clone(),
            ty,
            required: m.required,
            description: m.description.clone(),
        },
    )
}

// ---------------------------------------------------------------------------
// The parser.
// ---------------------------------------------------------------------------

/// Validates the raw specification and builds the parsed model.
///
/// Succeeds exactly when the input is structurally valid and every
/// referenced name resolves; the result is a pure function of the
/// input, so parsing is deterministic.  Structural errors take
/// precedence over resolution errors, and the first error aborts the
/// whole run.
pub fn parse(raw: &RawSpec) -> (r: Result<ApiSpec, SchemaError>)
    ensures
        r is Ok <==> structurally_ok(raw@) && all_resolved(raw@),
        r is Ok ==> r->Ok_0@ == build_spec(raw@),
        (r is Err && r->Err_0 == SchemaError::Malformed) <==> !structurally_ok(raw@),
        (r is Err && r->Err_0 == SchemaError::UnknownType) <==> (structurally_ok(raw@)
            && !all_resolved(raw@)),
{
    // Phase one: structural validity.
    let mut type_names: Vec<String> = Vec::new();
    let mut ti: usize = 0;
    while ti < raw.types.len()
        invariant
            0 <= ti <= raw.types@.len(),
            type_names@.len() == ti,
            forall|i: int| 0 <= i < ti ==> type_names@[i]@ == raw@.types[i].name,
            forall|i: int| 0 <= i < ti ==> rawtype_ok(#[trigger] raw@.types[i]),
        decreases raw.types@.len() - ti,
    {
        let t = &raw.types[ti];
        if !check_type_name(t.name.as_str()) {
            assert(!rawtype_ok(raw@.types[ti as int]));
            return Err(SchemaError::Malformed);
        }
        if is_scalar_str(t.name.as_str()) || str_eq(t.name.as_str(), "InputFile") {
            assert(!rawtype_ok(raw@.types[ti as int]));
            return Err(SchemaError::Malformed);
        }
        let mut field_names: Vec<String> = Vec::new();
        let mut fj: usize = 0;
        while fj < t.fields.len()
            invariant
                0 <= ti < raw.types@.len(),
                t == raw.types@[ti as int],
                0 <= fj <= t.fields@.len(),
                field_names@.len() == fj,
                forall|i: int| 0 <= i < fj ==> field_names@[i]@ == t@.fields[i].name,
                forall|i: int| 0 <= i < fj ==> member_ok(#[trigger] t@.fields[i]),
            decreases t.fields@.len() - fj,
        {
            let m = &t.fields[fj];
            if !check_member(m) {
                assert(!member_ok(t@.fields[fj as int]));
                assert(!rawtype_ok(raw@.types[ti as int]));
                return Err(SchemaError::Malformed);
            }
            field_names.push(m.name.clone());
            fj = fj + 1;
        }
        if !distinct_names(&field_names) {
            assert(names_view(field_names@) =~= member_names(t@.fields));
            assert(!rawtype_ok(raw@.types[ti as int]));
            return Err(SchemaError::Malformed);
        }
        proof {
            assert(names_view(field_names@) =~= member_names(t@.fields));
            assert(rawtype_ok(raw@.types[ti as int]));
        }
        type_names.push(t.name.clone());
        ti = ti + 1;
    }
    if !distinct_names(&type_names) {
        assert(names_view(type_names@) =~= declared_names(raw@));
        assert(!structurally_ok(raw@));
        return Err(SchemaError::Malformed);
    }
    proof {
        assert(names_view(type_names@) =~= declared_names(raw@));
    }
    let mut method_names: Vec<String> = Vec::new();
    let mut mi: usize = 0;
    while mi < raw.methods.len()
        invariant
            0 <= mi <= raw.methods@.len(),
            method_names@.len() == mi,
            forall|i: int| 0 <= i < mi ==> method_names@[i]@ == raw@.methods[i].name,
            forall|i: int| 0 <= i < mi ==> rawmethod_ok(#[trigger] raw@.methods[i]),
        decreases raw.methods@.len() - mi,
    {
        let m = &raw.methods[mi];
        if !check_member_name(m.name.as_str()) {
            assert(!rawmethod_ok(raw@.methods[mi as int]));
            return Err(SchemaError::Malformed);
        }
        let mut param_names: Vec<String> = Vec::new();
        let mut pj: usize = 0;
        while pj < m.params.len()
            invariant
                0 <= mi < raw.methods@.len(),
                m == raw.methods@[mi as int],
                0 <= pj <= m.params@.len(),
                param_names@.len() == pj,
                forall|i: int| 0 <= i < pj ==> param_names@[i]@ == m@.params[i].name,
                forall|i: int| 0 <= i < pj ==> member_ok(#[trigger] m@.params[i]),
            decreases m.params@.len() - pj,
        {
            let p = &m.params[pj];
            if !check_member(p) {
                assert(!member_ok(m@.params[pj as int]));
                assert(!rawmethod_ok(raw@.methods[mi as int]));
                return Err(SchemaError::Malformed);
            }
            param_names.push(p.name.clone());
            pj = pj + 1;
        }
        if !distinct_names(&param_names) {
            assert(names_view(param_names@) =~= member_names(m@.params));
            assert(!rawmethod_ok(raw@.methods[mi as int]));
            return Err(SchemaError::Malformed);
        }
        // Validate the return token list with the same member rules.
        if m.returns.len() == 0 {
            assert(raw@.methods[mi as int].returns.len() == 0);
            assert(!member_tokens_ok(raw@.methods[mi as int].returns));
            assert(!rawmethod_ok(raw@.methods[mi as int]));
            return Err(SchemaError::Malformed);
        }
        let ret_probe = RawMember {
            name: String::from_str("r"),
            types: clone_names(&m.returns),
            required: true,
            description: String::new(),
        };
        if !check_member(&ret_probe) {
            proof {
                reveal_strlit("r");
                assert(is_member_name(ret_probe@.name));
                assert(ret_probe@.types =~= raw@.methods[mi as int].returns);
                assert(!member_tokens_ok(raw@.methods[mi as int].returns));
                assert(!rawmethod_ok(raw@.methods[mi as int]));
            }
            return Err(SchemaError::Malformed);
        }
        proof {
            assert(names_view(param_names@) =~= member_names(m@.params));
            assert(ret_probe@.types =~= raw@.methods[mi as int].returns);
            assert(member_tokens_ok(raw@.methods[mi as int].returns));
            assert(rawmethod_ok(raw@.methods[mi as int]));
        }
        method_names.push(m.name.clone());
        mi = mi + 1;
    }
    if !distinct_names(&method_names) {
        assert(names_view(method_names@) =~= method_names_of(raw@));
        assert(!structurally_ok(raw@));
        return Err(SchemaError::Malformed);
    }
    proof {
        assert(names_view(method_names@) =~= method_names_of(raw@));
        assert(structurally_ok(raw@));
        assert(names_view(type_names@) =~= declared_names(raw@));
    }

    // Phase two: resolution and model construction.
    let mut out_types: Vec<TypeDef> = Vec::new();
    let mut bi: usize = 0;
    while bi < raw.types.len()
        invariant
            structurally_ok(raw@),
            names_view(type_names@) == declared_names(raw@),
            0 <= bi <= raw.types@.len(),
            out_types@.len() == bi,
            forall|i: int| 0 <= i < bi ==> out_types@[i]@ == model_type(#[trigger] raw@.types[i]),
            forall|i: int|
                0 <= i < bi ==> rawtype_resolved(#[trigger] raw@.types[i], declared_names(raw@)),
        decreases raw.types@.len() - bi,
    {
        let t = &raw.types[bi];
        let mut fields: Vec<MemberDef> = Vec::new();
        let mut fj: usize = 0;
        while fj < t.fields.len()
            invariant
                structurally_ok(raw@),
                names_view(type_names@) == declared_names(raw@),
                0 <= bi < raw.types@.len(),
                t == raw.types@[bi as int],
                0 <= fj <= t.fields@.len(),
                fields@.len() == fj,
                forall|i: int| 0 <= i < fj ==> fields@[i]@ == model_member(#[trigger] t@.fields[i]),
                forall|i: int|
                    0 <= i < fj ==> tokens_resolved(
                        #[trigger] t@.fields[i].types,
                        declared_names(raw@),
                    ),
            decreases t.fields@.len() - fj,
        {
            let m = &t.fields[fj];
            proof {
                assert(rawtype_ok(raw@.types[bi as int]));
                assert(t@ == raw@.types[bi as int]);
                assert(member_ok(t@.fields[fj as int]));
            }
            match build_member(m, &type_names) {
                Ok(md) => {
                    fields.push(md);
                },
                Err(_) => {
                    assert(!tokens_resolved(t@.fields[fj as int].types, declared_names(raw@)));
                    assert(!rawtype_resolved(raw@.types[bi as int], declared_names(raw@)));
                    assert(!all_resolved(raw@));
                    return Err(SchemaError::UnknownType);
                },
            }
            fj = fj + 1;
        }
        let td = TypeDef { name: t.name.clone(), description: t.description.clone(), fields };
        proof {
            assert(t@ == raw@.types[bi as int]);
            assert(td@.fields =~= model_type(raw@.types[bi as int]).fields);
            assert(td@ == model_type(raw@.types[bi as int]));
            assert(rawtype_resolved(raw@.types[bi as int], declared_names(raw@)));
        }
        out_types.push(td);
        bi = bi + 1;
    }
    let mut out_methods: Vec<MethodDef> = Vec::new();
    let mut mi2: usize = 0;
    while mi2 < raw.methods.len()
        invariant
            structurally_ok(raw@),
            names_view(type_names@) == declared_names(raw@),
            0 <= mi2 <= raw.methods@.len(),
            out_methods@.len() == mi2,
            forall|i: int|
                0 <= i < mi2 ==> out_methods@[i]@ == model_method(#[trigger] raw@.methods[i]),
            forall|i: int|
                0 <= i < mi2 ==> rawmethod_resolved(
                    #[trigger] raw@.methods[i],
                    declared_names(raw@),
                ),
            forall|i: int|
                0 <= i < raw.types@.len() ==> rawtype_resolved(
                    #[trigger] raw@.types[i],
                    declared_names(raw@),
                ),
            out_types@.len() == raw.types@.len(),
            forall|i: int|
                0 <= i < raw.types@.len() ==> out_types@[i]@ == model_type(
                    #[trigger] raw@.types[i],
                ),
        decreases raw.methods@.len() - mi2,
    {
        let m = &raw.methods[mi2];
        let mut params: Vec<MemberDef> = Vec::new();
        let mut pj: usize = 0;
        while pj < m.params.len()
            invariant
                structurally_ok(raw@),
                names_view(type_names@) == declared_names(raw@),
                0 <= mi2 < raw.methods@.len(),
                m == raw.methods@[mi2 as int],
                0 <= pj <= m.params@.len(),
                params@.len() == pj,
                forall|i: int| 0 <= i < pj ==> params@[i]@ == model_member(#[trigger] m@.params[i]),
                forall|i: int|
                    0 <= i < pj ==> tokens_resolved(
                        #[trigger] m@.params[i].types,
                        declared_names(raw@),
                    ),
            decreases m.params@.len() - pj,
        {
            let p = &m.params[pj];
            proof {
                assert(rawmethod_ok(raw@.methods[mi2 as int]));
                assert(m@ == raw@.methods[mi2 as int]);
                assert(member_ok(m@.params[pj as int]));
            }
            match build_member(p, &type_names) {
                Ok(md) => {
                    params.push(md);
                },
                Err(_) => {
                    assert(!tokens_resolved(m@.params[pj as int].types, declared_names(raw@)));
                    assert(!rawmethod_resolved(raw@.methods[mi2 as int], declared_names(raw@)));
                    assert(!all_resolved(raw@));
                    return Err(SchemaError::UnknownType);
                },
            }
            pj = pj + 1;
        }
        proof {
            assert(rawmethod_ok(raw@.methods[mi2 as int]));
            assert(m@ == raw@.methods[mi2 as int]);
            assert(member_tokens_ok(raw@.methods[mi2 as int].returns));
        }
        let ret = match build_type_ref(&m.returns, &type_names) {
            Ok(t) => t,
            Err(_) => {
                assert(!tokens_resolved(raw@.methods[mi2 as int].returns, declared_names(raw@)));
                assert(!rawmethod_resolved(raw@.methods[mi2 as int], declared_names(raw@)));
                assert(!all_resolved(raw@));
                return Err(SchemaError::UnknownType);
            },
        };
        let md = MethodDef {
            name: m.name.clone(),
            description: m.description.clone(),
            params,
            returns: ret,
        };
        proof {
            assert(md@.params =~= model_method(raw@.methods[mi2 as int]).params);
            assert(md@ == model_method(raw@.methods[mi2 as int]));
            assert(rawmethod_resolved(raw@.methods[mi2 as int], declared_names(raw@)));
        }
        out_methods.push(md);
        mi2 = mi2 + 1;
    }
    let out = ApiSpec { types: out_types, methods: out_methods };
    proof {
        assert(all_resolved(raw@));
        assert(out@.types =~= build_spec(raw@).types);
        assert(out@.methods =~= build_spec(raw@).methods);
        assert(out@ == build_spec(raw@));
    }
    Ok(out)
}

} // verus!
