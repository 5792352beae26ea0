//! The type model: a closed set of type variants together with the two
//! structural classification predicates `is_first_class` and `is_sized`.
//!
//! Types are immutable, structurally compared values; they are built either
//! programmatically or by the parser.  Each executable type has a ghost
//! counterpart (`TypeV` and friends) that the contracts of the whole crate
//! speak about.

use vstd::prelude::*;

verus! {

broadcast use vstd::std_specs::vec::axiom_vec_index_decreases;

/// A specific kind of floating point type.
#[derive(Copy, Clone, Debug, PartialEq, Eq, Structural)]
pub enum FloatingPointKind {
    /// 16 bit IEEE-754-2008 `binary16`, the `half` type.
    Binary16,
    /// 16 bit float with the dynamic range of `Binary32`, the `bfloat` type.
    Brain,
    /// 32 bit IEEE-754-2008 `binary32`, the `float` type.
    Binary32,
    /// 64 bit IEEE-754-2008 `binary64`, the `double` type.
    Binary64,
    /// 128 bit IEEE-754-2008 `binary128`, the `fp128` type.
    Binary128,
    /// 80 bit x87 extended precision, the `x86_fp80` type.
    X86Fp80,
    /// 128 bit PowerPC double-double, the `ppc_fp128` type.
    PpcFp128,
}

/// An address space that a pointer can point into.
#[derive(Clone, Debug, PartialEq, Eq)]
pub enum AddressSpace {
    Numbered(usize),
    Named(String),
}

/// Ghost model of an [`AddressSpace`].
#[verifier::ext_equal]
pub enum AddressSpaceV {
    Numbered(nat),
    Named(Seq<char>),
}

impl View for AddressSpace {
    type V = AddressSpaceV;

    open spec fn view(&self) -> AddressSpaceV {
        match self {
            AddressSpace::Numbered(n) => AddressSpaceV::Numbered(*n as nat),
            AddressSpace::Named(s) => AddressSpaceV::Named(s@),
        }
    }
}

/// A parameter of a target extension type: either a type or a bare integer.
#[derive(Debug, PartialEq, Eq)]
pub enum TargetExtensionParameter {
    Type(Type),
    Integer(usize),
}

/// Ghost model of a [`TargetExtensionParameter`].
#[verifier::ext_equal]
pub enum TargetExtensionParameterV {
    Type(TypeV),
    Integer(nat),
}

/// A type of the intermediate representation.
#[derive(Debug, PartialEq, Eq)]
pub enum Type {
    /// The void type; represents no value.  Neither first-class nor sized.
    Void,
    /// A function type: return type plus parameter types.
    /// Neither first-class nor sized.
    Function {
        /// The return type of the function.
        return_type: Box<Type>,
        /// The parameter types, in order.
        parameters: Vec<Type>,
        /// Whether the function takes C-style varargs.
        has_varargs: bool,
    },
    /// An integer type of arbitrary bit width.  First-class and sized.
    Integer {
        /// The width in bits; the minimum meaningful width is 1.
        bit_width: usize,
    },
    /// A floating point type.  First-class and sized.
    FloatingPoint {
        kind: FloatingPointKind,
    },
    /// A value held in an x86 AMX register.  First-class but not sized.
    AMX,
    /// A value held in an x86 MMX register.  First-class but not sized.
    MMX,
    /// A pointer into some address space.  First-class and sized.
    Pointer {
        address_space: AddressSpace,
    },
    /// A target-specific type known only by name and parameter list.
    /// First-class.
    TargetExtension {
        name: String,
        parameters: Vec<TargetExtensionParameter>,
    },
    /// A vector of first-class elements.  First-class and sized.
    Vector {
        /// The number of elements; must be greater than 0.
        length: usize,
        element_type: Box<Type>,
        /// When true the real element count is an unknown constant
        /// multiple of `length`.
        is_scalable: bool,
    },
    /// The type of code labels.  Neither first-class nor sized.
    Label,
    /// The token type.  Neither first-class nor sized.
    Token,
    /// Embedded metadata.  Neither first-class nor sized.
    Metadata,
    /// A constant-length array.  Sized but not first-class.
    Array {
        /// The number of elements; must be greater than 0.
        length: usize,
        element_type: Box<Type>,
    },
    /// A structure of ordered fields.  Sized but not first-class.
    Structure {
        types: Vec<Type>,
        is_packed: bool,
    },
    /// A structure whose contents are not defined yet.
    /// Neither first-class nor sized.
    OpaqueStructure,
}

/// Ghost model of a [`Type`].
#[verifier::ext_equal]
pub enum TypeV {
    Void,
    Function { return_type: Box<TypeV>, parameters: Seq<TypeV>, has_varargs: bool },
    Integer { bit_width: nat },
    FloatingPoint { kind: FloatingPointKind },
    AMX,
    MMX,
    Pointer { address_space: AddressSpaceV },
    TargetExtension { name: Seq<char>, parameters: Seq<TargetExtensionParameterV> },
    Vector { length: nat, element_type: Box<TypeV>, is_scalable: bool },
    Label,
    Token,
    Metadata,
    Array { length: nat, element_type: Box<TypeV> },
    Structure { types: Seq<TypeV>, is_packed: bool },
    OpaqueStructure,
}

pub open spec fn type_view(t: Type) -> TypeV
    decreases t,
{
    match t {
        Type::Void => TypeV::Void,
        Type::Function { return_type, parameters, has_varargs } => TypeV::Function {
            return_type: Box::new(type_view(*return_type)),
            parameters: types_view(parameters@),
            has_varargs,
        },
        Type::Integer { bit_width } => TypeV::Integer { bit_width: bit_width as nat },
        Type::FloatingPoint { kind } => TypeV::FloatingPoint { kind },
        Type::AMX => TypeV::AMX,
        Type::MMX => TypeV::MMX,
        Type::Pointer { address_space } => TypeV::Pointer { address_space: address_space@ },
        Type::TargetExtension { name, parameters } => TypeV::TargetExtension {
            name: name@,
            parameters: target_extension_parameters_view(parameters@),
        },
        Type::Vector { length, element_type, is_scalable } => TypeV::Vector {
            length: length as nat,
            element_type: Box::new(type_view(*element_type)),
            is_scalable,
        },
        Type::Label => TypeV::Label,
        Type::Token => TypeV::Token,
        Type::Metadata => TypeV::Metadata,
        Type::Array { length, element_type } => TypeV::Array {
            length: length as nat,
            element_type: Box::new(type_view(*element_type)),
        },
        Type::Structure { types, is_packed } => TypeV::Structure {
            types: types_view(types@),
            is_packed,
        },
        Type::OpaqueStructure => TypeV::OpaqueStructure,
    }
}

/// The views of a sequence of types, element by element.
pub open spec fn types_view(s: Seq<Type>) -> Seq<TypeV>
    decreases s,
{
    if s.len() == 0 {
        Seq::empty()
    } else {
        types_view(s.drop_last()).push(type_view(s.last()))
    }
}

/// The views of a sequence of target extension parameters.
pub open spec fn target_extension_parameters_view(
    s: Seq<TargetExtensionParameter>,
) -> Seq<TargetExtensionParameterV>
    decreases s,
{
    if s.len() == 0 {
        Seq::empty()
    } else {
        target_extension_parameters_view(s.drop_last()).push(
            target_extension_parameter_view(s.last()),
        )
    }
}

/// `types_view` maps positionally.
pub proof fn lemma_types_view(s: Seq<Type>)
    ensures
        types_view(s).len() == s.len(),
        forall|i: int| 0 <= i < s.len() ==> types_view(s)[i] == type_view(s[i]),
    decreases s,
{
    if s.len() > 0 {
        lemma_types_view(s.drop_last());
    }
}

/// `target_extension_parameters_view` maps positionally.
pub proof fn lemma_target_extension_parameters_view(s: Seq<TargetExtensionParameter>)
    ensures
        target_extension_parameters_view(s).len() == s.len(),
        forall|i: int| 0 <= i < s.len() ==> target_extension_parameters_view(s)[i]
            == target_extension_parameter_view(s[i]),
    decreases s,
{
    if s.len() > 0 {
        lemma_target_extension_parameters_view(s.drop_last());
    }
}

pub open spec fn target_extension_parameter_view(
    p: TargetExtensionParameter,
) -> TargetExtensionParameterV
    decreases p,
{
    match p {
        TargetExtensionParameter::Type(t) => TargetExtensionParameterV::Type(type_view(t)),
        TargetExtensionParameter::Integer(n) => TargetExtensionParameterV::Integer(n as nat),
    }
}

impl View for Type {
    type V = TypeV;

    open spec fn view(&self) -> TypeV {
        type_view(*self)
    }
}

impl View for TargetExtensionParameter {
    type V = TargetExtensionParameterV;

    open spec fn view(&self) -> TargetExtensionParameterV {
        target_extension_parameter_view(*self)
    }
}

impl TypeV {
    /// Whether a type of this shape is first-class: able to be produced by
    /// instructions and held in registers.
    pub open spec fn is_first_class(self) -> bool {
        match self {
            TypeV::Integer { .. } => true,
            TypeV::FloatingPoint { .. } => true,
            TypeV::AMX => true,
            TypeV::MMX => true,
            TypeV::Pointer { .. } => true,
            TypeV::TargetExtension { .. } => true,
            TypeV::Vector { .. } => true,
            _ => false,
        }
    }

    /// Whether a type of this shape has a well-defined in-memory size.
    pub open spec fn is_sized(self) -> bool {
        match self {
            TypeV::Integer { .. } => true,
            TypeV::FloatingPoint { .. } => true,
            TypeV::Pointer { .. } => true,
            TypeV::Vector { .. } => true,
            TypeV::Array { .. } => true,
            TypeV::Structure { .. } => true,
            _ => false,
        }
    }
}

impl Type {
    /// Whether this type is first-class (able to be returned from
    /// instructions and stored in registers).
    pub fn is_first_class(&self) -> (r: bool)
        ensures
            r == self@.is_first_class(),
    {
        matches!(
            self,
            Self::Integer { .. } | Self::FloatingPoint { .. } | Self::AMX | Self::MMX
            | Self::Pointer { .. } | Self::TargetExtension { .. } | Self::Vector { .. }
        )
    }

    /// Whether this type has a size.
    pub fn is_sized(&self) -> (r: bool)
        ensures
            r == self@.is_sized(),
    {
        matches!(
            self,
            Self::Integer { .. } | Self::FloatingPoint { .. } | Self::Pointer { .. }
            | Self::Vector { .. } | Self::Array { .. } | Self::Structure { .. }
        )
    }
}

/// Structural well-formedness of a type: integer bit widths are at least 1
/// and vector and array lengths are greater than 0, recursively.
pub open spec fn type_wf(t: TypeV) -> bool
    decreases t,
{
    match t {
        TypeV::Function { return_type, parameters, .. } => type_wf(*return_type)
            && all_types_wf(parameters),
        TypeV::Integer { bit_width } => bit_width >= 1,
        TypeV::TargetExtension { parameters, .. } => all_target_extension_parameters_wf(
            parameters,
        ),
        TypeV::Vector { length, element_type, .. } => length > 0 && type_wf(*element_type),
        TypeV::Array { length, element_type } => length > 0 && type_wf(*element_type),
        TypeV::Structure { types, .. } => all_types_wf(types),
        _ => true,
    }
}

pub open spec fn all_types_wf(s: Seq<TypeV>) -> bool
    decreases s,
{
    s.len() == 0 || (all_types_wf(s.drop_last()) && type_wf(s.last()))
}

pub open spec fn all_target_extension_parameters_wf(s: Seq<TargetExtensionParameterV>) -> bool
    decreases s,
{
    s.len() == 0 || (all_target_extension_parameters_wf(s.drop_last()) && match s.last() {
        TargetExtensionParameterV::Type(t) => type_wf(t),
        TargetExtensionParameterV::Integer(_) => true,
    })
}

impl AddressSpace {
    /// Structural equality of two address spaces.
    pub fn deep_eq(&self, other: &AddressSpace) -> (r: bool)
        ensures
            r == (self@ == other@),
    {
        match (self, other) {
            (AddressSpace::Numbered(a), AddressSpace::Numbered(b)) => a == b,
            (AddressSpace::Named(a), AddressSpace::Named(b)) => *a == *b,
            _ => false,
        }
    }

    /// A structurally equal copy.
    pub fn deep_clone(&self) -> (r: AddressSpace)
        ensures
            r@ == self@,
    {
        match self {
            AddressSpace::Numbered(n) => AddressSpace::Numbered(*n),
            AddressSpace::Named(s) => AddressSpace::Named(s.clone()),
        }
    }
}

impl Type {
    /// Structural equality of two types, decided recursively.
    pub fn deep_eq(&self, other: &Type) -> (r: bool)
        ensures
            r == (self@ == other@),
        decreases *self,
    {
        match (self, other) {
            (Type::Void, Type::Void) => true,
            (
                Type::Function { return_type: ra, parameters: pa, has_varargs: va },
                Type::Function { return_type: rb, parameters: pb, has_varargs: vb },
            ) => {
                if !ra.deep_eq(rb) || va != vb || pa.len() != pb.len() {
                    proof {
                        if pa@.len() != pb@.len() {
                            lemma_types_view(pa@);
                            lemma_types_view(pb@);
                        }
                    }
                    false
                } else {
                    types_eq(pa, pb)
                }
            },
            (Type::Integer { bit_width: a }, Type::Integer { bit_width: b }) => a == b,
            (Type::FloatingPoint { kind: a }, Type::FloatingPoint { kind: b }) => a == b,
            (Type::AMX, Type::AMX) => true,
            (Type::MMX, Type::MMX) => true,
            (Type::Pointer { address_space: a }, Type::Pointer { address_space: b }) => a.deep_eq(
                b,
            ),
            (
                Type::TargetExtension { name: na, parameters: pa },
                Type::TargetExtension { name: nb, parameters: pb },
            ) => {
                if !(*na == *nb) || pa.len() != pb.len() {
                    proof {
                        if pa@.len() != pb@.len() {
                            lemma_target_extension_parameters_view(pa@);
                            lemma_target_extension_parameters_view(pb@);
                        }
                    }
                    false
                } else {
                    target_extension_parameters_eq(pa, pb)
                }
            },
            (
                Type::Vector { length: la, element_type: ea, is_scalable: sa },
                Type::Vector { length: lb, element_type: eb, is_scalable: sb },
            ) => la == lb && sa == sb && ea.deep_eq(eb),
            (Type::Label, Type::Label) => true,
            (Type::Token, Type::Token) => true,
            (Type::Metadata, Type::Metadata) => true,
            (
                Type::Array { length: la, element_type: ea },
                Type::Array { length: lb, element_type: eb },
            ) => la == lb && ea.deep_eq(eb),
            (
                Type::Structure { types: ta, is_packed: ka },
                Type::Structure { types: tb, is_packed: kb },
            ) => {
                if ka != kb || ta.len() != tb.len() {
                    proof {
                        if ta@.len() != tb@.len() {
                            lemma_types_view(ta@);
                            lemma_types_view(tb@);
                        }
                    }
                    false
                } else {
                    types_eq(ta, tb)
                }
            },
            (Type::OpaqueStructure, Type::OpaqueStructure) => true,
            _ => false,
        }
    }

    /// A structurally equal copy.
    pub fn deep_clone(&self) -> (r: Type)
        ensures
            r@ == self@,
        decreases *self,
    {
        match self {
            Type::Void => Type::Void,
            Type::Function { return_type, parameters, has_varargs } => Type::Function {
                return_type: Box::new(return_type.deep_clone()),
                parameters: types_clone(parameters),
                has_varargs: *has_varargs,
            },
            Type::Integer { bit_width } => Type::Integer { bit_width: *bit_width },
            Type::FloatingPoint { kind } => Type::FloatingPoint { kind: *kind },
            Type::AMX => Type::AMX,
            Type::MMX => Type::MMX,
            Type::Pointer { address_space } => Type::Pointer {
                address_space: address_space.deep_clone(),
            },
            Type::TargetExtension { name, parameters } => Type::TargetExtension {
                name: name.clone(),
                parameters: target_extension_parameters_clone(parameters),
            },
            Type::Vector { length, element_type, is_scalable } => Type::Vector {
                length: *length,
                element_type: Box::new(element_type.deep_clone()),
                is_scalable: *is_scalable,
            },
            Type::Label => Type::Label,
            Type::Token => Type::Token,
            Type::Metadata => Type::Metadata,
            Type::Array { length, element_type } => Type::Array {
                length: *length,
                element_type: Box::new(element_type.deep_clone()),
            },
            Type::Structure { types, is_packed } => Type::Structure {
                types: types_clone(types),
                is_packed: *is_packed,
            },
            Type::OpaqueStructure => Type::OpaqueStructure,
        }
    }
}

impl TargetExtensionParameter {
    /// Structural equality of two target extension parameters.
    pub fn deep_eq(&self, other: &TargetExtensionParameter) -> (r: bool)
        ensures
            r == (self@ == other@),
        decreases *self,
    {
        match (self, other) {
            (TargetExtensionParameter::Type(a), TargetExtensionParameter::Type(b)) => a.deep_eq(b),
            (
                TargetExtensionParameter::Integer(a),
                TargetExtensionParameter::Integer(b),
            ) => a == b,
            _ => false,
        }
    }

    /// A structurally equal copy.
    pub fn deep_clone(&self) -> (r: TargetExtensionParameter)
        ensures
            r@ == self@,
        decreases *self,
    {
        match self {
            TargetExtensionParameter::Type(t) => TargetExtensionParameter::Type(t.deep_clone()),
            TargetExtensionParameter::Integer(n) => TargetExtensionParameter::Integer(*n),
        }
    }
}

/// Structural equality of two type sequences of equal length.
fn types_eq(a: &Vec<Type>, b: &Vec<Type>) -> (r: bool)
    requires
        a@.len() == b@.len(),
    ensures
        r == (types_view(a@) == types_view(b@)),
    decreases *a,
{
    proof {
        lemma_types_view(a@);
        lemma_types_view(b@);
    }
    let n = a.len();
    let mut i: usize = 0;
    while i < n
        invariant
            n == a@.len() == b@.len(),
            i <= n,
            forall|j: int| 0 <= j < i ==> types_view(a@)[j] == types_view(b@)[j],
        decreases n - i,
    {
        proof {
            lemma_types_view(a@);
            lemma_types_view(b@);
        }
        if !a[i].deep_eq(&b[i]) {
            proof {
                assert(types_view(a@)[i as int] != types_view(b@)[i as int]);
            }
            return false;
        }
        i += 1;
    }
    proof {
        assert(types_view(a@) =~= types_view(b@));
    }
    true
}

/// Structural equality of two parameter sequences of equal length.
fn target_extension_parameters_eq(
    a: &Vec<TargetExtensionParameter>,
    b: &Vec<TargetExtensionParameter>,
) -> (r: bool)
    requires
        a@.len() == b@.len(),
    ensures
        r == (target_extension_parameters_view(a@) == target_extension_parameters_view(b@)),
    decreases *a,
{
    proof {
        lemma_target_extension_parameters_view(a@);
        lemma_target_extension_parameters_view(b@);
    }
    let n = a.len();
    let mut i: usize = 0;
    while i < n
        invariant
            n == a@.len() == b@.len(),
            i <= n,
            forall|j: int| 0 <= j < i ==> target_extension_parameters_view(a@)[j]
                == target_extension_parameters_view(b@)[j],
        decreases n - i,
    {
        proof {
            lemma_target_extension_parameters_view(a@);
            lemma_target_extension_parameters_view(b@);
        }
        if !a[i].deep_eq(&b[i]) {
            proof {
                assert(target_extension_parameters_view(a@)[i as int]
                    != target_extension_parameters_view(b@)[i as int]);
            }
            return false;
        }
        i += 1;
    }
    proof {
        assert(target_extension_parameters_view(a@) =~= target_extension_parameters_view(b@));
    }
    true
}

/// A structurally equal copy of a type sequence.
fn types_clone(a: &Vec<Type>) -> (r: Vec<Type>)
    ensures
        types_view(r@) == types_view(a@),
        r@.len() == a@.len(),
    decreases *a,
{
    proof {
        lemma_types_view(a@);
    }
    let n = a.len();
    let mut r: Vec<Type> = Vec::new();
    let mut i: usize = 0;
    while i < n
        invariant
            n == a@.len(),
            i <= n,
            r@.len() == i,
            forall|j: int| 0 <= j < i ==> type_view(r@[j]) == type_view(a@[j]),
        decreases n - i,
    {
        r.push(a[i].deep_clone());
        i += 1;
    }
    proof {
        lemma_types_view(r@);
        assert(types_view(r@) =~= types_view(a@));
    }
    r
}

/// A structurally equal copy of a parameter sequence.
fn target_extension_parameters_clone(
    a: &Vec<TargetExtensionParameter>,
) -> (r: Vec<TargetExtensionParameter>)
    ensures
        target_extension_parameters_view(r@) == target_extension_parameters_view(a@),
        r@.len() == a@.len(),
    decreases *a,
{
    proof {
        lemma_target_extension_parameters_view(a@);
    }
    let n = a.len();
    let mut r: Vec<TargetExtensionParameter> = Vec::new();
    let mut i: usize = 0;
    while i < n
        invariant
            n == a@.len(),
            i <= n,
            r@.len() == i,
            forall|j: int| 0 <= j < i ==> target_extension_parameter_view(r@[j])
                == target_extension_parameter_view(a@[j]),
        decreases n - i,
    {
        r.push(a[i].deep_clone());
        i += 1;
    }
    proof {
        lemma_target_extension_parameters_view(r@);
        assert(target_extension_parameters_view(r@) =~= target_extension_parameters_view(a@));
    }
    r
}

/// A parameter attribute, attachable to function parameters and return
/// values.
#[derive(Debug, PartialEq, Eq)]
pub enum ParameterAttribute {
    /// `zeroext`: zero-extend the parameter or return value as required.
    ZeroExtend,
    /// `signext`: sign-extend the parameter or return value as required.
    SignExtend,
    /// `inreg`: target-dependent; usually places the value in a register.
    TargetDependent,
    /// `byval`: copy the parameter so it is effectively passed by value.
    PassByValue(Type),
    /// `byref`: pass the parameter by reference.
    PassByReference(Type),
    /// `preallocated`: the parameter has been copied to pass it by value.
    PreAllocated(Type),
    /// `inalloca`: the parameter was the last stack allocation and may be
    /// freed by the callee.
    StackAllocated(Type),
    /// `sret`: the parameter points to the structure the function returns.
    ReturnStructure(Type),
    /// `align`: the alignment of a pointer or vector-of-pointers
    /// parameter.
    Alignment(usize),
    /// `noalias`
    NoAlias,
    /// `nocapture`
    NoCapture,
    /// `nofree`: the callee will not free the parameter.
    NoFree,
    /// `nest`
    Nest,
    /// `returned`: the function always returns this parameter.
    Returned,
    /// `nonnull`: the pointer is not null (not checked or enforced).
    NonNull,
    /// `dereferenceable`: this many bytes can be dereferenced safely.
    Dereferenceable(usize),
    /// `dereferenceable_or_null`: as `Dereferenceable`, or null.
    DereferenceableOrNull(usize),
    /// `swiftself`: the object or context this function belongs to.
    Context,
    /// `swiftasync`
    SwiftAsync,
    /// `swifterror`
    SwiftError,
    /// `immarg`: the parameter must be an immediate value.
    Immediate,
    /// `noundef`: the parameter holds no undefined or poison bits.
    NoUndefined,
    /// `alignstack`: the preferred alignment for stack space.
    StackAlignment(usize),
    /// `allocalign`: the minimum alignment an allocator function returns.
    AllocationAlignment,
    /// `readnone`: the parameter is not dereferenced directly.
    NoDereference,
    /// `readonly`: the parameter is not dereferenced for writes.
    ReadOnly,
    /// `dead_on_unwind`: the value is poisoned if the call unwinds.
    PoisonOnUnwind,
    /// `range`: the possible range of an integer parameter.
    Range {
        range_type: Type,
        low_inclusive: Vec<usize>,
        high_exclusive: Vec<usize>,
    },
}

/// Ghost model of a [`ParameterAttribute`].
#[verifier::ext_equal]
pub enum ParameterAttributeV {
    ZeroExtend,
    SignExtend,
    TargetDependent,
    PassByValue(TypeV),
    PassByReference(TypeV),
    PreAllocated(TypeV),
    StackAllocated(TypeV),
    ReturnStructure(TypeV),
    Alignment(nat),
    NoAlias,
    NoCapture,
    NoFree,
    Nest,
    Returned,
    NonNull,
    Dereferenceable(nat),
    DereferenceableOrNull(nat),
    Context,
    SwiftAsync,
    SwiftError,
    Immediate,
    NoUndefined,
    StackAlignment(nat),
    AllocationAlignment,
    NoDereference,
    ReadOnly,
    PoisonOnUnwind,
    Range { range_type: TypeV, low_inclusive: Seq<nat>, high_exclusive: Seq<nat> },
}

pub open spec fn parameter_attribute_view(a: ParameterAttribute) -> ParameterAttributeV
    decreases a,
{
    match a {
        ParameterAttribute::ZeroExtend => ParameterAttributeV::ZeroExtend,
        ParameterAttribute::SignExtend => ParameterAttributeV::SignExtend,
        ParameterAttribute::TargetDependent => ParameterAttributeV::TargetDependent,
        ParameterAttribute::PassByValue(t) => ParameterAttributeV::PassByValue(type_view(t)),
        ParameterAttribute::PassByReference(t) => ParameterAttributeV::PassByReference(
            type_view(t),
        ),
        ParameterAttribute::PreAllocated(t) => ParameterAttributeV::PreAllocated(type_view(t)),
        ParameterAttribute::StackAllocated(t) => ParameterAttributeV::StackAllocated(type_view(t)),
        ParameterAttribute::ReturnStructure(t) => ParameterAttributeV::ReturnStructure(
            type_view(t),
        ),
        ParameterAttribute::Alignment(n) => ParameterAttributeV::Alignment(n as nat),
        ParameterAttribute::NoAlias => ParameterAttributeV::NoAlias,
        ParameterAttribute::NoCapture => ParameterAttributeV::NoCapture,
        ParameterAttribute::NoFree => ParameterAttributeV::NoFree,
        ParameterAttribute::Nest => ParameterAttributeV::Nest,
        ParameterAttribute::Returned => ParameterAttributeV::Returned,
        ParameterAttribute::NonNull => ParameterAttributeV::NonNull,
        ParameterAttribute::Dereferenceable(n) => ParameterAttributeV::Dereferenceable(n as nat),
        ParameterAttribute::DereferenceableOrNull(n) => ParameterAttributeV::DereferenceableOrNull(
            n as nat,
        ),
        ParameterAttribute::Context => ParameterAttributeV::Context,
        ParameterAttribute::SwiftAsync => ParameterAttributeV::SwiftAsync,
        ParameterAttribute::SwiftError => ParameterAttributeV::SwiftError,
        ParameterAttribute::Immediate => ParameterAttributeV::Immediate,
        ParameterAttribute::NoUndefined => ParameterAttributeV::NoUndefined,
        ParameterAttribute::StackAlignment(n) => ParameterAttributeV::StackAlignment(n as nat),
        ParameterAttribute::AllocationAlignment => ParameterAttributeV::AllocationAlignment,
        ParameterAttribute::NoDereference => ParameterAttributeV::NoDereference,
        ParameterAttribute::ReadOnly => ParameterAttributeV::ReadOnly,
        ParameterAttribute::PoisonOnUnwind => ParameterAttributeV::PoisonOnUnwind,
        ParameterAttribute::Range { range_type, low_inclusive, high_exclusive } =>
            ParameterAttributeV::Range {
                range_type: type_view(range_type),
                low_inclusive: Seq::new(low_inclusive@.len(), |i: int| low_inclusive@[i] as nat),
                high_exclusive: Seq::new(high_exclusive@.len(), |i: int| high_exclusive@[i] as nat),
            },
    }
}

/// The views of a sequence of parameter attributes, element by element.
pub open spec fn parameter_attributes_view(s: Seq<ParameterAttribute>) -> Seq<ParameterAttributeV>
    decreases s,
{
    if s.len() == 0 {
        Seq::empty()
    } else {
        parameter_attributes_view(s.drop_last()).push(parameter_attribute_view(s.last()))
    }
}

/// `parameter_attributes_view` maps positionally.
pub proof fn lemma_parameter_attributes_view(s: Seq<ParameterAttribute>)
    ensures
        parameter_attributes_view(s).len() == s.len(),
        forall|i: int| 0 <= i < s.len() ==> parameter_attributes_view(s)[i]
            == parameter_attribute_view(s[i]),
    decreases s,
{
    if s.len() > 0 {
        lemma_parameter_attributes_view(s.drop_last());
    }
}

impl View for ParameterAttribute {
    type V = ParameterAttributeV;

    open spec fn view(&self) -> ParameterAttributeV {
        parameter_attribute_view(*self)
    }
}

/// The two classification predicates are independent: a witness in each of
/// the four combinations.  AMX is first-class but unsized, Array is sized
/// but not first-class, Integer is both, Void is neither.
pub proof fn lemma_classification_independent()
    ensures
        TypeV::AMX.is_first_class() && !TypeV::AMX.is_sized(),
        !(TypeV::Array {
            length: 1,
            element_type: Box::new(TypeV::Integer { bit_width: 8 }),
        }).is_first_class(),
        (TypeV::Array {
            length: 1,
            element_type: Box::new(TypeV::Integer { bit_width: 8 }),
        }).is_sized(),
        (TypeV::Integer { bit_width: 1 }).is_first_class(),
        (TypeV::Integer { bit_width: 1 }).is_sized(),
        !TypeV::Void.is_first_class() && !TypeV::Void.is_sized(),
{
}

} // verus!
