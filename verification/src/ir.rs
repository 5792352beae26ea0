//! The value, constant, instruction and terminator model.
//!
//! Values are shared, immutable nodes (`Arc`), so one value may be an
//! operand of many instructions.  A constant is linked to a declared type
//! by the type-compatibility rule `constant_compat`; constructing a
//! constant value against an incompatible type fails with a
//! [`TypeMismatch`] error rather than aborting.

use crate::types::{AddressSpace, AddressSpaceV, ParameterAttribute, ParameterAttributeV, Type,
    TypeV, parameter_attributes_view};
use std::sync::Arc;
use vstd::prelude::*;

verus! {

broadcast use vstd::std_specs::vec::axiom_vec_index_decreases;

/// Which directions an arithmetic result may wrap in.
///
/// Both flags default to true: unless a source flag says otherwise, a
/// result may wrap as both an unsigned and a signed quantity.
#[derive(Copy, Clone, Debug, PartialEq, Eq, Structural)]
pub struct AllowedWrapping {
    pub can_wrap_unsigned: bool,
    pub can_wrap_signed: bool,
}

impl Default for AllowedWrapping {
    /// Wrapping is allowed in both directions when nothing is specified.
    fn default() -> (r: Self)
        ensures
            r.can_wrap_unsigned,
            r.can_wrap_signed,
    {
        Self { can_wrap_unsigned: true, can_wrap_signed: true }
    }
}

/// The flavor of a `getelementptr` instruction.
#[derive(Copy, Clone, Debug, PartialEq, Eq, Structural)]
pub enum GetPointerKind {
    Regular,
    InBounds,
    /// A byte-range hint; no relation between the two bounds is enforced.
    InRange(usize, usize),
}

impl Default for GetPointerKind {
    fn default() -> (r: Self)
        ensures
            r == GetPointerKind::Regular,
    {
        GetPointerKind::Regular
    }
}

/// The memory-visibility strength of an atomic operation.
#[derive(Copy, Clone, Debug, PartialEq, Eq, Structural)]
pub enum Ordering {
    Unordered,
    Monotonic,
    Acquire,
    Release,
    AcquireRelease,
    SequentiallyConsistent,
}

impl Ordering {
    /// The rank of this ordering in the strength hierarchy.  `Acquire` and
    /// `Release` sit on the same level: neither is weaker than the other.
    pub open spec fn strength(self) -> int {
        match self {
            Ordering::Unordered => 0,
            Ordering::Monotonic => 1,
            Ordering::Acquire => 2,
            Ordering::Release => 2,
            Ordering::AcquireRelease => 3,
            Ordering::SequentiallyConsistent => 4,
        }
    }

    /// Whether this ordering is strictly weaker than `other`.
    pub fn is_weaker_than(self, other: Ordering) -> (r: bool)
        ensures
            r == (self.strength() < other.strength()),
    {
        self.level() < other.level()
    }

    fn level(self) -> (n: u8)
        ensures
            n as int == self.strength(),
    {
        match self {
            Ordering::Unordered => 0,
            Ordering::Monotonic => 1,
            Ordering::Acquire => 2,
            Ordering::Release => 2,
            Ordering::AcquireRelease => 3,
            Ordering::SequentiallyConsistent => 4,
        }
    }
}

/// The ordering hierarchy: `Unordered < Monotonic < Acquire <
/// AcquireRelease < SequentiallyConsistent`, `Release < AcquireRelease`,
/// and `Acquire` and `Release` are distinct but neither is weaker than the
/// other.
pub proof fn lemma_ordering_strength()
    ensures
        Ordering::Unordered.strength() < Ordering::Monotonic.strength(),
        Ordering::Monotonic.strength() < Ordering::Acquire.strength(),
        Ordering::Acquire.strength() < Ordering::AcquireRelease.strength(),
        Ordering::AcquireRelease.strength() < Ordering::SequentiallyConsistent.strength(),
        Ordering::Monotonic.strength() < Ordering::Release.strength(),
        Ordering::Release.strength() < Ordering::AcquireRelease.strength(),
        Ordering::Acquire.strength() == Ordering::Release.strength(),
        Ordering::Acquire != Ordering::Release,
{
}

/// An integer comparison predicate.
#[derive(Copy, Clone, Debug, PartialEq, Eq, Structural)]
pub enum IntegerComparison {
    Equal,
    NotEqual,
    UnsignedGreaterThan,
    UnsignedGreaterOrEqual,
    UnsignedLessThan,
    UnsignedLessOrEqual,
    SignedGreaterThan,
    SignedGreaterOrEqual,
    SignedLessThan,
    SignedLessOrEqual,
}

/// How strongly a call wishes to be a tail call.
#[derive(Copy, Clone, Debug, PartialEq, Eq, Structural)]
pub enum TailCallHint {
    Indifferent,
    ShouldTail,
    MustTail,
    NeverTail,
}

impl Default for TailCallHint {
    fn default() -> (r: Self)
        ensures
            r == TailCallHint::Indifferent,
    {
        TailCallHint::Indifferent
    }
}

/// A non-terminator instruction.
///
/// Constructing an instruction never executes or validates it;
/// cross-operand checks belong to a downstream verifier.
#[derive(Debug, PartialEq, Eq)]
pub enum Instruction {
    /// `add`
    Add {
        left_hand_side: Arc<Value>,
        right_hand_side: Arc<Value>,
        allowed_wrapping: AllowedWrapping,
    },
    /// `sub`
    Subtract {
        left_hand_side: Arc<Value>,
        right_hand_side: Arc<Value>,
        allowed_wrapping: AllowedWrapping,
    },
    /// `mul`
    Multiply {
        left_hand_side: Arc<Value>,
        right_hand_side: Arc<Value>,
        allowed_wrapping: AllowedWrapping,
    },
    /// `udiv`
    UnsignedDivide {
        left_hand_side: Arc<Value>,
        right_hand_side: Arc<Value>,
        is_exact: bool,
    },
    /// `sdiv`
    SignedDivide {
        left_hand_side: Arc<Value>,
        right_hand_side: Arc<Value>,
        is_exact: bool,
    },
    /// `urem`
    UnsignedRemainder {
        left_hand_side: Arc<Value>,
        right_hand_side: Arc<Value>,
    },
    /// `srem`
    SignedRemainder {
        left_hand_side: Arc<Value>,
        right_hand_side: Arc<Value>,
    },
    /// `shl`
    ShiftLeft {
        left_hand_side: Arc<Value>,
        right_hand_side: Arc<Value>,
        allowed_wrapping: AllowedWrapping,
    },
    /// `lshr`
    LogicalShiftRight {
        left_hand_side: Arc<Value>,
        right_hand_side: Arc<Value>,
        is_exact: bool,
    },
    /// `ashr`
    ArithmeticShiftRight {
        left_hand_side: Arc<Value>,
        right_hand_side: Arc<Value>,
        is_exact: bool,
    },
    /// `and`
    And {
        left_hand_side: Arc<Value>,
        right_hand_side: Arc<Value>,
    },
    /// `or`; `disjoint` asserts the operands share no set bits (an
    /// annotation, not a checked invariant)
    Or {
        left_hand_side: Arc<Value>,
        right_hand_side: Arc<Value>,
        disjoint: bool,
    },
    /// `xor`
    ExclusiveOr {
        left_hand_side: Arc<Value>,
        right_hand_side: Arc<Value>,
    },
    /// `extractvalue`
    ExtractValue {
        aggregate: Arc<Value>,
        indices: Vec<usize>,
    },
    /// `insertvalue`
    InsertValue {
        aggregate: Arc<Value>,
        value: Arc<Value>,
        indices: Vec<usize>,
    },
    /// `alloca`
    StackAllocate {
        can_reuse: bool,
        value_type: Type,
        num_elements: Option<Arc<Value>>,
        alignment: Option<usize>,
        address_space: Option<AddressSpace>,
    },
    /// `load`
    Load {
        is_volatile: bool,
        result_type: Type,
        pointer: Arc<Value>,
        alignment: Option<usize>,
    },
    /// `load atomic`
    AtomicLoad {
        is_volatile: bool,
        result_type: Type,
        pointer: Arc<Value>,
        ordering: Ordering,
        sync_scope: Option<String>,
        alignment: usize,
    },
    /// `store`
    Store {
        is_volatile: bool,
        value: Arc<Value>,
        pointer: Arc<Value>,
        alignment: Option<usize>,
    },
    /// `store atomic`
    AtomicStore {
        is_volatile: bool,
        value: Arc<Value>,
        pointer: Arc<Value>,
        ordering: Ordering,
        sync_scope: Option<String>,
        alignment: usize,
    },
    /// `fence`
    Fence {
        ordering: Ordering,
        sync_scope: Option<String>,
    },
    /// `getelementptr`
    GetElementPointer {
        kind: GetPointerKind,
        pointer_type: Type,
        pointer: Arc<Value>,
        indices: Vec<Arc<Value>>,
    },
    /// `trunc`
    Truncate {
        allowed_wrapping: AllowedWrapping,
        value: Arc<Value>,
        new_type: Type,
    },
    /// `zext`
    ZeroExtend {
        value: Arc<Value>,
        new_type: Type,
    },
    /// `sext`
    SignExtend {
        value: Arc<Value>,
        new_type: Type,
    },
    /// `ptrtoint`
    PointerToInteger {
        value: Arc<Value>,
        new_type: Type,
    },
    /// `inttoptr`
    IntegerToPointer {
        value: Arc<Value>,
        new_type: Type,
    },
    /// `bitcast`
    BitCast {
        value: Arc<Value>,
        new_type: Type,
    },
    /// `addrspacecast`
    AddressSpaceCast {
        value: Arc<Value>,
        new_type: Type,
    },
    /// `icmp`
    CompareIntegers {
        comparison: IntegerComparison,
        left_hand_side: Arc<Value>,
        right_hand_side: Arc<Value>,
    },
    /// `select`
    Select {
        condition: Arc<Value>,
        true_value: Arc<Value>,
        false_value: Arc<Value>,
    },
    /// `freeze`
    Freeze {
        value: Arc<Value>,
    },
    /// `call`
    Call {
        tail_call_hint: TailCallHint,
        calling_convention: Option<String>,
        return_value_attributes: Vec<ParameterAttribute>,
        address_space: Option<AddressSpace>,
        function_type: Type,
        function_name: String,
        function_arguments: Vec<Arc<Value>>,
    },
}

/// A value: the result of an instruction, a typed constant, or a named
/// reference resolved against the enclosing function.
#[derive(Debug, PartialEq, Eq)]
pub enum Value {
    /// The value an instruction produces.
    FromInstruction {
        instruction: Instruction,
    },
    /// A constant together with its declared type; the two must satisfy
    /// the compatibility rule.
    FromConstant {
        constant_type: Type,
        constant: Constant,
    },
    /// A reference to a global whose details are not modeled yet.
    FromGlobal,
    /// A reference to a function whose details are not modeled yet.
    FromFunction,
    /// A reference to a code label.
    FromLabel,
    /// A sigil-qualified identifier together with its type.
    FromIdentifier {
        value_type: Type,
        identifier: String,
    },
}

/// A constant of the intermediate representation.
#[derive(Debug, PartialEq, Eq)]
pub enum Constant {
    Void,
    Boolean(bool),
    Integer(usize),
    FloatingPoint(usize),
    NullPointer,
    NoneToken,
    Structure(Vec<Arc<Value>>),
    Array(Vec<Arc<Value>>),
    Vector(Vec<Arc<Value>>),
    Zero,
    Metadata,
    Undefined,
    Poison,
}

/// One `switch` case: a value and the destination taken on that value.
#[derive(Debug, PartialEq, Eq)]
pub struct SwitchDestination {
    pub value: Arc<Value>,
    pub destination: Arc<Value>,
}

/// The single control-transferring instruction closing a basic block.
#[derive(Debug, PartialEq, Eq)]
pub enum Terminator {
    /// `ret`
    Return {
        value: Arc<Value>,
    },
    /// conditional `br`
    ConditionalBranch {
        condition: Arc<Value>,
        if_true: Arc<Value>,
        if_false: Arc<Value>,
    },
    /// unconditional `br`
    Branch {
        destination: Arc<Value>,
    },
    /// `switch`
    Switch {
        value: Arc<Value>,
        default_destination: Arc<Value>,
        destinations: Vec<SwitchDestination>,
    },
    /// `indirectbr`
    IndirectBranch {
        address: Arc<Value>,
        valid_destinations: Vec<Arc<Value>>,
    },
    /// `invoke`
    Invoke {
        calling_convention: String,
        return_attributes: Vec<String>,
        address_space: AddressSpace,
        return_type: Type,
        function_type: Type,
        function_pointer_value: Arc<Value>,
        function_arguments: Vec<Arc<Value>>,
        normal_label: Arc<Value>,
        exception_label: Arc<Value>,
        function_attributes: Vec<String>,
        operand_bundles: Vec<String>,
    },
    /// `callbr`
    CallBranch {
        calling_convention: String,
        return_attributes: Vec<String>,
        address_space: AddressSpace,
        return_type: Type,
        function_type: Type,
        function_pointer_value: Arc<Value>,
        function_arguments: Vec<Arc<Value>>,
        fallthrough_label: Arc<Value>,
        indirect_labels: Vec<Arc<Value>>,
        function_attributes: Vec<String>,
        operand_bundles: Vec<String>,
    },
    /// `resume`
    Resume {
        exception: Arc<Value>,
    },
    /// `catchswitch`
    CatchSwitch {
        parent_token: Arc<Value>,
        handler_labels: Vec<Arc<Value>>,
        unwind_label: Option<Arc<Value>>,
    },
    /// `catchret`
    CatchReturn {
        from_token: Arc<Value>,
        to_label: Arc<Value>,
    },
    /// `cleanupret`
    CleanUpReturn {
        from_pad: String,
        to_label: Arc<Value>,
    },
    /// `unreachable`
    Unreachable,
}

/// Ghost model of an [`Instruction`].
#[verifier::ext_equal]
pub enum InstructionV {
    Add { left_hand_side: Box<ValueV>, right_hand_side: Box<ValueV>, allowed_wrapping: AllowedWrapping },
    Subtract { left_hand_side: Box<ValueV>, right_hand_side: Box<ValueV>, allowed_wrapping: AllowedWrapping },
    Multiply { left_hand_side: Box<ValueV>, right_hand_side: Box<ValueV>, allowed_wrapping: AllowedWrapping },
    UnsignedDivide { left_hand_side: Box<ValueV>, right_hand_side: Box<ValueV>, is_exact: bool },
    SignedDivide { left_hand_side: Box<ValueV>, right_hand_side: Box<ValueV>, is_exact: bool },
    UnsignedRemainder { left_hand_side: Box<ValueV>, right_hand_side: Box<ValueV> },
    SignedRemainder { left_hand_side: Box<ValueV>, right_hand_side: Box<ValueV> },
    ShiftLeft { left_hand_side: Box<ValueV>, right_hand_side: Box<ValueV>, allowed_wrapping: AllowedWrapping },
    LogicalShiftRight { left_hand_side: Box<ValueV>, right_hand_side: Box<ValueV>, is_exact: bool },
    ArithmeticShiftRight { left_hand_side: Box<ValueV>, right_hand_side: Box<ValueV>, is_exact: bool },
    And { left_hand_side: Box<ValueV>, right_hand_side: Box<ValueV> },
    Or { left_hand_side: Box<ValueV>, right_hand_side: Box<ValueV>, disjoint: bool },
    ExclusiveOr { left_hand_side: Box<ValueV>, right_hand_side: Box<ValueV> },
    ExtractValue { aggregate: Box<ValueV>, indices: Seq<nat> },
    InsertValue { aggregate: Box<ValueV>, value: Box<ValueV>, indices: Seq<nat> },
    StackAllocate {
        can_reuse: bool,
        value_type: TypeV,
        num_elements: Option<Box<ValueV>>,
        alignment: Option<nat>,
        address_space: Option<AddressSpaceV>,
    },
    Load { is_volatile: bool, result_type: TypeV, pointer: Box<ValueV>, alignment: Option<nat> },
    AtomicLoad {
        is_volatile: bool,
        result_type: TypeV,
        pointer: Box<ValueV>,
        ordering: Ordering,
        sync_scope: Option<Seq<char>>,
        alignment: nat,
    },
    Store { is_volatile: bool, value: Box<ValueV>, pointer: Box<ValueV>, alignment: Option<nat> },
    AtomicStore {
        is_volatile: bool,
        value: Box<ValueV>,
        pointer: Box<ValueV>,
        ordering: Ordering,
        sync_scope: Option<Seq<char>>,
        alignment: nat,
    },
    Fence { ordering: Ordering, sync_scope: Option<Seq<char>> },
    GetElementPointer {
        kind: GetPointerKind,
        pointer_type: TypeV,
        pointer: Box<ValueV>,
        indices: Seq<ValueV>,
    },
    Truncate { allowed_wrapping: AllowedWrapping, value: Box<ValueV>, new_type: TypeV },
    ZeroExtend { value: Box<ValueV>, new_type: TypeV },
    SignExtend { value: Box<ValueV>, new_type: TypeV },
    PointerToInteger { value: Box<ValueV>, new_type: TypeV },
    IntegerToPointer { value: Box<ValueV>, new_type: TypeV },
    BitCast { value: Box<ValueV>, new_type: TypeV },
    AddressSpaceCast { value: Box<ValueV>, new_type: TypeV },
    CompareIntegers { comparison: IntegerComparison, left_hand_side: Box<ValueV>, right_hand_side: Box<ValueV> },
    Select { condition: Box<ValueV>, true_value: Box<ValueV>, false_value: Box<ValueV> },
    Freeze { value: Box<ValueV> },
    Call {
        tail_call_hint: TailCallHint,
        calling_convention: Option<Seq<char>>,
        return_value_attributes: Seq<ParameterAttributeV>,
        address_space: Option<AddressSpaceV>,
        function_type: TypeV,
        function_name: Seq<char>,
        function_arguments: Seq<ValueV>,
    },
}

/// Ghost model of a [`Value`].
#[verifier::ext_equal]
pub enum ValueV {
    FromInstruction { instruction: Box<InstructionV> },
    FromConstant { constant_type: TypeV, constant: ConstantV },
    FromGlobal,
    FromFunction,
    FromLabel,
    FromIdentifier { value_type: TypeV, identifier: Seq<char> },
}

/// Ghost model of a [`Constant`].
#[verifier::ext_equal]
pub enum ConstantV {
    Void,
    Boolean(bool),
    Integer(nat),
    FloatingPoint(nat),
    NullPointer,
    NoneToken,
    Structure(Seq<ValueV>),
    Array(Seq<ValueV>),
    Vector(Seq<ValueV>),
    Zero,
    Metadata,
    Undefined,
    Poison,
}

/// Ghost model of a [`SwitchDestination`].
#[verifier::ext_equal]
pub struct SwitchDestinationV {
    pub value: ValueV,
    pub destination: ValueV,
}

/// Ghost model of a [`Terminator`].
#[verifier::ext_equal]
pub enum TerminatorV {
    Return { value: ValueV },
    ConditionalBranch { condition: ValueV, if_true: ValueV, if_false: ValueV },
    Branch { destination: ValueV },
    Switch { value: ValueV, default_destination: ValueV, destinations: Seq<SwitchDestinationV> },
    IndirectBranch { address: ValueV, valid_destinations: Seq<ValueV> },
    Invoke {
        calling_convention: Seq<char>,
        return_attributes: Seq<Seq<char>>,
        address_space: AddressSpaceV,
        return_type: TypeV,
        function_type: TypeV,
        function_pointer_value: ValueV,
        function_arguments: Seq<ValueV>,
        normal_label: ValueV,
        exception_label: ValueV,
        function_attributes: Seq<Seq<char>>,
        operand_bundles: Seq<Seq<char>>,
    },
    CallBranch {
        calling_convention: Seq<char>,
        return_attributes: Seq<Seq<char>>,
        address_space: AddressSpaceV,
        return_type: TypeV,
        function_type: TypeV,
        function_pointer_value: ValueV,
        function_arguments: Seq<ValueV>,
        fallthrough_label: ValueV,
        indirect_labels: Seq<ValueV>,
        function_attributes: Seq<Seq<char>>,
        operand_bundles: Seq<Seq<char>>,
    },
    Resume { exception: ValueV },
    CatchSwitch { parent_token: ValueV, handler_labels: Seq<ValueV>, unwind_label: Option<ValueV> },
    CatchReturn { from_token: ValueV, to_label: ValueV },
    CleanUpReturn { from_pad: Seq<char>, to_label: ValueV },
    Unreachable,
}

pub open spec fn value_view(v: Value) -> ValueV
    decreases v,
{
    match v {
        Value::FromInstruction { instruction } => ValueV::FromInstruction {
            instruction: Box::new(instruction_view(instruction)),
        },
        Value::FromConstant { constant_type, constant } => ValueV::FromConstant {
            constant_type: constant_type@,
            constant: constant_view(constant),
        },
        Value::FromGlobal => ValueV::FromGlobal,
        Value::FromFunction => ValueV::FromFunction,
        Value::FromLabel => ValueV::FromLabel,
        Value::FromIdentifier { value_type, identifier } => ValueV::FromIdentifier {
            value_type: value_type@,
            identifier: identifier@,
        },
    }
}

/// The views of a sequence of shared values, element by element.
pub open spec fn values_view(s: Seq<Arc<Value>>) -> Seq<ValueV>
    decreases s,
{
    if s.len() == 0 {
        Seq::empty()
    } else {
        values_view(s.drop_last()).push(value_view(*s.last()))
    }
}

pub open spec fn constant_view(c: Constant) -> ConstantV
    decreases c,
{
    match c {
        Constant::Void => ConstantV::Void,
        Constant::Boolean(b) => ConstantV::Boolean(b),
        Constant::Integer(n) => ConstantV::Integer(n as nat),
        Constant::FloatingPoint(n) => ConstantV::FloatingPoint(n as nat),
        Constant::NullPointer => ConstantV::NullPointer,
        Constant::NoneToken => ConstantV::NoneToken,
        Constant::Structure(values) => ConstantV::Structure(values_view(values@)),
        Constant::Array(values) => ConstantV::Array(values_view(values@)),
        Constant::Vector(values) => ConstantV::Vector(values_view(values@)),
        Constant::Zero => ConstantV::Zero,
        Constant::Metadata => ConstantV::Metadata,
        Constant::Undefined => ConstantV::Undefined,
        Constant::Poison => ConstantV::Poison,
    }
}

pub open spec fn opt_value_view(o: Option<Arc<Value>>) -> Option<Box<ValueV>>
    decreases o,
{
    match o {
        Some(v) => Some(Box::new(value_view(*v))),
        None => None,
    }
}

pub open spec fn opt_nat_view(o: Option<usize>) -> Option<nat> {
    match o {
        Some(n) => Some(n as nat),
        None => None,
    }
}

pub open spec fn opt_string_view(o: Option<String>) -> Option<Seq<char>> {
    match o {
        Some(s) => Some(s@),
        None => None,
    }
}

pub open spec fn opt_address_space_view(o: Option<AddressSpace>) -> Option<AddressSpaceV> {
    match o {
        Some(a) => Some(a@),
        None => None,
    }
}

pub open spec fn indices_view(s: Seq<usize>) -> Seq<nat> {
    Seq::new(s.len(), |i: int| s[i] as nat)
}

pub open spec fn strings_view(s: Seq<String>) -> Seq<Seq<char>> {
    Seq::new(s.len(), |i: int| s[i]@)
}

pub open spec fn instruction_view(i: Instruction) -> InstructionV
    decreases i,
{
    match i {
        Instruction::Add { left_hand_side, right_hand_side, allowed_wrapping } =>
            InstructionV::Add {
                left_hand_side: Box::new(value_view(*left_hand_side)),
                right_hand_side: Box::new(value_view(*right_hand_side)),
                allowed_wrapping,
            },
        Instruction::Subtract { left_hand_side, right_hand_side, allowed_wrapping } =>
            InstructionV::Subtract {
                left_hand_side: Box::new(value_view(*left_hand_side)),
                right_hand_side: Box::new(value_view(*right_hand_side)),
                allowed_wrapping,
            },
        Instruction::Multiply { left_hand_side, right_hand_side, allowed_wrapping } =>
            InstructionV::Multiply {
                left_hand_side: Box::new(value_view(*left_hand_side)),
                right_hand_side: Box::new(value_view(*right_hand_side)),
                allowed_wrapping,
            },
        Instruction::UnsignedDivide { left_hand_side, right_hand_side, is_exact } =>
            InstructionV::UnsignedDivide {
                left_hand_side: Box::new(value_view(*left_hand_side)),
                right_hand_side: Box::new(value_view(*right_hand_side)),
                is_exact,
            },
        Instruction::SignedDivide { left_hand_side, right_hand_side, is_exact } =>
            InstructionV::SignedDivide {
                left_hand_side: Box::new(value_view(*left_hand_side)),
                right_hand_side: Box::new(value_view(*right_hand_side)),
                is_exact,
            },
        Instruction::UnsignedRemainder { left_hand_side, right_hand_side } =>
            InstructionV::UnsignedRemainder {
                left_hand_side: Box::new(value_view(*left_hand_side)),
                right_hand_side: Box::new(value_view(*right_hand_side)),
            },
        Instruction::SignedRemainder { left_hand_side, right_hand_side } =>
            InstructionV::SignedRemainder {
                left_hand_side: Box::new(value_view(*left_hand_side)),
                right_hand_side: Box::new(value_view(*right_hand_side)),
            },
        Instruction::ShiftLeft { left_hand_side, right_hand_side, allowed_wrapping } =>
            InstructionV::ShiftLeft {
                left_hand_side: Box::new(value_view(*left_hand_side)),
                right_hand_side: Box::new(value_view(*right_hand_side)),
                allowed_wrapping,
            },
        Instruction::LogicalShiftRight { left_hand_side, right_hand_side, is_exact } =>
            InstructionV::LogicalShiftRight {
                left_hand_side: Box::new(value_view(*left_hand_side)),
                right_hand_side: Box::new(value_view(*right_hand_side)),
                is_exact,
            },
        Instruction::ArithmeticShiftRight { left_hand_side, right_hand_side, is_exact } =>
            InstructionV::ArithmeticShiftRight {
                left_hand_side: Box::new(value_view(*left_hand_side)),
                right_hand_side: Box::new(value_view(*right_hand_side)),
                is_exact,
            },
        Instruction::And { left_hand_side, right_hand_side } => InstructionV::And {
            left_hand_side: Box::new(value_view(*left_hand_side)),
            right_hand_side: Box::new(value_view(*right_hand_side)),
        },
        Instruction::Or { left_hand_side, right_hand_side, disjoint } => InstructionV::Or {
            left_hand_side: Box::new(value_view(*left_hand_side)),
            right_hand_side: Box::new(value_view(*right_hand_side)),
            disjoint,
        },
        Instruction::ExclusiveOr { left_hand_side, right_hand_side } => InstructionV::ExclusiveOr {
            left_hand_side: Box::new(value_view(*left_hand_side)),
            right_hand_side: Box::new(value_view(*right_hand_side)),
        },
        Instruction::ExtractValue { aggregate, indices } => InstructionV::ExtractValue {
            aggregate: Box::new(value_view(*aggregate)),
            indices: indices_view(indices@),
        },
        Instruction::InsertValue { aggregate, value, indices } => InstructionV::InsertValue {
            aggregate: Box::new(value_view(*aggregate)),
            value: Box::new(value_view(*value)),
            indices: indices_view(indices@),
        },
        Instruction::StackAllocate { can_reuse, value_type, num_elements, alignment, address_space }
            => InstructionV::StackAllocate {
            can_reuse,
            value_type: value_type@,
            num_elements: opt_value_view(num_elements),
            alignment: opt_nat_view(alignment),
            address_space: opt_address_space_view(address_space),
        },
        Instruction::Load { is_volatile, result_type, pointer, alignment } => InstructionV::Load {
            is_volatile,
            result_type: result_type@,
            pointer: Box::new(value_view(*pointer)),
            alignment: opt_nat_view(alignment),
        },
        Instruction::AtomicLoad { is_volatile, result_type, pointer, ordering, sync_scope, alignment }
            => InstructionV::AtomicLoad {
            is_volatile,
            result_type: result_type@,
            pointer: Box::new(value_view(*pointer)),
            ordering,
            sync_scope: opt_string_view(sync_scope),
            alignment: alignment as nat,
        },
        Instruction::Store { is_volatile, value, pointer, alignment } => InstructionV::Store {
            is_volatile,
            value: Box::new(value_view(*value)),
            pointer: Box::new(value_view(*pointer)),
            alignment: opt_nat_view(alignment),
        },
        Instruction::AtomicStore { is_volatile, value, pointer, ordering, sync_scope, alignment }
            => InstructionV::AtomicStore {
            is_volatile,
            value: Box::new(value_view(*value)),
            pointer: Box::new(value_view(*pointer)),
            ordering,
            sync_scope: opt_string_view(sync_scope),
            alignment: alignment as nat,
        },
        Instruction::Fence { ordering, sync_scope } => InstructionV::Fence {
            ordering,
            sync_scope: opt_string_view(sync_scope),
        },
        Instruction::GetElementPointer { kind, pointer_type, pointer, indices } =>
            InstructionV::GetElementPointer {
                kind,
                pointer_type: pointer_type@,
                pointer: Box::new(value_view(*pointer)),
                indices: values_view(indices@),
            },
        Instruction::Truncate { allowed_wrapping, value, new_type } => InstructionV::Truncate {
            allowed_wrapping,
            value: Box::new(value_view(*value)),
            new_type: new_type@,
        },
        Instruction::ZeroExtend { value, new_type } => InstructionV::ZeroExtend {
            value: Box::new(value_view(*value)),
            new_type: new_type@,
        },
        Instruction::SignExtend { value, new_type } => InstructionV::SignExtend {
            value: Box::new(value_view(*value)),
            new_type: new_type@,
        },
        Instruction::PointerToInteger { value, new_type } => InstructionV::PointerToInteger {
            value: Box::new(value_view(*value)),
            new_type: new_type@,
        },
        Instruction::IntegerToPointer { value, new_type } => InstructionV::IntegerToPointer {
            value: Box::new(value_view(*value)),
            new_type: new_type@,
        },
        Instruction::BitCast { value, new_type } => InstructionV::BitCast {
            value: Box::new(value_view(*value)),
            new_type: new_type@,
        },
        Instruction::AddressSpaceCast { value, new_type } => InstructionV::AddressSpaceCast {
            value: Box::new(value_view(*value)),
            new_type: new_type@,
        },
        Instruction::CompareIntegers { comparison, left_hand_side, right_hand_side } =>
            InstructionV::CompareIntegers {
                comparison,
                left_hand_side: Box::new(value_view(*left_hand_side)),
                right_hand_side: Box::new(value_view(*right_hand_side)),
            },
        Instruction::Select { condition, true_value, false_value } => InstructionV::Select {
            condition: Box::new(value_view(*condition)),
            true_value: Box::new(value_view(*true_value)),
            false_value: Box::new(value_view(*false_value)),
        },
        Instruction::Freeze { value } => InstructionV::Freeze {
            value: Box::new(value_view(*value)),
        },
        Instruction::Call {
            tail_call_hint,
            calling_convention,
            return_value_attributes,
            address_space,
            function_type,
            function_name,
            function_arguments,
        } => InstructionV::Call {
            tail_call_hint,
            calling_convention: opt_string_view(calling_convention),
            return_value_attributes: parameter_attributes_view(return_value_attributes@),
            address_space: opt_address_space_view(address_space),
            function_type: function_type@,
            function_name: function_name@,
            function_arguments: values_view(function_arguments@),
        },
    }
}

pub open spec fn switch_destinations_view(s: Seq<SwitchDestination>) -> Seq<SwitchDestinationV>
    decreases s,
{
    if s.len() == 0 {
        Seq::empty()
    } else {
        switch_destinations_view(s.drop_last()).push(
            SwitchDestinationV {
                value: value_view(*s.last().value),
                destination: value_view(*s.last().destination),
            },
        )
    }
}

pub open spec fn terminator_view(t: Terminator) -> TerminatorV
    decreases t,
{
    match t {
        Terminator::Return { value } => TerminatorV::Return { value: value_view(*value) },
        Terminator::ConditionalBranch { condition, if_true, if_false } =>
            TerminatorV::ConditionalBranch {
                condition: value_view(*condition),
                if_true: value_view(*if_true),
                if_false: value_view(*if_false),
            },
        Terminator::Branch { destination } => TerminatorV::Branch {
            destination: value_view(*destination),
        },
        Terminator::Switch { value, default_destination, destinations } => TerminatorV::Switch {
            value: value_view(*value),
            default_destination: value_view(*default_destination),
            destinations: switch_destinations_view(destinations@),
        },
        Terminator::IndirectBranch { address, valid_destinations } => TerminatorV::IndirectBranch {
            address: value_view(*address),
            valid_destinations: values_view(valid_destinations@),
        },
        Terminator::Invoke {
            calling_convention,
            return_attributes,
            address_space,
            return_type,
            function_type,
            function_pointer_value,
            function_arguments,
            normal_label,
            exception_label,
            function_attributes,
            operand_bundles,
        } => TerminatorV::Invoke {
            calling_convention: calling_convention@,
            return_attributes: strings_view(return_attributes@),
            address_space: address_space@,
            return_type: return_type@,
            function_type: function_type@,
            function_pointer_value: value_view(*function_pointer_value),
            function_arguments: values_view(function_arguments@),
            normal_label: value_view(*normal_label),
            exception_label: value_view(*exception_label),
            function_attributes: strings_view(function_attributes@),
            operand_bundles: strings_view(operand_bundles@),
        },
        Terminator::CallBranch {
            calling_convention,
            return_attributes,
            address_space,
            return_type,
            function_type,
            function_pointer_value,
            function_arguments,
            fallthrough_label,
            indirect_labels,
            function_attributes,
            operand_bundles,
        } => TerminatorV::CallBranch {
            calling_convention: calling_convention@,
            return_attributes: strings_view(return_attributes@),
            address_space: address_space@,
            return_type: return_type@,
            function_type: function_type@,
            function_pointer_value: value_view(*function_pointer_value),
            function_arguments: values_view(function_arguments@),
            fallthrough_label: value_view(*fallthrough_label),
            indirect_labels: values_view(indirect_labels@),
            function_attributes: strings_view(function_attributes@),
            operand_bundles: strings_view(operand_bundles@),
        },
        Terminator::Resume { exception } => TerminatorV::Resume {
            exception: value_view(*exception),
        },
        Terminator::CatchSwitch { parent_token, handler_labels, unwind_label } =>
            TerminatorV::CatchSwitch {
                parent_token: value_view(*parent_token),
                handler_labels: values_view(handler_labels@),
                unwind_label: opt_value_view_plain(unwind_label),
            },
        Terminator::CatchReturn { from_token, to_label } => TerminatorV::CatchReturn {
            from_token: value_view(*from_token),
            to_label: value_view(*to_label),
        },
        Terminator::CleanUpReturn { from_pad, to_label } => TerminatorV::CleanUpReturn {
            from_pad: from_pad@,
            to_label: value_view(*to_label),
        },
        Terminator::Unreachable => TerminatorV::Unreachable,
    }
}

pub open spec fn opt_value_view_plain(o: Option<Arc<Value>>) -> Option<ValueV>
    decreases o,
{
    match o {
        Some(v) => Some(value_view(*v)),
        None => None,
    }
}

impl View for Value {
    type V = ValueV;

    open spec fn view(&self) -> ValueV {
        value_view(*self)
    }
}

impl View for Constant {
    type V = ConstantV;

    open spec fn view(&self) -> ConstantV {
        constant_view(*self)
    }
}

impl View for Instruction {
    type V = InstructionV;

    open spec fn view(&self) -> InstructionV {
        instruction_view(*self)
    }
}

impl View for Terminator {
    type V = TerminatorV;

    open spec fn view(&self) -> TerminatorV {
        terminator_view(*self)
    }
}

impl View for SwitchDestination {
    type V = SwitchDestinationV;

    open spec fn view(&self) -> SwitchDestinationV {
        SwitchDestinationV {
            value: value_view(*self.value),
            destination: value_view(*self.destination),
        }
    }
}

/// `values_view` maps positionally.
pub proof fn lemma_values_view(s: Seq<Arc<Value>>)
    ensures
        values_view(s).len() == s.len(),
        forall|i: int| 0 <= i < s.len() ==> values_view(s)[i] == value_view(*s[i]),
    decreases s,
{
    if s.len() > 0 {
        lemma_values_view(s.drop_last());
    }
}

/// The type of a value, when one can be derived.
///
/// Constants and identifiers carry their declared type; a label reference
/// has type `Label`; the type of an instruction result follows the
/// per-variant derivation rule of `instruction_result_type`.  Globals and
/// functions are not modeled in enough detail to carry a type.
pub open spec fn value_type(v: ValueV) -> Option<TypeV>
    decreases v,
{
    match v {
        ValueV::FromInstruction { instruction } => instruction_result_type(*instruction),
        ValueV::FromConstant { constant_type, .. } => Some(constant_type),
        ValueV::FromGlobal => None,
        ValueV::FromFunction => None,
        ValueV::FromLabel => Some(TypeV::Label),
        ValueV::FromIdentifier { value_type: t, .. } => Some(t),
    }
}

/// The type of the value an instruction produces.
///
/// Arithmetic, bitwise and shift results share the type of the left
/// operand; comparisons yield a 1-bit integer, widened to a vector of
/// 1-bit integers over vector operands; loads and conversions yield their
/// declared type; stores and fences yield `Void`; `alloca` yields a
/// pointer into its declared (or the default) address space;
/// `getelementptr` yields a pointer whose address space matches the base
/// pointer's; aggregate operations navigate the aggregate type.
pub open spec fn instruction_result_type(i: InstructionV) -> Option<TypeV>
    decreases i,
{
    match i {
        InstructionV::Add { left_hand_side, .. } => value_type(*left_hand_side),
        InstructionV::Subtract { left_hand_side, .. } => value_type(*left_hand_side),
        InstructionV::Multiply { left_hand_side, .. } => value_type(*left_hand_side),
        InstructionV::UnsignedDivide { left_hand_side, .. } => value_type(*left_hand_side),
        InstructionV::SignedDivide { left_hand_side, .. } => value_type(*left_hand_side),
        InstructionV::UnsignedRemainder { left_hand_side, .. } => value_type(*left_hand_side),
        InstructionV::SignedRemainder { left_hand_side, .. } => value_type(*left_hand_side),
        InstructionV::ShiftLeft { left_hand_side, .. } => value_type(*left_hand_side),
        InstructionV::LogicalShiftRight { left_hand_side, .. } => value_type(*left_hand_side),
        InstructionV::ArithmeticShiftRight { left_hand_side, .. } => value_type(*left_hand_side),
        InstructionV::And { left_hand_side, .. } => value_type(*left_hand_side),
        InstructionV::Or { left_hand_side, .. } => value_type(*left_hand_side),
        InstructionV::ExclusiveOr { left_hand_side, .. } => value_type(*left_hand_side),
        InstructionV::ExtractValue { aggregate, indices } => match value_type(*aggregate) {
            Some(t) => type_at(t, indices, 0),
            None => None,
        },
        InstructionV::InsertValue { aggregate, .. } => value_type(*aggregate),
        InstructionV::StackAllocate { address_space, .. } => Some(
            TypeV::Pointer {
                address_space: match address_space {
                    Some(a) => a,
                    None => AddressSpaceV::Numbered(0),
                },
            },
        ),
        InstructionV::Load { result_type, .. } => Some(result_type),
        InstructionV::AtomicLoad { result_type, .. } => Some(result_type),
        InstructionV::Store { .. } => Some(TypeV::Void),
        InstructionV::AtomicStore { .. } => Some(TypeV::Void),
        InstructionV::Fence { .. } => Some(TypeV::Void),
        InstructionV::GetElementPointer { pointer, .. } => match value_type(*pointer) {
            Some(TypeV::Pointer { address_space }) => Some(TypeV::Pointer { address_space }),
            _ => None,
        },
        InstructionV::Truncate { new_type, .. } => Some(new_type),
        InstructionV::ZeroExtend { new_type, .. } => Some(new_type),
        InstructionV::SignExtend { new_type, .. } => Some(new_type),
        InstructionV::PointerToInteger { new_type, .. } => Some(new_type),
        InstructionV::IntegerToPointer { new_type, .. } => Some(new_type),
        InstructionV::BitCast { new_type, .. } => Some(new_type),
        InstructionV::AddressSpaceCast { new_type, .. } => Some(new_type),
        InstructionV::CompareIntegers { left_hand_side, .. } => match value_type(
            *left_hand_side,
        ) {
            Some(TypeV::Vector { length, is_scalable, .. }) => Some(
                TypeV::Vector {
                    length,
                    element_type: Box::new(TypeV::Integer { bit_width: 1 }),
                    is_scalable,
                },
            ),
            Some(_) => Some(TypeV::Integer { bit_width: 1 }),
            None => None,
        },
        InstructionV::Select { true_value, .. } => value_type(*true_value),
        InstructionV::Freeze { value, .. } => value_type(*value),
        InstructionV::Call { function_type, .. } => match function_type {
            TypeV::Function { return_type, .. } => Some(*return_type),
            other => Some(other),
        },
    }
}

/// The element type reached from `t` by following `indices` from position
/// `from` through structures and arrays.
pub open spec fn type_at(t: TypeV, indices: Seq<nat>, from: int) -> Option<TypeV>
    decreases indices.len() - from,
{
    if from < 0 || from >= indices.len() {
        Some(t)
    } else {
        match t {
            TypeV::Structure { types, .. } => if indices[from] < types.len() {
                type_at(types[indices[from] as int], indices, from + 1)
            } else {
                None
            },
            TypeV::Array { length, element_type } => if indices[from] < length {
                type_at(*element_type, indices, from + 1)
            } else {
                None
            },
            _ => None,
        }
    }
}

/// The type-compatibility rule linking a constant to a declared type.
///
/// `Zero` and `Poison` are compatible with every type; `Undefined` with
/// everything but `Label` and `Void`; scalar constants require the
/// matching type variant; aggregate constants require the matching
/// element count and, positionally, the matching element types.
pub open spec fn constant_compat(c: ConstantV, t: TypeV) -> bool
    decreases c,
{
    match c {
        ConstantV::Void => t == TypeV::Void,
        ConstantV::Boolean(_) => t == (TypeV::Integer { bit_width: 1 }),
        ConstantV::Integer(_) => t is Integer,
        ConstantV::FloatingPoint(_) => t is FloatingPoint,
        ConstantV::NullPointer => t is Pointer,
        ConstantV::NoneToken => t == TypeV::Token,
        ConstantV::Structure(values) => (t matches TypeV::Structure { types, .. }
            && fields_compat(values, types)),
        ConstantV::Array(values) => (t matches TypeV::Array { length, element_type }
            && length == values.len() && elements_compat(values, *element_type)),
        ConstantV::Vector(values) => (t matches TypeV::Vector { length, element_type, .. }
            && length == values.len() && elements_compat(values, *element_type)),
        ConstantV::Zero => true,
        ConstantV::Metadata => t == TypeV::Metadata,
        ConstantV::Undefined => !(t is Label || t is Void),
        ConstantV::Poison => true,
    }
}

/// Every element's own type is the declared element type.
pub open spec fn elements_compat(values: Seq<ValueV>, element_type: TypeV) -> bool
    decreases values,
{
    values.len() == 0 || (elements_compat(values.drop_last(), element_type) && value_type(
        values.last(),
    ) == Some(element_type))
}

/// As many values as declared field types, and every value's own type is
/// the declared field type at the same position.
pub open spec fn fields_compat(values: Seq<ValueV>, types: Seq<TypeV>) -> bool
    decreases values,
{
    &&& values.len() == types.len()
    &&& (values.len() == 0 || (fields_compat(values.drop_last(), types.drop_last())
        && value_type(values.last()) == Some(types.last())))
}

/// `elements_compat` holds exactly when every element's type matches.
pub proof fn lemma_elements_compat(values: Seq<ValueV>, element_type: TypeV)
    ensures
        elements_compat(values, element_type) <==> (forall|i: int|
            0 <= i < values.len() ==> value_type(#[trigger] values[i]) == Some(element_type)),
    decreases values,
{
    if values.len() > 0 {
        lemma_elements_compat(values.drop_last(), element_type);
        if elements_compat(values, element_type) {
            assert forall|i: int| 0 <= i < values.len() implies value_type(#[trigger] values[i])
                == Some(element_type) by {
                if i < values.len() - 1 {
                    assert(values.drop_last()[i] == values[i]);
                } else {
                    assert(values[i] == values.last());
                }
            }
        } else {
            if forall|i: int| 0 <= i < values.len() ==> value_type(#[trigger] values[i]) == Some(
                element_type,
            ) {
                assert(forall|i: int| 0 <= i < values.drop_last().len() ==> value_type(
                    #[trigger] values.drop_last()[i],
                ) == Some(element_type));
                assert(value_type(values.last()) == Some(element_type));
            }
        }
    }
}

/// `fields_compat` holds exactly when the counts agree and every value's
/// type matches the field type at its position.
pub proof fn lemma_fields_compat(values: Seq<ValueV>, types: Seq<TypeV>)
    ensures
        fields_compat(values, types) <==> (values.len() == types.len() && (forall|i: int|
            0 <= i < values.len() ==> value_type(#[trigger] values[i]) == Some(types[i]))),
    decreases values,
{
    if values.len() > 0 && values.len() == types.len() {
        lemma_fields_compat(values.drop_last(), types.drop_last());
        if fields_compat(values, types) {
            assert forall|i: int| 0 <= i < values.len() implies value_type(#[trigger] values[i])
                == Some(types[i]) by {
                if i < values.len() - 1 {
                    assert(values.drop_last()[i] == values[i]);
                    assert(types.drop_last()[i] == types[i]);
                } else {
                    assert(values[i] == values.last());
                    assert(types[i] == types.last());
                }
            }
        } else {
            if forall|i: int| 0 <= i < values.len() ==> value_type(#[trigger] values[i]) == Some(
                types[i],
            ) {
                assert forall|i: int| 0 <= i < values.drop_last().len() implies value_type(
                    #[trigger] values.drop_last()[i],
                ) == Some(types.drop_last()[i]) by {
                    assert(values.drop_last()[i] == values[i]);
                    assert(types.drop_last()[i] == types[i]);
                }
                assert(value_type(values.last()) == Some(types.last()));
                assert(values.last() == values[values.len() - 1]);
            }
        }
    }
}

/// `Zero` and `Poison` are compatible with every type.
pub proof fn lemma_bottom_like_compat(t: TypeV)
    ensures
        constant_compat(ConstantV::Zero, t),
        constant_compat(ConstantV::Poison, t),
{
}

/// `Undefined` is compatible with every type except `Label` and `Void`,
/// and incompatible with exactly those two.
pub proof fn lemma_undefined_compat(t: TypeV)
    ensures
        constant_compat(ConstantV::Undefined, t) == !(t is Label || t is Void),
{
}

/// Aggregate compatibility is positional: a structure constant fits a
/// structure type exactly when the counts agree and every element's own
/// type equals the declared field type at its position; arrays and
/// vectors likewise, against their single element type.  Any other type
/// variant is incompatible.
pub proof fn lemma_aggregate_compat(values: Seq<ValueV>, t: TypeV)
    ensures
        constant_compat(ConstantV::Structure(values), t) <==> (t matches TypeV::Structure {
            types,
            ..
        } && values.len() == types.len() && (forall|i: int|
            0 <= i < values.len() ==> value_type(#[trigger] values[i]) == Some(types[i]))),
        constant_compat(ConstantV::Array(values), t) <==> (t matches TypeV::Array {
            length,
            element_type,
        } && values.len() == length && (forall|i: int|
            0 <= i < values.len() ==> value_type(#[trigger] values[i]) == Some(*element_type))),
        constant_compat(ConstantV::Vector(values), t) <==> (t matches TypeV::Vector {
            length,
            element_type,
            ..
        } && values.len() == length && (forall|i: int|
            0 <= i < values.len() ==> value_type(#[trigger] values[i]) == Some(*element_type))),
{
    match t {
        TypeV::Structure { types, .. } => {
            lemma_fields_compat(values, types);
        },
        TypeV::Array { element_type, .. } => {
            lemma_elements_compat(values, *element_type);
        },
        TypeV::Vector { element_type, .. } => {
            lemma_elements_compat(values, *element_type);
        },
        _ => {},
    }
}

/// An error raised when a constant is constructed against a type it is
/// not compatible with; carries both operands.
#[derive(Debug, PartialEq, Eq)]
pub struct TypeMismatch {
    pub constant: Constant,
    pub constant_type: Type,
}

pub open spec fn opt_type_view(o: Option<Type>) -> Option<TypeV> {
    match o {
        Some(t) => Some(t@),
        None => None,
    }
}

impl Value {
    /// Builds a constant value after checking the compatibility rule;
    /// an incompatible pair is reported as a `TypeMismatch` error carrying
    /// both operands.
    pub fn from_type_constant(constant_type: Type, constant: Constant) -> (r: Result<
        Value,
        TypeMismatch,
    >)
        ensures
            constant_compat(constant@, constant_type@) ==> (r matches Ok(v) && v@ == (
            ValueV::FromConstant { constant_type: constant_type@, constant: constant@ })),
            !constant_compat(constant@, constant_type@) ==> (r matches Err(e) && e.constant@
                == constant@ && e.constant_type@ == constant_type@),
    {
        if constant.is_compatible_with_type(&constant_type) {
            Ok(Value::FromConstant { constant_type, constant })
        } else {
            Err(TypeMismatch { constant, constant_type })
        }
    }

    /// The declared or derived type of this value, when one exists.
    pub fn get_type(&self) -> (r: Option<Type>)
        ensures
            opt_type_view(r) == value_type(self@),
        decreases *self,
    {
        match self {
            Value::FromInstruction { instruction } => instruction.result_type(),
            Value::FromConstant { constant_type, .. } => Some(constant_type.deep_clone()),
            Value::FromGlobal => None,
            Value::FromFunction => None,
            Value::FromLabel => Some(Type::Label),
            Value::FromIdentifier { value_type: t, .. } => Some(t.deep_clone()),
        }
    }
}

impl Instruction {
    /// The type of the value this instruction produces, when one can be
    /// derived; the rule is `instruction_result_type`.
    #[verifier::rlimit(50)]
    pub fn result_type(&self) -> (r: Option<Type>)
        ensures
            opt_type_view(r) == instruction_result_type(self@),
        decreases *self,
    {
        match self {
            Instruction::Add { left_hand_side, .. } => left_hand_side.get_type(),
            Instruction::Subtract { left_hand_side, .. } => left_hand_side.get_type(),
            Instruction::Multiply { left_hand_side, .. } => left_hand_side.get_type(),
            Instruction::UnsignedDivide { left_hand_side, .. } => left_hand_side.get_type(),
            Instruction::SignedDivide { left_hand_side, .. } => left_hand_side.get_type(),
            Instruction::UnsignedRemainder { left_hand_side, .. } => left_hand_side.get_type(),
            Instruction::SignedRemainder { left_hand_side, .. } => left_hand_side.get_type(),
            Instruction::ShiftLeft { left_hand_side, .. } => left_hand_side.get_type(),
            Instruction::LogicalShiftRight { left_hand_side, .. } => left_hand_side.get_type(),
            Instruction::ArithmeticShiftRight { left_hand_side, .. } => left_hand_side.get_type(),
            Instruction::And { left_hand_side, .. } => left_hand_side.get_type(),
            Instruction::Or { left_hand_side, .. } => left_hand_side.get_type(),
            Instruction::ExclusiveOr { left_hand_side, .. } => left_hand_side.get_type(),
            Instruction::ExtractValue { aggregate, indices } => match aggregate.get_type() {
                Some(t) => element_type_at(&t, indices, 0),
                None => None,
            },
            Instruction::InsertValue { aggregate, .. } => aggregate.get_type(),
            Instruction::StackAllocate { address_space, .. } => Some(
                Type::Pointer {
                    address_space: match address_space {
                        Some(a) => a.deep_clone(),
                        None => AddressSpace::Numbered(0),
                    },
                },
            ),
            Instruction::Load { result_type, .. } => Some(result_type.deep_clone()),
            Instruction::AtomicLoad { result_type, .. } => Some(result_type.deep_clone()),
            Instruction::Store { .. } => Some(Type::Void),
            Instruction::AtomicStore { .. } => Some(Type::Void),
            Instruction::Fence { .. } => Some(Type::Void),
            Instruction::GetElementPointer { pointer, .. } => match pointer.get_type() {
                Some(Type::Pointer { address_space }) => Some(
                    Type::Pointer { address_space: address_space.deep_clone() },
                ),
                _ => None,
            },
            Instruction::Truncate { new_type, .. } => Some(new_type.deep_clone()),
            Instruction::ZeroExtend { new_type, .. } => Some(new_type.deep_clone()),
            Instruction::SignExtend { new_type, .. } => Some(new_type.deep_clone()),
            Instruction::PointerToInteger { new_type, .. } => Some(new_type.deep_clone()),
            Instruction::IntegerToPointer { new_type, .. } => Some(new_type.deep_clone()),
            Instruction::BitCast { new_type, .. } => Some(new_type.deep_clone()),
            Instruction::AddressSpaceCast { new_type, .. } => Some(new_type.deep_clone()),
            Instruction::CompareIntegers { left_hand_side, .. } => match left_hand_side.get_type() {
                Some(Type::Vector { length, is_scalable, .. }) => {
                    proof {
                        assert(crate::types::type_view(Type::Integer { bit_width: 1 })
                            == (TypeV::Integer { bit_width: 1 }));
                    }
                    Some(
                        Type::Vector {
                            length,
                            element_type: Box::new(Type::Integer { bit_width: 1 }),
                            is_scalable,
                        },
                    )
                },
                Some(_) => Some(Type::Integer { bit_width: 1 }),
                None => None,
            },
            Instruction::Select { true_value, .. } => true_value.get_type(),
            Instruction::Freeze { value } => value.get_type(),
            Instruction::Call { function_type, .. } => match function_type {
                Type::Function { return_type, .. } => Some(return_type.deep_clone()),
                other => Some(other.deep_clone()),
            },
        }
    }
}

/// Follows `indices` from position `from` through structure and array
/// types; the executable counterpart of `type_at`.
fn element_type_at(t: &Type, indices: &Vec<usize>, from: usize) -> (r: Option<Type>)
    requires
        from <= indices@.len(),
    ensures
        opt_type_view(r) == type_at(t@, indices_view(indices@), from as int),
    decreases indices@.len() - from,
{
    if from == indices.len() {
        Some(t.deep_clone())
    } else {
        let index = indices[from];
        match t {
            Type::Structure { types, .. } => {
                proof {
                    crate::types::lemma_types_view(types@);
                }
                if index < types.len() {
                    element_type_at(&types[index], indices, from + 1)
                } else {
                    None
                }
            },
            Type::Array { length, element_type } => {
                if index < *length {
                    element_type_at(element_type, indices, from + 1)
                } else {
                    None
                }
            },
            _ => None,
        }
    }
}

impl Constant {
    /// Whether this constant satisfies the compatibility rule against the
    /// type `t`; the rule is `constant_compat`.
    pub fn is_compatible_with_type(&self, t: &Type) -> (r: bool)
        ensures
            r == constant_compat(self@, t@),
        decreases *self,
    {
        match self {
            Constant::Void => matches!(t, Type::Void),
            Constant::Boolean(_) => matches!(t, Type::Integer { bit_width: 1 }),
            Constant::Integer(_) => matches!(t, Type::Integer { .. }),
            Constant::FloatingPoint(_) => matches!(t, Type::FloatingPoint { .. }),
            Constant::NullPointer => matches!(t, Type::Pointer { .. }),
            Constant::NoneToken => matches!(t, Type::Token),
            Constant::Structure(values) => match t {
                Type::Structure { types, .. } => values_fields_compat(values, types),
                _ => false,
            },
            Constant::Array(values) => match t {
                Type::Array { length, element_type } => {
                    proof {
                        lemma_values_view(values@);
                    }
                    *length == values.len() && values_elements_compat(values, element_type)
                },
                _ => false,
            },
            Constant::Vector(values) => match t {
                Type::Vector { length, element_type, .. } => {
                    proof {
                        lemma_values_view(values@);
                    }
                    *length == values.len() && values_elements_compat(values, element_type)
                },
                _ => false,
            },
            Constant::Zero => true,
            Constant::Metadata => matches!(t, Type::Metadata),
            Constant::Undefined => !matches!(t, Type::Label | Type::Void),
            Constant::Poison => true,
        }
    }
}

/// Whether every value's own type is `element_type`.
fn values_elements_compat(values: &Vec<Arc<Value>>, element_type: &Type) -> (r: bool)
    ensures
        r == elements_compat(values_view(values@), element_type@),
    decreases *values,
{
    proof {
        lemma_values_view(values@);
        lemma_elements_compat(values_view(values@), element_type@);
    }
    let n = values.len();
    let mut i: usize = 0;
    while i < n
        invariant
            n == values@.len(),
            i <= n,
            forall|j: int| 0 <= j < i ==> value_type(#[trigger] values_view(values@)[j]) == Some(
                element_type@,
            ),
        decreases n - i,
    {
        proof {
            lemma_values_view(values@);
        }
        let matches_element = match values[i].get_type() {
            Some(ty) => ty.deep_eq(element_type),
            None => false,
        };
        if !matches_element {
            proof {
                lemma_elements_compat(values_view(values@), element_type@);
                assert(value_type(values_view(values@)[i as int]) != Some(element_type@));
            }
            return false;
        }
        i += 1;
    }
    proof {
        lemma_elements_compat(values_view(values@), element_type@);
    }
    true
}

/// Whether the counts agree and every value's own type is the field type
/// at its position.
fn values_fields_compat(values: &Vec<Arc<Value>>, types: &Vec<Type>) -> (r: bool)
    ensures
        r == fields_compat(values_view(values@), crate::types::types_view(types@)),
    decreases *values,
{
    proof {
        lemma_values_view(values@);
        crate::types::lemma_types_view(types@);
        lemma_fields_compat(values_view(values@), crate::types::types_view(types@));
    }
    if values.len() != types.len() {
        return false;
    }
    let n = values.len();
    let mut i: usize = 0;
    while i < n
        invariant
            n == values@.len() == types@.len(),
            i <= n,
            forall|j: int| 0 <= j < i ==> value_type(#[trigger] values_view(values@)[j]) == Some(
                crate::types::types_view(types@)[j],
            ),
        decreases n - i,
    {
        proof {
            lemma_values_view(values@);
            crate::types::lemma_types_view(types@);
        }
        let matches_field = match values[i].get_type() {
            Some(ty) => ty.deep_eq(&types[i]),
            None => false,
        };
        if !matches_field {
            proof {
                lemma_fields_compat(values_view(values@), crate::types::types_view(types@));
                assert(value_type(values_view(values@)[i as int]) != Some(
                    crate::types::types_view(types@)[i as int],
                ));
            }
            return false;
        }
        i += 1;
    }
    proof {
        lemma_fields_compat(values_view(values@), crate::types::types_view(types@));
    }
    true
}

/// `switch_destinations_view` maps positionally.
pub proof fn lemma_switch_destinations_view(s: Seq<SwitchDestination>)
    ensures
        switch_destinations_view(s).len() == s.len(),
        forall|i: int| 0 <= i < s.len() ==> switch_destinations_view(s)[i] == (
        SwitchDestinationV {
            value: value_view(*s[i].value),
            destination: value_view(*s[i].destination),
        }),
    decreases s,
{
    if s.len() > 0 {
        lemma_switch_destinations_view(s.drop_last());
    }
}

} // verus!
