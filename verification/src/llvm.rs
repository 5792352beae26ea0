//! The aggregate model: operations, basic blocks and whole function
//! definitions, together with the function-level attribute enums.

use crate::ir::{Instruction, InstructionV, Terminator, TerminatorV, instruction_view,
    terminator_view};
use crate::types::{AddressSpace, AddressSpaceV, ParameterAttribute, ParameterAttributeV, Type,
    TypeV, parameter_attributes_view};
use vstd::prelude::*;

verus! {

broadcast use vstd::std_specs::vec::axiom_vec_index_decreases;

/// Decodes the escape sequences of a quoted string.
///
/// Lexical escape decoding is a named collaborator that is not modeled
/// yet: the text passes through unchanged.
pub fn parse_escape_sequences(s: &str) -> (r: String)
    ensures
        r@ == s@,
{
    s.to_owned()
}

/// One element of a basic block: an instruction, either bound to an
/// identifier or bare.
#[derive(Debug, PartialEq, Eq)]
pub enum Operation {
    /// `%name = <instruction>`
    Assignment { identifier: String, value: Instruction },
    /// a bare, side-effecting instruction
    NoAssignment { instruction: Instruction },
}

/// Ghost model of an [`Operation`].
#[verifier::ext_equal]
pub enum OperationV {
    Assignment { identifier: Seq<char>, value: InstructionV },
    NoAssignment { instruction: InstructionV },
}

pub open spec fn operation_view(o: Operation) -> OperationV {
    match o {
        Operation::Assignment { identifier, value } => OperationV::Assignment {
            identifier: identifier@,
            value: instruction_view(value),
        },
        Operation::NoAssignment { instruction } => OperationV::NoAssignment {
            instruction: instruction_view(instruction),
        },
    }
}

impl View for Operation {
    type V = OperationV;

    open spec fn view(&self) -> OperationV {
        operation_view(*self)
    }
}

/// A straight-line sequence of operations closed by exactly one
/// terminator.
#[derive(Debug, PartialEq, Eq)]
pub struct BasicBlock {
    /// The block's label, if it has one.
    pub name: Option<String>,
    pub operations: Vec<Operation>,
    pub terminator: Terminator,
}

/// Ghost model of a [`BasicBlock`].
#[verifier::ext_equal]
pub struct BasicBlockV {
    pub name: Option<Seq<char>>,
    pub operations: Seq<OperationV>,
    pub terminator: TerminatorV,
}

pub open spec fn operations_view(s: Seq<Operation>) -> Seq<OperationV> {
    Seq::new(s.len(), |i: int| operation_view(s[i]))
}

pub open spec fn basic_block_view(b: BasicBlock) -> BasicBlockV {
    BasicBlockV {
        name: match b.name {
            Some(n) => Some(n@),
            None => None,
        },
        operations: operations_view(b.operations@),
        terminator: terminator_view(b.terminator),
    }
}

impl View for BasicBlock {
    type V = BasicBlockV;

    open spec fn view(&self) -> BasicBlockV {
        basic_block_view(*self)
    }
}

/// The linkage of a global object.
#[derive(Copy, Clone, Debug, PartialEq, Eq, Structural)]
pub enum LinkageType {
    /// `private`
    Private,
    /// `internal`
    Internal,
    /// `available_externally`
    AvailableExternally,
    /// `linkonce`
    LinkOnce,
    /// `weak`
    Weak,
    /// `common`
    Common,
    /// `appending`
    Appending,
    /// `extern_weak`
    ExternalWeak,
    /// `linkonce_odr`
    LinkOnceODR,
    /// `weak_odr`
    WeakODR,
    /// `external`
    External,
}

impl Default for LinkageType {
    fn default() -> (r: Self)
        ensures
            r == LinkageType::External,
    {
        LinkageType::External
    }
}

/// The runtime preemption model of a symbol.
#[derive(Copy, Clone, Debug, PartialEq, Eq, Structural)]
pub enum PreemptionSpecifier {
    /// `dso_preemptable`
    Preemptable,
    /// `dso_local`
    Local,
}

impl Default for PreemptionSpecifier {
    fn default() -> (r: Self)
        ensures
            r == PreemptionSpecifier::Preemptable,
    {
        PreemptionSpecifier::Preemptable
    }
}

/// The visibility of a symbol.
#[derive(Copy, Clone, Debug, PartialEq, Eq, Structural)]
pub enum Visibility {
    /// `default`
    Default,
    /// `hidden`
    Hidden,
    /// `protected`
    Protected,
}

impl Default for Visibility {
    fn default() -> (r: Self)
        ensures
            r == Visibility::Default,
    {
        Visibility::Default
    }
}

/// A typed, named function parameter.
#[derive(Debug, PartialEq, Eq)]
pub struct FunctionParameter {
    pub parameter_type: Type,
    pub name: String,
}

/// Ghost model of a [`FunctionParameter`].
#[verifier::ext_equal]
pub struct FunctionParameterV {
    pub parameter_type: TypeV,
    pub name: Seq<char>,
}

impl View for FunctionParameter {
    type V = FunctionParameterV;

    open spec fn view(&self) -> FunctionParameterV {
        FunctionParameterV { parameter_type: self.parameter_type@, name: self.name@ }
    }
}

/// A function definition: linkage and visibility attributes, signature,
/// and the ordered basic blocks of the body.
#[derive(Debug, PartialEq, Eq)]
pub struct Function {
    pub linkage: LinkageType,
    pub preemption_specifier: PreemptionSpecifier,
    pub visibility: Visibility,
    pub return_type: Type,
    pub return_type_parameter_attributes: Vec<ParameterAttribute>,
    pub name: String,
    pub arguments: Vec<FunctionParameter>,
    pub address_space: Option<AddressSpace>,
    pub section_name: Option<String>,
    pub partition_name: Option<String>,
    /// `align`
    pub alignment: Option<usize>,
    /// `gc`
    pub is_garbage_collected: bool,
    pub basic_blocks: Vec<BasicBlock>,
}

/// Ghost model of a [`Function`].
#[verifier::ext_equal]
pub struct FunctionV {
    pub linkage: LinkageType,
    pub preemption_specifier: PreemptionSpecifier,
    pub visibility: Visibility,
    pub return_type: TypeV,
    pub return_type_parameter_attributes: Seq<ParameterAttributeV>,
    pub name: Seq<char>,
    pub arguments: Seq<FunctionParameterV>,
    pub address_space: Option<AddressSpaceV>,
    pub section_name: Option<Seq<char>>,
    pub partition_name: Option<Seq<char>>,
    pub alignment: Option<nat>,
    pub is_garbage_collected: bool,
    pub basic_blocks: Seq<BasicBlockV>,
}

pub open spec fn function_parameters_view(s: Seq<FunctionParameter>) -> Seq<FunctionParameterV> {
    Seq::new(s.len(), |i: int| s[i]@)
}

pub open spec fn basic_blocks_view(s: Seq<BasicBlock>) -> Seq<BasicBlockV> {
    Seq::new(s.len(), |i: int| basic_block_view(s[i]))
}

pub open spec fn function_view(f: Function) -> FunctionV {
    FunctionV {
        linkage: f.linkage,
        preemption_specifier: f.preemption_specifier,
        visibility: f.visibility,
        return_type: f.return_type@,
        return_type_parameter_attributes: parameter_attributes_view(
            f.return_type_parameter_attributes@,
        ),
        name: f.name@,
        arguments: function_parameters_view(f.arguments@),
        address_space: match f.address_space {
            Some(a) => Some(a@),
            None => None,
        },
        section_name: match f.section_name {
            Some(s) => Some(s@),
            None => None,
        },
        partition_name: match f.partition_name {
            Some(s) => Some(s@),
            None => None,
        },
        alignment: match f.alignment {
            Some(n) => Some(n as nat),
            None => None,
        },
        is_garbage_collected: f.is_garbage_collected,
        basic_blocks: basic_blocks_view(f.basic_blocks@),
    }
}

impl View for Function {
    type V = FunctionV;

    open spec fn view(&self) -> FunctionV {
        function_view(*self)
    }
}

} // verus!
