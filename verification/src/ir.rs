//! The intermediate representation: linear three-address code over named
//! slots, and its views.

use vstd::prelude::*;
use crate::name_map::NameMap;

verus! {

/// A constant operand. A number is held as the bit pattern of its IEEE-754
/// double value.
#[derive(Debug, Clone, PartialEq)]
pub enum IrValue {
    Number(u64),
    String(String),
    Bool(bool),
}

/// One IR instruction. Operands and destinations are slot names.
#[derive(Debug, Clone, PartialEq)]
pub enum IrInstr {
    Add { dest: String, left: String, right: String },
    Sub { dest: String, left: String, right: String },
    Mul { dest: String, left: String, right: String },
    Div { dest: String, left: String, right: String },
    Eq { dest: String, left: String, right: String },
    Ne { dest: String, left: String, right: String },
    Lt { dest: String, left: String, right: String },
    Gt { dest: String, left: String, right: String },
    LogicAnd { dest: String, left: String, right: String },
    LogicOr { dest: String, left: String, right: String },
    LogicNot { dest: String, src: String },
    FAdd { dest: String, left: String, right: String },
    FSub { dest: String, left: String, right: String },
    FMul { dest: String, left: String, right: String },
    FDiv { dest: String, left: String, right: String },
    BitAnd { dest: String, left: String, right: String },
    BitOr { dest: String, left: String, right: String },
    BitXor { dest: String, left: String, right: String },
    BitNot { dest: String, src: String },
    Shl { dest: String, left: String, right: String },
    Shr { dest: String, left: String, right: String },
    AllocStruct { dest: String, name: String },
    SetMember { obj: String, member: String, value: String },
    GetMember { dest: String, obj: String, member: String },
    LoadConst { dest: String, value: IrValue },
    Move { dest: String, src: String },
    AllocList { dest: String, items: Vec<String> },
    GetIndex { dest: String, src: String, index: String },
    SetIndex { src: String, index: String, value: String },
    AllocMap { dest: String },
    SetMap { map: String, key: String, value: String },
    GetMap { dest: String, map: String, key: String },
    Print { src: String },
    PrintNum { src: String },
    Input { dest: String, prompt: String },
    Call { dest: Option<String>, func: String, args: Vec<String> },
    Return { value: Option<String> },
    Label { name: String },
    Jump { label: String },
    JumpIf { cond: String, label: String },
    AllocFile { dest: String, path: String },
    CloseFile { handle: String },
    Spawn { task: String },
    Await { dest: String, task: String },
    LinkFile { path: String },
    Hardwire { path: String },
    PreScan { target: String },
}

/// A constant with its text as characters.
pub enum ConstView {
    Number(u64),
    String(Seq<char>),
    Bool(bool),
}

/// An instruction with every name as a character sequence.
pub enum InstrView {
    Add { dest: Seq<char>, left: Seq<char>, right: Seq<char> },
    Sub { dest: Seq<char>, left: Seq<char>, right: Seq<char> },
    Mul { dest: Seq<char>, left: Seq<char>, right: Seq<char> },
    Div { dest: Seq<char>, left: Seq<char>, right: Seq<char> },
    Eq { dest: Seq<char>, left: Seq<char>, right: Seq<char> },
    Ne { dest: Seq<char>, left: Seq<char>, right: Seq<char> },
    Lt { dest: Seq<char>, left: Seq<char>, right: Seq<char> },
    Gt { dest: Seq<char>, left: Seq<char>, right: Seq<char> },
    LogicAnd { dest: Seq<char>, left: Seq<char>, right: Seq<char> },
    LogicOr { dest: Seq<char>, left: Seq<char>, right: Seq<char> },
    LogicNot { dest: Seq<char>, src: Seq<char> },
    FAdd { dest: Seq<char>, left: Seq<char>, right: Seq<char> },
    FSub { dest: Seq<char>, left: Seq<char>, right: Seq<char> },
    FMul { dest: Seq<char>, left: Seq<char>, right: Seq<char> },
    FDiv { dest: Seq<char>, left: Seq<char>, right: Seq<char> },
    BitAnd { dest: Seq<char>, left: Seq<char>, right: Seq<char> },
    BitOr { dest: Seq<char>, left: Seq<char>, right: Seq<char> },
    BitXor { dest: Seq<char>, left: Seq<char>, right: Seq<char> },
    BitNot { dest: Seq<char>, src: Seq<char> },
    Shl { dest: Seq<char>, left: Seq<char>, right: Seq<char> },
    Shr { dest: Seq<char>, left: Seq<char>, right: Seq<char> },
    AllocStruct { dest: Seq<char>, name: Seq<char> },
    SetMember { obj: Seq<char>, member: Seq<char>, value: Seq<char> },
    GetMember { dest: Seq<char>, obj: Seq<char>, member: Seq<char> },
    LoadConst { dest: Seq<char>, value: ConstView },
    Move { dest: Seq<char>, src: Seq<char> },
    AllocList { dest: Seq<char>, items: Seq<Seq<char>> },
    GetIndex { dest: Seq<char>, src: Seq<char>, index: Seq<char> },
    SetIndex { src: Seq<char>, index: Seq<char>, value: Seq<char> },
    AllocMap { dest: Seq<char> },
    SetMap { map: Seq<char>, key: Seq<char>, value: Seq<char> },
    GetMap { dest: Seq<char>, map: Seq<char>, key: Seq<char> },
    Print { src: Seq<char> },
    PrintNum { src: Seq<char> },
    Input { dest: Seq<char>, prompt: Seq<char> },
    Call { dest: Option<Seq<char>>, func: Seq<char>, args: Seq<Seq<char>> },
    Return { value: Option<Seq<char>> },
    Label { name: Seq<char> },
    Jump { label: Seq<char> },
    JumpIf { cond: Seq<char>, label: Seq<char> },
    AllocFile { dest: Seq<char>, path: Seq<char> },
    CloseFile { handle: Seq<char> },
    Spawn { task: Seq<char> },
    Await { dest: Seq<char>, task: Seq<char> },
    LinkFile { path: Seq<char> },
    Hardwire { path: Seq<char> },
    PreScan { target: Seq<char> },
}

/// Names as character sequences.
pub open spec fn names_view(v: Seq<String>) -> Seq<Seq<char>> {
    v.map_values(|s: String| s@)
}

/// An optional name as a character sequence.
pub open spec fn opt_view(o: Option<String>) -> Option<Seq<char>> {
    match o {
        Some(s) => Some(s@),
        None => None,
    }
}

impl View for IrValue {
    type V = ConstView;

    open spec fn view(&self) -> ConstView {
        match self {
            IrValue::Number(n) => ConstView::Number(*n),
            IrValue::String(s) => ConstView::String(s@),
            IrValue::Bool(b) => ConstView::Bool(*b),
        }
    }
}

impl View for IrInstr {
    type V = InstrView;

    open spec fn view(&self) -> InstrView {
        match self {
            IrInstr::Add { dest, left, right } => InstrView::Add { dest: dest@, left: left@, right: right@ },
            IrInstr::Sub { dest, left, right } => InstrView::Sub { dest: dest@, left: left@, right: right@ },
            IrInstr::Mul { dest, left, right } => InstrView::Mul { dest: dest@, left: left@, right: right@ },
            IrInstr::Div { dest, left, right } => InstrView::Div { dest: dest@, left: left@, right: right@ },
            IrInstr::Eq { dest, left, right } => InstrView::Eq { dest: dest@, left: left@, right: right@ },
            IrInstr::Ne { dest, left, right } => InstrView::Ne { dest: dest@, left: left@, right: right@ },
            IrInstr::Lt { dest, left, right } => InstrView::Lt { dest: dest@, left: left@, right: right@ },
            IrInstr::Gt { dest, left, right } => InstrView::Gt { dest: dest@, left: left@, right: right@ },
            IrInstr::LogicAnd { dest, left, right } => InstrView::LogicAnd { dest: dest@, left: left@, right: right@ },
            IrInstr::LogicOr { dest, left, right } => InstrView::LogicOr { dest: dest@, left: left@, right: right@ },
            IrInstr::LogicNot { dest, src } => InstrView::LogicNot { dest: dest@, src: src@ },
            IrInstr::FAdd { dest, left, right } => InstrView::FAdd { dest: dest@, left: left@, right: right@ },
            IrInstr::FSub { dest, left, right } => InstrView::FSub { dest: dest@, left: left@, right: right@ },
            IrInstr::FMul { dest, left, right } => InstrView::FMul { dest: dest@, left: left@, right: right@ },
            IrInstr::FDiv { dest, left, right } => InstrView::FDiv { dest: dest@, left: left@, right: right@ },
            IrInstr::BitAnd { dest, left, right } => InstrView::BitAnd { dest: dest@, left: left@, right: right@ },
            IrInstr::BitOr { dest, left, right } => InstrView::BitOr { dest: dest@, left: left@, right: right@ },
            IrInstr::BitXor { dest, left, right } => InstrView::BitXor { dest: dest@, left: left@, right: right@ },
            IrInstr::BitNot { dest, src } => InstrView::BitNot { dest: dest@, src: src@ },
            IrInstr::Shl { dest, left, right } => InstrView::Shl { dest: dest@, left: left@, right: right@ },
            IrInstr::Shr { dest, left, right } => InstrView::Shr { dest: dest@, left: left@, right: right@ },
            IrInstr::AllocStruct { dest, name } => InstrView::AllocStruct { dest: dest@, name: name@ },
            IrInstr::SetMember { obj, member, value } => InstrView::SetMember { obj: obj@, member: member@, value: value@ },
            IrInstr::GetMember { dest, obj, member } => InstrView::GetMember { dest: dest@, obj: obj@, member: member@ },
            IrInstr::LoadConst { dest, value } => InstrView::LoadConst { dest: dest@, value: value@ },
            IrInstr::Move { dest, src } => InstrView::Move { dest: dest@, src: src@ },
            IrInstr::AllocList { dest, items } => InstrView::AllocList { dest: dest@, items: names_view(items@) },
            IrInstr::GetIndex { dest, src, index } => InstrView::GetIndex { dest: dest@, src: src@, index: index@ },
            IrInstr::SetIndex { src, index, value } => InstrView::SetIndex { src: src@, index: index@, value: value@ },
            IrInstr::AllocMap { dest } => InstrView::AllocMap { dest: dest@ },
            IrInstr::SetMap { map, key, value } => InstrView::SetMap { map: map@, key: key@, value: value@ },
            IrInstr::GetMap { dest, map, key } => InstrView::GetMap { dest: dest@, map: map@, key: key@ },
            IrInstr::Print { src } => InstrView::Print { src: src@ },
            IrInstr::PrintNum { src } => InstrView::PrintNum { src: src@ },
            IrInstr::Input { dest, prompt } => InstrView::Input { dest: dest@, prompt: prompt@ },
            IrInstr::Call { dest, func, args } => InstrView::Call { dest: opt_view(*dest), func: func@, args: names_view(args@) },
            IrInstr::Return { value } => InstrView::Return { value: opt_view(*value) },
            IrInstr::Label { name } => InstrView::Label { name: name@ },
            IrInstr::Jump { label } => InstrView::Jump { label: label@ },
            IrInstr::JumpIf { cond, label } => InstrView::JumpIf { cond: cond@, label: label@ },
            IrInstr::AllocFile { dest, path } => InstrView::AllocFile { dest: dest@, path: path@ },
            IrInstr::CloseFile { handle } => InstrView::CloseFile { handle: handle@ },
            IrInstr::Spawn { task } => InstrView::Spawn { task: task@ },
            IrInstr::Await { dest, task } => InstrView::Await { dest: dest@, task: task@ },
            IrInstr::LinkFile { path } => InstrView::LinkFile { path: path@ },
            IrInstr::Hardwire { path } => InstrView::Hardwire { path: path@ },
            IrInstr::PreScan { target } => InstrView::PreScan { target: target@ },
        }
    }
}

/// Instructions as views.
pub open spec fn instrs_view(s: Seq<IrInstr>) -> Seq<InstrView> {
    s.map_values(|i: IrInstr| i@)
}

/// A lowered function.
#[derive(Debug, Clone)]
pub struct IrFunction {
    pub name: String,
    pub params: Vec<String>,
    pub instructions: Vec<IrInstr>,
    pub is_async: bool,
    pub locals: Vec<String>,
}

/// A lowered function with names as character sequences.
pub struct FunctionView {
    pub name: Seq<char>,
    pub params: Seq<Seq<char>>,
    pub instructions: Seq<InstrView>,
    pub is_async: bool,
    pub locals: Seq<Seq<char>>,
}

impl View for IrFunction {
    type V = FunctionView;

    open spec fn view(&self) -> FunctionView {
        FunctionView {
            name: self.name@,
            params: names_view(self.params@),
            instructions: instrs_view(self.instructions@),
            is_async: self.is_async,
            locals: names_view(self.locals@),
        }
    }
}

/// A lowered program: its functions by name and its top-level code.
#[derive(Debug)]
pub struct IrProgram {
    pub functions: NameMap<IrFunction>,
    pub global_code: Vec<IrInstr>,
}

/// A lowered program with names as character sequences.
pub struct ProgramView {
    pub functions: Map<Seq<char>, FunctionView>,
    pub global_code: Seq<InstrView>,
}

impl View for IrProgram {
    type V = ProgramView;

    open spec fn view(&self) -> ProgramView {
        ProgramView {
            functions: self.functions@.map_values(|f: IrFunction| f@),
            global_code: instrs_view(self.global_code@),
        }
    }
}

impl IrProgram {
    /// A program with no functions and no top-level code.
    pub fn new() -> (p: Self)
        ensures
            p@.functions == Map::<Seq<char>, FunctionView>::empty(),
            p@.global_code == Seq::<InstrView>::empty(),
    {
        let p = IrProgram { functions: NameMap::new(), global_code: Vec::new() };
        assert(p@.functions =~= Map::<Seq<char>, FunctionView>::empty());
        assert(p@.global_code =~= Seq::<InstrView>::empty());
        p
    }
}

} // verus!
