//! The name-resolved program consumed by the checker: expressions,
//! statements, pattern matches, function definitions, and the declaration
//! tables built by name resolution. Every identifier, function, algebraic
//! type, constructor and type parameter is already bound to a unique
//! numeric id.

use vstd::prelude::*;

verus! {

/// Byte range of a construct in its source file.
#[derive(Clone, Copy, Debug, PartialEq, Eq, Structural)]
pub struct Span {
    pub start: usize,
    pub end: usize,
}

/// Source position carried by every AST node, for diagnostics.
#[derive(Debug, PartialEq)]
pub struct NodeInfo {
    pub span: Span,
    pub file: String,
}

/// Model of a source position.
pub ghost struct NodeInfoV {
    pub span: Span,
    pub file: Seq<char>,
}

impl View for NodeInfo {
    type V = NodeInfoV;

    open spec fn view(&self) -> NodeInfoV {
        NodeInfoV { span: self.span, file: self.file@ }
    }
}

impl Clone for NodeInfo {
    /// A cloned position has the same model.
    fn clone(&self) -> (res: Self)
        ensures
            res@ == self@,
    {
        NodeInfo { span: self.span, file: self.file.clone() }
    }
}

/// A type error: a message and the source position of the failing construct.
#[derive(Debug)]
pub struct SpruceErr {
    pub message: String,
    pub info: NodeInfo,
}

/// An expression, after name resolution.
#[derive(Debug)]
pub enum Expr {
    /// Integer literal.
    Lit(i64),
    Add(Box<ExprNode>, Box<ExprNode>),
    Subt(Box<ExprNode>, Box<ExprNode>),
    Mult(Box<ExprNode>, Box<ExprNode>),
    Div(Box<ExprNode>, Box<ExprNode>),
    Pow(Box<ExprNode>, Box<ExprNode>),
    Mod(Box<ExprNode>, Box<ExprNode>),
    Eq(Box<ExprNode>, Box<ExprNode>),
    NotEq(Box<ExprNode>, Box<ExprNode>),
    LtEq(Box<ExprNode>, Box<ExprNode>),
    GtEq(Box<ExprNode>, Box<ExprNode>),
    Lt(Box<ExprNode>, Box<ExprNode>),
    Gt(Box<ExprNode>, Box<ExprNode>),
    /// Reference to a symbol.
    Id(u32),
    /// Call of the function bound to the symbol, with argument expressions.
    FnCall(u32, Vec<ExprNode>),
    /// Application of the data constructor with the given id.
    ADTVal(u32, Vec<ExprNode>),
}

/// An expression with its source position.
#[derive(Debug)]
pub struct ExprNode {
    pub val: Expr,
    pub info: NodeInfo,
}

/// The left side of an assignment: a fresh binding or an update of an
/// existing one.
#[derive(Debug)]
pub enum Target {
    Bind(u32),
    Update(u32),
}

impl Target {
    /// The symbol the assignment binds or updates.
    pub open spec fn spec_id(&self) -> u32 {
        match self {
            Target::Bind(id) => *id,
            Target::Update(id) => *id,
        }
    }

    /// The symbol the assignment binds or updates.
    #[verifier::when_used_as_spec(spec_id)]
    pub fn id(&self) -> (res: u32)
        ensures
            res == self.spec_id(),
    {
        match self {
            Target::Bind(id) => *id,
            Target::Update(id) => *id,
        }
    }
}

/// An assignment target with its source position.
#[derive(Debug)]
pub struct TargetNode {
    pub val: Target,
    pub info: NodeInfo,
}

/// A statement: an assignment, a pattern match, or a bare function call.
#[derive(Debug)]
pub enum Stmt {
    Assign(TargetNode, ExprNode),
    Case(CaseNode),
    FnCall(u32, Vec<ExprNode>),
}

/// A statement with its source position.
#[derive(Debug)]
pub struct StmtNode {
    pub val: Stmt,
    pub info: NodeInfo,
}

/// A block: statements followed by an optional trailing expression.
#[derive(Debug)]
pub struct Body {
    pub stmts: Vec<StmtNode>,
    pub expr: Option<Box<ExprNode>>,
}

/// A block with its source position.
#[derive(Debug)]
pub struct BodyNode {
    pub val: Body,
    pub info: NodeInfo,
}

/// A constructor pattern: the constructor's id and the symbols bound to its
/// arguments.
#[derive(Debug)]
pub struct Pattern {
    pub base: u32,
    pub args: Vec<u32>,
}

/// A pattern with its source position.
#[derive(Debug)]
pub struct PatternNode {
    pub val: Pattern,
    pub info: NodeInfo,
}

/// The body of one match arm: a statement block or a bare expression.
#[derive(Debug)]
pub enum CaseBody {
    Body(BodyNode),
    Expr(ExprNode),
}

/// A match-arm body with its source position.
#[derive(Debug)]
pub struct CaseBodyNode {
    pub val: CaseBody,
    pub info: NodeInfo,
}

/// One arm of a pattern match.
#[derive(Debug)]
pub struct CaseOption {
    pub pattern: PatternNode,
    pub body: CaseBodyNode,
}

/// A match arm with its source position.
#[derive(Debug)]
pub struct CaseOptionNode {
    pub val: CaseOption,
    pub info: NodeInfo,
}

/// A pattern match: the scrutinee expression and the arms.
#[derive(Debug)]
pub struct Case {
    pub expr: Box<ExprNode>,
    pub options: Vec<CaseOptionNode>,
}

/// A pattern match with its source position.
#[derive(Debug)]
pub struct CaseNode {
    pub val: Case,
    pub info: NodeInfo,
}

/// A function definition: its symbol, parameter symbols, and body.
#[derive(Debug)]
pub struct Func {
    pub name: u32,
    pub args: Vec<u32>,
    pub body: BodyNode,
}

/// A function definition with its source position.
#[derive(Debug)]
pub struct FuncNode {
    pub val: Func,
    pub info: NodeInfo,
}

/// A declared type expression: a reference to one of the owning type's
/// parameters, a nested algebraic-type application, or a primitive name.
#[derive(Debug)]
pub enum TypeId {
    TParam(u32),
    ADT(u32, Vec<TypeId>),
    Prim(String),
}

/// A declared algebraic data type: its id, user-facing name, and the ids of
/// its type parameters.
#[derive(Debug)]
pub struct TypeDecl {
    pub id: u32,
    pub name: String,
    pub type_params: Vec<u32>,
}

/// A declared data constructor: its id, the algebraic type it belongs to,
/// and its declared argument type expressions.
#[derive(Debug)]
pub struct ValDecl {
    pub id: u32,
    pub data_type: u32,
    pub args: Vec<TypeId>,
}

/// The declaration tables built by name resolution.
#[derive(Debug)]
pub struct TypeTable {
    pub types: Vec<TypeDecl>,
    pub values: Vec<ValDecl>,
}

/// A symbol with its user-facing name.
#[derive(Debug)]
pub struct Symbol {
    pub id: u32,
    pub name: String,
}

/// The symbol table built by name resolution.
#[derive(Debug)]
pub struct SymbolTable {
    pub store: Vec<Symbol>,
}

/// Ids of the built-in types and constructors the checker needs: boolean,
/// optional, list, and the list constructors.
#[derive(Clone, Copy, Debug, PartialEq, Eq, Structural)]
pub struct InternalTypes {
    pub bool_id: u32,
    pub maybe_id: u32,
    pub list_id: u32,
    pub cons_id: u32,
    pub nil_id: u32,
}

/// A whole name-resolved program.
#[derive(Debug)]
pub struct Prog {
    pub type_table: TypeTable,
    pub symbol_table: SymbolTable,
    pub internal_types: InternalTypes,
    pub definitions: Vec<StmtNode>,
    pub functions: Vec<FuncNode>,
}

} // verus!
