//! A model of the parts of a JavaScript syntax tree that the annotator reads.
//!
//! Every node that the annotator refers to by position carries `lo`, the
//! byte offset at which its source span starts (0 for synthesized nodes).
//! Nodes next to which an `@ngInject` comment may stand carry the texts of
//! the comments that lead that position.

use vstd::prelude::*;

verus! {

/// An identifier.
pub struct Ident {
    pub name: String,
    pub lo: u32,
}

/// A string literal. `value` is absent when the literal is not valid UTF-8;
/// `lossy` is its text with invalid parts replaced.
pub struct StrLit {
    pub value: Option<String>,
    pub lossy: String,
    pub lo: u32,
}

/// The property part of a member expression.
pub enum MemberProp {
    /// `obj.name`
    Ident(String),
    /// `obj[expr]`
    Computed(Box<Expr>),
    /// `obj.#name`
    Private,
}

/// `obj.prop`
pub struct MemberExpr {
    pub obj: Box<Expr>,
    pub prop: MemberProp,
    pub lo: u32,
}

/// What a call calls.
pub enum Callee {
    Expr(Box<Expr>),
    /// `super(..)` or `import(..)`
    Other,
}

/// A call; spread markers on arguments are not modelled.
pub struct CallExpr {
    pub callee: Callee,
    pub args: Vec<Expr>,
    pub lo: u32,
}

/// A statement of a function body, as far as directive prologues go.
pub enum BodyStmt {
    /// An expression statement made of a string literal; absent text for a
    /// literal that is not valid UTF-8.
    Str(Option<String>),
    /// Any other statement.
    Other,
}

/// A function: its parameters (the name of each parameter that is a plain
/// identifier), its body and its position.
pub struct Function {
    pub params: Vec<Option<String>>,
    pub body: Option<Vec<BodyStmt>>,
    pub lo: u32,
    pub comments: Vec<String>,
}

/// A function expression.
pub struct FnExpr {
    pub ident: Option<Ident>,
    pub function: Function,
}

/// The body of an arrow function.
pub enum ArrowBody {
    Block(Vec<BodyStmt>),
    Expr(Box<Expr>),
}

/// An arrow function.
pub struct ArrowExpr {
    pub params: Vec<Option<String>>,
    pub body: ArrowBody,
    pub lo: u32,
    pub comments: Vec<String>,
}

/// The key of a property.
pub enum PropName {
    Ident(String),
    /// A string key; absent text for one that is not valid UTF-8.
    Str(Option<String>),
    Other,
}

/// `key: value`
pub struct KeyValueProp {
    pub key: PropName,
    pub key_lo: u32,
    pub key_comments: Vec<String>,
    pub value: Box<Expr>,
}

/// `key(params) { body }`
pub struct MethodProp {
    pub key: PropName,
    pub key_lo: u32,
    pub key_comments: Vec<String>,
    pub function: Function,
}

/// A property of an object literal.
pub enum PropOrSpread {
    KeyValue(KeyValueProp),
    Method(MethodProp),
    /// Spread, shorthand, getter, setter and other properties.
    Other,
}

/// `{ props }`
pub struct ObjectLit {
    pub props: Vec<PropOrSpread>,
    pub lo: u32,
}

/// `[elems]`; an absent element is a hole.
pub struct ArrayLit {
    pub elems: Vec<Option<Expr>>,
    pub lo: u32,
}

/// A class constructor.
pub struct Constructor {
    pub params: Vec<Option<String>>,
    pub body: Option<Vec<BodyStmt>>,
    pub lo: u32,
    pub comments: Vec<String>,
}

/// A class property `key = value`, possibly `static`.
pub struct ClassProp {
    pub is_static: bool,
    pub key: PropName,
    pub value: Option<Box<Expr>>,
}

/// A member of a class body.
pub enum ClassMember {
    Constructor(Constructor),
    Prop(ClassProp),
    Other,
}

/// A class.
pub struct Class {
    pub members: Vec<ClassMember>,
    pub lo: u32,
    pub comments: Vec<String>,
}

/// A class expression.
pub struct ClassExpr {
    pub ident: Option<Ident>,
    pub class: Class,
}

/// `(expr)`
pub struct ParenExpr {
    pub expr: Box<Expr>,
    pub lo: u32,
}

/// The left side of an assignment.
pub enum AssignTarget {
    Member(MemberExpr),
    Other,
}

/// `left op right`; `is_plain` when `op` is `=`.
pub struct AssignExpr {
    pub is_plain: bool,
    pub left: AssignTarget,
    pub right: Box<Expr>,
    pub lo: u32,
}

/// An expression.
pub enum Expr {
    Ident(Ident),
    Str(StrLit),
    Member(MemberExpr),
    Call(CallExpr),
    Fn(FnExpr),
    Arrow(ArrowExpr),
    Object(ObjectLit),
    Array(ArrayLit),
    Class(ClassExpr),
    Paren(ParenExpr),
    Assign(AssignExpr),
    This(u32),
    /// Any other expression, with its position.
    Other(u32),
}

/// A statement, or an item of a module, with its position.
pub struct Stmt {
    pub kind: StmtKind,
    pub lo: u32,
}

/// What a statement is, as far as `$inject` statements go.
pub enum StmtKind {
    /// An expression statement.
    Expr(Expr),
    /// Any other statement or module declaration.
    Other,
}

/// `name = init` in a variable declaration; `name` is absent for a pattern.
pub struct VarDeclarator {
    pub name: Option<Ident>,
    pub init: Option<Box<Expr>>,
    pub lo: u32,
}

/// `function name(..) {..}` as a declaration.
pub struct FnDecl {
    pub ident: Ident,
    pub function: Function,
}

/// `class Name {..}` as a declaration.
pub struct ClassDecl {
    pub ident: Ident,
    pub class: Class,
}

/// What `export default` exports.
pub enum DefaultDecl {
    Fn(FnExpr),
    Class(ClassExpr),
    Other,
}

impl Expr {
    /// Where the expression starts.
    pub open spec fn spec_lo(self) -> u32 {
        match self {
            Expr::Ident(i) => i.lo,
            Expr::Str(s) => s.lo,
            Expr::Member(m) => m.lo,
            Expr::Call(c) => c.lo,
            Expr::Fn(f) => f.function.lo,
            Expr::Arrow(a) => a.lo,
            Expr::Object(o) => o.lo,
            Expr::Array(a) => a.lo,
            Expr::Class(c) => c.class.lo,
            Expr::Paren(p) => p.lo,
            Expr::Assign(a) => a.lo,
            Expr::This(lo) => lo,
            Expr::Other(lo) => lo,
        }
    }
}

/// Where the expression starts.
pub fn expr_span_lo(expr: &Expr) -> (r: u32)
    ensures
        r == expr.spec_lo(),
{
    match expr {
        Expr::Ident(i) => i.lo,
        Expr::Str(s) => s.lo,
        Expr::Member(m) => m.lo,
        Expr::Call(c) => c.lo,
        Expr::Fn(f) => f.function.lo,
        Expr::Arrow(a) => a.lo,
        Expr::Object(o) => o.lo,
        Expr::Array(a) => a.lo,
        Expr::Class(c) => c.class.lo,
        Expr::Paren(p) => p.lo,
        Expr::Assign(a) => a.lo,
        Expr::This(lo) => *lo,
        Expr::Other(lo) => *lo,
    }
}

} // verus!
