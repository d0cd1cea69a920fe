//! The shape of a parsed function, as far as the analysis reads it.
use vstd::prelude::*;

verus! {

/// A binary operator of the analysed language.
#[derive(Clone, Copy, Debug, PartialEq, Eq, Structural)]
pub enum BinaryOp {
    Add,
    Sub,
    Mul,
    Div,
    Rem,
    And,
    Or,
    BitXor,
    BitAnd,
    BitOr,
    Shl,
    Shr,
    Eq,
    Lt,
    Le,
    Ne,
    Ge,
    Gt,
    AddEq,
    SubEq,
    MulEq,
    DivEq,
    RemEq,
    BitXorEq,
    BitAndEq,
    BitOrEq,
    ShlEq,
    ShrEq,
}

impl BinaryOp {
    /// The operator as it is written in source.
    pub open spec fn spec_symbol(self) -> Seq<char> {
        match self {
            BinaryOp::Add => "+"@,
            BinaryOp::Sub => "-"@,
            BinaryOp::Mul => "*"@,
            BinaryOp::Div => "/"@,
            BinaryOp::Rem => "%"@,
            BinaryOp::And => "&&"@,
            BinaryOp::Or => "||"@,
            BinaryOp::BitXor => "^"@,
            BinaryOp::BitAnd => "&"@,
            BinaryOp::BitOr => "|"@,
            BinaryOp::Shl => "<<"@,
            BinaryOp::Shr => ">>"@,
            BinaryOp::Eq => "=="@,
            BinaryOp::Lt => "<"@,
            BinaryOp::Le => "<="@,
            BinaryOp::Ne => "!="@,
            BinaryOp::Ge => ">="@,
            BinaryOp::Gt => ">"@,
            BinaryOp::AddEq => "+="@,
            BinaryOp::SubEq => "-="@,
            BinaryOp::MulEq => "*="@,
            BinaryOp::DivEq => "/="@,
            BinaryOp::RemEq => "%="@,
            BinaryOp::BitXorEq => "^="@,
            BinaryOp::BitAndEq => "&="@,
            BinaryOp::BitOrEq => "|="@,
            BinaryOp::ShlEq => "<<="@,
            BinaryOp::ShrEq => ">>="@,
        }
    }

    /// The operator as it is written in source.
    pub fn symbol(&self) -> (r: &'static str)
        ensures
            r@ == self.spec_symbol(),
    {
        match self {
            BinaryOp::Add => "+",
            BinaryOp::Sub => "-",
            BinaryOp::Mul => "*",
            BinaryOp::Div => "/",
            BinaryOp::Rem => "%",
            BinaryOp::And => "&&",
            BinaryOp::Or => "||",
            BinaryOp::BitXor => "^",
            BinaryOp::BitAnd => "&",
            BinaryOp::BitOr => "|",
            BinaryOp::Shl => "<<",
            BinaryOp::Shr => ">>",
            BinaryOp::Eq => "==",
            BinaryOp::Lt => "<",
            BinaryOp::Le => "<=",
            BinaryOp::Ne => "!=",
            BinaryOp::Ge => ">=",
            BinaryOp::Gt => ">",
            BinaryOp::AddEq => "+=",
            BinaryOp::SubEq => "-=",
            BinaryOp::MulEq => "*=",
            BinaryOp::DivEq => "/=",
            BinaryOp::RemEq => "%=",
            BinaryOp::BitXorEq => "^=",
            BinaryOp::BitAndEq => "&=",
            BinaryOp::BitOrEq => "|=",
            BinaryOp::ShlEq => "<<=",
            BinaryOp::ShrEq => ">>=",
        }
    }
}

/// An expression, told apart only as far as the analysis needs.
pub enum Expr {
    /// An integer literal.
    Int(usize),
    /// A plain reference to a variable, by name.
    Name(String),
    /// A binary operation.
    Binary(BinaryOp, Box<Expr>, Box<Expr>),
    /// Any other shape (a call, a field access, a block, ...).
    Unrecognized,
}

/// A statement at the top level of a function body.
pub enum Stmt {
    /// A variable declaration. `name` is `None` when the pattern is not a
    /// plain name; `init` is `None` when there is no initializer.
    Let { name: Option<String>, init: Option<Expr> },
    /// A conditional statement; only its condition is read.
    If { cond: Expr },
    /// Anything else.
    Other,
}

/// A declared parameter. `name` is `None` when the pattern is not a plain
/// name; `ty` is the last segment of the declared type's path, or
/// `None` when the type is not a path.
pub struct Param {
    pub name: Option<String>,
    pub ty: Option<String>,
}

/// A function as handed over by a parser.
pub struct FunctionDef {
    pub name: String,
    pub params: Vec<Param>,
    pub body: Vec<Stmt>,
}

} // verus!
