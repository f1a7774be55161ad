use vstd::prelude::*;

verus! {

/// The root of a parsed program: one function.
#[derive(Debug)]
pub struct Program {
    pub function: Function,
}

/// A function definition with its body.
#[derive(Debug)]
pub struct Function {
    pub name: String,
    pub body: Block,
}

/// A braced sequence of block items.
#[derive(Debug)]
pub struct Block {
    pub items: Vec<BlockItem>,
}

#[derive(Debug)]
pub enum BlockItem {
    Statement(Statement),
    Declaration(VarDecl),
}

#[derive(Debug)]
pub enum Statement {
    Block(Block),
    Return(Box<Expr>),
    Expression(Box<Expr>),
    Conditional(Conditional),
    /// Condition, body.
    While(Box<Expr>, Box<Statement>),
    /// Body, condition.
    DoWhile(Box<Statement>, Box<Expr>),
    For(For),
    Break,
    Continue,
    /// The empty statement `;`.
    Null,
}

/// A local variable declaration with an optional initializer.
#[derive(Debug)]
pub struct VarDecl {
    pub name: String,
    pub size: VarSize,
    pub initializer: Option<Expr>,
}

impl VarDecl {
    /// The number of bytes that the variable occupies.
    pub fn get_byte_size(&self) -> (r: usize)
        ensures
            r == self.size.bytes(),
    {
        self.size.to_bytes()
    }
}

#[derive(Clone, Copy, PartialEq, Eq, Structural, Debug)]
pub enum VarSize {
    /// 1 byte
    Byte,
    /// 4 bytes
    Word,
    /// 8 bytes
    DoubleWord,
    /// 16 bytes
    QuadWord,
}

impl VarSize {
    pub open spec fn bytes(self) -> nat {
        match self {
            VarSize::Byte => 1,
            VarSize::Word => 4,
            VarSize::DoubleWord => 8,
            VarSize::QuadWord => 16,
        }
    }

    pub fn to_bytes(self) -> (r: usize)
        ensures
            r == self.bytes(),
    {
        match self {
            VarSize::Byte => 1,
            VarSize::Word => 4,
            VarSize::DoubleWord => 8,
            VarSize::QuadWord => 16,
        }
    }
}

#[derive(Debug)]
pub enum Expr {
    Assignment(String, Box<Expr>),
    Var(String),
    Constant(Constant),
    UnaryOp(UnaryOp, Box<Expr>),
    BinaryOp(BinaryOp, Box<Expr>, Box<Expr>),
    TernaryConditional(TernaryConditional),
    /// The empty expression.
    Null,
}

#[derive(Debug)]
pub struct Conditional {
    pub condition: Expr,
    pub if_stmt: Box<Statement>,
    pub else_stmt: Option<Box<Statement>>,
}

#[derive(Debug)]
pub struct TernaryConditional {
    pub condition: Box<Expr>,
    pub if_expr: Box<Expr>,
    pub else_expr: Box<Expr>,
}

#[derive(Debug)]
pub struct For {
    pub init: Box<DeclOrExpr>,
    pub condition: Box<Expr>,
    pub increment: Box<Expr>,
    pub body: Box<Statement>,
}

#[derive(Debug)]
pub enum DeclOrExpr {
    Declaration(VarDecl),
    Expression(Expr),
}

#[derive(Debug)]
pub enum Constant {
    String(String),
    Int(i32),
    Bool(bool),
}

#[derive(Clone, Copy, PartialEq, Eq, Structural, Debug)]
pub enum UnaryOp {
    Negation,
    LogicalNegation,
    BitwiseComplement,
}

#[derive(Clone, Copy, PartialEq, Eq, Structural, Debug)]
pub enum BinaryOp {
    Addition,
    Subtraction,
    Multiplication,
    Division,
    And,
    Or,
    Equal,
    NotEqual,
    LessThan,
    LessThanOrEq,
    GreaterThan,
    GreaterThanOrEq,
    Modulo,
    BitwiseAnd,
    BitwiseOr,
    BitwiseXor,
    BitwiseShiftLeft,
    BitwiseShiftRight,
}

#[derive(Clone, Copy, PartialEq, Eq, Structural, Debug)]
pub enum OpAssociativity {
    Left,
    Right,
}

impl BinaryOp {
    pub open spec fn short_circuits(self) -> bool {
        self is And || self is Or
    }

    /// Whether the right operand is evaluated only when the left one does not
    /// decide the result (`&&`, `||`).
    pub fn is_short_circuiting_op(&self) -> (r: bool)
        ensures
            r == self.short_circuits(),
    {
        match self {
            BinaryOp::And | BinaryOp::Or => true,
            _ => false,
        }
    }
}

} // verus!
