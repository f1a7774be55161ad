use vstd::prelude::*;

use crate::ast::{
    BinaryOp, Block, BlockItem, Conditional, Constant, DeclOrExpr, Expr, For, Function,
    OpAssociativity, Program, Statement, TernaryConditional, UnaryOp, VarDecl, VarSize,
};
use crate::token::{Keyword, Token, TokenKind};
use crate::tokenizer::TokenStream;

verus! {

/// What can go wrong while building the syntax tree.
#[derive(Debug)]
pub enum ParserError {
    UnexpectedToken(TokenKind, TokenKind),
    UnexpectedEOF(TokenKind),
    UnexpectedTokenForKeyword(Keyword, TokenKind),
    UnexpectedEOFForKeyword(Keyword),
    UnexpectedTokenForIdent(TokenKind),
    UnexpectedEOFForIdent,
    UnexpectedFunctionName(String, String),
    UnexpectedEOFForBlockItem,
    UnexpectedEOFForStatement,
    UnexpectedBinOpForAtom(TokenKind),
    UnexpectedTokenForAtom(TokenKind),
    UnexpectedEOFForAtom,
    UnexpectedTokenForUnaryOp(TokenKind),
    UnexpectedTokenForBinaryOp(TokenKind),
    UnexpectedTokenForOp(TokenKind),
}

/// The binary operator that a token kind denotes.
pub open spec fn binop_of(k: TokenKind) -> Option<BinaryOp> {
    match k {
        TokenKind::Plus => Some(BinaryOp::Addition),
        TokenKind::Minus => Some(BinaryOp::Subtraction),
        TokenKind::Asterisk => Some(BinaryOp::Multiplication),
        TokenKind::Slash => Some(BinaryOp::Division),
        TokenKind::And => Some(BinaryOp::And),
        TokenKind::Or => Some(BinaryOp::Or),
        TokenKind::Equal => Some(BinaryOp::Equal),
        TokenKind::NotEqual => Some(BinaryOp::NotEqual),
        TokenKind::LessThan => Some(BinaryOp::LessThan),
        TokenKind::LessThanOrEq => Some(BinaryOp::LessThanOrEq),
        TokenKind::GreaterThan => Some(BinaryOp::GreaterThan),
        TokenKind::GreaterThanOrEq => Some(BinaryOp::GreaterThanOrEq),
        TokenKind::Modulo => Some(BinaryOp::Modulo),
        TokenKind::BitwiseAnd => Some(BinaryOp::BitwiseAnd),
        TokenKind::BitwiseOr => Some(BinaryOp::BitwiseOr),
        TokenKind::BitwiseXor => Some(BinaryOp::BitwiseXor),
        TokenKind::BitwiseShiftLeft => Some(BinaryOp::BitwiseShiftLeft),
        TokenKind::BitwiseShiftRight => Some(BinaryOp::BitwiseShiftRight),
        _ => None,
    }
}

/// The unary operator that a token kind denotes.
pub open spec fn unop_of(k: TokenKind) -> Option<UnaryOp> {
    match k {
        TokenKind::Minus => Some(UnaryOp::Negation),
        TokenKind::LogicalNegation => Some(UnaryOp::LogicalNegation),
        TokenKind::BitwiseComplement => Some(UnaryOp::BitwiseComplement),
        _ => None,
    }
}

/// Precedence (higher binds tighter) and associativity of an operator token.
pub open spec fn prec_of(k: TokenKind) -> Option<(u8, OpAssociativity)> {
    match k {
        TokenKind::QuestionMark => Some((1, OpAssociativity::Right)),
        TokenKind::Or => Some((2, OpAssociativity::Left)),
        TokenKind::And => Some((3, OpAssociativity::Left)),
        TokenKind::BitwiseOr => Some((4, OpAssociativity::Left)),
        TokenKind::BitwiseXor => Some((5, OpAssociativity::Left)),
        TokenKind::BitwiseAnd => Some((6, OpAssociativity::Left)),
        TokenKind::Equal | TokenKind::NotEqual => Some((7, OpAssociativity::Left)),
        TokenKind::LessThan | TokenKind::LessThanOrEq | TokenKind::GreaterThan
        | TokenKind::GreaterThanOrEq => Some((8, OpAssociativity::Left)),
        TokenKind::BitwiseShiftLeft | TokenKind::BitwiseShiftRight => Some(
            (9, OpAssociativity::Left),
        ),
        TokenKind::Plus | TokenKind::Minus => Some((10, OpAssociativity::Left)),
        TokenKind::Asterisk | TokenKind::Slash | TokenKind::Modulo => Some(
            (11, OpAssociativity::Left),
        ),
        TokenKind::LogicalNegation | TokenKind::BitwiseComplement => Some(
            (12, OpAssociativity::Right),
        ),
        _ => None,
    }
}

/// How an expression parse came out: the tree and the position after it, or
/// an error when the tokens hold no such expression.
pub open spec fn expr_parsed(
    want: Option<(Expr, int)>,
    r: Result<Expr, ParserError>,
    pos: int,
) -> bool {
    match want {
        Some((e, q)) => r == Ok::<Expr, ParserError>(e) && pos == q,
        None => r is Err,
    }
}

/// The atom at position `p` and the position after it: an integer, a variable,
/// an assignment `x = expr`, a parenthesized expression, or a unary operator
/// applied to an atom.
pub open spec fn p_atom(t: Seq<Token>, p: int) -> Option<(Expr, int)>
    decreases t.len() - p, 1nat,
{
    if p < 0 || p >= t.len() {
        None
    } else {
        match t[p].kind {
            TokenKind::Integer(n) => Some((Expr::Constant(Constant::Int(n)), p + 1)),
            TokenKind::Identifier(x) => if p + 1 < t.len() && t[p + 1].kind
                == TokenKind::Assignment {
                match p_expr(t, p + 2, 1) {
                    Some((e, q)) => Some((Expr::Assignment(x, Box::new(e)), q)),
                    None => None,
                }
            } else {
                Some((Expr::Var(x), p + 1))
            },
            TokenKind::LParen => match p_expr(t, p + 1, 1) {
                Some((e, q)) => if 0 <= q < t.len() && t[q].kind == TokenKind::RParen {
                    Some((e, q + 1))
                } else {
                    None
                },
                None => None,
            },
            k => match unop_of(k) {
                Some(op) => match p_atom(t, p + 1) {
                    Some((e, q)) => Some((Expr::UnaryOp(op, Box::new(e)), q)),
                    None => None,
                },
                None => None,
            },
        }
    }
}

/// The expression at position `p` whose operators bind at least as tightly as
/// `min`, and the position after it.
pub open spec fn p_expr(t: Seq<Token>, p: int, min: u8) -> Option<(Expr, int)>
    decreases t.len() - p, 2nat,
{
    match p_atom(t, p) {
        None => None,
        Some((a, q)) => if q <= p || q > t.len() {
            None
        } else {
            p_climb(t, a, q, min)
        },
    }
}

/// Precedence climbing from the left operand `lhs` at position `q`: each
/// binary operator of precedence at least `min` takes as right operand the
/// expression of higher precedence (or equal, for a right-associative one)
/// that follows, and the ternary takes two full expressions.
pub open spec fn p_climb(t: Seq<Token>, lhs: Expr, q: int, min: u8) -> Option<(Expr, int)>
    decreases t.len() - q, 0nat,
{
    if q < 0 || q >= t.len() || t[q].kind == TokenKind::Semicolon {
        Some((lhs, q))
    } else if binop_of(t[q].kind) is Some && prec_of(t[q].kind) is Some {
        let (prec, assoc) = prec_of(t[q].kind)->Some_0;
        if prec < min {
            Some((lhs, q))
        } else {
            let next_min = if assoc is Left {
                (prec + 1) as u8
            } else {
                prec
            };
            match p_expr(t, q + 1, next_min) {
                None => None,
                Some((rhs, q2)) => if q2 <= q || q2 > t.len() {
                    None
                } else {
                    p_climb(
                        t,
                        Expr::BinaryOp(binop_of(t[q].kind)->Some_0, Box::new(lhs), Box::new(rhs)),
                        q2,
                        min,
                    )
                },
            }
        }
    } else if t[q].kind == TokenKind::QuestionMark {
        if 1 < min {
            Some((lhs, q))
        } else {
            match p_expr(t, q + 1, 1) {
                None => None,
                Some((ie, q2)) => if q2 <= q || q2 >= t.len() || t[q2].kind != TokenKind::Colon {
                    None
                } else {
                    match p_expr(t, q2 + 1, 1) {
                        None => None,
                        Some((ee, q3)) => if q3 <= q2 || q3 > t.len() {
                            None
                        } else {
                            p_climb(
                                t,
                                Expr::TernaryConditional(
                                    TernaryConditional {
                                        condition: Box::new(lhs),
                                        if_expr: Box::new(ie),
                                        else_expr: Box::new(ee),
                                    },
                                ),
                                q3,
                                min,
                            )
                        },
                    }
                },
            }
        }
    } else {
        Some((lhs, q))
    }
}

/// A statement as a mathematical value: blocks hold sequences.
pub enum StmtView {
    Block(Seq<ItemView>),
    Return(Expr),
    Expression(Expr),
    Conditional(Expr, Box<StmtView>, Option<Box<StmtView>>),
    While(Expr, Box<StmtView>),
    DoWhile(Box<StmtView>, Expr),
    For(DeclOrExpr, Expr, Expr, Box<StmtView>),
    Break,
    Continue,
    Null,
}

pub enum ItemView {
    Statement(StmtView),
    Declaration(VarDecl),
}

pub open spec fn cond_view(c: Conditional) -> StmtView
    decreases c,
{
    StmtView::Conditional(
        c.condition,
        Box::new(stmt_view(*c.if_stmt)),
        if c.else_stmt is Some {
            Some(Box::new(stmt_view(*c.else_stmt->Some_0)))
        } else {
            None
        },
    )
}

pub open spec fn for_view(f: For) -> StmtView
    decreases f,
{
    StmtView::For(*f.init, *f.condition, *f.increment, Box::new(stmt_view(*f.body)))
}

pub open spec fn stmt_view(s: Statement) -> StmtView
    decreases s,
{
    match s {
        Statement::Block(b) => StmtView::Block(items_view(b.items@)),
        Statement::Return(e) => StmtView::Return(*e),
        Statement::Expression(e) => StmtView::Expression(*e),
        Statement::Conditional(c) => cond_view(c),
        Statement::While(c, b) => StmtView::While(*c, Box::new(stmt_view(*b))),
        Statement::DoWhile(b, c) => StmtView::DoWhile(Box::new(stmt_view(*b)), *c),
        Statement::For(f) => for_view(f),
        Statement::Break => StmtView::Break,
        Statement::Continue => StmtView::Continue,
        Statement::Null => StmtView::Null,
    }
}

pub open spec fn item_view(i: BlockItem) -> ItemView
    decreases i,
{
    match i {
        BlockItem::Statement(s) => ItemView::Statement(stmt_view(s)),
        BlockItem::Declaration(d) => ItemView::Declaration(d),
    }
}

pub open spec fn items_view(items: Seq<BlockItem>) -> Seq<ItemView>
    decreases items,
{
    if items.len() == 0 {
        seq![]
    } else {
        items_view(items.drop_last()).push(item_view(items.last()))
    }
}

/// Whether token `p` exists and has the kind `k`.
pub open spec fn tok_is(t: Seq<Token>, p: int, k: TokenKind) -> bool {
    0 <= p < t.len() && t[p].kind == k
}

/// `int NAME (= expr)? ;` at `p`.
pub open spec fn p_decl(t: Seq<Token>, p: int) -> Option<(VarDecl, int)> {
    if tok_is(t, p, TokenKind::Keyword(Keyword::Int)) && p + 1 < t.len() && t[p + 1].kind is Identifier {
        let x = t[p + 1].kind->Identifier_0;
        if tok_is(t, p + 2, TokenKind::Semicolon) {
            Some((VarDecl { name: x, size: VarSize::Word, initializer: None }, p + 3))
        } else if tok_is(t, p + 2, TokenKind::Assignment) {
            match p_expr(t, p + 3, 1) {
                Some((e, q)) => if tok_is(t, q, TokenKind::Semicolon) {
                    Some((VarDecl { name: x, size: VarSize::Word, initializer: Some(e) }, q + 1))
                } else {
                    None
                },
                None => None,
            }
        } else {
            None
        }
    } else {
        None
    }
}

/// A statement at `p`, as the keyword or token that begins it decides.
pub open spec fn p_stmt(t: Seq<Token>, p: int) -> Option<(StmtView, int)>
    decreases t.len() - p, 4nat,
{
    if p < 0 || p >= t.len() {
        None
    } else {
        let k = t[p].kind;
        if k == TokenKind::Keyword(Keyword::Return) {
            match p_expr(t, p + 1, 1) {
                Some((e, q)) => if tok_is(t, q, TokenKind::Semicolon) {
                    Some((StmtView::Return(e), q + 1))
                } else {
                    None
                },
                None => None,
            }
        } else if k == TokenKind::Keyword(Keyword::If) {
            p_if(t, p)
        } else if k == TokenKind::LBrace {
            match p_block(t, p) {
                Some((items, q)) => Some((StmtView::Block(items), q)),
                None => None,
            }
        } else if k == TokenKind::Keyword(Keyword::While) {
            if !tok_is(t, p + 1, TokenKind::LParen) {
                None
            } else {
                match p_expr(t, p + 2, 1) {
                    Some((c, q)) => if q <= p || !tok_is(t, q, TokenKind::RParen) {
                        None
                    } else {
                        match p_stmt(t, q + 1) {
                            Some((b, q2)) => Some((StmtView::While(c, Box::new(b)), q2)),
                            None => None,
                        }
                    },
                    None => None,
                }
            }
        } else if k == TokenKind::Keyword(Keyword::Do) {
            match p_stmt(t, p + 1) {
                Some((b, q)) => if q <= p || !tok_is(t, q, TokenKind::Keyword(Keyword::While))
                    || !tok_is(t, q + 1, TokenKind::LParen) {
                    None
                } else {
                    match p_expr(t, q + 2, 1) {
                        Some((c, q2)) => if tok_is(t, q2, TokenKind::RParen) && tok_is(
                            t,
                            q2 + 1,
                            TokenKind::Semicolon,
                        ) {
                            Some((StmtView::DoWhile(Box::new(b), c), q2 + 2))
                        } else {
                            None
                        },
                        None => None,
                    }
                },
                None => None,
            }
        } else if k == TokenKind::Keyword(Keyword::For) {
            p_for(t, p)
        } else if k == TokenKind::Keyword(Keyword::Break) {
            if tok_is(t, p + 1, TokenKind::Semicolon) {
                Some((StmtView::Break, p + 2))
            } else {
                None
            }
        } else if k == TokenKind::Keyword(Keyword::Continue) {
            if tok_is(t, p + 1, TokenKind::Semicolon) {
                Some((StmtView::Continue, p + 2))
            } else {
                None
            }
        } else if k == TokenKind::Semicolon {
            Some((StmtView::Null, p + 1))
        } else {
            match p_expr(t, p, 1) {
                Some((e, q)) => if tok_is(t, q, TokenKind::Semicolon) {
                    Some((StmtView::Expression(e), q + 1))
                } else {
                    None
                },
                None => None,
            }
        }
    }
}

/// `if ( expr ) statement (else statement)?` at `p`; an `else` belongs to the
/// nearest `if`.
pub open spec fn p_if(t: Seq<Token>, p: int) -> Option<(StmtView, int)>
    decreases t.len() - p, 3nat,
{
    if !tok_is(t, p, TokenKind::Keyword(Keyword::If)) || !tok_is(t, p + 1, TokenKind::LParen) {
        None
    } else {
        match p_expr(t, p + 2, 1) {
            Some((c, q)) => if q <= p || !tok_is(t, q, TokenKind::RParen) {
                None
            } else {
                match p_stmt(t, q + 1) {
                    Some((s1, q2)) => if q2 <= p {
                        None
                    } else if tok_is(t, q2, TokenKind::Keyword(Keyword::Else)) {
                        match p_stmt(t, q2 + 1) {
                            Some((s2, q3)) => Some(
                                (
                                    StmtView::Conditional(c, Box::new(s1), Some(Box::new(s2))),
                                    q3,
                                ),
                            ),
                            None => None,
                        }
                    } else {
                        Some((StmtView::Conditional(c, Box::new(s1), None), q2))
                    },
                    None => None,
                }
            },
            None => None,
        }
    }
}

/// The parts of a `for` header after `for (`: the initializer and the position
/// after its semicolon.
pub open spec fn p_for_init(t: Seq<Token>, p: int) -> Option<(DeclOrExpr, int)> {
    if tok_is(t, p, TokenKind::Keyword(Keyword::Int)) {
        match p_decl(t, p) {
            Some((d, q)) => Some((DeclOrExpr::Declaration(d), q)),
            None => None,
        }
    } else if tok_is(t, p, TokenKind::Semicolon) {
        Some((DeclOrExpr::Expression(Expr::Null), p + 1))
    } else {
        match p_expr(t, p, 1) {
            Some((e, q)) => if tok_is(t, q, TokenKind::Semicolon) {
                Some((DeclOrExpr::Expression(e), q + 1))
            } else {
                None
            },
            None => None,
        }
    }
}

/// An optional expression at `p` that ends before a token of kind `end`.
pub open spec fn p_opt_expr(t: Seq<Token>, p: int, end: TokenKind) -> Option<(Expr, int)> {
    if tok_is(t, p, end) {
        Some((Expr::Null, p))
    } else {
        p_expr(t, p, 1)
    }
}

/// `for ( init cond? ; step? ) statement` at `p`.
pub open spec fn p_for(t: Seq<Token>, p: int) -> Option<(StmtView, int)>
    decreases t.len() - p, 3nat,
{
    if !tok_is(t, p, TokenKind::Keyword(Keyword::For)) || !tok_is(t, p + 1, TokenKind::LParen) {
        None
    } else {
        match p_for_init(t, p + 2) {
            None => None,
            Some((init, q1)) => match p_opt_expr(t, q1, TokenKind::Semicolon) {
                None => None,
                Some((c, q2)) => if !tok_is(t, q2, TokenKind::Semicolon) {
                    None
                } else {
                    match p_opt_expr(t, q2 + 1, TokenKind::RParen) {
                        None => None,
                        Some((st, q3)) => if q3 <= p || !tok_is(t, q3, TokenKind::RParen) {
                            None
                        } else {
                            match p_stmt(t, q3 + 1) {
                                Some((b, q4)) => Some((StmtView::For(init, c, st, Box::new(b)), q4)),
                                None => None,
                            }
                        },
                    }
                },
            },
        }
    }
}

/// `{ block_item* }` at `p`.
pub open spec fn p_block(t: Seq<Token>, p: int) -> Option<(Seq<ItemView>, int)>
    decreases t.len() - p, 3nat,
{
    if !tok_is(t, p, TokenKind::LBrace) {
        None
    } else {
        match p_items(t, p + 1) {
            Some((items, q)) => Some((items, q + 1)),
            None => None,
        }
    }
}

/// The block items from `p` up to (not including) the closing brace.
pub open spec fn p_items(t: Seq<Token>, p: int) -> Option<(Seq<ItemView>, int)>
    decreases t.len() - p, 6nat,
{
    if p < 0 || p >= t.len() {
        None
    } else if t[p].kind == TokenKind::RBrace {
        Some((seq![], p))
    } else {
        match p_item(t, p) {
            Some((it, q)) => if q <= p || q > t.len() {
                None
            } else {
                match p_items(t, q) {
                    Some((rest, r)) => Some((seq![it] + rest, r)),
                    None => None,
                }
            },
            None => None,
        }
    }
}

/// A declaration or a statement at `p`.
pub open spec fn p_item(t: Seq<Token>, p: int) -> Option<(ItemView, int)>
    decreases t.len() - p, 5nat,
{
    if tok_is(t, p, TokenKind::Keyword(Keyword::Int)) {
        match p_decl(t, p) {
            Some((d, q)) => Some((ItemView::Declaration(d), q)),
            None => None,
        }
    } else {
        match p_stmt(t, p) {
            Some((s, q)) => Some((ItemView::Statement(s), q)),
            None => None,
        }
    }
}

/// `int main ( ) block` at `p`: the function name and the body's items.
pub open spec fn p_program(t: Seq<Token>, p: int) -> Option<(String, Seq<ItemView>)> {
    p_function(t, p, "main"@)
}

/// `int NAME ( ) block` at `p` where NAME spells `name`: the name and the
/// body's items.
pub open spec fn p_function(t: Seq<Token>, p: int, name: Seq<char>) -> Option<(String, Seq<ItemView>)> {
    if tok_is(t, p, TokenKind::Keyword(Keyword::Int)) && p + 1 < t.len() && t[p + 1].kind is Identifier
        && t[p + 1].kind->Identifier_0@ == name && tok_is(t, p + 2, TokenKind::LParen) && tok_is(
        t,
        p + 3,
        TokenKind::RParen,
    ) {
        match p_block(t, p + 4) {
            Some((items, _)) => Some((t[p + 1].kind->Identifier_0, items)),
            None => None,
        }
    } else {
        None
    }
}

pub open spec fn prepend(a: Seq<ItemView>, o: Option<(Seq<ItemView>, int)>) -> Option<(Seq<ItemView>, int)> {
    match o {
        Some((rest, r)) => Some((a + rest, r)),
        None => None,
    }
}

pub open spec fn stmt_parsed(want: Option<(StmtView, int)>, r: Result<Statement, ParserError>, pos: int) -> bool {
    match want {
        Some((v, q)) => (r matches Ok(s) && stmt_view(s) == v) && pos == q,
        None => r is Err,
    }
}

pub open spec fn item_parsed(want: Option<(ItemView, int)>, r: Result<BlockItem, ParserError>, pos: int) -> bool {
    match want {
        Some((v, q)) => (r matches Ok(i) && item_view(i) == v) && pos == q,
        None => r is Err,
    }
}

pub open spec fn block_parsed(want: Option<(Seq<ItemView>, int)>, r: Result<Block, ParserError>, pos: int) -> bool {
    match want {
        Some((v, q)) => (r matches Ok(b) && items_view(b.items@) == v) && pos == q,
        None => r is Err,
    }
}

pub open spec fn decl_parsed(want: Option<(VarDecl, int)>, r: Result<VarDecl, ParserError>, pos: int) -> bool {
    match want {
        Some((d, q)) => r == Ok::<VarDecl, ParserError>(d) && pos == q,
        None => r is Err,
    }
}

pub open spec fn function_parsed(want: Option<(String, Seq<ItemView>)>, r: Result<Function, ParserError>) -> bool {
    match want {
        Some((name, items)) => r matches Ok(f) && f.name == name && items_view(f.body.items@) == items,
        None => r is Err,
    }
}

pub open spec fn program_parsed(want: Option<(String, Seq<ItemView>)>, r: Result<Program, ParserError>) -> bool {
    match want {
        Some((name, items)) => r matches Ok(p) && p.function.name == name && items_view(
            p.function.body.items@,
        ) == items,
        None => r is Err,
    }
}

impl TokenKind {
    /// Whether the kind is a binary operator.
    pub fn is_binary_op(&self) -> (r: bool)
        ensures
            r == binop_of(*self) is Some,
    {
        match self {
            TokenKind::Plus | TokenKind::Minus | TokenKind::Asterisk | TokenKind::Slash
            | TokenKind::And | TokenKind::Or | TokenKind::Equal | TokenKind::NotEqual
            | TokenKind::LessThan | TokenKind::LessThanOrEq | TokenKind::GreaterThan
            | TokenKind::GreaterThanOrEq | TokenKind::Modulo | TokenKind::BitwiseAnd
            | TokenKind::BitwiseOr | TokenKind::BitwiseXor | TokenKind::BitwiseShiftLeft
            | TokenKind::BitwiseShiftRight => true,
            _ => false,
        }
    }

    /// Whether the kind is a unary operator.
    pub fn is_unary_op(&self) -> (r: bool)
        ensures
            r == unop_of(*self) is Some,
    {
        match self {
            TokenKind::Minus | TokenKind::LogicalNegation | TokenKind::BitwiseComplement => true,
            _ => false,
        }
    }

    /// Applies the unary operator of this kind to `expr`.
    pub fn get_unary_op(&self, expr: Expr) -> (r: Result<Expr, ParserError>)
        ensures
            match unop_of(*self) {
                Some(op) => r == Ok::<Expr, ParserError>(Expr::UnaryOp(op, Box::new(expr))),
                None => r is Err,
            },
    {
        let op = match self {
            TokenKind::Minus => UnaryOp::Negation,
            TokenKind::LogicalNegation => UnaryOp::LogicalNegation,
            TokenKind::BitwiseComplement => UnaryOp::BitwiseComplement,
            other => return Err(ParserError::UnexpectedTokenForUnaryOp(other.clone())),
        };
        Ok(Expr::UnaryOp(op, Box::new(expr)))
    }

    /// Combines `lhs` and `rhs` with the binary operator of this kind.
    pub fn get_bin_op(&self, lhs: Expr, rhs: Expr) -> (r: Result<Expr, ParserError>)
        ensures
            match binop_of(*self) {
                Some(op) => r == Ok::<Expr, ParserError>(
                    Expr::BinaryOp(op, Box::new(lhs), Box::new(rhs)),
                ),
                None => r is Err,
            },
    {
        let op = match self {
            TokenKind::Plus => BinaryOp::Addition,
            TokenKind::Minus => BinaryOp::Subtraction,
            TokenKind::Asterisk => BinaryOp::Multiplication,
            TokenKind::Slash => BinaryOp::Division,
            TokenKind::And => BinaryOp::And,
            TokenKind::Or => BinaryOp::Or,
            TokenKind::Equal => BinaryOp::Equal,
            TokenKind::NotEqual => BinaryOp::NotEqual,
            TokenKind::LessThan => BinaryOp::LessThan,
            TokenKind::LessThanOrEq => BinaryOp::LessThanOrEq,
            TokenKind::GreaterThan => BinaryOp::GreaterThan,
            TokenKind::GreaterThanOrEq => BinaryOp::GreaterThanOrEq,
            TokenKind::Modulo => BinaryOp::Modulo,
            TokenKind::BitwiseAnd => BinaryOp::BitwiseAnd,
            TokenKind::BitwiseOr => BinaryOp::BitwiseOr,
            TokenKind::BitwiseXor => BinaryOp::BitwiseXor,
            TokenKind::BitwiseShiftLeft => BinaryOp::BitwiseShiftLeft,
            TokenKind::BitwiseShiftRight => BinaryOp::BitwiseShiftRight,
            other => return Err(ParserError::UnexpectedTokenForBinaryOp(other.clone())),
        };
        Ok(Expr::BinaryOp(op, Box::new(lhs), Box::new(rhs)))
    }

    /// The precedence and associativity of this operator kind.
    pub fn get_op_prec_assoc(&self) -> (r: Result<(u8, OpAssociativity), ParserError>)
        ensures
            match prec_of(*self) {
                Some(pa) => r == Ok::<(u8, OpAssociativity), ParserError>(pa),
                None => r is Err,
            },
    {
        match self {
            TokenKind::QuestionMark => Ok((1, OpAssociativity::Right)),
            TokenKind::Or => Ok((2, OpAssociativity::Left)),
            TokenKind::And => Ok((3, OpAssociativity::Left)),
            TokenKind::BitwiseOr => Ok((4, OpAssociativity::Left)),
            TokenKind::BitwiseXor => Ok((5, OpAssociativity::Left)),
            TokenKind::BitwiseAnd => Ok((6, OpAssociativity::Left)),
            TokenKind::Equal | TokenKind::NotEqual => Ok((7, OpAssociativity::Left)),
            TokenKind::LessThan | TokenKind::LessThanOrEq | TokenKind::GreaterThan
            | TokenKind::GreaterThanOrEq => Ok((8, OpAssociativity::Left)),
            TokenKind::BitwiseShiftLeft | TokenKind::BitwiseShiftRight => Ok(
                (9, OpAssociativity::Left),
            ),
            TokenKind::Plus | TokenKind::Minus => Ok((10, OpAssociativity::Left)),
            TokenKind::Asterisk | TokenKind::Slash | TokenKind::Modulo => Ok(
                (11, OpAssociativity::Left),
            ),
            TokenKind::LogicalNegation | TokenKind::BitwiseComplement => Ok(
                (12, OpAssociativity::Right),
            ),
            other => Err(ParserError::UnexpectedTokenForOp(other.clone())),
        }
    }

    /// Whether this kind and `other` are the same kind without a payload
    /// (punctuation, operators, keywords).
    pub fn same_plain_kind(&self, other: &TokenKind) -> (r: bool)
        ensures
            r ==> *self == *other,
            punct_or_keyword(*other) ==> (r <==> *self == *other),
    {
        match (self, other) {
            (TokenKind::Keyword(a), TokenKind::Keyword(b)) => *a == *b,
            (TokenKind::LParen, TokenKind::LParen) => true,
            (TokenKind::RParen, TokenKind::RParen) => true,
            (TokenKind::LBrace, TokenKind::LBrace) => true,
            (TokenKind::RBrace, TokenKind::RBrace) => true,
            (TokenKind::Semicolon, TokenKind::Semicolon) => true,
            (TokenKind::Plus, TokenKind::Plus) => true,
            (TokenKind::Minus, TokenKind::Minus) => true,
            (TokenKind::Asterisk, TokenKind::Asterisk) => true,
            (TokenKind::Slash, TokenKind::Slash) => true,
            (TokenKind::BitwiseComplement, TokenKind::BitwiseComplement) => true,
            (TokenKind::LogicalNegation, TokenKind::LogicalNegation) => true,
            (TokenKind::And, TokenKind::And) => true,
            (TokenKind::Or, TokenKind::Or) => true,
            (TokenKind::Equal, TokenKind::Equal) => true,
            (TokenKind::NotEqual, TokenKind::NotEqual) => true,
            (TokenKind::LessThan, TokenKind::LessThan) => true,
            (TokenKind::LessThanOrEq, TokenKind::LessThanOrEq) => true,
            (TokenKind::GreaterThan, TokenKind::GreaterThan) => true,
            (TokenKind::GreaterThanOrEq, TokenKind::GreaterThanOrEq) => true,
            (TokenKind::Modulo, TokenKind::Modulo) => true,
            (TokenKind::BitwiseAnd, TokenKind::BitwiseAnd) => true,
            (TokenKind::BitwiseOr, TokenKind::BitwiseOr) => true,
            (TokenKind::BitwiseXor, TokenKind::BitwiseXor) => true,
            (TokenKind::BitwiseShiftLeft, TokenKind::BitwiseShiftLeft) => true,
            (TokenKind::BitwiseShiftRight, TokenKind::BitwiseShiftRight) => true,
            (TokenKind::Assignment, TokenKind::Assignment) => true,
            (TokenKind::Colon, TokenKind::Colon) => true,
            (TokenKind::QuestionMark, TokenKind::QuestionMark) => true,
            _ => false,
        }
    }
}

/// A kind that carries no payload.
pub open spec fn punct_or_keyword(k: TokenKind) -> bool {
    !(k is Identifier || k is Integer || k is Decimal)
}

impl Token {
    pub fn is_unary_op(&self) -> (r: bool)
        ensures
            r == unop_of(self.kind) is Some,
    {
        self.kind.is_unary_op()
    }

    pub fn is_binary_op(&self) -> (r: bool)
        ensures
            r == binop_of(self.kind) is Some,
    {
        self.kind.is_binary_op()
    }

    pub fn get_unary_op(&self, expr: Expr) -> (r: Result<Expr, ParserError>)
        ensures
            match unop_of(self.kind) {
                Some(op) => r == Ok::<Expr, ParserError>(Expr::UnaryOp(op, Box::new(expr))),
                None => r is Err,
            },
    {
        self.kind.get_unary_op(expr)
    }

    pub fn get_bin_op(&self, lhs: Expr, rhs: Expr) -> (r: Result<Expr, ParserError>)
        ensures
            match binop_of(self.kind) {
                Some(op) => r == Ok::<Expr, ParserError>(
                    Expr::BinaryOp(op, Box::new(lhs), Box::new(rhs)),
                ),
                None => r is Err,
            },
    {
        self.kind.get_bin_op(lhs, rhs)
    }

    pub fn get_op_prec_assoc(&self) -> (r: Result<(u8, OpAssociativity), ParserError>)
        ensures
            match prec_of(self.kind) {
                Some(pa) => r == Ok::<(u8, OpAssociativity), ParserError>(pa),
                None => r is Err,
            },
    {
        self.kind.get_op_prec_assoc()
    }
}

/// A recursive-descent parser over a token stream, with precedence climbing for
/// expressions.
pub struct Parser {
    tokens: Vec<Token>,
    pos: usize,
}

impl Parser {
    pub closed spec fn wf(&self) -> bool {
        self.pos <= self.tokens.len()
    }

    /// The tokens not yet consumed.
    pub closed spec fn remaining(&self) -> nat {
        (self.tokens.len() - self.pos) as nat
    }

    /// The tokens being parsed.
    pub closed spec fn input(&self) -> Seq<Token> {
        self.tokens@
    }

    /// The index of the next token.
    pub closed spec fn position(&self) -> int {
        self.pos as int
    }

    pub fn new(token_stream: TokenStream) -> (r: Parser)
        ensures
            r.wf(),
            r.input() == token_stream.tokens@,
            r.position() == 0,
            r.remaining() == token_stream.tokens.len(),
    {
        Parser { tokens: token_stream.tokens, pos: 0 }
    }

    /// Parses the whole program: one function named `main`.
    pub fn parse(self) -> (r: Result<Program, ParserError>)
        requires
            self.wf(),
        ensures
            r matches Ok(p) ==> p.function.name@ == "main"@,
            ({
                let t = self.input();
                let p = self.position();
                &&& (p >= t.len() || t[p].kind != TokenKind::Keyword(Keyword::Int)) ==> r is Err
                &&& (p + 1 < t.len() && t[p].kind == TokenKind::Keyword(Keyword::Int)
                    && t[p + 1].kind is Identifier && !(t[p + 1].kind->Identifier_0@ == "main"@))
                    ==> (r matches Err(ParserError::UnexpectedFunctionName(a, b)) && a@ == "main"@
                    && b@ == t[p + 1].kind->Identifier_0@)
            }),
            program_parsed(p_program(self.input(), self.position()), r),
    {
        let mut this = self;
        this.parse_program()
    }

    /// The kind of the next token, if any.
    fn peek(&self) -> (r: Option<&TokenKind>)
        requires
            self.wf(),
        ensures
            r is Some <==> self.pos < self.tokens.len(),
            r matches Some(k) ==> *k == self.tokens@[self.pos as int].kind,
    {
        if self.pos < self.tokens.len() {
            Some(&self.tokens[self.pos].kind)
        } else {
            None
        }
    }

    /// Whether the next token has the payload-free kind `expected`.
    fn peek_is(&self, expected: &TokenKind) -> (r: bool)
        requires
            self.wf(),
            punct_or_keyword(*expected),
        ensures
            r <==> self.pos < self.tokens.len() && self.tokens@[self.pos as int].kind == *expected,
    {
        match self.peek() {
            Some(k) => k.same_plain_kind(expected),
            None => false,
        }
    }

    /// Consumes the next token and returns its kind.
    fn next(&mut self) -> (r: Option<TokenKind>)
        requires
            old(self).wf(),
        ensures
            final(self).wf(),
            final(self).tokens@ == old(self).tokens@,
            old(self).pos < old(self).tokens.len() ==> r is Some && final(self).pos == old(self).pos
                + 1,
            old(self).pos == old(self).tokens.len() ==> r is None && final(self).pos == old(self).pos,
    {
        if self.pos < self.tokens.len() {
            let k = self.tokens[self.pos].kind.clone();
            self.pos = self.pos + 1;
            Some(k)
        } else {
            None
        }
    }

    /// Consumes the next token, which must have the kind `expected`.
    fn expect(&mut self, expected: TokenKind) -> (r: Result<(), ParserError>)
        requires
            old(self).wf(),
            punct_or_keyword(expected),
        ensures
            final(self).wf(),
            final(self).tokens@ == old(self).tokens@,
            r is Ok <==> old(self).pos < old(self).tokens.len() && old(self).tokens@[old(
                self,
            ).pos as int].kind == expected,
            r is Ok ==> final(self).pos == old(self).pos + 1,
    {
        if self.pos == self.tokens.len() {
            return Err(ParserError::UnexpectedEOF(expected));
        }
        let matched = self.peek_is(&expected);
        let got = self.tokens[self.pos].kind.clone();
        self.pos = self.pos + 1;
        if matched {
            Ok(())
        } else {
            Err(ParserError::UnexpectedToken(expected, got))
        }
    }

    /// Consumes the next token, which must be the keyword `expected`.
    fn expect_keyword(&mut self, expected: Keyword) -> (r: Result<(), ParserError>)
        requires
            old(self).wf(),
        ensures
            final(self).wf(),
            final(self).tokens@ == old(self).tokens@,
            r is Ok <==> old(self).pos < old(self).tokens.len() && old(self).tokens@[old(
                self,
            ).pos as int].kind == TokenKind::Keyword(expected),
            r is Ok ==> final(self).pos == old(self).pos + 1,
    {
        if self.pos == self.tokens.len() {
            return Err(ParserError::UnexpectedEOFForKeyword(expected));
        }
        let matched = self.peek_is(&TokenKind::Keyword(expected));
        let got = self.tokens[self.pos].kind.clone();
        self.pos = self.pos + 1;
        if matched {
            Ok(())
        } else {
            Err(ParserError::UnexpectedTokenForKeyword(expected, got))
        }
    }

    /// Consumes the next token, which must be an identifier, and returns its name.
    fn expect_ident(&mut self) -> (r: Result<String, ParserError>)
        requires
            old(self).wf(),
        ensures
            final(self).wf(),
            final(self).tokens@ == old(self).tokens@,
            r is Ok ==> final(self).pos == old(self).pos + 1,
            r is Ok <==> old(self).pos < old(self).tokens.len() && old(self).tokens@[old(
                self,
            ).pos as int].kind is Identifier,
            r matches Ok(name) ==> name == old(self).tokens@[old(self).pos as int].kind->Identifier_0,
    {
        if self.pos < self.tokens.len() {
            match &self.tokens[self.pos].kind {
                TokenKind::Identifier(name) => {
                    let name = name.clone();
                    self.pos = self.pos + 1;
                    Ok(name)
                },
                other => {
                    let k = other.clone();
                    self.pos = self.pos + 1;
                    Err(ParserError::UnexpectedTokenForIdent(k))
                },
            }
        } else {
            Err(ParserError::UnexpectedEOFForIdent)
        }
    }

    fn parse_program(&mut self) -> (r: Result<Program, ParserError>)
        requires
            old(self).wf(),
        ensures
            r matches Ok(p) ==> p.function.name@ == "main"@,
            ({
                let t = old(self).tokens@;
                let p = old(self).pos as int;
                &&& (p >= t.len() || t[p].kind != TokenKind::Keyword(Keyword::Int)) ==> r is Err
                &&& (p + 1 < t.len() && t[p].kind == TokenKind::Keyword(Keyword::Int)
                    && t[p + 1].kind is Identifier && !(t[p + 1].kind->Identifier_0@ == "main"@))
                    ==> (r matches Err(ParserError::UnexpectedFunctionName(a, b)) && a@ == "main"@
                    && b@ == t[p + 1].kind->Identifier_0@)
            }),
            program_parsed(p_program(old(self).tokens@, old(self).pos as int), r),
    {
        let function = self.parse_function(Some("main"))?;
        Ok(Program { function })
    }

    /// Parses `int NAME ( ) block`, where NAME must be `expected_name` when given.
    fn parse_function(&mut self, expected_name: Option<&str>) -> (r: Result<Function, ParserError>)
        requires
            old(self).wf(),
        ensures
            final(self).wf(),
            r matches Ok(f) ==> (expected_name matches Some(n) ==> f.name@ == n@),
            ({
                let t = old(self).tokens@;
                let p = old(self).pos as int;
                &&& (p >= t.len() || t[p].kind != TokenKind::Keyword(Keyword::Int)) ==> r is Err
                &&& (p + 1 < t.len() && t[p].kind == TokenKind::Keyword(Keyword::Int)
                    && t[p + 1].kind is Identifier && (expected_name matches Some(n) && !(t[p
                    + 1].kind->Identifier_0@ == n@))) ==> (r matches Err(
                    ParserError::UnexpectedFunctionName(a, b),
                ) && a@ == expected_name->Some_0@ && b@ == t[p + 1].kind->Identifier_0@)
            }),
            expected_name matches Some(n) ==> function_parsed(p_function(old(self).tokens@, old(self).pos as int, n@), r),
    {
        self.expect_keyword(Keyword::Int)?;
        let function_name = self.expect_ident()?;
        if let Some(expected_name) = expected_name {
            let expected = String::from_str(expected_name);
            if !(function_name == expected) {
                return Err(ParserError::UnexpectedFunctionName(expected, function_name));
            }
        }
        self.expect(TokenKind::LParen)?;
        self.expect(TokenKind::RParen)?;
        let body = self.parse_block()?;
        Ok(Function { name: function_name, body })
    }

    /// Parses `{ block_item* }`.
    fn parse_block(&mut self) -> (r: Result<Block, ParserError>)
        requires
            old(self).wf(),
        ensures
            final(self).wf(),
            final(self).tokens@ == old(self).tokens@,
            r is Ok ==> final(self).pos > old(self).pos,
            block_parsed(p_block(old(self).tokens@, old(self).pos as int), r, final(self).pos as int),
        decreases old(self).remaining(), 3nat,
    {
        let ghost t = self.tokens@;
        let mut items: Vec<BlockItem> = Vec::new();
        self.expect(TokenKind::LBrace)?;
        assert(prepend(items_view(items@), p_items(t, self.pos as int)) =~= p_items(t, self.pos as int));
        assert(prepend(seq![], p_items(t, self.pos as int)) == p_items(t, self.pos as int)) by {
            if let Some((rest, r)) = p_items(t, self.pos as int) {
                assert(Seq::<ItemView>::empty() + rest =~= rest);
            }
        }
        while !self.peek_is(&TokenKind::RBrace)
            invariant
                self.wf(),
                self.tokens@ == old(self).tokens@,
                t == old(self).tokens@,
                self.pos > old(self).pos,
                p_items(t, old(self).pos + 1) == prepend(items_view(items@), p_items(t, self.pos as int)),
            decreases self.remaining(),
        {
            let ghost before = items@;
            let item = self.parse_block_item()?;
            items.push(item);
            proof {
                assert(items@.drop_last() =~= before);
                let v = item_view(item);
                if let Some((rest, r)) = p_items(t, self.pos as int) {
                    assert(items_view(before).push(v) + rest =~= items_view(before) + (seq![v] + rest));
                }
            }
        }
        self.expect(TokenKind::RBrace)?;
        Ok(Block { items })
    }

    /// Parses `int NAME (= expr)? ;`.
    fn parse_declaration(&mut self) -> (r: Result<VarDecl, ParserError>)
        requires
            old(self).wf(),
        ensures
            final(self).wf(),
            final(self).tokens@ == old(self).tokens@,
            r is Ok ==> final(self).pos > old(self).pos,
            r matches Ok(d) ==> d.size == VarSize::Word,
            decl_parsed(p_decl(old(self).tokens@, old(self).pos as int), r, final(self).pos as int),
        decreases old(self).remaining(), 3nat,
    {
        self.expect_keyword(Keyword::Int)?;
        let name = self.expect_ident()?;
        let initializer = if self.peek_is(&TokenKind::Semicolon) {
            None
        } else {
            self.expect(TokenKind::Assignment)?;
            Some(self.parse_expr()?)
        };
        self.expect(TokenKind::Semicolon)?;
        Ok(VarDecl { name, size: VarSize::Word, initializer })
    }

    /// Parses a declaration or a statement.
    fn parse_block_item(&mut self) -> (r: Result<BlockItem, ParserError>)
        requires
            old(self).wf(),
        ensures
            final(self).wf(),
            final(self).tokens@ == old(self).tokens@,
            r is Ok ==> final(self).pos > old(self).pos,
            item_parsed(p_item(old(self).tokens@, old(self).pos as int), r, final(self).pos as int),
        decreases old(self).remaining(), 5nat,
    {
        if self.pos == self.tokens.len() {
            return Err(ParserError::UnexpectedEOFForBlockItem);
        }
        if self.peek_is(&TokenKind::Keyword(Keyword::Int)) {
            Ok(BlockItem::Declaration(self.parse_declaration()?))
        } else {
            Ok(BlockItem::Statement(self.parse_statement()?))
        }
    }

    /// Parses one statement, dispatching on its first token.
    fn parse_statement(&mut self) -> (r: Result<Statement, ParserError>)
        requires
            old(self).wf(),
        ensures
            final(self).wf(),
            final(self).tokens@ == old(self).tokens@,
            r is Ok ==> final(self).pos > old(self).pos,
            stmt_parsed(p_stmt(old(self).tokens@, old(self).pos as int), r, final(self).pos as int),
        decreases old(self).remaining(), 4nat,
    {
        if self.pos == self.tokens.len() {
            return Err(ParserError::UnexpectedEOFForStatement);
        }
        if self.peek_is(&TokenKind::Keyword(Keyword::Return)) {
            self.next();
            let expr = self.parse_expr()?;
            self.expect(TokenKind::Semicolon)?;
            Ok(Statement::Return(Box::new(expr)))
        } else if self.peek_is(&TokenKind::Keyword(Keyword::If)) {
            Ok(Statement::Conditional(self.parse_if()?))
        } else if self.peek_is(&TokenKind::LBrace) {
            Ok(Statement::Block(self.parse_block()?))
        } else if self.peek_is(&TokenKind::Keyword(Keyword::While)) {
            self.next();
            self.expect(TokenKind::LParen)?;
            let condition = self.parse_expr()?;
            self.expect(TokenKind::RParen)?;
            let body = self.parse_statement()?;
            Ok(Statement::While(Box::new(condition), Box::new(body)))
        } else if self.peek_is(&TokenKind::Keyword(Keyword::Do)) {
            self.next();
            let body = self.parse_statement()?;
            self.expect_keyword(Keyword::While)?;
            self.expect(TokenKind::LParen)?;
            let condition = self.parse_expr()?;
            self.expect(TokenKind::RParen)?;
            // The semicolon is mandatory here.
            self.expect(TokenKind::Semicolon)?;
            Ok(Statement::DoWhile(Box::new(body), Box::new(condition)))
        } else if self.peek_is(&TokenKind::Keyword(Keyword::For)) {
            Ok(Statement::For(self.parse_for()?))
        } else if self.peek_is(&TokenKind::Keyword(Keyword::Break)) {
            self.next();
            self.expect(TokenKind::Semicolon)?;
            Ok(Statement::Break)
        } else if self.peek_is(&TokenKind::Keyword(Keyword::Continue)) {
            self.next();
            self.expect(TokenKind::Semicolon)?;
            Ok(Statement::Continue)
        } else if self.peek_is(&TokenKind::Semicolon) {
            self.next();
            Ok(Statement::Null)
        } else {
            // Anything else must be an expression statement.
            let expr = self.parse_expr()?;
            self.expect(TokenKind::Semicolon)?;
            Ok(Statement::Expression(Box::new(expr)))
        }
    }

    /// Parses `for ( init cond? ; step? ) statement`; a missing part is `Expr::Null`.
    fn parse_for(&mut self) -> (r: Result<For, ParserError>)
        requires
            old(self).wf(),
        ensures
            final(self).wf(),
            final(self).tokens@ == old(self).tokens@,
            r is Ok ==> final(self).pos > old(self).pos,
            match p_for(old(self).tokens@, old(self).pos as int) {
                Some((v, q)) => (r matches Ok(f) && for_view(f) == v) && final(self).pos == q,
                None => r is Err,
            },
        decreases old(self).remaining(), 3nat,
    {
        self.expect_keyword(Keyword::For)?;
        self.expect(TokenKind::LParen)?;
        let init = if self.peek_is(&TokenKind::Keyword(Keyword::Int)) {
            DeclOrExpr::Declaration(self.parse_declaration()?)
        } else if self.peek_is(&TokenKind::Semicolon) {
            self.next();
            DeclOrExpr::Expression(Expr::Null)
        } else {
            let e = self.parse_expr()?;
            self.expect(TokenKind::Semicolon)?;
            DeclOrExpr::Expression(e)
        };
        let condition = if self.peek_is(&TokenKind::Semicolon) {
            Expr::Null
        } else {
            self.parse_expr()?
        };
        self.expect(TokenKind::Semicolon)?;
        let increment = if self.peek_is(&TokenKind::RParen) {
            Expr::Null
        } else {
            self.parse_expr()?
        };
        self.expect(TokenKind::RParen)?;
        let body = self.parse_statement()?;
        Ok(
            For {
                init: Box::new(init),
                condition: Box::new(condition),
                increment: Box::new(increment),
                body: Box::new(body),
            },
        )
    }

    /// Parses a full expression.
    fn parse_expr(&mut self) -> (r: Result<Expr, ParserError>)
        requires
            old(self).wf(),
        ensures
            final(self).wf(),
            final(self).tokens@ == old(self).tokens@,
            r is Ok ==> final(self).pos > old(self).pos,
            expr_parsed(p_expr(old(self).tokens@, old(self).pos as int, 1), r, final(self).pos as int),
        decreases old(self).remaining(), 2nat,
    {
        self.parse_expr_with_min_precedence(1)
    }

    /// Parses an expression whose operators all bind at least as tightly as
    /// `min_precedence`, by precedence climbing.
    fn parse_expr_with_min_precedence(&mut self, min_precedence: u8) -> (r: Result<
        Expr,
        ParserError,
    >)
        requires
            old(self).wf(),
        ensures
            final(self).wf(),
            final(self).tokens@ == old(self).tokens@,
            r is Ok ==> final(self).pos > old(self).pos,
            expr_parsed(
                p_expr(old(self).tokens@, old(self).pos as int, min_precedence),
                r,
                final(self).pos as int,
            ),
        decreases old(self).remaining(), 1nat,
    {
        let ghost t = self.tokens@;
        let mut atom_lhs = self.parse_atom()?;
        loop
            invariant
                self.wf(),
                self.tokens@ == old(self).tokens@,
                t == old(self).tokens@,
                self.pos > old(self).pos,
                p_expr(t, old(self).pos as int, min_precedence) == p_climb(
                    t,
                    atom_lhs,
                    self.pos as int,
                    min_precedence,
                ),
            ensures
                self.wf(),
                self.tokens@ == old(self).tokens@,
                self.pos > old(self).pos,
                p_expr(t, old(self).pos as int, min_precedence) == Some((atom_lhs, self.pos as int)),
            decreases self.remaining(),
        {
            if self.pos == self.tokens.len() || self.peek_is(&TokenKind::Semicolon) {
                // The caller consumes the semicolon.
                break;
            }
            let op_pos = self.pos;
            let is_binary = self.tokens[op_pos].kind.is_binary_op();
            if is_binary {
                let (precedence, assoc) = self.tokens[op_pos].kind.get_op_prec_assoc()?;
                if precedence < min_precedence {
                    break;
                }
                self.pos = op_pos + 1;
                let next_min_precedence = match assoc {
                    OpAssociativity::Left => precedence + 1,
                    OpAssociativity::Right => precedence,
                };
                let atom_rhs = self.parse_expr_with_min_precedence(next_min_precedence)?;
                atom_lhs = self.tokens[op_pos].kind.get_bin_op(atom_lhs, atom_rhs)?;
            } else if self.peek_is(&TokenKind::QuestionMark) {
                // The ternary conditional binds loosest of all.
                if 1 < min_precedence {
                    break;
                }
                self.pos = op_pos + 1;
                let if_expr = self.parse_expr()?;
                self.expect(TokenKind::Colon)?;
                let else_expr = self.parse_expr()?;
                atom_lhs = Expr::TernaryConditional(
                    TernaryConditional {
                        condition: Box::new(atom_lhs),
                        if_expr: Box::new(if_expr),
                        else_expr: Box::new(else_expr),
                    },
                );
            } else {
                break;
            }
        }
        Ok(atom_lhs)
    }

    /// Parses an atom: a literal, a variable or an assignment, a parenthesized
    /// expression, or a unary operator applied to an atom.
    fn parse_atom(&mut self) -> (r: Result<Expr, ParserError>)
        requires
            old(self).wf(),
        ensures
            final(self).wf(),
            final(self).tokens@ == old(self).tokens@,
            r is Ok ==> final(self).pos > old(self).pos,
            expr_parsed(p_atom(old(self).tokens@, old(self).pos as int), r, final(self).pos as int),
            old(self).pos < old(self).tokens.len() && binop_of(
                old(self).tokens@[old(self).pos as int].kind,
            ) is Some && unop_of(old(self).tokens@[old(self).pos as int].kind) is None ==> r matches Err(
                ParserError::UnexpectedBinOpForAtom(_),
            ),
        decreases old(self).remaining(), 0nat,
    {
        if self.pos >= self.tokens.len() {
            return Err(ParserError::UnexpectedEOFForAtom);
        }
        let p = self.pos;
        match &self.tokens[p].kind {
            TokenKind::Integer(value) => {
                let value = *value;
                self.pos = p + 1;
                Ok(Expr::Constant(Constant::Int(value)))
            },
            TokenKind::Identifier(name) => {
                let ident = name.clone();
                self.pos = p + 1;
                if self.peek_is(&TokenKind::Assignment) {
                    self.pos = p + 2;
                    let expr = self.parse_expr()?;
                    Ok(Expr::Assignment(ident, Box::new(expr)))
                } else {
                    Ok(Expr::Var(ident))
                }
            },
            TokenKind::LParen => {
                self.pos = p + 1;
                let expr = self.parse_expr()?;
                self.expect(TokenKind::RParen)?;
                Ok(expr)
            },
            op => {
                if op.is_unary_op() {
                    self.pos = p + 1;
                    let expr = self.parse_atom()?;
                    self.tokens[p].kind.get_unary_op(expr)
                } else if op.is_binary_op() {
                    Err(ParserError::UnexpectedBinOpForAtom(op.clone()))
                } else {
                    Err(ParserError::UnexpectedTokenForAtom(op.clone()))
                }
            },
        }
    }

    /// Parses `if ( expr ) statement (else statement)?`.
    fn parse_if(&mut self) -> (r: Result<Conditional, ParserError>)
        requires
            old(self).wf(),
        ensures
            final(self).wf(),
            final(self).tokens@ == old(self).tokens@,
            r is Ok ==> final(self).pos > old(self).pos,
            match p_if(old(self).tokens@, old(self).pos as int) {
                Some((v, q)) => (r matches Ok(c) && cond_view(c) == v) && final(self).pos == q,
                None => r is Err,
            },
        decreases old(self).remaining(), 3nat,
    {
        self.expect_keyword(Keyword::If)?;
        self.expect(TokenKind::LParen)?;
        let condition = self.parse_expr()?;
        self.expect(TokenKind::RParen)?;
        let if_stmt = Box::new(self.parse_statement()?);
        let else_stmt = if self.peek_is(&TokenKind::Keyword(Keyword::Else)) {
            self.next();
            Some(Box::new(self.parse_statement()?))
        } else {
            None
        };
        Ok(Conditional { condition, if_stmt, else_stmt })
    }
}

} // verus!
