use vstd::prelude::*;

use crate::ast::{Block, BlockItem, DeclOrExpr, Expr, Program, Statement, VarDecl};
use crate::codegen::{
    cond_code, decl_code, expr_code, if_tail, init_code, item_code, items_code, label_text,
    lookup, program_code, stmt_code,
};
use crate::frame::{lays_out, CodegenVar, FuncStack};
use crate::ast::{BinaryOp, Constant, TernaryConditional};
use crate::parser::{
    binop_of, p_atom, p_block, p_climb, p_expr, p_items, p_item, p_program, p_stmt, prec_of,
    ItemView, StmtView,
};
use crate::token::Keyword;
use crate::token::{valid_lexeme, Span, Token, TokenKind};
use crate::tokenizer::{byte_len, lexeme_len, lexes, skip_end};

verus! {

/// Every variable that an expression reads or assigns has a slot in `vm`.
pub open spec fn expr_refs_bound(e: Expr, vm: Seq<(String, CodegenVar)>) -> bool
    decreases e,
{
    match e {
        Expr::Var(x) => lookup(vm, x@) is Some,
        Expr::Assignment(x, inner) => lookup(vm, x@) is Some && expr_refs_bound(*inner, vm),
        Expr::UnaryOp(_, inner) => expr_refs_bound(*inner, vm),
        Expr::BinaryOp(_, l, r) => expr_refs_bound(*l, vm) && expr_refs_bound(*r, vm),
        Expr::TernaryConditional(t) => expr_refs_bound(*t.condition, vm) && expr_refs_bound(
            *t.if_expr,
            vm,
        ) && expr_refs_bound(*t.else_expr, vm),
        _ => true,
    }
}

pub open spec fn decl_refs_bound(v: VarDecl, vm: Seq<(String, CodegenVar)>) -> bool {
    lookup(vm, v.name@) is Some && match v.initializer {
        Some(e) => expr_refs_bound(e, vm),
        None => true,
    }
}

pub open spec fn init_refs_bound(i: DeclOrExpr, vm: Seq<(String, CodegenVar)>) -> bool {
    match i {
        DeclOrExpr::Declaration(v) => decl_refs_bound(v, vm),
        DeclOrExpr::Expression(e) => expr_refs_bound(e, vm),
    }
}

/// Every variable that a statement declares, reads or assigns has a slot in `vm`.
pub open spec fn stmt_refs_bound(s: Statement, vm: Seq<(String, CodegenVar)>) -> bool
    decreases s,
{
    match s {
        Statement::Return(e) => expr_refs_bound(*e, vm),
        Statement::Expression(e) => expr_refs_bound(*e, vm),
        Statement::Block(b) => items_refs_bound(b.items@, vm),
        Statement::Conditional(c) => expr_refs_bound(c.condition, vm) && stmt_refs_bound(
            *c.if_stmt,
            vm,
        ) && (c.else_stmt is Some ==> stmt_refs_bound(*c.else_stmt->Some_0, vm)),
        Statement::While(c, b) => expr_refs_bound(*c, vm) && stmt_refs_bound(*b, vm),
        Statement::DoWhile(b, c) => stmt_refs_bound(*b, vm) && expr_refs_bound(*c, vm),
        Statement::For(f) => init_refs_bound(*f.init, vm) && expr_refs_bound(*f.condition, vm)
            && expr_refs_bound(*f.increment, vm) && stmt_refs_bound(*f.body, vm),
        _ => true,
    }
}

pub open spec fn item_refs_bound(i: BlockItem, vm: Seq<(String, CodegenVar)>) -> bool
    decreases i,
{
    match i {
        BlockItem::Statement(s) => stmt_refs_bound(s, vm),
        BlockItem::Declaration(v) => decl_refs_bound(v, vm),
    }
}

pub open spec fn items_refs_bound(items: Seq<BlockItem>, vm: Seq<(String, CodegenVar)>) -> bool
    decreases items,
{
    if items.len() == 0 {
        true
    } else {
        items_refs_bound(items.drop_last(), vm) && item_refs_bound(items.last(), vm)
    }
}

proof fn lemma_expr_refs(e: Expr, fs: FuncStack, d: nat, c: nat)
    requires
        expr_code(e, fs, d, c) is Some,
    ensures
        expr_refs_bound(e, fs.var_map@),
    decreases e,
{
    match e {
        Expr::Assignment(_, inner) => lemma_expr_refs(*inner, fs, d, c),
        Expr::UnaryOp(_, inner) => lemma_expr_refs(*inner, fs, d, c),
        Expr::BinaryOp(op, l, r) => {
            lemma_expr_refs(*l, fs, d, c);
            let c1 = expr_code(*l, fs, d, c)->Some_0.1;
            if op.short_circuits() {
                lemma_expr_refs(*r, fs, d, c1 + 1);
            } else {
                lemma_expr_refs(*r, fs, d + 1, c1);
            }
        },
        Expr::TernaryConditional(t) => {
            lemma_expr_refs(*t.condition, fs, d, c + 2);
            let c1 = expr_code(*t.condition, fs, d, c + 2)->Some_0.1;
            lemma_expr_refs(*t.if_expr, fs, d, c1);
            let c2 = expr_code(*t.if_expr, fs, d, c1)->Some_0.1;
            lemma_expr_refs(*t.else_expr, fs, d, c2);
        },
        _ => {},
    }
}

proof fn lemma_decl_refs(v: VarDecl, fs: FuncStack, d: nat, c: nat)
    requires
        decl_code(v, fs, d, c) is Some,
    ensures
        decl_refs_bound(v, fs.var_map@),
{
    if v.initializer is Some {
        lemma_expr_refs(v.initializer->Some_0, fs, d, c);
    }
}

proof fn lemma_stmt_refs(
    s: Statement,
    fs: FuncStack,
    lp: Seq<(Seq<char>, Seq<char>)>,
    d: nat,
    c: nat,
)
    requires
        stmt_code(s, fs, lp, d, c) is Some,
    ensures
        stmt_refs_bound(s, fs.var_map@),
    decreases s,
{
    match s {
        Statement::Return(e) => lemma_expr_refs(*e, fs, d, c),
        Statement::Expression(e) => lemma_expr_refs(*e, fs, d, c),
        Statement::Block(b) => lemma_items_refs(b.items@, fs, lp, d, c),
        Statement::Conditional(cond) => {
            lemma_expr_refs(cond.condition, fs, d, c + 2);
            let c1 = expr_code(cond.condition, fs, d, c + 2)->Some_0.1;
            assert(if_tail(cond, fs, lp, d, c, c1) is Some);
            lemma_stmt_refs(*cond.if_stmt, fs, lp, d, c1);
            let c2 = stmt_code(*cond.if_stmt, fs, lp, d, c1)->Some_0.1;
            if cond.else_stmt is Some {
                lemma_stmt_refs(*cond.else_stmt->Some_0, fs, lp, d, c2);
            }
        },
        Statement::While(cond, body) => {
            lemma_expr_refs(*cond, fs, d, c + 2);
            let c1 = expr_code(*cond, fs, d, c + 2)->Some_0.1;
            lemma_stmt_refs(*body, fs, lp.push((label_text(c), label_text(c + 1))), d, c1);
        },
        Statement::DoWhile(body, cond) => {
            let lp2 = lp.push((label_text(c + 1), label_text(c + 2)));
            lemma_stmt_refs(*body, fs, lp2, d, c + 3);
            let c1 = stmt_code(*body, fs, lp2, d, c + 3)->Some_0.1;
            lemma_expr_refs(*cond, fs, d, c1);
        },
        Statement::For(f) => {
            let c1 = init_code(*f.init, fs, d, c + 3)->Some_0.1;
            match *f.init {
                DeclOrExpr::Declaration(v) => lemma_decl_refs(v, fs, d, c + 3),
                DeclOrExpr::Expression(e) => lemma_expr_refs(e, fs, d, c + 3),
            }
            let c2 = cond_code(*f.condition, fs, d, c1)->Some_0.1;
            if !(*f.condition is Null) {
                lemma_expr_refs(*f.condition, fs, d, c1);
            }
            let lp2 = lp.push((label_text(c + 1), label_text(c + 2)));
            lemma_stmt_refs(*f.body, fs, lp2, d, c2);
            let c3 = stmt_code(*f.body, fs, lp2, d, c2)->Some_0.1;
            lemma_expr_refs(*f.increment, fs, d, c3);
        },
        _ => {},
    }
}

proof fn lemma_item_refs(
    it: BlockItem,
    fs: FuncStack,
    lp: Seq<(Seq<char>, Seq<char>)>,
    d: nat,
    c: nat,
)
    requires
        item_code(it, fs, lp, d, c) is Some,
    ensures
        item_refs_bound(it, fs.var_map@),
    decreases it,
{
    match it {
        BlockItem::Statement(s) => lemma_stmt_refs(s, fs, lp, d, c),
        BlockItem::Declaration(v) => lemma_decl_refs(v, fs, d, c),
    }
}

#[verifier::rlimit(100)]
proof fn lemma_items_refs(
    items: Seq<BlockItem>,
    fs: FuncStack,
    lp: Seq<(Seq<char>, Seq<char>)>,
    d: nat,
    c: nat,
)
    requires
        items_code(items, fs, lp, d, c) is Some,
    ensures
        items_refs_bound(items, fs.var_map@),
    decreases items,
{
    if items.len() > 0 {
        lemma_items_refs(items.drop_last(), fs, lp, d, c);
        let c1 = items_code(items.drop_last(), fs, lp, d, c)->Some_0.1;
        lemma_item_refs(items.last(), fs, lp, d, c1);
    }
}

/// When a program compiles, every variable that it declares, reads or assigns
/// has a slot in the frame's variable map.
pub proof fn law_compiled_references_are_bound(p: Program, fs: FuncStack)
    requires
        program_code(p, fs) is Some,
    ensures
        items_refs_bound(p.function.body.items@, fs.var_map@),
{
    lemma_items_refs(p.function.body.items@, fs, seq![], 0, 0);
}

/// The frame of every compiled function is a multiple of 16 bytes.
pub proof fn law_frame_is_aligned(fs: FuncStack, b: Block)
    requires
        lays_out(fs, b),
    ensures
        fs.size % 16 == 0,
{
}

/// Each token that the tokenizer returns covers, at its byte span, a lexeme of
/// its kind.
pub proof fn law_spans_hold_lexemes(s: Seq<char>, i: int, toks: Seq<Token>, k: int)
    requires
        lexes(s, i, toks),
        0 <= k < toks.len(),
    ensures
        exists|a: int, b: int|
            #![trigger s.subrange(a, b)]
            0 <= a < b <= s.len() && valid_lexeme(toks[k].kind, s.subrange(a, b)) && toks[k].span
                == Some(Span { lo: byte_len(s.take(a)) as usize, hi: byte_len(s.take(b)) as usize }),
    decreases toks.len(),
{
    let j = skip_end(s, i)->Some_0;
    crate::tokenizer::lemma_skip_end_bound(s, i);
    let n = lexeme_len(s, j);
    crate::tokenizer::lemma_lexeme_bound(s, j);
    if k == 0 {
        assert(s.subrange(j, j + n) == s.subrange(j, j + n));
    } else {
        law_spans_hold_lexemes(s, j + n, toks.drop_first(), k - 1);
        assert(toks.drop_first()[k - 1] == toks[k]);
    }
}

pub open spec fn int_expr(n: i32) -> Expr {
    Expr::Constant(Constant::Int(n))
}

/// `a op2 b op1 c ;`, where `op1` binds tighter than `op2`, parses as
/// `a op2 (b op1 c)`.
pub proof fn law_higher_precedence_binds_tighter(t: Seq<Token>, a: i32, b: i32, c: i32)
    requires
        t.len() == 6,
        t[0].kind == TokenKind::Integer(a),
        t[2].kind == TokenKind::Integer(b),
        t[4].kind == TokenKind::Integer(c),
        t[5].kind == TokenKind::Semicolon,
        binop_of(t[1].kind) is Some,
        binop_of(t[3].kind) is Some,
        prec_of(t[3].kind)->Some_0.0 > prec_of(t[1].kind)->Some_0.0,
    ensures
        p_expr(t, 0, 1) == Some(
            (
                Expr::BinaryOp(
                    binop_of(t[1].kind)->Some_0,
                    Box::new(int_expr(a)),
                    Box::new(
                        Expr::BinaryOp(
                            binop_of(t[3].kind)->Some_0,
                            Box::new(int_expr(b)),
                            Box::new(int_expr(c)),
                        ),
                    ),
                ),
                5int,
            ),
        ),
{
    let k1 = t[1].kind;
    let k3 = t[3].kind;
    assert(prec_of(k1) is Some && prec_of(k3) is Some);
    let (p2, as2) = prec_of(k1)->Some_0;
    let (p1, as1) = prec_of(k3)->Some_0;
    assert(as1 is Left && as2 is Left && p2 >= 1 && p1 <= 12);
    let inner = Expr::BinaryOp(binop_of(k3)->Some_0, Box::new(int_expr(b)), Box::new(int_expr(c)));
    assert(p_atom(t, 4) == Some((int_expr(c), 5int)));
    assert(p_climb(t, int_expr(c), 5, (p1 + 1) as u8) == Some((int_expr(c), 5int)));
    assert(p_expr(t, 4, (p1 + 1) as u8) == Some((int_expr(c), 5int)));
    assert(p_climb(t, inner, 5, (p2 + 1) as u8) == Some((inner, 5int)));
    assert(p_climb(t, int_expr(b), 3, (p2 + 1) as u8) == Some((inner, 5int)));
    assert(p_atom(t, 2) == Some((int_expr(b), 3int)));
    assert(p_expr(t, 2, (p2 + 1) as u8) == Some((inner, 5int)));
    let whole = Expr::BinaryOp(binop_of(k1)->Some_0, Box::new(int_expr(a)), Box::new(inner));
    assert(p_climb(t, whole, 5, 1) == Some((whole, 5int)));
    assert(p_climb(t, int_expr(a), 1, 1) == Some((whole, 5int)));
    assert(p_atom(t, 0) == Some((int_expr(a), 1int)));
}

/// `a - b - c ;` parses as `(a - b) - c`.
pub proof fn law_subtraction_is_left_associative(t: Seq<Token>, a: i32, b: i32, c: i32)
    requires
        t.len() == 6,
        t[0].kind == TokenKind::Integer(a),
        t[1].kind == TokenKind::Minus,
        t[2].kind == TokenKind::Integer(b),
        t[3].kind == TokenKind::Minus,
        t[4].kind == TokenKind::Integer(c),
        t[5].kind == TokenKind::Semicolon,
    ensures
        p_expr(t, 0, 1) == Some(
            (
                Expr::BinaryOp(
                    BinaryOp::Subtraction,
                    Box::new(
                        Expr::BinaryOp(
                            BinaryOp::Subtraction,
                            Box::new(int_expr(a)),
                            Box::new(int_expr(b)),
                        ),
                    ),
                    Box::new(int_expr(c)),
                ),
                5int,
            ),
        ),
{
    let ab = Expr::BinaryOp(BinaryOp::Subtraction, Box::new(int_expr(a)), Box::new(int_expr(b)));
    let abc = Expr::BinaryOp(BinaryOp::Subtraction, Box::new(ab), Box::new(int_expr(c)));
    assert(p_atom(t, 4) == Some((int_expr(c), 5int)));
    assert(p_climb(t, int_expr(c), 5, 11) == Some((int_expr(c), 5int)));
    assert(p_expr(t, 4, 11) == Some((int_expr(c), 5int)));
    assert(p_climb(t, abc, 5, 1) == Some((abc, 5int)));
    assert(p_climb(t, ab, 3, 1) == Some((abc, 5int)));
    assert(p_atom(t, 2) == Some((int_expr(b), 3int)));
    assert(p_climb(t, int_expr(b), 3, 11) == Some((int_expr(b), 3int)));
    assert(p_expr(t, 2, 11) == Some((int_expr(b), 3int)));
    assert(p_climb(t, int_expr(a), 1, 1) == Some((abc, 5int)));
    assert(p_atom(t, 0) == Some((int_expr(a), 1int)));
}

pub open spec fn ternary(c: Expr, a: Expr, b: Expr) -> Expr {
    Expr::TernaryConditional(
        TernaryConditional { condition: Box::new(c), if_expr: Box::new(a), else_expr: Box::new(b) },
    )
}

/// `a ? b : c ? d : e ;` parses as `a ? b : (c ? d : e)`.
pub proof fn law_ternary_is_right_associative(
    t: Seq<Token>,
    a: i32,
    b: i32,
    c: i32,
    d: i32,
    e: i32,
)
    requires
        t.len() == 10,
        t[0].kind == TokenKind::Integer(a),
        t[1].kind == TokenKind::QuestionMark,
        t[2].kind == TokenKind::Integer(b),
        t[3].kind == TokenKind::Colon,
        t[4].kind == TokenKind::Integer(c),
        t[5].kind == TokenKind::QuestionMark,
        t[6].kind == TokenKind::Integer(d),
        t[7].kind == TokenKind::Colon,
        t[8].kind == TokenKind::Integer(e),
        t[9].kind == TokenKind::Semicolon,
    ensures
        p_expr(t, 0, 1) == Some(
            (
                ternary(
                    int_expr(a),
                    int_expr(b),
                    ternary(int_expr(c), int_expr(d), int_expr(e)),
                ),
                9int,
            ),
        ),
{
    let inner = ternary(int_expr(c), int_expr(d), int_expr(e));
    let whole = ternary(int_expr(a), int_expr(b), inner);
    assert(p_atom(t, 8) == Some((int_expr(e), 9int)));
    assert(p_climb(t, int_expr(e), 9, 1) == Some((int_expr(e), 9int)));
    assert(p_expr(t, 8, 1) == Some((int_expr(e), 9int)));
    assert(p_atom(t, 6) == Some((int_expr(d), 7int)));
    assert(p_climb(t, int_expr(d), 7, 1) == Some((int_expr(d), 7int)));
    assert(p_expr(t, 6, 1) == Some((int_expr(d), 7int)));
    assert(p_climb(t, inner, 9, 1) == Some((inner, 9int)));
    assert(p_climb(t, int_expr(c), 5, 1) == Some((inner, 9int)));
    assert(p_atom(t, 4) == Some((int_expr(c), 5int)));
    assert(p_expr(t, 4, 1) == Some((inner, 9int)));
    assert(p_atom(t, 2) == Some((int_expr(b), 3int)));
    assert(p_climb(t, int_expr(b), 3, 1) == Some((int_expr(b), 3int)));
    assert(p_expr(t, 2, 1) == Some((int_expr(b), 3int)));
    assert(p_climb(t, whole, 9, 1) == Some((whole, 9int)));
    assert(p_climb(t, int_expr(a), 1, 1) == Some((whole, 9int)));
    assert(p_atom(t, 0) == Some((int_expr(a), 1int)));
}

/// `a op1 b op2 c ;`, with `op1` and `op2` of equal precedence, parses as
/// `(a op1 b) op2 c`: every binary operator associates to the left.
pub proof fn law_equal_precedence_is_left_associative(t: Seq<Token>, a: i32, b: i32, c: i32)
    requires
        t.len() == 6,
        t[0].kind == TokenKind::Integer(a),
        t[2].kind == TokenKind::Integer(b),
        t[4].kind == TokenKind::Integer(c),
        t[5].kind == TokenKind::Semicolon,
        binop_of(t[1].kind) is Some,
        binop_of(t[3].kind) is Some,
        prec_of(t[3].kind)->Some_0.0 == prec_of(t[1].kind)->Some_0.0,
    ensures
        p_expr(t, 0, 1) == Some(
            (
                Expr::BinaryOp(
                    binop_of(t[3].kind)->Some_0,
                    Box::new(
                        Expr::BinaryOp(
                            binop_of(t[1].kind)->Some_0,
                            Box::new(int_expr(a)),
                            Box::new(int_expr(b)),
                        ),
                    ),
                    Box::new(int_expr(c)),
                ),
                5int,
            ),
        ),
{
    let k1 = t[1].kind;
    let k3 = t[3].kind;
    assert(prec_of(k1) is Some && prec_of(k3) is Some);
    let (p0, as0) = prec_of(k1)->Some_0;
    assert(as0 is Left && p0 >= 1 && p0 <= 12);
    assert(prec_of(k3)->Some_0.1 is Left);
    let m = (p0 + 1) as u8;
    let ab = Expr::BinaryOp(binop_of(k1)->Some_0, Box::new(int_expr(a)), Box::new(int_expr(b)));
    let abc = Expr::BinaryOp(binop_of(k3)->Some_0, Box::new(ab), Box::new(int_expr(c)));
    assert(p_atom(t, 4) == Some((int_expr(c), 5int)));
    assert(p_climb(t, int_expr(c), 5, m) == Some((int_expr(c), 5int)));
    assert(p_expr(t, 4, m) == Some((int_expr(c), 5int)));
    assert(p_climb(t, abc, 5, 1) == Some((abc, 5int)));
    assert(p_climb(t, ab, 3, 1) == Some((abc, 5int)));
    assert(p_atom(t, 2) == Some((int_expr(b), 3int)));
    assert(p_climb(t, int_expr(b), 3, m) == Some((int_expr(b), 3int)));
    assert(p_expr(t, 2, m) == Some((int_expr(b), 3int)));
    assert(p_climb(t, int_expr(a), 1, 1) == Some((abc, 5int)));
    assert(p_atom(t, 0) == Some((int_expr(a), 1int)));
}

/// The tokens of `int main() { return n; }` parse to a `main` whose body is the
/// one statement `return n;`.
pub proof fn law_return_constant_program(t: Seq<Token>, n: i32)
    requires
        t.len() == 9,
        t[0].kind == TokenKind::Keyword(Keyword::Int),
        t[1].kind is Identifier && t[1].kind->Identifier_0@ == "main"@,
        t[2].kind == TokenKind::LParen,
        t[3].kind == TokenKind::RParen,
        t[4].kind == TokenKind::LBrace,
        t[5].kind == TokenKind::Keyword(Keyword::Return),
        t[6].kind == TokenKind::Integer(n),
        t[7].kind == TokenKind::Semicolon,
        t[8].kind == TokenKind::RBrace,
    ensures
        p_program(t, 0) == Some(
            (
                t[1].kind->Identifier_0,
                seq![ItemView::Statement(StmtView::Return(int_expr(n)))],
            ),
        ),
{
    let body = seq![ItemView::Statement(StmtView::Return(int_expr(n)))];
    assert(p_atom(t, 6) == Some((int_expr(n), 7int)));
    assert(p_climb(t, int_expr(n), 7, 1) == Some((int_expr(n), 7int)));
    assert(p_expr(t, 6, 1) == Some((int_expr(n), 7int)));
    assert(p_stmt(t, 5) == Some((StmtView::Return(int_expr(n)), 8int)));
    assert(p_item(t, 5) == Some((ItemView::Statement(StmtView::Return(int_expr(n))), 8int)));
    assert(p_items(t, 8) == Some((Seq::<ItemView>::empty(), 8int)));
    assert(body + Seq::<ItemView>::empty() =~= body);
    assert(p_items(t, 5) == Some((body, 8int)));
    assert(p_block(t, 4) == Some((body, 9int)));
}

} // verus!
