use vstd::prelude::*;

use crate::assembly::{dec_text, int_text, join_lines, push_decimal, push_int, Assembly};
use crate::ast::{
    BinaryOp, Block, BlockItem, Conditional, Constant, DeclOrExpr, Expr, For, Function, Program,
    Statement, TernaryConditional, UnaryOp, VarDecl,
};
use crate::frame::{
    apply, empty_frame, items_slots, lays_out, round16, CodegenError, CodegenFunction, CodegenVar, FuncStack,
    Loop,
};

verus! {

/// The name of label number `n`.
pub open spec fn label_text(n: nat) -> Seq<char> {
    seq!['L'] + dec_text(n)
}

/// A load or store between a register and the frame slot at `off`.
pub open spec fn mem_line(prefix: Seq<char>, off: nat) -> Seq<char> {
    prefix + dec_text(off) + seq![']']
}

/// A branch to label `n`.
pub open spec fn jump_line(prefix: Seq<char>, n: nat) -> Seq<char> {
    prefix + label_text(n)
}

/// The definition of label `n`.
pub open spec fn def_line(n: nat) -> Seq<char> {
    label_text(n) + seq![':']
}

pub open spec fn mov_line(n: int) -> Seq<char> {
    "mov w0, #"@ + int_text(n)
}

/// The offset of the variable `name` in the frame (the last entry wins).
pub open spec fn lookup(vm: Seq<(String, CodegenVar)>, name: Seq<char>) -> Option<usize>
    decreases vm.len(),
{
    if vm.len() == 0 {
        None
    } else if vm.last().0@ == name {
        Some(vm.last().1.offset())
    } else {
        lookup(vm.drop_last(), name)
    }
}

/// The instructions that apply a unary operator to `w0`.
pub open spec fn unary_lines(op: UnaryOp) -> Seq<Seq<char>> {
    match op {
        UnaryOp::Negation => seq!["neg w0, w0"@],
        UnaryOp::BitwiseComplement => seq!["mvn w0, w0"@],
        UnaryOp::LogicalNegation => seq!["cmp w0, #0"@, "mov w0, wzr"@, "cset w0, eq"@],
    }
}

/// The instructions that compute `w0 = w1 op w0`.
pub open spec fn binop_lines(op: BinaryOp) -> Seq<Seq<char>> {
    match op {
        BinaryOp::Addition => seq!["add w0, w1, w0"@],
        BinaryOp::Subtraction => seq!["sub w0, w1, w0"@],
        BinaryOp::Multiplication => seq!["mul w0, w1, w0"@],
        BinaryOp::Division => seq!["sdiv w0, w1, w0"@],
        BinaryOp::Equal => seq!["cmp w1, w0"@, "mov w0, wzr"@, "cset w0, eq"@],
        BinaryOp::NotEqual => seq!["cmp w1, w0"@, "mov w0, wzr"@, "cset w0, ne"@],
        BinaryOp::LessThan => seq!["cmp w1, w0"@, "mov w0, wzr"@, "cset w0, lt"@],
        BinaryOp::LessThanOrEq => seq!["cmp w1, w0"@, "mov w0, wzr"@, "cset w0, le"@],
        BinaryOp::GreaterThan => seq!["cmp w1, w0"@, "mov w0, wzr"@, "cset w0, gt"@],
        BinaryOp::GreaterThanOrEq => seq!["cmp w1, w0"@, "mov w0, wzr"@, "cset w0, ge"@],
        BinaryOp::Modulo => seq!["sdiv w2, w1, w0"@, "msub w0, w2, w0, w1"@],
        BinaryOp::BitwiseAnd => seq!["and w0, w1, w0"@],
        BinaryOp::BitwiseOr => seq!["orr w0, w1, w0"@],
        BinaryOp::BitwiseXor => seq!["eor w0, w1, w0"@],
        BinaryOp::BitwiseShiftLeft => seq!["lsl w0, w1, w0"@],
        BinaryOp::BitwiseShiftRight => seq!["lsr w0, w1, w0"@],
        BinaryOp::And | BinaryOp::Or => seq![],
    }
}

/// Normalizes `w0` to 0 or 1.
pub open spec fn normalize_lines() -> Seq<Seq<char>> {
    seq!["cmp w0, #0"@, "cset w0, ne"@]
}

/// The code of an expression, which leaves its value in `w0`, and the next free
/// label number; `None` when an operand cannot be emitted (an unknown variable,
/// a constant other than an integer, or no operator slot at nesting `d`).
pub open spec fn expr_code(e: Expr, fs: FuncStack, d: nat, c: nat) -> Option<
    (Seq<Seq<char>>, nat),
>
    decreases e,
{
    match e {
        Expr::Constant(Constant::Int(n)) => Some((seq![mov_line(n as int)], c)),
        Expr::Constant(_) => None,
        Expr::Null => Some((seq![], c)),
        Expr::Var(x) => match lookup(fs.var_map@, x@) {
            Some(off) => Some((seq![mem_line("ldr w0, [sp, #"@, off as nat)], c)),
            None => None,
        },
        Expr::Assignment(x, inner) => match expr_code(*inner, fs, d, c) {
            Some((code, c1)) => match lookup(fs.var_map@, x@) {
                Some(off) => Some((code.push(mem_line("str w0, [sp, #"@, off as nat)), c1)),
                None => None,
            },
            None => None,
        },
        Expr::UnaryOp(op, inner) => match expr_code(*inner, fs, d, c) {
            Some((code, c1)) => Some((code + unary_lines(op), c1)),
            None => None,
        },
        Expr::BinaryOp(op, l, r) => match expr_code(*l, fs, d, c) {
            None => None,
            Some((lc, c1)) => if op.short_circuits() {
                match expr_code(*r, fs, d, c1 + 1) {
                    None => None,
                    Some((rc, c2)) => Some(
                        (lc + normalize_lines().push(
                            jump_line(
                                if op is And {
                                    "cbz w0, "@
                                } else {
                                    "cbnz w0, "@
                                },
                                c1,
                            ),
                        ) + rc + normalize_lines().push(def_line(c1)), c2),
                    ),
                }
            } else if d >= fs.op_slots.len() {
                None
            } else {
                let off = fs.op_slots@[d as int] as nat;
                match expr_code(*r, fs, d + 1, c1) {
                    None => None,
                    Some((rc, c2)) => Some(
                        (lc.push(mem_line("str w0, [sp, #"@, off)) + rc.push(
                            mem_line("ldr w1, [sp, #"@, off),
                        ) + binop_lines(op), c2),
                    ),
                }
            },
        },
        Expr::TernaryConditional(t) => match expr_code(*t.condition, fs, d, c + 2) {
            None => None,
            Some((cc, c1)) => match expr_code(*t.if_expr, fs, d, c1) {
                None => None,
                Some((ic, c2)) => match expr_code(*t.else_expr, fs, d, c2) {
                    None => None,
                    Some((ec, c3)) => Some(
                        (cc + seq!["cmp w0, #0"@, jump_line("beq "@, c + 1)] + ic + seq![
                            jump_line("b "@, c),
                            def_line(c + 1),
                        ] + ec + seq![def_line(c)], c3),
                    ),
                },
            },
        },
    }
}

/// The loop stack as the labels of each loop: where `continue` goes, then
/// where `break` goes.
pub open spec fn loops_view(v: Seq<Loop>) -> Seq<(Seq<char>, Seq<char>)> {
    v.map_values(|l: Loop| (l.start_label@, l.end_label@))
}

/// The code of a declaration: the initializer (or zero) stored into the
/// variable's slot.
pub open spec fn decl_code(v: VarDecl, fs: FuncStack, d: nat, c: nat) -> Option<
    (Seq<Seq<char>>, nat),
> {
    let init = match v.initializer {
        Some(e) => expr_code(e, fs, d, c),
        None => Some((seq![mov_line(0)], c)),
    };
    match init {
        None => None,
        Some((code, c1)) => match lookup(fs.var_map@, v.name@) {
            Some(off) => Some((code.push(mem_line("str w0, [sp, #"@, off as nat)), c1)),
            None => None,
        },
    }
}

/// The code of an `if` after its condition: the test, the branches, and the
/// labels `c` (end) and `c + 1` (else); the branches start at label `c1`.
pub open spec fn if_tail(
    cond: Conditional,
    fs: FuncStack,
    lp: Seq<(Seq<char>, Seq<char>)>,
    d: nat,
    c: nat,
    c1: nat,
) -> Option<(Seq<Seq<char>>, nat)>
    decreases cond,
{
    match stmt_code(*cond.if_stmt, fs, lp, d, c1) {
        None => None,
        Some((ic, c2)) => if cond.else_stmt is Some {
            match stmt_code(*cond.else_stmt->Some_0, fs, lp, d, c2) {
                None => None,
                Some((ec, c3)) => Some(
                    (seq!["cmp w0, #0"@, jump_line("beq "@, c + 1)] + ic + seq![
                        jump_line("b "@, c),
                        def_line(c + 1),
                    ] + ec + seq![def_line(c)], c3),
                ),
            }
        } else {
            Some(
                (seq!["cmp w0, #0"@, jump_line("beq "@, c)] + ic + seq![
                    jump_line("b "@, c),
                    def_line(c),
                ], c2),
            )
        },
    }
}

/// The code of a statement inside the loops `lp` (innermost last), and the next
/// free label number; `None` when it cannot be emitted.
pub open spec fn stmt_code(
    s: Statement,
    fs: FuncStack,
    lp: Seq<(Seq<char>, Seq<char>)>,
    d: nat,
    c: nat,
) -> Option<(Seq<Seq<char>>, nat)>
    decreases s,
{
    match s {
        Statement::Return(e) => expr_code(*e, fs, d, c),
        Statement::Expression(e) => expr_code(*e, fs, d, c),
        Statement::Block(b) => items_code(b.items@, fs, lp, d, c),
        Statement::Conditional(cond) => match expr_code(cond.condition, fs, d, c + 2) {
            None => None,
            Some((cc, c1)) => match if_tail(cond, fs, lp, d, c, c1) {
                None => None,
                Some((tc, c2)) => Some((cc + tc, c2)),
            },
        },
        Statement::While(cond, body) => match expr_code(*cond, fs, d, c + 2) {
            None => None,
            Some((cc, c1)) => match stmt_code(
                *body,
                fs,
                lp.push((label_text(c), label_text(c + 1))),
                d,
                c1,
            ) {
                None => None,
                Some((bc, c2)) => Some(
                    (seq![def_line(c)] + cc + seq!["cmp w0, #0"@, jump_line("beq "@, c + 1)] + bc
                        + seq![jump_line("b "@, c), def_line(c + 1)], c2),
                ),
            },
        },
        Statement::DoWhile(body, cond) => match stmt_code(
            *body,
            fs,
            lp.push((label_text(c + 1), label_text(c + 2))),
            d,
            c + 3,
        ) {
            None => None,
            Some((bc, c1)) => match expr_code(*cond, fs, d, c1) {
                None => None,
                Some((cc, c2)) => Some(
                    (seq![def_line(c)] + bc + seq![def_line(c + 1)] + cc + seq![
                        "cmp w0, #0"@,
                        jump_line("bne "@, c),
                        def_line(c + 2),
                    ], c2),
                ),
            },
        },
        Statement::For(f) => match init_code(*f.init, fs, d, c + 3) {
            None => None,
            Some((ic, c1)) => match cond_code(*f.condition, fs, d, c1) {
                None => None,
                Some((cc, c2)) => match stmt_code(
                    *f.body,
                    fs,
                    lp.push((label_text(c + 1), label_text(c + 2))),
                    d,
                    c2,
                ) {
                    None => None,
                    Some((bc, c3)) => match expr_code(*f.increment, fs, d, c3) {
                        None => None,
                        Some((sc, c4)) => Some(
                            (ic + seq![def_line(c)] + cc + seq![
                                "cmp w0, #0"@,
                                jump_line("beq "@, c + 2),
                            ] + bc + seq![def_line(c + 1)] + sc + seq![
                                jump_line("b "@, c),
                                def_line(c + 2),
                            ], c4),
                        ),
                    },
                },
            },
        },
        Statement::Break => if lp.len() == 0 {
            None
        } else {
            Some((seq!["b "@ + lp.last().1], c))
        },
        Statement::Continue => if lp.len() == 0 {
            None
        } else {
            Some((seq!["b "@ + lp.last().0], c))
        },
        Statement::Null => Some((seq![], c)),
    }
}

/// The code of a loop condition; a missing one is the constant 1.
pub open spec fn cond_code(e: Expr, fs: FuncStack, d: nat, c: nat) -> Option<
    (Seq<Seq<char>>, nat),
> {
    if e is Null {
        Some((seq![mov_line(1)], c))
    } else {
        expr_code(e, fs, d, c)
    }
}

pub open spec fn init_code(i: DeclOrExpr, fs: FuncStack, d: nat, c: nat) -> Option<
    (Seq<Seq<char>>, nat),
> {
    match i {
        DeclOrExpr::Declaration(v) => decl_code(v, fs, d, c),
        DeclOrExpr::Expression(e) => expr_code(e, fs, d, c),
    }
}

pub open spec fn item_code(
    i: BlockItem,
    fs: FuncStack,
    lp: Seq<(Seq<char>, Seq<char>)>,
    d: nat,
    c: nat,
) -> Option<(Seq<Seq<char>>, nat)>
    decreases i,
{
    match i {
        BlockItem::Statement(s) => stmt_code(s, fs, lp, d, c),
        BlockItem::Declaration(v) => decl_code(v, fs, d, c),
    }
}

/// The code of the items in order.
pub open spec fn items_code(
    items: Seq<BlockItem>,
    fs: FuncStack,
    lp: Seq<(Seq<char>, Seq<char>)>,
    d: nat,
    c: nat,
) -> Option<(Seq<Seq<char>>, nat)>
    decreases items,
{
    if items.len() == 0 {
        Some((seq![], c))
    } else {
        match items_code(items.drop_last(), fs, lp, d, c) {
            None => None,
            Some((a, c1)) => match item_code(items.last(), fs, lp, d, c1) {
                None => None,
                Some((b, c2)) => Some((a + b, c2)),
            },
        }
    }
}

/// Whether a statement ends in a `return` on its paths: `None` when it has
/// nothing to say, `Some(false)` when some branch lacks one (an `if` without
/// `else` always does). A loop counts as its body.
pub open spec fn stmt_returns(s: Statement) -> Option<bool>
    decreases s,
{
    match s {
        Statement::Return(_) => Some(true),
        Statement::Conditional(cond) => {
            let then_returns = match stmt_returns(*cond.if_stmt) {
                Some(b) => b,
                None => false,
            };
            let else_returns = if cond.else_stmt is Some {
                match stmt_returns(*cond.else_stmt->Some_0) {
                    Some(b) => b,
                    None => false,
                }
            } else {
                false
            };
            Some(then_returns && else_returns)
        },
        Statement::Block(b) => Some(items_return(b.items@)),
        Statement::While(_, body) => stmt_returns(*body),
        Statement::DoWhile(body, _) => stmt_returns(*body),
        Statement::For(f) => stmt_returns(*f.body),
        _ => None,
    }
}

/// Whether, among the items whose return analysis says something, the last one
/// has a path without a return.
pub open spec fn items_warn(items: Seq<BlockItem>) -> bool
    decreases items.len(),
{
    if items.len() == 0 {
        false
    } else {
        match items.last() {
            BlockItem::Statement(s) => match stmt_returns(s) {
                Some(b) => !b,
                None => items_warn(items.drop_last()),
            },
            BlockItem::Declaration(_) => items_warn(items.drop_last()),
        }
    }
}

/// Whether some statement among the items has a return on all its paths.
pub open spec fn items_return(items: Seq<BlockItem>) -> bool
    decreases items,
{
    if items.len() == 0 {
        false
    } else {
        items_return(items.drop_last()) || match items.last() {
            BlockItem::Statement(s) => stmt_returns(s) == Some(true),
            BlockItem::Declaration(_) => false,
        }
    }
}

/// The code of a function with frame `fs`: prologue, body, epilogue, and a
/// zero result when the body does not return on every path.
pub open spec fn function_code(f: Function, fs: FuncStack, c: nat) -> Option<Seq<Seq<char>>> {
    match items_code(f.body.items@, fs, seq![], 0, c) {
        None => None,
        Some((body, _)) => Some(
            seq![
                ".globl _"@ + f.name@,
                ".p2align 2"@,
                seq!['_'] + f.name@ + seq![':'],
                "sub sp, sp, #"@ + dec_text(fs.size as nat),
            ] + body + seq!["add sp, sp, #"@ + dec_text(fs.size as nat)] + if items_return(
                f.body.items@,
            ) {
                seq![]
            } else {
                seq![mov_line(0)]
            } + seq!["ret"@],
        ),
    }
}

/// The whole output for a program whose function has the frame `fs`.
pub open spec fn program_code(p: Program, fs: FuncStack) -> Option<Seq<Seq<char>>> {
    match function_code(p.function, fs, 0) {
        None => None,
        Some(code) => Some(
            seq![
                ".section __TEXT,__text,regular,pure_instructions"@,
                ".build_version macos, 13, 0 sdk_version 13, 3"@,
            ] + code,
        ),
    }
}

proof fn lemma_expr_grows(e: Expr, fs: FuncStack, d: nat, c: nat)
    ensures
        expr_code(e, fs, d, c) matches Some((_, c2)) ==> c <= c2,
    decreases e,
{
    match e {
        Expr::Assignment(_, inner) => lemma_expr_grows(*inner, fs, d, c),
        Expr::UnaryOp(_, inner) => lemma_expr_grows(*inner, fs, d, c),
        Expr::BinaryOp(op, l, r) => {
            lemma_expr_grows(*l, fs, d, c);
            if let Some((_, c1)) = expr_code(*l, fs, d, c) {
                lemma_expr_grows(*r, fs, d, c1 + 1);
                lemma_expr_grows(*r, fs, d + 1, c1);
            }
        },
        Expr::TernaryConditional(t) => {
            lemma_expr_grows(*t.condition, fs, d, c + 2);
            if let Some((_, c1)) = expr_code(*t.condition, fs, d, c + 2) {
                lemma_expr_grows(*t.if_expr, fs, d, c1);
                if let Some((_, c2)) = expr_code(*t.if_expr, fs, d, c1) {
                    lemma_expr_grows(*t.else_expr, fs, d, c2);
                }
            }
        },
        _ => {},
    }
}

proof fn lemma_decl_grows(v: VarDecl, fs: FuncStack, d: nat, c: nat)
    ensures
        decl_code(v, fs, d, c) matches Some((_, c2)) ==> c <= c2,
{
    if v.initializer is Some {
        lemma_expr_grows(v.initializer->Some_0, fs, d, c);
    }
}

proof fn lemma_init_grows(i: DeclOrExpr, fs: FuncStack, d: nat, c: nat)
    ensures
        init_code(i, fs, d, c) matches Some((_, c2)) ==> c <= c2,
{
    match i {
        DeclOrExpr::Declaration(v) => lemma_decl_grows(v, fs, d, c),
        DeclOrExpr::Expression(e) => lemma_expr_grows(e, fs, d, c),
    }
}

proof fn lemma_if_tail_grows(
    cond: Conditional,
    fs: FuncStack,
    lp: Seq<(Seq<char>, Seq<char>)>,
    d: nat,
    c: nat,
    c1: nat,
)
    ensures
        if_tail(cond, fs, lp, d, c, c1) matches Some((_, c2)) ==> c1 <= c2,
    decreases cond,
{
    lemma_stmt_grows(*cond.if_stmt, fs, lp, d, c1);
    if let Some((_, c2)) = stmt_code(*cond.if_stmt, fs, lp, d, c1) {
        if cond.else_stmt is Some {
            lemma_stmt_grows(*cond.else_stmt->Some_0, fs, lp, d, c2);
        }
    }
}

proof fn lemma_stmt_grows(
    s: Statement,
    fs: FuncStack,
    lp: Seq<(Seq<char>, Seq<char>)>,
    d: nat,
    c: nat,
)
    ensures
        stmt_code(s, fs, lp, d, c) matches Some((_, c2)) ==> c <= c2,
    decreases s,
{
    match s {
        Statement::Return(e) => lemma_expr_grows(*e, fs, d, c),
        Statement::Expression(e) => lemma_expr_grows(*e, fs, d, c),
        Statement::Block(b) => lemma_items_grows(b.items@, fs, lp, d, c),
        Statement::Conditional(cond) => {
            lemma_expr_grows(cond.condition, fs, d, c + 2);
            if let Some((_, c1)) = expr_code(cond.condition, fs, d, c + 2) {
                lemma_if_tail_grows(cond, fs, lp, d, c, c1);
            }
        },
        Statement::While(cond, body) => {
            lemma_expr_grows(*cond, fs, d, c + 2);
            if let Some((_, c1)) = expr_code(*cond, fs, d, c + 2) {
                lemma_stmt_grows(*body, fs, lp.push((label_text(c), label_text(c + 1))), d, c1);
            }
        },
        Statement::DoWhile(body, cond) => {
            let lp2 = lp.push((label_text(c + 1), label_text(c + 2)));
            lemma_stmt_grows(*body, fs, lp2, d, c + 3);
            if let Some((_, c1)) = stmt_code(*body, fs, lp2, d, c + 3) {
                lemma_expr_grows(*cond, fs, d, c1);
            }
        },
        Statement::For(f) => {
            match *f.init {
                DeclOrExpr::Declaration(v) => lemma_decl_grows(v, fs, d, c + 3),
                DeclOrExpr::Expression(e) => lemma_expr_grows(e, fs, d, c + 3),
            }
            if let Some((_, c1)) = init_code(*f.init, fs, d, c + 3) {
                lemma_expr_grows(*f.condition, fs, d, c1);
                if let Some((_, c2)) = cond_code(*f.condition, fs, d, c1) {
                    let lp2 = lp.push((label_text(c + 1), label_text(c + 2)));
                    lemma_stmt_grows(*f.body, fs, lp2, d, c2);
                    if let Some((_, c3)) = stmt_code(*f.body, fs, lp2, d, c2) {
                        lemma_expr_grows(*f.increment, fs, d, c3);
                    }
                }
            }
        },
        _ => {},
    }
}

proof fn lemma_item_grows(
    it: BlockItem,
    fs: FuncStack,
    lp: Seq<(Seq<char>, Seq<char>)>,
    d: nat,
    c: nat,
)
    ensures
        item_code(it, fs, lp, d, c) matches Some((_, c2)) ==> c <= c2,
    decreases it,
{
    match it {
        BlockItem::Statement(s) => lemma_stmt_grows(s, fs, lp, d, c),
        BlockItem::Declaration(v) => lemma_decl_grows(v, fs, d, c),
    }
}

proof fn lemma_items_grows(
    items: Seq<BlockItem>,
    fs: FuncStack,
    lp: Seq<(Seq<char>, Seq<char>)>,
    d: nat,
    c: nat,
)
    ensures
        items_code(items, fs, lp, d, c) matches Some((_, c2)) ==> c <= c2,
    decreases items,
{
    if items.len() > 0 {
        lemma_items_grows(items.drop_last(), fs, lp, d, c);
        if let Some((_, c1)) = items_code(items.drop_last(), fs, lp, d, c) {
            lemma_item_grows(items.last(), fs, lp, d, c1);
        }
    }
}

/// When a list of items has code, so does each prefix of it, with a label
/// counter no larger.
proof fn lemma_items_prefix(
    items: Seq<BlockItem>,
    k: int,
    fs: FuncStack,
    lp: Seq<(Seq<char>, Seq<char>)>,
    d: nat,
    c: nat,
)
    requires
        0 <= k <= items.len(),
    ensures
        items_code(items, fs, lp, d, c) matches Some((_, c2)) ==> (items_code(
            items.take(k),
            fs,
            lp,
            d,
            c,
        ) matches Some((_, ck)) && ck <= c2),
    decreases items.len(),
{
    if k == items.len() {
        assert(items.take(k) =~= items);
    } else {
        let init = items.drop_last();
        lemma_items_prefix(init, k, fs, lp, d, c);
        assert(init.take(k) =~= items.take(k));
        if let Some((_, c1)) = items_code(init, fs, lp, d, c) {
            lemma_item_grows(items.last(), fs, lp, d, c1);
        }
    }
}

fn mov_string(n: i64) -> (r: String)
    ensures
        r@ == mov_line(n as int),
{
    let mut s = String::from_str("mov w0, #");
    push_int(&mut s, n);
    s
}

impl Statement {
    /// The return analysis of this statement: `None` when it has nothing to
    /// say, `Some(false)` when some branch lacks a return.
    pub fn has_return(&self) -> (r: Option<bool>)
        ensures
            r == stmt_returns(*self),
        decreases self,
    {
        match self {
            Statement::Return(_) => Some(true),
            Statement::Conditional(cond) => {
                let if_has_return = match cond.if_stmt.has_return() {
                    Some(b) => b,
                    None => false,
                };
                let else_has_return = match &cond.else_stmt {
                    Some(e) => match e.has_return() {
                        Some(b) => b,
                        None => false,
                    },
                    None => false,
                };
                Some(if_has_return && else_has_return)
            },
            Statement::Block(block) => Some(block_has_return(&block.items)),
            Statement::Expression(_) => None,
            Statement::While(_, stmt) => stmt.has_return(),
            Statement::DoWhile(stmt, _) => stmt.has_return(),
            Statement::For(for_loop) => for_loop.body.has_return(),
            Statement::Break | Statement::Continue | Statement::Null => None,
        }
    }
}

/// Whether some statement among the items returns on all its paths.
pub fn block_has_return(block_items: &Vec<BlockItem>) -> (r: bool)
    ensures
        r == items_return(block_items@),
    decreases block_items,
{
    let mut found = false;
    let mut i: usize = 0;
    assert(block_items@.take(0) =~= Seq::<BlockItem>::empty());
    while i < block_items.len()
        invariant
            i <= block_items.len(),
            found == items_return(block_items@.take(i as int)),
        decreases block_items.len() - i,
    {
        assert(block_items@.take(i + 1).drop_last() =~= block_items@.take(i as int));
        let here = match &block_items[i] {
            BlockItem::Statement(stmt) => match stmt.has_return() {
                Some(b) => b,
                None => false,
            },
            BlockItem::Declaration(_) => false,
        };
        found = found || here;
        i = i + 1;
    }
    assert(block_items@.take(i as int) =~= block_items@);
    found
}

/// Whether the last item that the return analysis speaks of has a path
/// without a return, which deserves a warning.
pub fn block_return_warning(block_items: &Vec<BlockItem>) -> (r: bool)
    ensures
        r == items_warn(block_items@),
{
    let mut i: usize = block_items.len();
    assert(block_items@.take(i as int) =~= block_items@);
    while i > 0
        invariant
            i <= block_items.len(),
            items_warn(block_items@) == items_warn(block_items@.take(i as int)),
        decreases i,
    {
        assert(block_items@.take(i as int).drop_last() =~= block_items@.take(i - 1));
        if let BlockItem::Statement(stmt) = &block_items[i - 1] {
            if let Some(b) = stmt.has_return() {
                return !b;
            }
        }
        i = i - 1;
    }
    false
}

/// The name of label number `n`.
pub fn unique_label(n: usize) -> (r: String)
    ensures
        r@ == label_text(n as nat),
{
    proof {
        reveal_strlit("L");
    }
    let mut s = String::from_str("L");
    push_decimal(&mut s, n as u64);
    s
}

fn mem_string(prefix: &str, off: usize) -> (r: String)
    ensures
        r@ == mem_line(prefix@, off as nat),
{
    let mut s = String::from_str(prefix);
    push_decimal(&mut s, off as u64);
    proof {
        reveal_strlit("]");
    }
    s.append("]");
    s
}

fn jump_string(prefix: &str, n: usize) -> (r: String)
    ensures
        r@ == jump_line(prefix@, n as nat),
{
    let label = unique_label(n);
    let mut s = String::from_str(prefix);
    s.append(label.as_str());
    assert(s@ =~= prefix@ + label_text(n as nat));
    s
}

fn def_string(n: usize) -> (r: String)
    ensures
        r@ == def_line(n as nat),
{
    let mut s = unique_label(n);
    proof {
        reveal_strlit(":");
    }
    s.append(":");
    s
}

/// The offset of the variable `name` in the frame.
fn find_var(fs: &FuncStack, name: &String) -> (r: Option<usize>)
    ensures
        r == lookup(fs.var_map@, name@),
{
    let mut i: usize = fs.var_map.len();
    assert(fs.var_map@.take(i as int) =~= fs.var_map@);
    while i > 0
        invariant
            i <= fs.var_map.len(),
            lookup(fs.var_map@, name@) == lookup(fs.var_map@.take(i as int), name@),
        decreases i,
    {
        let ghost t = fs.var_map@.take(i as int);
        assert(t.drop_last() =~= fs.var_map@.take(i - 1));
        if fs.var_map[i - 1].0 == *name {
            let CodegenVar::StackVar(var) = fs.var_map[i - 1].1;
            return Some(var.offset);
        }
        i = i - 1;
    }
    None
}

/// An ARM64 code generator: it lays out each function's frame and emits its
/// code, numbering labels from zero.
pub struct ARMCodegen {
    output: Assembly,
    next_label: usize,
}

impl ARMCodegen {
    /// The lines emitted so far.
    pub closed spec fn lines(&self) -> Seq<Seq<char>> {
        self.output@
    }

    /// The next free label number.
    pub closed spec fn label_counter(&self) -> nat {
        self.next_label as nat
    }

    pub fn new() -> (r: ARMCodegen)
        ensures
            r.lines() == Seq::<Seq<char>>::empty(),
            r.label_counter() == 0,
    {
        ARMCodegen { output: Assembly::new(), next_label: 0 }
    }

    fn emit(&mut self, line: &str)
        ensures
            final(self).output@ == old(self).output@.push(line@),
            final(self).next_label == old(self).next_label,
    {
        self.output.push(String::from_str(line));
    }

    /// Takes the next free label number.
    fn new_label(&mut self) -> (r: Result<usize, CodegenError>)
        ensures
            final(self).output@ == old(self).output@,
            r matches Ok(n) ==> n == old(self).next_label && final(self).next_label == n + 1,
            r is Err ==> old(self).next_label == usize::MAX,
    {
        if self.next_label == usize::MAX {
            return Err(CodegenError::TooLarge);
        }
        let n = self.next_label;
        self.next_label = self.next_label + 1;
        Ok(n)
    }

    /// Compiles a program into assembly text.
    pub fn generate(self, program: Program) -> (r: Result<String, CodegenError>)
        requires
            self.lines().len() == 0,
            self.label_counter() == 0,
        ensures
            r matches Ok(text) ==> exists|fs: FuncStack|
                {
                    &&& lays_out(fs, program.function.body)
                    &&& fs.size % 16 == 0
                    &&& #[trigger] program_code(program, fs) matches Some(code)
                    &&& text@ == join_lines(code)
                },
            apply(empty_frame(), items_slots(program.function.body.items@)) is None ==> r is Err,
            (apply(empty_frame(), items_slots(program.function.body.items@)) matches Some(m) && round16(m.size)
                <= usize::MAX && forall|fs: FuncStack|
                #[trigger] lays_out(fs, program.function.body) ==> (items_code(program.function.body.items@, fs, seq![], 0, 0)
                    matches Some((_, c)) && c <= usize::MAX)) ==> r is Ok,
    {
        let mut this = self;
        this.generate_program(&program)?;
        assert(this.output@ =~= Seq::<Seq<char>>::empty() + this.output@);
        Ok(this.output.to_string())
    }

    /// Emits the header and the program's function.
    fn generate_program(&mut self, program: &Program) -> (r: Result<(), CodegenError>)
        requires
            old(self).next_label == 0,
        ensures
            r is Ok ==> exists|fs: FuncStack|
                {
                    &&& lays_out(fs, program.function.body)
                    &&& fs.size % 16 == 0
                    &&& #[trigger] program_code(*program, fs) matches Some(code)
                    &&& final(self).output@ == old(self).output@ + code
                },
            apply(empty_frame(), items_slots(program.function.body.items@)) is None ==> r is Err,
            (apply(empty_frame(), items_slots(program.function.body.items@)) matches Some(m) && round16(m.size)
                <= usize::MAX && forall|fs: FuncStack|
                #[trigger] lays_out(fs, program.function.body) ==> (items_code(program.function.body.items@, fs, seq![], 0, 0)
                    matches Some((_, c)) && c <= usize::MAX)) ==> r is Ok,
    {
        let ghost start = self.output@;
        self.emit(".section __TEXT,__text,regular,pure_instructions");
        self.emit(".build_version macos, 13, 0 sdk_version 13, 3");
        let ghost mid = self.output@;
        self.generate_function(&program.function)?;
        proof {
            let fs = choose|fs: FuncStack|
                {
                    &&& lays_out(fs, program.function.body)
                    &&& fs.size % 16 == 0
                    &&& #[trigger] function_code(program.function, fs, 0) matches Some(code)
                    &&& self.output@ == mid + code
                };
            let code = function_code(program.function, fs, 0)->Some_0;
            assert(self.output@ =~= start + (seq![
                ".section __TEXT,__text,regular,pure_instructions"@,
                ".build_version macos, 13, 0 sdk_version 13, 3"@,
            ] + code));
            assert(program_code(*program, fs) is Some);
        }
        Ok(())
    }

    /// Emits a function: its label, the frame set-up, the body, the frame
    /// tear-down, a zero result when the body does not always return, and
    /// `ret`.
    fn generate_function(&mut self, func: &Function) -> (r: Result<(), CodegenError>)
        ensures
            r is Ok ==> exists|fs: FuncStack|
                {
                    &&& lays_out(fs, func.body)
                    &&& fs.size % 16 == 0
                    &&& #[trigger] function_code(*func, fs, old(self).next_label as nat) matches Some(
                        code,
                    )
                    &&& final(self).output@ == old(self).output@ + code
                },
            apply(empty_frame(), items_slots(func.body.items@)) is None ==> r is Err,
            (apply(empty_frame(), items_slots(func.body.items@)) matches Some(m) && round16(m.size)
                <= usize::MAX && forall|fs: FuncStack|
                #[trigger] lays_out(fs, func.body) ==> (items_code(func.body.items@, fs, seq![], 0, old(self).next_label as nat)
                    matches Some((_, c)) && c <= usize::MAX)) ==> r is Ok,
    {

        let ghost start = self.output@;
        let ghost c0 = self.next_label as nat;
        let mut globl = String::from_str(".globl _");
        globl.append(func.name.as_str());
        self.output.push(globl);
        self.emit(".p2align 2");
        proof {
            reveal_strlit("_");
            reveal_strlit(":");
        }
        let mut entry = String::from_str("_");
        entry.append(func.name.as_str());
        entry.append(":");
        assert(entry@ =~= seq!['_'] + func.name@ + seq![':']);
        self.output.push(entry);
        let mut codegen_func = CodegenFunction::new(&func.body)?;
        let size = codegen_func.stack.size;
        // Reserve the frame.
        let mut sub = String::from_str("sub sp, sp, #");
        push_decimal(&mut sub, size as u64);
        self.output.push(sub);
        let ghost before_body = self.output@;
        assert(loops_view(codegen_func.loops@) =~= Seq::<(Seq<char>, Seq<char>)>::empty());
        self.generate_items(&mut codegen_func, &func.body.items)?;
        let ghost after_body = self.output@;
        // Release the frame.
        let mut add = String::from_str("add sp, sp, #");
        push_decimal(&mut add, size as u64);
        self.output.push(add);
        if !block_has_return(&func.body.items) {
            // A `main` that does not return explicitly returns 0.
            self.output.push(mov_string(0));
        }
        self.emit("ret");
        proof {
            let fs = codegen_func.stack;
            let (body, c1) = items_code(func.body.items@, fs, seq![], 0, c0)->Some_0;
            let tail = if items_return(func.body.items@) {
                Seq::<Seq<char>>::empty()
            } else {
                seq![mov_line(0)]
            };
            assert(before_body =~= start + seq![
                ".globl _"@ + func.name@,
                ".p2align 2"@,
                seq!['_'] + func.name@ + seq![':'],
                "sub sp, sp, #"@ + dec_text(fs.size as nat),
            ]);
            assert(after_body == before_body + body);
            assert(self.output@ =~= after_body + seq!["add sp, sp, #"@ + dec_text(fs.size as nat)] + tail + seq!["ret"@]);
            assert(self.output@ =~= start + (seq![
                ".globl _"@ + func.name@,
                ".p2align 2"@,
                seq!['_'] + func.name@ + seq![':'],
                "sub sp, sp, #"@ + dec_text(fs.size as nat),
            ] + body + seq!["add sp, sp, #"@ + dec_text(fs.size as nat)] + tail + seq!["ret"@]));
            assert(function_code(*func, fs, c0) is Some);
        }
        Ok(())
    }

    /// Emits a declaration: its initializer, or zero, stored into its slot.
    fn generate_declaration(&mut self, func: &mut CodegenFunction, var_decl: &VarDecl) -> (r: Result<
        (),
        CodegenError,
    >)
        ensures
            final(func).stack == old(func).stack,
            final(func).op_stack_depth == old(func).op_stack_depth,
            final(func).loops@ == old(func).loops@,
            match decl_code(*var_decl, old(func).stack, old(func).op_stack_depth as nat, old(self).next_label as nat) {
                Some((code, c)) => (c <= usize::MAX ==> r is Ok) && (r is Ok ==> final(self).output@
                    == old(self).output@ + code && final(self).next_label == c),
                None => r is Err,
            },
    {
        let ghost start = self.output@;
        if let Some(expr) = &var_decl.initializer {
            self.generate_expr(func, expr)?;
        } else {
            self.output.push(mov_string(0));
        }
        let ghost mid = self.output@;
        match find_var(&func.stack, &var_decl.name) {
            Some(off) => {
                self.output.push(mem_string("str w0, [sp, #", off));
                assert(self.output@ =~= start + (mid.skip(start.len() as int)).push(
                    mem_line("str w0, [sp, #"@, off as nat),
                ));
                proof {
                    if var_decl.initializer is None {
                        assert(mid.skip(start.len() as int) =~= seq![mov_line(0)]);
                    }
                }
                Ok(())
            },
            None => Err(CodegenError::VarNotFound(var_decl.name.clone())),
        }
    }

    /// Emits a declaration or a statement.
    fn generate_block_item(&mut self, func: &mut CodegenFunction, block_item: &BlockItem) -> (r: Result<
        (),
        CodegenError,
    >)
        ensures
            final(func).stack == old(func).stack,
            final(func).op_stack_depth == old(func).op_stack_depth,
            final(func).loops@ == old(func).loops@,
            match item_code(*block_item, old(func).stack, loops_view(old(func).loops@), old(func).op_stack_depth as nat, old(self).next_label as nat) {
                Some((code, c)) => (c <= usize::MAX ==> r is Ok) && (r is Ok ==> final(self).output@
                    == old(self).output@ + code && final(self).next_label == c),
                None => r is Err,
            },
        decreases block_item, 3nat,
    {
        match block_item {
            BlockItem::Statement(stmt) => self.generate_statement(func, stmt),
            BlockItem::Declaration(var_decl) => self.generate_declaration(func, var_decl),
        }
    }

    /// Emits the items in order.
    fn generate_items(&mut self, func: &mut CodegenFunction, items: &Vec<BlockItem>) -> (r: Result<
        (),
        CodegenError,
    >)
        ensures
            final(func).stack == old(func).stack,
            final(func).op_stack_depth == old(func).op_stack_depth,
            final(func).loops@ == old(func).loops@,
            match items_code(items@, old(func).stack, loops_view(old(func).loops@), old(func).op_stack_depth as nat, old(self).next_label as nat) {
                Some((code, c)) => (c <= usize::MAX ==> r is Ok) && (r is Ok ==> final(self).output@
                    == old(self).output@ + code && final(self).next_label == c),
                None => r is Err,
            },
        decreases items, 4nat,
    {
        let ghost fs = func.stack;
        let ghost lp = loops_view(func.loops@);
        let ghost d = func.op_stack_depth as nat;
        let ghost start = self.output@;
        let ghost c0 = self.next_label as nat;
        let mut i: usize = 0;
        assert(items@.take(0) =~= Seq::<BlockItem>::empty());
        assert(start + Seq::<Seq<char>>::empty() =~= start);
        while i < items.len()
            invariant
                i <= items.len(),
                func.stack == fs,
                loops_view(func.loops@) == lp,
                func.loops@ == old(func).loops@,
                func.op_stack_depth == d,
                fs == old(func).stack,
                d == old(func).op_stack_depth,
                lp == loops_view(old(func).loops@),
                start == old(self).output@,
                c0 == old(self).next_label,
                items_code(items@.take(i as int), fs, lp, d, c0) matches Some((code, c)) && self.output@
                    == start + code && self.next_label == c,
            decreases items.len() - i,
        {
            assert(items@.take(i + 1).drop_last() =~= items@.take(i as int));
            assert(items@.take(i + 1).last() == items@[i as int]);
            let item_result = self.generate_block_item(func, &items[i]);
            proof {
                lemma_items_prefix(items@, i + 1, fs, lp, d, c0);
            }
            item_result?;
            proof {
                let (a, c1) = items_code(items@.take(i as int), fs, lp, d, c0)->Some_0;
                let (b, c2) = item_code(items@[i as int], fs, lp, d, c1)->Some_0;
                assert(self.output@ =~= start + (a + b));
            }
            i = i + 1;
        }
        assert(items@.take(i as int) =~= items@);
        Ok(())
    }

    /// Emits one statement.
    fn generate_statement(&mut self, func: &mut CodegenFunction, stmt: &Statement) -> (r: Result<
        (),
        CodegenError,
    >)
        ensures
            final(func).stack == old(func).stack,
            final(func).op_stack_depth == old(func).op_stack_depth,
            final(func).loops@ == old(func).loops@,
            match stmt_code(*stmt, old(func).stack, loops_view(old(func).loops@), old(func).op_stack_depth as nat, old(self).next_label as nat) {
                Some((code, c)) => (c <= usize::MAX ==> r is Ok) && (r is Ok ==> final(self).output@
                    == old(self).output@ + code && final(self).next_label == c),
                None => r is Err,
            },
            stmt is Break && old(func).loops.len() == 0 ==> r == Err::<(), CodegenError>(
                CodegenError::NoLoopFoundForBreak,
            ),
            stmt is Continue && old(func).loops.len() == 0 ==> r == Err::<(), CodegenError>(
                CodegenError::NoLoopFoundForContinue,
            ),
        decreases stmt, 2nat,
    {
        match stmt {
            Statement::Return(expr) => self.generate_expr(func, expr),
            Statement::Expression(expr) => self.generate_expr(func, expr),
            Statement::Block(block) => self.generate_items(func, &block.items),
            Statement::Conditional(_) => self.generate_conditional(func, stmt),
            Statement::While(_, _) => self.generate_while(func, stmt),
            Statement::DoWhile(_, _) => self.generate_do_while(func, stmt),
            Statement::For(_) => self.generate_for(func, stmt),
            Statement::Break => {
                if func.loops.len() == 0 {
                    return Err(CodegenError::NoLoopFoundForBreak);
                }
                let target = func.loops[func.loops.len() - 1].end_label.as_str();
                let mut line = String::from_str("b ");
                line.append(target);
                self.output.push(line);
                Ok(())
            },
            Statement::Continue => {
                if func.loops.len() == 0 {
                    return Err(CodegenError::NoLoopFoundForContinue);
                }
                let target = func.loops[func.loops.len() - 1].start_label.as_str();
                let mut line = String::from_str("b ");
                line.append(target);
                self.output.push(line);
                Ok(())
            },
            Statement::Null => {
                assert(self.output@ + Seq::<Seq<char>>::empty() =~= self.output@);
                Ok(())
            },
        }
    }

    /// Emits `if (cond) a else b`.
    fn generate_conditional(&mut self, func: &mut CodegenFunction, stmt: &Statement) -> (r: Result<
        (),
        CodegenError,
    >)
        requires
            stmt is Conditional,
        ensures
            final(func).stack == old(func).stack,
            final(func).op_stack_depth == old(func).op_stack_depth,
            final(func).loops@ == old(func).loops@,
            match stmt_code(*stmt, old(func).stack, loops_view(old(func).loops@), old(func).op_stack_depth as nat, old(self).next_label as nat) {
                Some((code, c)) => (c <= usize::MAX ==> r is Ok) && (r is Ok ==> final(self).output@
                    == old(self).output@ + code && final(self).next_label == c),
                None => r is Err,
            },
        decreases stmt, 1nat,
    {
        let Statement::Conditional(conditional) = stmt else { return unreached() };
        let ghost start = self.output@;
        proof {
            let fs = old(func).stack;
            let d = old(func).op_stack_depth as nat;
            let n = old(self).next_label as nat;
            lemma_expr_grows(conditional.condition, fs, d, n + 2);
            if let Some((_, c1)) = expr_code(conditional.condition, fs, d, n + 2) {
                lemma_if_tail_grows(*conditional, fs, loops_view(old(func).loops@), d, n, c1);
            }
        }
        let end_label = self.new_label()?;
        let else_label = self.new_label()?;
        self.generate_expr(func, &conditional.condition)?;
        let ghost mid = self.output@;
        self.generate_if_tail(func, stmt, end_label, else_label)?;
        proof {
            let cc = mid.skip(start.len() as int);
            assert(mid =~= start + cc);
            let tc = self.output@.skip(mid.len() as int);
            assert(self.output@ =~= start + (cc + tc));
        }
        Ok(())
    }

    /// Emits the test and the branches of an `if` whose condition is in `w0`.
    #[verifier::rlimit(100)]
    #[verifier::spinoff_prover]
    fn generate_if_tail(
        &mut self,
        func: &mut CodegenFunction,
        stmt: &Statement,
        end_label: usize,
        else_label: usize,
    ) -> (r: Result<(), CodegenError>)
        requires
            stmt is Conditional,
            else_label == end_label + 1,
        ensures
            final(func).stack == old(func).stack,
            final(func).op_stack_depth == old(func).op_stack_depth,
            final(func).loops@ == old(func).loops@,
            match if_tail(stmt->Conditional_0, old(func).stack, loops_view(old(func).loops@), old(func).op_stack_depth as nat, end_label as nat, old(self).next_label as nat) {
                Some((code, c)) => (c <= usize::MAX ==> r is Ok) && (r is Ok ==> final(self).output@
                    == old(self).output@ + code && final(self).next_label == c),
                None => r is Err,
            },
        decreases stmt, 0nat,
    {
        let Statement::Conditional(conditional) = stmt else { return unreached() };
        let ghost start = self.output@;
        proof {
            let fs = old(func).stack;
            let d = old(func).op_stack_depth as nat;
            let lp = loops_view(old(func).loops@);
            lemma_stmt_grows(*conditional.if_stmt, fs, lp, d, old(self).next_label as nat);
            if let Some((_, c2)) = stmt_code(*conditional.if_stmt, fs, lp, d, old(self).next_label as nat) {
                if conditional.else_stmt is Some {
                    lemma_stmt_grows(*conditional.else_stmt->Some_0, fs, lp, d, c2);
                }
            }
        }
        self.emit("cmp w0, #0");
        let has_else = conditional.else_stmt.is_some();
        if has_else {
            self.output.push(jump_string("beq ", else_label));
        } else {
            self.output.push(jump_string("beq ", end_label));
        }
        self.generate_statement(func, &conditional.if_stmt)?;
        self.output.push(jump_string("b ", end_label));
        if let Some(else_stmt) = &conditional.else_stmt {
            self.output.push(def_string(else_label));
            self.generate_statement(func, else_stmt)?;
        }
        self.output.push(def_string(end_label));
        proof {
            let fs = old(func).stack;
            let lp = loops_view(old(func).loops@);
            let d = old(func).op_stack_depth as nat;
            let n = end_label as nat;
            let (ic, c2) = stmt_code(*conditional.if_stmt, fs, lp, d, old(self).next_label as nat)->Some_0;
            if conditional.else_stmt is Some {
                let (ec, c3) = stmt_code(*conditional.else_stmt->Some_0, fs, lp, d, c2)->Some_0;
                assert(self.output@ =~= start + (seq!["cmp w0, #0"@, jump_line("beq "@, n + 1)] + ic + seq![
                    jump_line("b "@, n),
                    def_line(n + 1),
                ] + ec + seq![def_line(n)]));
            } else {
                assert(self.output@ =~= start + (seq!["cmp w0, #0"@, jump_line("beq "@, n)] + ic + seq![
                    jump_line("b "@, n),
                    def_line(n),
                ]));
            }
        }
        Ok(())
    }

    /// Enters a loop whose `continue` goes to label `cont` and whose `break`
    /// goes to label `brk`.
    fn push_loop(func: &mut CodegenFunction, cont: usize, brk: usize)
        ensures
            final(func).stack == old(func).stack,
            final(func).op_stack_depth == old(func).op_stack_depth,
            final(func).loops@ == old(func).loops@.push(final(func).loops@.last()),
            loops_view(final(func).loops@) == loops_view(old(func).loops@).push(
                (label_text(cont as nat), label_text(brk as nat)),
            ),
    {
        func.loops.push(Loop { start_label: unique_label(cont), end_label: unique_label(brk) });
        assert(loops_view(func.loops@) =~= loops_view(old(func).loops@).push(
            (label_text(cont as nat), label_text(brk as nat)),
        ));
    }

    /// Emits `while (cond) body`.
    #[verifier::rlimit(100)]
    #[verifier::spinoff_prover]
    fn generate_while(&mut self, func: &mut CodegenFunction, stmt: &Statement) -> (r: Result<
        (),
        CodegenError,
    >)
        requires
            stmt is While,
        ensures
            final(func).stack == old(func).stack,
            final(func).op_stack_depth == old(func).op_stack_depth,
            final(func).loops@ == old(func).loops@,
            match stmt_code(*stmt, old(func).stack, loops_view(old(func).loops@), old(func).op_stack_depth as nat, old(self).next_label as nat) {
                Some((code, c)) => (c <= usize::MAX ==> r is Ok) && (r is Ok ==> final(self).output@
                    == old(self).output@ + code && final(self).next_label == c),
                None => r is Err,
            },
        decreases stmt, 1nat,
    {
        let Statement::While(condition, body) = stmt else { return unreached() };
        let ghost start = self.output@;
        proof {
            let fs = old(func).stack;
            let d = old(func).op_stack_depth as nat;
            let n = old(self).next_label as nat;
            lemma_expr_grows(**condition, fs, d, n + 2);
            if let Some((_, c1)) = expr_code(**condition, fs, d, n + 2) {
                lemma_stmt_grows(
                    **body,
                    fs,
                    loops_view(old(func).loops@).push((label_text(n), label_text(n + 1))),
                    d,
                    c1,
                );
            }
        }
        let start_label = self.new_label()?;
        let end_label = self.new_label()?;
        self.output.push(def_string(start_label));
        self.generate_expr(func, condition)?;
        self.emit("cmp w0, #0");
        self.output.push(jump_string("beq ", end_label));
        Self::push_loop(func, start_label, end_label);
        let body_result = self.generate_statement(func, body);
        func.loops.pop();
        body_result?;
        self.output.push(jump_string("b ", start_label));
        self.output.push(def_string(end_label));
        proof {
            let fs = old(func).stack;
            let lp = loops_view(old(func).loops@);
            let d = old(func).op_stack_depth as nat;
            let n = old(self).next_label as nat;
            let (cc, c1) = expr_code(**condition, fs, d, n + 2)->Some_0;
            let (bc, c2) = stmt_code(**body, fs, lp.push((label_text(n), label_text(n + 1))), d, c1)->Some_0;
            assert(func.loops@ =~= old(func).loops@);
            assert(self.output@ =~= start + (seq![def_line(n)] + cc + seq!["cmp w0, #0"@, jump_line("beq "@, n + 1)] + bc
                + seq![jump_line("b "@, n), def_line(n + 1)]));
        }
        Ok(())
    }

    /// Emits `do body while (cond);`.
    #[verifier::rlimit(100)]
    #[verifier::spinoff_prover]
    fn generate_do_while(&mut self, func: &mut CodegenFunction, stmt: &Statement) -> (r: Result<
        (),
        CodegenError,
    >)
        requires
            stmt is DoWhile,
        ensures
            final(func).stack == old(func).stack,
            final(func).op_stack_depth == old(func).op_stack_depth,
            final(func).loops@ == old(func).loops@,
            match stmt_code(*stmt, old(func).stack, loops_view(old(func).loops@), old(func).op_stack_depth as nat, old(self).next_label as nat) {
                Some((code, c)) => (c <= usize::MAX ==> r is Ok) && (r is Ok ==> final(self).output@
                    == old(self).output@ + code && final(self).next_label == c),
                None => r is Err,
            },
        decreases stmt, 1nat,
    {
        let Statement::DoWhile(body, condition) = stmt else { return unreached() };
        let ghost start = self.output@;
        proof {
            let fs = old(func).stack;
            let d = old(func).op_stack_depth as nat;
            let n = old(self).next_label as nat;
            let lp2 = loops_view(old(func).loops@).push((label_text(n + 1), label_text(n + 2)));
            lemma_stmt_grows(**body, fs, lp2, d, n + 3);
            if let Some((_, c1)) = stmt_code(**body, fs, lp2, d, n + 3) {
                lemma_expr_grows(**condition, fs, d, c1);
            }
        }
        let start_label = self.new_label()?;
        let cont_label = self.new_label()?;
        let end_label = self.new_label()?;
        self.output.push(def_string(start_label));
        Self::push_loop(func, cont_label, end_label);
        let body_result = self.generate_statement(func, body);
        func.loops.pop();
        body_result?;
        self.output.push(def_string(cont_label));
        self.generate_expr(func, condition)?;
        self.emit("cmp w0, #0");
        self.output.push(jump_string("bne ", start_label));
        self.output.push(def_string(end_label));
        proof {
            let fs = old(func).stack;
            let lp = loops_view(old(func).loops@);
            let d = old(func).op_stack_depth as nat;
            let n = old(self).next_label as nat;
            let (bc, c1) = stmt_code(**body, fs, lp.push((label_text(n + 1), label_text(n + 2))), d, n + 3)->Some_0;
            let (cc, c2) = expr_code(**condition, fs, d, c1)->Some_0;
            assert(func.loops@ =~= old(func).loops@);
            assert(self.output@ =~= start + (seq![def_line(n)] + bc + seq![def_line(n + 1)] + cc + seq![
                "cmp w0, #0"@,
                jump_line("bne "@, n),
                def_line(n + 2),
            ]));
        }
        Ok(())
    }

    /// Emits the first part of a `for` header.
    fn generate_for_init(&mut self, func: &mut CodegenFunction, init: &DeclOrExpr) -> (r: Result<
        (),
        CodegenError,
    >)
        ensures
            final(func).stack == old(func).stack,
            final(func).op_stack_depth == old(func).op_stack_depth,
            final(func).loops@ == old(func).loops@,
            match init_code(*init, old(func).stack, old(func).op_stack_depth as nat, old(self).next_label as nat) {
                Some((code, c)) => (c <= usize::MAX ==> r is Ok) && (r is Ok ==> final(self).output@
                    == old(self).output@ + code && final(self).next_label == c),
                None => r is Err,
            },
    {
        match init {
            DeclOrExpr::Declaration(var_decl) => self.generate_declaration(func, var_decl),
            DeclOrExpr::Expression(expr) => self.generate_expr(func, expr),
        }
    }

    /// Emits a loop condition; a missing one is the constant 1.
    fn generate_loop_condition(&mut self, func: &mut CodegenFunction, cond: &Expr) -> (r: Result<
        (),
        CodegenError,
    >)
        ensures
            final(func).stack == old(func).stack,
            final(func).op_stack_depth == old(func).op_stack_depth,
            final(func).loops@ == old(func).loops@,
            match cond_code(*cond, old(func).stack, old(func).op_stack_depth as nat, old(self).next_label as nat) {
                Some((code, c)) => (c <= usize::MAX ==> r is Ok) && (r is Ok ==> final(self).output@
                    == old(self).output@ + code && final(self).next_label == c),
                None => r is Err,
            },
    {
        if let Expr::Null = cond {
            self.output.push(mov_string(1));
            Ok(())
        } else {
            self.generate_expr(func, cond)
        }
    }

    /// Emits `for (init; cond; step) body`; a missing condition is true.
    #[verifier::rlimit(100)]
    #[verifier::spinoff_prover]
    fn generate_for(&mut self, func: &mut CodegenFunction, stmt: &Statement) -> (r: Result<
        (),
        CodegenError,
    >)
        requires
            stmt is For,
        ensures
            final(func).stack == old(func).stack,
            final(func).op_stack_depth == old(func).op_stack_depth,
            final(func).loops@ == old(func).loops@,
            match stmt_code(*stmt, old(func).stack, loops_view(old(func).loops@), old(func).op_stack_depth as nat, old(self).next_label as nat) {
                Some((code, c)) => (c <= usize::MAX ==> r is Ok) && (r is Ok ==> final(self).output@
                    == old(self).output@ + code && final(self).next_label == c),
                None => r is Err,
            },
        decreases stmt, 1nat,
    {
        let Statement::For(for_loop) = stmt else { return unreached() };
        let ghost start = self.output@;
        proof {
            let fs = old(func).stack;
            let d = old(func).op_stack_depth as nat;
            let n = old(self).next_label as nat;
            lemma_init_grows(*for_loop.init, fs, d, n + 3);
            if let Some((_, c1)) = init_code(*for_loop.init, fs, d, n + 3) {
                lemma_expr_grows(*for_loop.condition, fs, d, c1);
                if let Some((_, c2)) = cond_code(*for_loop.condition, fs, d, c1) {
                    let lp2 = loops_view(old(func).loops@).push((label_text(n + 1), label_text(n + 2)));
                    lemma_stmt_grows(*for_loop.body, fs, lp2, d, c2);
                    if let Some((_, c3)) = stmt_code(*for_loop.body, fs, lp2, d, c2) {
                        lemma_expr_grows(*for_loop.increment, fs, d, c3);
                    }
                }
            }
        }
        let start_label = self.new_label()?;
        let step_label = self.new_label()?;
        let end_label = self.new_label()?;
        self.generate_for_init(func, &for_loop.init)?;
        self.output.push(def_string(start_label));
        self.generate_loop_condition(func, &for_loop.condition)?;
        let ghost after_cond = self.output@;
        self.emit("cmp w0, #0");
        self.output.push(jump_string("beq ", end_label));
        Self::push_loop(func, step_label, end_label);
        let body_result = self.generate_statement(func, &for_loop.body);
        func.loops.pop();
        body_result?;
        self.output.push(def_string(step_label));
        self.generate_expr(func, &for_loop.increment)?;
        self.output.push(jump_string("b ", start_label));
        self.output.push(def_string(end_label));
        proof {
            let fs = old(func).stack;
            let lp = loops_view(old(func).loops@);
            let d = old(func).op_stack_depth as nat;
            let n = old(self).next_label as nat;
            let (ic, c1) = init_code(*for_loop.init, fs, d, n + 3)->Some_0;
            let (cc, c2) = cond_code(*for_loop.condition, fs, d, c1)->Some_0;
            let (bc, c3) = stmt_code(*for_loop.body, fs, lp.push((label_text(n + 1), label_text(n + 2))), d, c2)->Some_0;
            let (sc, c4) = expr_code(*for_loop.increment, fs, d, c3)->Some_0;
            assert(func.loops@ =~= old(func).loops@);
            assert(after_cond =~= start + ic + seq![def_line(n)] + cc);
            assert(self.output@ =~= start + (ic + seq![def_line(n)] + cc + seq![
                "cmp w0, #0"@,
                jump_line("beq "@, n + 2),
            ] + bc + seq![def_line(n + 1)] + sc + seq![
                jump_line("b "@, n),
                def_line(n + 2),
            ]));
        }
        Ok(())
    }

    /// Emits `expr`, leaving its value in `w0`.
    fn generate_expr(&mut self, func: &mut CodegenFunction, expr: &Expr) -> (r: Result<
        (),
        CodegenError,
    >)
        ensures
            final(func).stack == old(func).stack,
            final(func).op_stack_depth == old(func).op_stack_depth,
            final(func).loops@ == old(func).loops@,
            match expr_code(*expr, old(func).stack, old(func).op_stack_depth as nat, old(self).next_label as nat) {
                Some((code, c)) => (c <= usize::MAX ==> r is Ok) && (r is Ok ==> final(self).output@
                    == old(self).output@ + code && final(self).next_label == c),
                None => r is Err,
            },
            expr is Var && lookup(old(func).stack.var_map@, expr->Var_0@) is None ==> (r matches Err(
                CodegenError::VarNotFound(y),
            ) && y@ == expr->Var_0@),
        decreases expr, 2nat,
    {
        match expr {
            Expr::Constant(Constant::Int(value)) => {
                let mut s = String::from_str("mov w0, #");
                push_int(&mut s, *value as i64);
                self.output.push(s);
                Ok(())
            },
            Expr::Constant(_) => Err(CodegenError::UnsupportedConstant),
            Expr::Null => {
                assert(self.output@ + Seq::<Seq<char>>::empty() =~= self.output@);
                Ok(())
            },
            Expr::Var(var_name) => match find_var(&func.stack, var_name) {
                Some(off) => {
                    self.output.push(mem_string("ldr w0, [sp, #", off));
                    Ok(())
                },
                None => Err(CodegenError::VarNotFound(var_name.clone())),
            },
            Expr::Assignment(name, inner) => {
                self.generate_expr(func, inner)?;
                match find_var(&func.stack, name) {
                    Some(off) => {
                        self.output.push(mem_string("str w0, [sp, #", off));
                        Ok(())
                    },
                    None => Err(CodegenError::VarNotFound(name.clone())),
                }
            },
            Expr::UnaryOp(_, _) => self.generate_unary_op(func, expr),
            Expr::BinaryOp(_, _, _) => self.generate_binary_op(func, expr),
            Expr::TernaryConditional(_) => self.generate_ternary_cond_expr(func, expr),
        }
    }

    /// Emits a unary operation.
    fn generate_unary_op(&mut self, func: &mut CodegenFunction, expr: &Expr) -> (r: Result<
        (),
        CodegenError,
    >)
        requires
            expr is UnaryOp,
        ensures
            final(func).stack == old(func).stack,
            final(func).op_stack_depth == old(func).op_stack_depth,
            final(func).loops@ == old(func).loops@,
            match expr_code(*expr, old(func).stack, old(func).op_stack_depth as nat, old(self).next_label as nat) {
                Some((code, c)) => (c <= usize::MAX ==> r is Ok) && (r is Ok ==> final(self).output@
                    == old(self).output@ + code && final(self).next_label == c),
                None => r is Err,
            },
        decreases expr, 1nat,
    {
        let Expr::UnaryOp(unary_op, inner) = expr else { return unreached() };
        self.generate_expr(func, inner)?;
        let ghost mid = self.output@;
        match unary_op {
            UnaryOp::Negation => {
                self.emit("neg w0, w0");
            },
            UnaryOp::BitwiseComplement => {
                self.emit("mvn w0, w0");
            },
            UnaryOp::LogicalNegation => {
                self.emit("cmp w0, #0");
                self.emit("mov w0, wzr");
                self.emit("cset w0, eq");
            },
        }
        assert(self.output@ =~= mid + unary_lines(*unary_op));
        Ok(())
    }

    /// Emits `w0 = w1 op w0` for a binary operator that is not short-circuiting.
    fn emit_binop(&mut self, op: &BinaryOp)
        ensures
            final(self).output@ == old(self).output@ + binop_lines(*op),
            final(self).next_label == old(self).next_label,
    {
        let ghost before = self.output@;
        match op {
            BinaryOp::Addition => self.emit("add w0, w1, w0"),
            BinaryOp::Subtraction => self.emit("sub w0, w1, w0"),
            BinaryOp::Multiplication => self.emit("mul w0, w1, w0"),
            // Signed division.
            BinaryOp::Division => self.emit("sdiv w0, w1, w0"),
            BinaryOp::Equal => {
                self.emit("cmp w1, w0");
                self.emit("mov w0, wzr");
                self.emit("cset w0, eq");
            },
            BinaryOp::NotEqual => {
                self.emit("cmp w1, w0");
                self.emit("mov w0, wzr");
                self.emit("cset w0, ne");
            },
            BinaryOp::LessThan => {
                self.emit("cmp w1, w0");
                self.emit("mov w0, wzr");
                self.emit("cset w0, lt");
            },
            BinaryOp::LessThanOrEq => {
                self.emit("cmp w1, w0");
                self.emit("mov w0, wzr");
                self.emit("cset w0, le");
            },
            BinaryOp::GreaterThan => {
                self.emit("cmp w1, w0");
                self.emit("mov w0, wzr");
                self.emit("cset w0, gt");
            },
            BinaryOp::GreaterThanOrEq => {
                self.emit("cmp w1, w0");
                self.emit("mov w0, wzr");
                self.emit("cset w0, ge");
            },
            BinaryOp::Modulo => {
                self.emit("sdiv w2, w1, w0");
                self.emit("msub w0, w2, w0, w1");
            },
            BinaryOp::BitwiseAnd => self.emit("and w0, w1, w0"),
            BinaryOp::BitwiseOr => self.emit("orr w0, w1, w0"),
            BinaryOp::BitwiseXor => self.emit("eor w0, w1, w0"),
            BinaryOp::BitwiseShiftLeft => self.emit("lsl w0, w1, w0"),
            // A logical shift: the sign is not kept.
            BinaryOp::BitwiseShiftRight => self.emit("lsr w0, w1, w0"),
            // The short-circuiting operators have code of their own.
            BinaryOp::And | BinaryOp::Or => {},
        }
        assert(self.output@ =~= before + binop_lines(*op));
    }

    /// Emits a binary operation. The left operand waits in the operator slot of
    /// the current nesting depth while the right one is computed.
    #[verifier::rlimit(100)]
    #[verifier::spinoff_prover]
    fn generate_binary_op(&mut self, func: &mut CodegenFunction, expr: &Expr) -> (r: Result<
        (),
        CodegenError,
    >)
        requires
            expr is BinaryOp,
        ensures
            final(func).stack == old(func).stack,
            final(func).op_stack_depth == old(func).op_stack_depth,
            final(func).loops@ == old(func).loops@,
            match expr_code(*expr, old(func).stack, old(func).op_stack_depth as nat, old(self).next_label as nat) {
                Some((code, c)) => (c <= usize::MAX ==> r is Ok) && (r is Ok ==> final(self).output@
                    == old(self).output@ + code && final(self).next_label == c),
                None => r is Err,
            },
        decreases expr, 1nat,
    {
        let Expr::BinaryOp(binary_op, lhs, rhs) = expr else { return unreached() };
        let ghost start = self.output@;
        proof {
            let fs = old(func).stack;
            let d = old(func).op_stack_depth as nat;
            lemma_expr_grows(**lhs, fs, d, old(self).next_label as nat);
            if let Some((_, c1)) = expr_code(**lhs, fs, d, old(self).next_label as nat) {
                lemma_expr_grows(**rhs, fs, d, c1 + 1);
                lemma_expr_grows(**rhs, fs, d + 1, c1);
            }
        }
        self.generate_expr(func, lhs)?;
        if binary_op.is_short_circuiting_op() {
            return self.generate_short_circuiting_op(func, expr);
        }
        let depth = func.op_stack_depth;
        if depth >= func.stack.op_slots.len() {
            return Err(CodegenError::NoOperatorSlot);
        }
        let stack_offset = func.stack.op_slots[depth];
        // The left operand waits in its slot.
        self.output.push(mem_string("str w0, [sp, #", stack_offset));
        func.op_stack_depth = depth + 1;
        let rhs_result = self.generate_expr(func, rhs);
        func.op_stack_depth = depth;
        rhs_result?;
        // Then comes back into w1.
        self.output.push(mem_string("ldr w1, [sp, #", stack_offset));
        self.emit_binop(binary_op);
        proof {
            let fs = old(func).stack;
            let d = old(func).op_stack_depth as nat;
            let (lc, c1) = expr_code(**lhs, fs, d, old(self).next_label as nat)->Some_0;
            let (rc, c2) = expr_code(**rhs, fs, d + 1, c1)->Some_0;
            assert(self.output@ =~= start + (lc.push(mem_line("str w0, [sp, #"@, stack_offset as nat)) + rc.push(
                mem_line("ldr w1, [sp, #"@, stack_offset as nat),
            ) + binop_lines(*binary_op)));
        }
        Ok(())
    }

    /// Emits `&&` or `||` once the left operand is in `w0`: the right operand
    /// is evaluated only when the left one does not decide the result.
    fn generate_short_circuiting_op(&mut self, func: &mut CodegenFunction, expr: &Expr) -> (r: Result<
        (),
        CodegenError,
    >)
        requires
            expr is BinaryOp,
        ensures
            final(func).stack == old(func).stack,
            final(func).op_stack_depth == old(func).op_stack_depth,
            final(func).loops@ == old(func).loops@,
            !expr->BinaryOp_0.short_circuits() ==> r == Err::<(), CodegenError>(
                CodegenError::UnexpectedBinaryOp(expr->BinaryOp_0),
            ),
            expr->BinaryOp_0.short_circuits() ==> match expr_code(*expr->BinaryOp_2, old(func).stack, old(func).op_stack_depth as nat, old(self).next_label as nat + 1) {
                Some((rc, c2)) => (c2 <= usize::MAX ==> r is Ok) && (r is Ok ==> final(self).output@ == old(self).output@
                    + normalize_lines().push(
                    jump_line(
                        if expr->BinaryOp_0 is And {
                            "cbz w0, "@
                        } else {
                            "cbnz w0, "@
                        },
                        old(self).next_label as nat,
                    ),
                ) + rc + normalize_lines().push(def_line(old(self).next_label as nat))
                    && final(self).next_label == c2),
                None => r is Err,
            },
        decreases expr, 0nat,
    {
        let Expr::BinaryOp(binary_op, _, rhs) = expr else { return unreached() };
        if !binary_op.is_short_circuiting_op() {
            return Err(CodegenError::UnexpectedBinaryOp(*binary_op));
        }
        let ghost start = self.output@;
        proof {
            lemma_expr_grows(**rhs, old(func).stack, old(func).op_stack_depth as nat, old(self).next_label as nat + 1);
        }
        let end_label = self.new_label()?;
        self.emit("cmp w0, #0");
        self.emit("cset w0, ne");
        if let BinaryOp::And = binary_op {
            // When the left operand is false the result is false.
            self.output.push(jump_string("cbz w0, ", end_label));
        } else {
            // When the left operand is true the result is true.
            self.output.push(jump_string("cbnz w0, ", end_label));
        }
        self.generate_expr(func, rhs)?;
        self.emit("cmp w0, #0");
        self.emit("cset w0, ne");
        self.output.push(def_string(end_label));
        proof {
            let (rc, c2) = expr_code(**rhs, old(func).stack, old(func).op_stack_depth as nat, end_label as nat + 1)->Some_0;
            assert(self.output@ =~= start + normalize_lines().push(
                jump_line(
                    if *binary_op is And {
                        "cbz w0, "@
                    } else {
                        "cbnz w0, "@
                    },
                    end_label as nat,
                ),
            ) + rc + normalize_lines().push(def_line(end_label as nat)));
        }
        Ok(())
    }

    /// Emits `cond ? a : b`.
    #[verifier::rlimit(100)]
    #[verifier::spinoff_prover]
    fn generate_ternary_cond_expr(&mut self, func: &mut CodegenFunction, expr: &Expr) -> (r: Result<
        (),
        CodegenError,
    >)
        requires
            expr is TernaryConditional,
        ensures
            final(func).stack == old(func).stack,
            final(func).op_stack_depth == old(func).op_stack_depth,
            final(func).loops@ == old(func).loops@,
            match expr_code(*expr, old(func).stack, old(func).op_stack_depth as nat, old(self).next_label as nat) {
                Some((code, c)) => (c <= usize::MAX ==> r is Ok) && (r is Ok ==> final(self).output@
                    == old(self).output@ + code && final(self).next_label == c),
                None => r is Err,
            },
        decreases expr, 1nat,
    {
        let Expr::TernaryConditional(ternary) = expr else { return unreached() };
        let ghost start = self.output@;
        proof {
            let fs = old(func).stack;
            let d = old(func).op_stack_depth as nat;
            let n = old(self).next_label as nat;
            lemma_expr_grows(*ternary.condition, fs, d, n + 2);
            if let Some((_, c1)) = expr_code(*ternary.condition, fs, d, n + 2) {
                lemma_expr_grows(*ternary.if_expr, fs, d, c1);
                if let Some((_, c2)) = expr_code(*ternary.if_expr, fs, d, c1) {
                    lemma_expr_grows(*ternary.else_expr, fs, d, c2);
                }
            }
        }
        let end_label = self.new_label()?;
        let else_label = self.new_label()?;
        self.generate_expr(func, &ternary.condition)?;
        self.emit("cmp w0, #0");
        self.output.push(jump_string("beq ", else_label));
        self.generate_expr(func, &ternary.if_expr)?;
        self.output.push(jump_string("b ", end_label));
        self.output.push(def_string(else_label));
        self.generate_expr(func, &ternary.else_expr)?;
        self.output.push(def_string(end_label));
        proof {
            let fs = old(func).stack;
            let d = old(func).op_stack_depth as nat;
            let n = old(self).next_label as nat;
            let (cc, c1) = expr_code(*ternary.condition, fs, d, n + 2)->Some_0;
            let (ic, c2) = expr_code(*ternary.if_expr, fs, d, c1)->Some_0;
            let (ec, c3) = expr_code(*ternary.else_expr, fs, d, c2)->Some_0;
            assert(self.output@ =~= start + (cc + seq!["cmp w0, #0"@, jump_line("beq "@, n + 1)] + ic + seq![
                jump_line("b "@, n),
                def_line(n + 1),
            ] + ec + seq![def_line(n)]));
        }
        Ok(())
    }
}

} // verus!
