use vstd::prelude::*;

use crate::ast::{
    BinaryOp, Block, BlockItem, DeclOrExpr, Expr, Statement, VarDecl, VarSize,
};

verus! {

broadcast use vstd::std_specs::vec::group_vec_axioms;

/// What can go wrong while generating code.
#[derive(Debug)]
pub enum CodegenError {
    NoFunctionFound,
    VarAlreadyDeclared(String),
    VarNotFound(String),
    UnexpectedBinaryOp(BinaryOp),
    NoLoopFoundForBreak,
    NoLoopFoundForContinue,
    /// An operator is nested deeper than the frame has operator slots.
    NoOperatorSlot,
    /// A constant other than an integer reached code generation.
    UnsupportedConstant,
    /// The frame or the label numbering outgrew the machine word.
    TooLarge,
}

/// A variable stored in the stack frame.
#[derive(Debug, Clone, Copy, PartialEq, Eq, Structural)]
pub struct StackVar {
    /// Size of the variable.
    pub size: VarSize,
    /// Offset from the stack pointer.
    pub offset: usize,
}

#[derive(Debug, Clone, Copy, PartialEq, Eq, Structural)]
pub enum CodegenVar {
    StackVar(StackVar),
}

impl CodegenVar {
    pub open spec fn offset(self) -> usize {
        match self {
            CodegenVar::StackVar(v) => v.offset,
        }
    }

    /// The variable's offset from the stack pointer.
    pub fn get_stack_offset(&self) -> (r: Result<usize, CodegenError>)
        ensures
            r == Ok::<usize, CodegenError>(self.offset()),
    {
        match self {
            CodegenVar::StackVar(var) => Ok(var.offset),
        }
    }
}

/// The layout of one function's frame: its variables, the slots that hold a
/// binary operator's left operand while the right one is computed (slot `i`
/// serves operators nested `i` deep), and the frame size.
pub struct FuncStack {
    pub var_map: Vec<(String, CodegenVar)>,
    pub op_slots: Vec<usize>,
    pub size: usize,
    pub op_count: usize,
}

/// One frame slot, as the layout pass meets it.
pub enum Slot {
    Var(Seq<char>, VarSize),
    Op,
}

/// A frame as a mathematical value: variables with size and offset, operator
/// slot offsets, and the bytes used so far.
pub struct FrameModel {
    pub vars: Seq<(Seq<char>, VarSize, nat)>,
    pub ops: Seq<nat>,
    pub size: nat,
}

pub open spec fn empty_frame() -> FrameModel {
    FrameModel { vars: seq![], ops: seq![], size: 0 }
}

pub open spec fn has_name(vars: Seq<(Seq<char>, VarSize, nat)>, n: Seq<char>) -> bool {
    exists|i: int| 0 <= i < vars.len() && (#[trigger] vars[i]).0 == n
}

/// Adds one slot on top of the frame; `None` when a variable is declared twice.
pub open spec fn step(m: FrameModel, s: Slot) -> Option<FrameModel> {
    match s {
        Slot::Var(n, sz) => if has_name(m.vars, n) {
            None
        } else {
            Some(
                FrameModel {
                    vars: m.vars.push((n, sz, m.size + sz.bytes())),
                    ops: m.ops,
                    size: m.size + sz.bytes(),
                },
            )
        },
        Slot::Op => Some(FrameModel { vars: m.vars, ops: m.ops.push(m.size + 4), size: m.size + 4 }),
    }
}

/// Adds the slots in order.
pub open spec fn apply(m: FrameModel, sl: Seq<Slot>) -> Option<FrameModel>
    decreases sl.len(),
{
    if sl.len() == 0 {
        Some(m)
    } else {
        match step(m, sl[0]) {
            None => None,
            Some(m2) => apply(m2, sl.drop_first()),
        }
    }
}

/// The slots of an expression: one per binary operator that is not
/// short-circuiting, after those of its operands.
pub open spec fn expr_slots(e: Expr) -> Seq<Slot>
    decreases e,
{
    match e {
        Expr::Assignment(_, inner) => expr_slots(*inner),
        Expr::UnaryOp(_, inner) => expr_slots(*inner),
        Expr::BinaryOp(op, l, r) => expr_slots(*l) + expr_slots(*r) + if op.short_circuits() {
            seq![]
        } else {
            seq![Slot::Op]
        },
        Expr::TernaryConditional(t) => expr_slots(*t.condition) + expr_slots(*t.if_expr)
            + expr_slots(*t.else_expr),
        _ => seq![],
    }
}

/// The number of operator slots an expression needs.
pub open spec fn expr_ops(e: Expr) -> nat
    decreases e,
{
    match e {
        Expr::Assignment(_, inner) => expr_ops(*inner),
        Expr::UnaryOp(_, inner) => expr_ops(*inner),
        Expr::BinaryOp(op, l, r) => expr_ops(*l) + expr_ops(*r) + if op.short_circuits() {
            0nat
        } else {
            1nat
        },
        Expr::TernaryConditional(t) => expr_ops(*t.condition) + expr_ops(*t.if_expr) + expr_ops(
            *t.else_expr,
        ),
        _ => 0,
    }
}

pub open spec fn decl_slots(d: VarDecl) -> Seq<Slot> {
    match d.initializer {
        Some(e) => expr_slots(e) + seq![Slot::Var(d.name@, d.size)],
        None => seq![Slot::Var(d.name@, d.size)],
    }
}

pub open spec fn init_slots(i: DeclOrExpr) -> Seq<Slot> {
    match i {
        DeclOrExpr::Declaration(d) => decl_slots(d),
        DeclOrExpr::Expression(e) => expr_slots(e),
    }
}

pub open spec fn stmt_slots(s: Statement) -> Seq<Slot>
    decreases s,
{
    match s {
        Statement::Block(b) => items_slots(b.items@),
        Statement::Return(e) => expr_slots(*e),
        Statement::Expression(e) => expr_slots(*e),
        Statement::Conditional(c) => expr_slots(c.condition) + stmt_slots(*c.if_stmt) + if let Some(
            e,
        ) = c.else_stmt {
            stmt_slots(*e)
        } else {
            seq![]
        },
        Statement::While(c, b) => expr_slots(*c) + stmt_slots(*b),
        Statement::DoWhile(b, c) => stmt_slots(*b) + expr_slots(*c),
        Statement::For(f) => init_slots(*f.init) + expr_slots(*f.condition) + expr_slots(
            *f.increment,
        ) + stmt_slots(*f.body),
        _ => seq![],
    }
}

pub open spec fn item_slots(i: BlockItem) -> Seq<Slot>
    decreases i,
{
    match i {
        BlockItem::Statement(s) => stmt_slots(s),
        BlockItem::Declaration(d) => decl_slots(d),
    }
}

pub open spec fn items_slots(items: Seq<BlockItem>) -> Seq<Slot>
    decreases items,
{
    if items.len() == 0 {
        seq![]
    } else {
        items_slots(items.drop_last()) + item_slots(items.last())
    }
}

pub open spec fn round16(n: nat) -> nat {
    if n % 16 == 0 {
        n
    } else {
        (n + (16 - n % 16)) as nat
    }
}

/// Every recorded offset lies within the bytes used, and no name occurs twice.
pub open spec fn frame_ok(m: FrameModel) -> bool {
    &&& forall|i: int| 0 <= i < m.vars.len() ==> (#[trigger] m.vars[i]).2 <= m.size
    &&& forall|i: int| 0 <= i < m.ops.len() ==> #[trigger] m.ops[i] <= m.size
    &&& forall|i: int, j: int|
        0 <= i < j < m.vars.len() ==> (#[trigger] m.vars[i]).0 != (#[trigger] m.vars[j]).0
}

/// `fs` is the final layout of `b`: the model that the slots of `b` build, with
/// the size rounded up to a multiple of 16 and each offset measured from the
/// other end of the frame.
pub open spec fn lays_out(fs: FuncStack, b: Block) -> bool {
    match apply(empty_frame(), items_slots(b.items@)) {
        Some(m) => {
            &&& fs.size == round16(m.size)
            &&& fs.op_count == m.ops.len()
            &&& fs.op_slots.len() == m.ops.len()
            &&& fs.var_map.len() == m.vars.len()
            &&& forall|i: int|
                0 <= i < m.vars.len() ==> (#[trigger] fs.var_map@[i]).0@ == m.vars[i].0
                    && fs.var_map@[i].1 == CodegenVar::StackVar(
                    StackVar { size: m.vars[i].1, offset: (fs.size - m.vars[i].2) as usize },
                )
            &&& forall|i: int|
                0 <= i < m.ops.len() ==> #[trigger] fs.op_slots@[i] == fs.size - m.ops[i]
        },
        None => false,
    }
}

proof fn lemma_apply_concat(m: FrameModel, a: Seq<Slot>, b: Seq<Slot>)
    ensures
        apply(m, a + b) == match apply(m, a) {
            Some(m2) => apply(m2, b),
            None => None,
        },
    decreases a.len(),
{
    if a.len() == 0 {
        assert(a + b =~= b);
    } else {
        assert((a + b).drop_first() =~= a.drop_first() + b);
        if let Some(m2) = step(m, a[0]) {
            lemma_apply_concat(m2, a.drop_first(), b);
        }
    }
}

proof fn lemma_apply_one(m: FrameModel, s: Slot)
    ensures
        apply(m, seq![s]) == step(m, s),
{
    assert(seq![s].drop_first() =~= Seq::<Slot>::empty());
    if let Some(m2) = step(m, s) {
        assert(apply(m2, Seq::<Slot>::empty()) == Some(m2));
    }
}

proof fn lemma_apply_ok(m: FrameModel, sl: Seq<Slot>)
    requires
        frame_ok(m),
    ensures
        apply(m, sl) matches Some(m2) ==> frame_ok(m2) && m2.size >= m.size,
    decreases sl.len(),
{
    if sl.len() > 0 {
        if let Some(m2) = step(m, sl[0]) {
            match sl[0] {
                Slot::Var(n, sz) => {
                    assert forall|i: int, j: int|
                        0 <= i < j < m2.vars.len() implies (#[trigger] m2.vars[i]).0 != (
                        #[trigger] m2.vars[j]).0 by {
                        if j == m.vars.len() && m2.vars[i].0 == n {
                            assert(has_name(m.vars, n));
                        }
                    }
                },
                Slot::Op => {},
            }
            lemma_apply_ok(m2, sl.drop_first());
        }
    }
}

proof fn lemma_items_take(items: Seq<BlockItem>, i: int)
    requires
        0 <= i < items.len(),
    ensures
        items_slots(items.take(i + 1)) == items_slots(items.take(i)) + item_slots(items[i]),
{
    assert(items.take(i + 1).drop_last() =~= items.take(i));
}

impl FuncStack {
    pub open spec fn model(&self) -> FrameModel {
        FrameModel {
            vars: self.var_map@.map_values(
                |e: (String, CodegenVar)| (e.0@, e.1->StackVar_0.size, e.1.offset() as nat),
            ),
            ops: self.op_slots@.map_values(|o: usize| o as nat),
            size: self.size as nat,
        }
    }

    pub open spec fn counted(&self) -> bool {
        self.op_count == self.op_slots.len()
    }

    /// Reserves a slot for the variable `name`.
    fn add_var(&mut self, name: &String, size: VarSize) -> (r: Result<(), CodegenError>)
        requires
            old(self).counted(),
        ensures
            final(self).counted(),
            r is Ok ==> step(old(self).model(), Slot::Var(name@, size)) == Some(final(self).model()),
            step(old(self).model(), Slot::Var(name@, size)) is None ==> r is Err,
            (step(old(self).model(), Slot::Var(name@, size)) matches Some(m) && m.size
                <= usize::MAX) ==> r is Ok,
            r matches Err(e) ==> (e is TooLarge || (e is VarAlreadyDeclared && step(
                old(self).model(),
                Slot::Var(name@, size),
            ) is None)),
    {
        let mut i: usize = 0;
        while i < self.var_map.len()
            invariant
                i <= self.var_map.len(),
                self.counted(),
                forall|j: int| 0 <= j < i ==> (#[trigger] self.var_map@[j]).0@ != name@,
            decreases self.var_map.len() - i,
        {
            if self.var_map[i].0 == *name {
                proof {
                    assert(self.model().vars[i as int].0 == name@);
                }
                return Err(CodegenError::VarAlreadyDeclared(name.clone()));
            }
            i = i + 1;
        }
        proof {
            if has_name(self.model().vars, name@) {
                let j = choose|j: int|
                    0 <= j < self.model().vars.len() && (#[trigger] self.model().vars[j]).0
                        == name@;
                assert(self.var_map@[j].0@ == name@);
            }
        }
        let bytes = size.to_bytes();
        if self.size > usize::MAX - bytes {
            return Err(CodegenError::TooLarge);
        }
        let ghost before = self.model();
        self.size = self.size + bytes;
        self.var_map.push(
            (name.clone(), CodegenVar::StackVar(StackVar { size, offset: self.size })),
        );
        assert(self.model().vars =~= before.vars.push((name@, size, before.size + size.bytes())));
        assert(self.model().ops =~= before.ops);
        Ok(())
    }

    /// Reserves a slot for a binary operator's left operand.
    fn add_op(&mut self) -> (r: Result<(), CodegenError>)
        requires
            old(self).counted(),
        ensures
            final(self).counted(),
            r is Ok ==> step(old(self).model(), Slot::Op) == Some(final(self).model()),
            old(self).size + 4 <= usize::MAX ==> r is Ok,
            r is Err ==> r == Err::<(), CodegenError>(CodegenError::TooLarge),
    {
        if self.size > usize::MAX - 4 {
            return Err(CodegenError::TooLarge);
        }
        let ghost before = self.model();
        self.size = self.size + VarSize::Word.to_bytes();
        self.op_slots.push(self.size);
        self.op_count = self.op_slots.len();
        assert(self.model().vars =~= before.vars);
        assert(self.model().ops =~= before.ops.push(before.size + 4));
        Ok(())
    }
}

/// What a layout step promises: on success the frame is the model of the
/// slots added; success is owed whenever that model exists and fits in a
/// machine word; and a failure is either an overflow or a redeclaration.
pub open spec fn layout_result(m0: FrameModel, sl: Seq<Slot>, r: Result<(), CodegenError>, m1: FrameModel) -> bool {
    &&& r is Ok ==> apply(m0, sl) == Some(m1)
    &&& apply(m0, sl) is None ==> r is Err
    &&& (apply(m0, sl) matches Some(m) && m.size <= usize::MAX) ==> r is Ok
    &&& r matches Err(e) ==> (e is TooLarge || (e is VarAlreadyDeclared && apply(m0, sl) is None))
}

proof fn lemma_apply_grows(m: FrameModel, sl: Seq<Slot>)
    ensures
        apply(m, sl) matches Some(m2) ==> m.size <= m2.size,
    decreases sl.len(),
{
    if sl.len() > 0 {
        if let Some(m1) = step(m, sl[0]) {
            lemma_apply_grows(m1, sl.drop_first());
        }
    }
}

/// How the model of `a + b` comes from those of `a` and `b`.
proof fn lemma_two(m0: FrameModel, a: Seq<Slot>, b: Seq<Slot>)
    ensures
        apply(m0, a + b) matches Some(m) ==> (apply(m0, a) matches Some(m1) && m1.size <= m.size
            && apply(m1, b) == Some(m)),
        apply(m0, a) is None ==> apply(m0, a + b) is None,
        apply(m0, a) matches Some(m1) ==> apply(m0, a + b) == apply(m1, b),
{
    lemma_apply_concat(m0, a, b);
    if let Some(m1) = apply(m0, a) {
        lemma_apply_grows(m1, b);
    }
}

proof fn lemma_items_slots_prefix(items: Seq<BlockItem>, k: int, m0: FrameModel)
    requires
        0 <= k <= items.len(),
    ensures
        apply(m0, items_slots(items)) matches Some(m) ==> (apply(m0, items_slots(items.take(k)))
            matches Some(mk) && mk.size <= m.size),
        apply(m0, items_slots(items.take(k))) is None ==> apply(m0, items_slots(items)) is None,
    decreases items.len(),
{
    if k == items.len() {
        assert(items.take(k) =~= items);
    } else {
        let init = items.drop_last();
        lemma_items_slots_prefix(init, k, m0);
        assert(init.take(k) =~= items.take(k));
        lemma_two(m0, items_slots(init), item_slots(items.last()));
    }
}

impl Expr {
    /// Reserves the operator slots of this expression, after those of its operands.
    fn func_stack(&self, stack: &mut FuncStack) -> (r: Result<(), CodegenError>)
        requires
            old(stack).counted(),
        ensures
            final(stack).counted(),
            layout_result(old(stack).model(), expr_slots(*self), r, final(stack).model()),
        decreases self,
    {
        let ghost m0 = stack.model();
        match self {
            Expr::Assignment(_, expr) => expr.func_stack(stack),
            Expr::UnaryOp(_, expr) => expr.func_stack(stack),
            Expr::BinaryOp(op, lhs, rhs) => {
                let ghost l = expr_slots(**lhs);
                let ghost rs = expr_slots(**rhs);
                let ghost x = if op.short_circuits() {
                    Seq::<Slot>::empty()
                } else {
                    seq![Slot::Op]
                };
                proof {
                    assert(expr_slots(*self) == l + rs + x);
                    lemma_two(m0, l + rs, x);
                    lemma_two(m0, l, rs);
                }
                lhs.func_stack(stack)?;
                rhs.func_stack(stack)?;
                let ghost m2 = stack.model();
                if !op.is_short_circuiting_op() {
                    proof {
                        lemma_apply_one(m2, Slot::Op);
                    }
                    // Every operator slot is a machine word.
                    stack.add_op()?;
                } else {
                    assert(apply(m2, x) == Some(m2));
                }
                Ok(())
            },
            Expr::TernaryConditional(ternary) => {
                let ghost a = expr_slots(*ternary.condition);
                let ghost b = expr_slots(*ternary.if_expr);
                let ghost c = expr_slots(*ternary.else_expr);
                proof {
                    lemma_two(m0, a + b, c);
                    lemma_two(m0, a, b);
                }
                ternary.condition.func_stack(stack)?;
                ternary.if_expr.func_stack(stack)?;
                ternary.else_expr.func_stack(stack)?;
                Ok(())
            },
            Expr::Var(_) | Expr::Constant(_) | Expr::Null => Ok(()),
        }
    }
}

impl VarDecl {
    /// Reserves the slots of the initializer, then the variable's own.
    fn func_stack(&self, stack: &mut FuncStack) -> (r: Result<(), CodegenError>)
        requires
            old(stack).counted(),
        ensures
            final(stack).counted(),
            layout_result(old(stack).model(), decl_slots(*self), r, final(stack).model()),
    {
        let ghost m0 = stack.model();
        let ghost v = seq![Slot::Var(self.name@, self.size)];
        proof {
            if self.initializer is Some {
                lemma_two(m0, expr_slots(self.initializer->Some_0), v);
            }
        }
        if let Some(init) = &self.initializer {
            init.func_stack(stack)?;
        }
        let ghost m1 = stack.model();
        proof {
            lemma_apply_one(m1, Slot::Var(self.name@, self.size));
        }
        stack.add_var(&self.name, self.size)?;
        Ok(())
    }
}

impl DeclOrExpr {
    fn func_stack(&self, stack: &mut FuncStack) -> (r: Result<(), CodegenError>)
        requires
            old(stack).counted(),
        ensures
            final(stack).counted(),
            layout_result(old(stack).model(), init_slots(*self), r, final(stack).model()),
    {
        match self {
            DeclOrExpr::Expression(expr) => expr.func_stack(stack),
            DeclOrExpr::Declaration(decl) => decl.func_stack(stack),
        }
    }
}

impl Statement {
    /// Reserves the slots of the variables declared in this statement and of
    /// its operators, in order.
    fn func_stack(&self, stack: &mut FuncStack) -> (r: Result<(), CodegenError>)
        requires
            old(stack).counted(),
        ensures
            final(stack).counted(),
            layout_result(old(stack).model(), stmt_slots(*self), r, final(stack).model()),
        decreases self,
    {
        let ghost m0 = stack.model();
        match self {
            Statement::Expression(expr) | Statement::Return(expr) => expr.func_stack(stack),
            Statement::Conditional(cond) => {
                let ghost a = expr_slots(cond.condition);
                let ghost b = stmt_slots(*cond.if_stmt);
                let ghost c = if cond.else_stmt is Some {
                    stmt_slots(*cond.else_stmt->Some_0)
                } else {
                    seq![]
                };
                proof {
                    lemma_two(m0, a + b, c);
                    lemma_two(m0, a, b);
                }
                cond.condition.func_stack(stack)?;
                cond.if_stmt.func_stack(stack)?;
                if let Some(else_stmt) = &cond.else_stmt {
                    else_stmt.func_stack(stack)?;
                } else {
                    assert(apply(stack.model(), c) == Some(stack.model()));
                }
                Ok(())
            },
            Statement::Block(block) => block.func_stack(stack),
            Statement::While(expr, stmt) => {
                proof {
                    lemma_two(m0, expr_slots(**expr), stmt_slots(**stmt));
                }
                expr.func_stack(stack)?;
                stmt.func_stack(stack)
            },
            Statement::DoWhile(stmt, expr) => {
                proof {
                    lemma_two(m0, stmt_slots(**stmt), expr_slots(**expr));
                }
                stmt.func_stack(stack)?;
                expr.func_stack(stack)
            },
            Statement::For(for_loop) => {
                let ghost a = init_slots(*for_loop.init);
                let ghost b = expr_slots(*for_loop.condition);
                let ghost c = expr_slots(*for_loop.increment);
                let ghost d = stmt_slots(*for_loop.body);
                proof {
                    lemma_two(m0, a + b + c, d);
                    lemma_two(m0, a + b, c);
                    lemma_two(m0, a, b);
                }
                for_loop.init.func_stack(stack)?;
                for_loop.condition.func_stack(stack)?;
                for_loop.increment.func_stack(stack)?;
                for_loop.body.func_stack(stack)
            },
            Statement::Break | Statement::Continue | Statement::Null => {
                assert(apply(m0, stmt_slots(*self)) == Some(m0));
                Ok(())
            },
        }
    }
}

impl Block {
    /// Reserves the slots of every item, in order.
    fn func_stack(&self, stack: &mut FuncStack) -> (r: Result<(), CodegenError>)
        requires
            old(stack).counted(),
        ensures
            final(stack).counted(),
            layout_result(old(stack).model(), items_slots(self.items@), r, final(stack).model()),
        decreases self,
    {
        let ghost m0 = stack.model();
        let mut i: usize = 0;
        assert(self.items@.take(0) =~= Seq::<BlockItem>::empty());
        while i < self.items.len()
            invariant
                i <= self.items.len(),
                stack.counted(),
                m0 == old(stack).model(),
                apply(m0, items_slots(self.items@.take(i as int))) == Some(stack.model()),
            decreases self.items.len() - i,
        {
            proof {
                lemma_items_take(self.items@, i as int);
                lemma_two(m0, items_slots(self.items@.take(i as int)), item_slots(self.items@[i as int]));
                lemma_items_slots_prefix(self.items@, i + 1, m0);
            }
            let ghost mi = stack.model();
            let res = match &self.items[i] {
                BlockItem::Declaration(var_decl) => {
                    assert(item_slots(self.items@[i as int]) == decl_slots(*var_decl));
                    var_decl.func_stack(stack)
                },
                BlockItem::Statement(stmt) => {
                    assert(item_slots(self.items@[i as int]) == stmt_slots(*stmt));
                    stmt.func_stack(stack)
                },
            };
            assert(layout_result(mi, item_slots(self.items@[i as int]), res, stack.model()));
            res?;
            i = i + 1;
        }
        assert(self.items@.take(i as int) =~= self.items@);
        Ok(())
    }

    /// Lays out the frame of a function whose body is this block.
    pub fn to_func_stack(&self) -> (r: Result<FuncStack, CodegenError>)
        ensures
            r matches Ok(fs) ==> lays_out(fs, *self) && fs.size % 16 == 0,
            apply(empty_frame(), items_slots(self.items@)) is None ==> r is Err,
            (apply(empty_frame(), items_slots(self.items@)) matches Some(m) && round16(m.size)
                <= usize::MAX) ==> r is Ok,
            r matches Err(e) ==> (e is TooLarge || (e is VarAlreadyDeclared && apply(
                empty_frame(),
                items_slots(self.items@),
            ) is None)),
    {
        let mut stack = FuncStack { var_map: Vec::new(), op_slots: Vec::new(), size: 0, op_count: 0 };
        assert(stack.model().vars =~= empty_frame().vars);
        assert(stack.model().ops =~= empty_frame().ops);
        self.func_stack(&mut stack)?;
        let ghost m = stack.model();
        proof {
            lemma_apply_ok(empty_frame(), items_slots(self.items@));
        }
        // The stack pointer must stay 16-byte aligned.
        let rem = stack.size % 16;
        let size = if rem != 0 {
            if stack.size > usize::MAX - (16 - rem) {
                return Err(CodegenError::TooLarge);
            }
            stack.size + (16 - rem)
        } else {
            stack.size
        };
        // Offsets count from the stack pointer, at the other end of the frame.
        let mut var_map: Vec<(String, CodegenVar)> = Vec::new();
        let mut i: usize = 0;
        while i < stack.var_map.len()
            invariant
                i <= stack.var_map.len(),
                m == stack.model(),
                frame_ok(m),
                size == round16(m.size),
                var_map.len() == i,
                forall|j: int|
                    0 <= j < i ==> (#[trigger] var_map@[j]).0@ == m.vars[j].0 && var_map@[j].1
                        == CodegenVar::StackVar(
                        StackVar { size: m.vars[j].1, offset: (size - m.vars[j].2) as usize },
                    ),
            decreases stack.var_map.len() - i,
        {
            let entry = &stack.var_map[i];
            let CodegenVar::StackVar(var) = entry.1;
            proof {
                assert(m.vars[i as int].2 == var.offset);
            }
            var_map.push(
                (
                    entry.0.clone(),
                    CodegenVar::StackVar(StackVar { size: var.size, offset: size - var.offset }),
                ),
            );
            i = i + 1;
        }
        let mut op_slots: Vec<usize> = Vec::new();
        let mut k: usize = 0;
        while k < stack.op_slots.len()
            invariant
                k <= stack.op_slots.len(),
                m == stack.model(),
                frame_ok(m),
                size == round16(m.size),
                op_slots.len() == k,
                forall|j: int| 0 <= j < k ==> #[trigger] op_slots@[j] == size - m.ops[j],
            decreases stack.op_slots.len() - k,
        {
            proof {
                assert(m.ops[k as int] == stack.op_slots@[k as int]);
            }
            op_slots.push(size - stack.op_slots[k]);
            k = k + 1;
        }
        Ok(FuncStack { var_map, op_slots, size, op_count: stack.op_count })
    }
}

/// The code generator's state while it emits one function.
pub struct CodegenFunction {
    pub stack: FuncStack,
    pub op_stack_depth: usize,
    pub loops: Vec<Loop>,
}

/// The labels of an enclosing loop: where `continue` and `break` go.
pub struct Loop {
    pub start_label: String,
    pub end_label: String,
}

impl CodegenFunction {
    /// Lays out the frame for a function body, with no operator nesting and no
    /// enclosing loop yet.
    pub fn new(block: &Block) -> (r: Result<CodegenFunction, CodegenError>)
        ensures
            r matches Ok(f) ==> lays_out(f.stack, *block) && f.stack.size % 16 == 0
                && f.op_stack_depth == 0 && f.loops.len() == 0,
            apply(empty_frame(), items_slots(block.items@)) is None ==> r is Err,
            (apply(empty_frame(), items_slots(block.items@)) matches Some(m) && round16(m.size)
                <= usize::MAX) ==> r is Ok,
            r matches Err(e) ==> (e is TooLarge || (e is VarAlreadyDeclared && apply(
                empty_frame(),
                items_slots(block.items@),
            ) is None)),
    {
        Ok(CodegenFunction { stack: block.to_func_stack()?, op_stack_depth: 0, loops: Vec::new() })
    }
}

} // verus!
