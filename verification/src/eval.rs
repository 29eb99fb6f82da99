//! The evaluator: a scope is executed against the frame stack, item by item,
//! left to right, and yields the value of its last trailing expression. The
//! ghost interpreter below fixes the meaning of every construct; each
//! executable method is proved to return exactly what the interpreter says.

use vstd::prelude::*;

use crate::algebra::{compose_fits, spec_compose};
use crate::ast::SpecEffect;
use crate::ast::{
    ContextEffect, ContextLabel, Effect, Expr, IntLiteral, LetExpr, Op, ScopeInnerValue,
    ScopeValue, Slice, SnapshotValue, SnapshotValueItem, SnapshotValueItemValue, SpecContextEffect,
    SpecExpr, SpecLetExpr, SpecScopeItem, SpecStmt, SpecTypeExpr, SpecTypeValue,
    SpecValue, StateLabel, Stmt, TypeExpr, TypeValue, Value,
};
use crate::error::{CrgError, SpecCrgError};
use crate::reduce::spec_slice_apply;
use crate::vm::{
    empty_frame, spec_assign_types, spec_assign_values, spec_find_type, spec_find_value,
    spec_lookup_value, spec_type_assignable, spec_value_assignable, with_ret, with_types,
    with_values, SpecFrame, Vm,
};

verus! {

// ---------------------------------------------------------------------------
// The ghost interpreter
// ---------------------------------------------------------------------------

/// The frame stack with the innermost frame's pending return value replaced.
pub open spec fn spec_set_ret(vm: Seq<SpecFrame>, v: SpecValue) -> Seq<SpecFrame>
    recommends
        vm.len() > 0,
{
    vm.update(vm.len() - 1, with_ret(vm.last(), v))
}

/// What composing two values yields. `Id` passes the other value through on
/// either side for values of every kind; two effects compose in the effect
/// algebra; composing two slices or two context effects is intentionally
/// left open; every other pairing is absorbed into `Empty`.
pub open spec fn spec_eval_compose(lhs: SpecValue, rhs: SpecValue) -> Result<
    SpecValue,
    SpecCrgError,
> {
    match (lhs, rhs) {
        (SpecValue::Id, r) => Ok(r),
        (l, SpecValue::Id) => Ok(l),
        (SpecValue::Effect(a), SpecValue::Effect(b)) => if compose_fits(a, b) {
            Ok(SpecValue::Effect(spec_compose(a, b)))
        } else {
            Err(SpecCrgError::IntegerOverflow)
        },
        (SpecValue::Slice(_), SpecValue::Slice(_)) => Err(SpecCrgError::Unimplemented),
        (SpecValue::ContextEffect(_), SpecValue::ContextEffect(_)) => Err(
            SpecCrgError::Unimplemented,
        ),
        _ => Ok(SpecValue::Empty),
    }
}

/// What the apply operator yields: aiming an effect at a context label
/// produces a context effect; every other pairing is absorbed into `Empty`.
pub open spec fn spec_eval_apply(lhs: SpecValue, rhs: SpecValue) -> SpecValue {
    match (lhs, rhs) {
        (SpecValue::Context(label), SpecValue::Effect(effect)) => SpecValue::ContextEffect(
            SpecContextEffect { label, effect },
        ),
        _ => SpecValue::Empty,
    }
}

/// What the push operator yields: a new slice whose elements are the left
/// slice's followed by the pushed context effect; every other pairing is
/// absorbed into `Empty`.
pub open spec fn spec_eval_push(lhs: SpecValue, rhs: SpecValue) -> SpecValue {
    match (lhs, rhs) {
        (SpecValue::Slice(items), SpecValue::ContextEffect(ce)) => SpecValue::Slice(
            items.push(ce),
        ),
        _ => SpecValue::Empty,
    }
}

/// What the reduce operator yields: a slice applied to a snapshot produces
/// the updated snapshot; every other pairing is absorbed into `Empty`.
pub open spec fn spec_eval_reduce(lhs: SpecValue, rhs: SpecValue) -> Result<
    SpecValue,
    SpecCrgError,
> {
    match (lhs, rhs) {
        (SpecValue::Slice(items), SpecValue::Snapshot(snap)) => match spec_slice_apply(
            items,
            snap,
        ) {
            Ok(s) => Ok(SpecValue::Snapshot(s)),
            Err(e) => Err(e),
        },
        _ => Ok(SpecValue::Empty),
    }
}

/// What a binary operator yields on two already evaluated operands.
pub open spec fn spec_apply_op(op: Op, lhs: SpecValue, rhs: SpecValue) -> Result<
    SpecValue,
    SpecCrgError,
> {
    match op {
        Op::Compose => spec_eval_compose(lhs, rhs),
        Op::Apply => Ok(spec_eval_apply(lhs, rhs)),
        Op::Reduce => spec_eval_reduce(lhs, rhs),
        Op::Push => Ok(spec_eval_push(lhs, rhs)),
    }
}

/// What a type-level statement yields: the frame stack after it, and the
/// statement's own value.
pub open spec fn spec_eval_type_expr(t: SpecTypeExpr, vm: Seq<SpecFrame>) -> Result<
    (Seq<SpecFrame>, SpecTypeValue),
    SpecCrgError,
>
    recommends
        vm.len() > 0,
{
    match t {
        SpecTypeExpr::Bind(sym) => if spec_find_type(vm.last().types, sym.name) is Some {
            Err(SpecCrgError::DuplicateBinding(sym.name))
        } else {
            Ok(
                (
                    vm.update(
                        vm.len() - 1,
                        with_types(
                            vm.last(),
                            vm.last().types.push((sym, SpecTypeValue::Empty)),
                        ),
                    ),
                    SpecTypeValue::TypeSymbol(sym),
                ),
            )
        },
        SpecTypeExpr::Assign(sym, value) => if !spec_type_assignable(sym.kind, value) {
            Err(SpecCrgError::KindMismatch(sym.name))
        } else {
            Ok(
                (
                    vm.update(
                        vm.len() - 1,
                        with_types(vm.last(), spec_assign_types(vm.last().types, sym, value)),
                    ),
                    value,
                ),
            )
        },
        SpecTypeExpr::Id(value) => Ok((vm, value)),
    }
}

/// What an expression evaluates to. Evaluation of an expression never
/// changes the frame stack: operands are evaluated against the same stack,
/// left to right, and a nested scope restores the stack on exit.
pub open spec fn spec_eval_expr(e: SpecExpr, vm: Seq<SpecFrame>) -> Result<
    SpecValue,
    SpecCrgError,
>
    decreases e, 0int,
{
    match e {
        SpecExpr::Id(v) => spec_eval_value(v, vm),
        SpecExpr::Op(op, lhs, rhs) => match spec_eval_expr(*lhs, vm) {
            Ok(lv) => match spec_eval_expr(*rhs, vm) {
                Ok(rv) => spec_apply_op(op, lv, rv),
                Err(e2) => Err(e2),
            },
            Err(e1) => Err(e1),
        },
        SpecExpr::Reference(name) => match spec_lookup_value(vm, name) {
            Some(p) => Ok(p.1),
            None => Err(SpecCrgError::UnresolvedReference(name)),
        },
    }
}

/// What a value evaluates to: every value is self-evaluating except a
/// carried scope, which is executed where it is referenced.
pub open spec fn spec_eval_value(v: SpecValue, vm: Seq<SpecFrame>) -> Result<
    SpecValue,
    SpecCrgError,
>
    decreases v, 0int,
{
    match v {
        SpecValue::Scope(items) => spec_eval_scope(items, vm),
        _ => Ok(v),
    }
}

/// What a scope evaluates to: a fresh frame is entered, the items run left
/// to right, and the value is the frame's pending return value on exit --
/// the value of the last trailing expression, or `Empty` where there was
/// none.
pub open spec fn spec_eval_scope(items: Seq<SpecScopeItem>, vm: Seq<SpecFrame>) -> Result<
    SpecValue,
    SpecCrgError,
>
    decreases items, 1int,
{
    match spec_eval_items(items, vm.push(empty_frame())) {
        Ok(vm2) => Ok(vm2.last().ret),
        Err(e) => Err(e),
    }
}

/// The frame stack after a scope's items have run left to right; the first
/// failure stops the run.
pub open spec fn spec_eval_items(items: Seq<SpecScopeItem>, vm: Seq<SpecFrame>) -> Result<
    Seq<SpecFrame>,
    SpecCrgError,
>
    decreases items, 0int,
{
    if items.len() == 0 {
        Ok(vm)
    } else {
        match spec_eval_item(items[0], vm) {
            Ok(vm2) => spec_eval_items(items.subrange(1, items.len() as int), vm2),
            Err(e) => Err(e),
        }
    }
}

/// The frame stack after one scope item: a comment changes nothing, a
/// statement updates the innermost frame, a trailing expression stores its
/// value as the innermost frame's pending return value.
pub open spec fn spec_eval_item(item: SpecScopeItem, vm: Seq<SpecFrame>) -> Result<
    Seq<SpecFrame>,
    SpecCrgError,
>
    decreases item, 1int,
{
    match item {
        SpecScopeItem::Comment(_) => Ok(vm),
        SpecScopeItem::Stmt(s) => spec_eval_stmt(s, vm),
        SpecScopeItem::Expr(e) => match spec_eval_expr(e, vm) {
            Ok(v) => Ok(spec_set_ret(vm, v)),
            Err(err) => Err(err),
        },
    }
}

/// The frame stack after one statement. A nested scope's result is
/// discarded and the stack is exactly as before it ran: nothing a nested
/// scope binds or assigns leaks into the enclosing frames.
pub open spec fn spec_eval_stmt(s: SpecStmt, vm: Seq<SpecFrame>) -> Result<
    Seq<SpecFrame>,
    SpecCrgError,
>
    decreases s, 2int,
{
    match s {
        SpecStmt::Expr(e) => match spec_eval_expr(e, vm) {
            Ok(_) => Ok(vm),
            Err(err) => Err(err),
        },
        SpecStmt::TypeStmt(t) => match spec_eval_type_expr(t, vm) {
            Ok(p) => Ok(p.0),
            Err(err) => Err(err),
        },
        SpecStmt::LetStmt(l) => match spec_eval_let_expr(l, vm) {
            Ok(p) => Ok(p.0),
            Err(err) => Err(err),
        },
        SpecStmt::ScopeStmt(items) => match spec_eval_scope(items, vm) {
            Ok(_) => Ok(vm),
            Err(err) => Err(err),
        },
    }
}

/// What a value-level binding statement yields: the frame stack after it,
/// and the statement's own value. A bind declares the name with the
/// placeholder `Empty`; an assignment evaluates its expression first, then
/// writes into the innermost frame only.
pub open spec fn spec_eval_let_expr(l: SpecLetExpr, vm: Seq<SpecFrame>) -> Result<
    (Seq<SpecFrame>, SpecValue),
    SpecCrgError,
>
    decreases l, 1int,
{
    match l {
        SpecLetExpr::Bind(sym) => if spec_find_value(vm.last().values, sym.name) is Some {
            Err(SpecCrgError::DuplicateBinding(sym.name))
        } else {
            Ok(
                (
                    vm.update(
                        vm.len() - 1,
                        with_values(vm.last(), vm.last().values.push((sym, SpecValue::Empty))),
                    ),
                    SpecValue::Empty,
                ),
            )
        },
        SpecLetExpr::Assign(sym, e) => match spec_eval_expr(e, vm) {
            Ok(v) => if !spec_value_assignable(sym.kind, v) {
                Err(SpecCrgError::KindMismatch(sym.name))
            } else {
                Ok(
                    (
                        vm.update(
                            vm.len() - 1,
                            with_values(vm.last(), spec_assign_values(vm.last().values, sym, v)),
                        ),
                        v,
                    ),
                )
            },
            Err(err) => Err(err),
        },
    }
}


/// A frame stack that kept its length, kept every frame below the top, and
/// whose top frame became `f`, is the old stack with its top replaced.
proof fn lemma_top_update(pre: Seq<SpecFrame>, post: Seq<SpecFrame>, f: SpecFrame)
    requires
        pre.len() > 0,
        post.len() == pre.len(),
        post.drop_last() == pre.drop_last(),
        post.last() == f,
    ensures
        post =~= pre.update(pre.len() - 1, f),
{
    assert forall|k: int| 0 <= k < post.len() implies post[k] == pre.update(
        pre.len() - 1,
        f,
    )[k] by {
        if k < post.len() - 1 {
            assert(post[k] == post.drop_last()[k]);
            assert(pre[k] == pre.drop_last()[k]);
        } else {
            assert(post[k] == post.last());
        }
    }
}

// ---------------------------------------------------------------------------
// Self-evaluating values
// ---------------------------------------------------------------------------

impl Effect {
    /// An effect evaluates to itself.
    pub fn eval(&self) -> (r: Effect)
        ensures
            r@ == self@,
    {
        self.clone()
    }
}

impl ContextLabel {
    /// A context label evaluates to itself.
    pub fn eval(&self) -> (r: ContextLabel)
        ensures
            r@ == self@,
    {
        self.clone()
    }
}

impl ContextEffect {
    /// A context effect evaluates to itself: its label and its effect each
    /// evaluate to themselves.
    pub fn eval(&self) -> (r: ContextEffect)
        ensures
            r@ == self@,
    {
        ContextEffect(self.0.eval(), self.1.eval())
    }
}

impl Slice {
    /// A slice literal evaluates to itself, element by element.
    pub fn eval(&self) -> (r: Slice)
        ensures
            r@ == self@,
    {
        self.clone()
    }
}

impl SnapshotValue {
    /// A snapshot literal evaluates to itself, entry by entry.
    pub fn eval(&self) -> (r: SnapshotValue)
        ensures
            r@ == self@,
    {
        self.clone()
    }
}

impl SnapshotValueItem {
    /// A snapshot entry evaluates to itself.
    pub fn eval(&self) -> (r: SnapshotValueItem)
        ensures
            r@ == self@,
    {
        SnapshotValueItem(self.0.eval(), self.1.eval())
    }
}

impl SnapshotValueItemValue {
    /// A snapshot entry's value evaluates to itself.
    pub fn eval(&self) -> (r: SnapshotValueItemValue)
        ensures
            r@ == self@,
    {
        self.clone()
    }
}

impl StateLabel {
    /// A state label evaluates to itself.
    pub fn eval(&self) -> (r: StateLabel)
        ensures
            r@ == self@,
    {
        self.clone()
    }
}

impl IntLiteral {
    /// An integer literal evaluates to itself.
    pub fn eval(&self) -> (r: IntLiteral)
        ensures
            r@ == self@,
    {
        self.clone()
    }
}

// ---------------------------------------------------------------------------
// Operator dispatch
// ---------------------------------------------------------------------------

/// Composes two values; `Id` is neutral on either side for values of every
/// kind.
pub fn eval_compose(lhs: &Value, rhs: &Value) -> (r: Result<Value, CrgError>)
    ensures
        match r {
            Ok(v) => spec_eval_compose(lhs@, rhs@) == Ok::<SpecValue, SpecCrgError>(v@),
            Err(e) => spec_eval_compose(lhs@, rhs@) == Err::<SpecValue, SpecCrgError>(e@),
        },
{
    match (lhs, rhs) {
        (Value::Id, any) => Ok(any.eval_shallow()),
        (any, Value::Id) => Ok(any.eval_shallow()),
        (Value::Effect(a), Value::Effect(b)) => {
            if let (Effect::AddEffect(x), Effect::AddEffect(y)) = (a, b) {
                if x.0.checked_add(y.0).is_none() {
                    return Err(CrgError::IntegerOverflow);
                }
            }
            Ok(Value::Effect(a.compose(b)))
        },
        (Value::Slice(_), Value::Slice(_)) => Err(CrgError::Unimplemented),
        (Value::ContextEffect(_), Value::ContextEffect(_)) => Err(CrgError::Unimplemented),
        _ => Ok(Value::Empty),
    }
}

/// Aims an effect at a context label, yielding a context effect.
pub fn eval_apply(lhs: &Value, rhs: &Value) -> (r: Value)
    ensures
        r@ == spec_eval_apply(lhs@, rhs@),
{
    match (lhs, rhs) {
        (Value::Context(label), Value::Effect(effect)) => Value::ContextEffect(
            ContextEffect(label.clone(), effect.clone()),
        ),
        _ => Value::Empty,
    }
}

/// Appends a context effect to a slice, yielding a new slice; the operand
/// slice itself is unchanged.
pub fn eval_push(lhs: &Value, rhs: &Value) -> (r: Value)
    ensures
        r@ == spec_eval_push(lhs@, rhs@),
{
    match (lhs, rhs) {
        (Value::Slice(slice), Value::ContextEffect(ce)) => {
            let mut pushed = slice.clone();
            pushed.0.push(ce.clone());
            proof {
                assert(pushed@ =~= slice@.push(ce@));
            }
            Value::Slice(pushed)
        },
        _ => Value::Empty,
    }
}

/// Reduces a slice onto a snapshot, yielding the updated snapshot.
pub fn eval_reduce(lhs: &Value, rhs: &Value) -> (r: Result<Value, CrgError>)
    ensures
        match r {
            Ok(v) => spec_eval_reduce(lhs@, rhs@) == Ok::<SpecValue, SpecCrgError>(v@),
            Err(e) => spec_eval_reduce(lhs@, rhs@) == Err::<SpecValue, SpecCrgError>(e@),
        },
{
    match (lhs, rhs) {
        (Value::Slice(slice), Value::Snapshot(snapshot)) => match slice.apply(snapshot) {
            Ok(s) => Ok(Value::Snapshot(s)),
            Err(e) => Err(e),
        },
        _ => Ok(Value::Empty),
    }
}

impl Value {
    /// A structural copy used where a value passes through an operator
    /// unchanged.
    fn eval_shallow(&self) -> (r: Value)
        ensures
            r@ == self@,
    {
        self.clone()
    }
}

impl Op {
    /// Applies this operator to two already evaluated operands.
    pub fn apply(&self, lhs: Value, rhs: Value) -> (r: Result<Value, CrgError>)
        ensures
            match r {
                Ok(v) => spec_apply_op(*self, lhs@, rhs@) == Ok::<SpecValue, SpecCrgError>(v@),
                Err(e) => spec_apply_op(*self, lhs@, rhs@) == Err::<SpecValue, SpecCrgError>(e@),
            },
    {
        match self {
            Op::Compose => eval_compose(&lhs, &rhs),
            Op::Apply => Ok(eval_apply(&lhs, &rhs)),
            Op::Reduce => eval_reduce(&lhs, &rhs),
            Op::Push => Ok(eval_push(&lhs, &rhs)),
        }
    }
}

// ---------------------------------------------------------------------------
// The executable evaluator
// ---------------------------------------------------------------------------

impl Expr {
    /// Evaluates this expression. The frame stack is exactly as before when
    /// the call returns: operands are evaluated strictly left to right
    /// against the same stack, and a reference that no enclosing frame
    /// binds is a fatal lookup error.
    pub fn eval(&self, vm: &mut Vm) -> (r: Result<Value, CrgError>)
        ensures
            final(vm)@ == old(vm)@,
            match r {
                Ok(v) => spec_eval_expr(self@, old(vm)@) == Ok::<SpecValue, SpecCrgError>(v@),
                Err(e) => spec_eval_expr(self@, old(vm)@) == Err::<SpecValue, SpecCrgError>(e@),
            },
        decreases self,
    {
        match self {
            Expr::Id(v) => v.eval(vm),
            Expr::Op(op, lhs, rhs) => {
                let lv = match (&**lhs).eval(vm) {
                    Ok(v) => v,
                    Err(e) => {
                        return Err(e);
                    },
                };
                let rv = match (&**rhs).eval(vm) {
                    Ok(v) => v,
                    Err(e) => {
                        return Err(e);
                    },
                };
                op.apply(lv, rv)
            },
            Expr::Reference(reference) => match vm.lookup_value_symbol(reference) {
                Some(p) => Ok(p.1),
                None => Err(CrgError::UnresolvedReference(reference.0.0.clone())),
            },
        }
    }
}

impl Value {
    /// Evaluates this value. Every value is self-evaluating except a
    /// carried scope, which runs here; the frame stack is exactly as before
    /// when the call returns.
    pub fn eval(&self, vm: &mut Vm) -> (r: Result<Value, CrgError>)
        ensures
            final(vm)@ == old(vm)@,
            match r {
                Ok(v) => spec_eval_value(self@, old(vm)@) == Ok::<SpecValue, SpecCrgError>(v@),
                Err(e) => spec_eval_value(self@, old(vm)@) == Err::<SpecValue, SpecCrgError>(e@),
            },
        decreases self,
    {
        match self {
            Value::Id => Ok(Value::Id),
            Value::Empty => Ok(Value::Empty),
            Value::Effect(e) => Ok(Value::Effect(e.eval())),
            Value::Context(l) => Ok(Value::Context(l.eval())),
            Value::ContextEffect(ce) => Ok(Value::ContextEffect(ce.eval())),
            Value::Slice(s) => Ok(Value::Slice(s.eval())),
            Value::Snapshot(s) => Ok(Value::Snapshot(s.eval())),
            Value::Scope(sc) => sc.eval(vm),
        }
    }
}

impl ScopeValue {
    /// Evaluates this scope: a fresh frame is entered, the items run left
    /// to right, and the frame's pending return value -- the value of the
    /// last trailing expression -- is returned on exit. The frame stack is
    /// exactly as before when the call returns, whether the run succeeded
    /// or failed: nothing the scope binds or assigns leaks outwards.
    pub fn eval(&self, vm: &mut Vm) -> (r: Result<Value, CrgError>)
        ensures
            final(vm)@ == old(vm)@,
            match r {
                Ok(v) => spec_eval_scope(self@, old(vm)@) == Ok::<SpecValue, SpecCrgError>(v@),
                Err(e) => spec_eval_scope(self@, old(vm)@) == Err::<SpecValue, SpecCrgError>(e@),
            },
        decreases self,
    {
        vm.push_stack();
        let ghost vm1 = vm@;
        let ghost items = self@;
        proof {
            assert(vm@.drop_last() =~= old(vm)@);
            assert(items.subrange(0, items.len() as int) =~= items);
        }
        let mut i: usize = 0;
        while i < self.0.len()
            invariant
                i <= self.0.len(),
                vm@.len() == old(vm)@.len() + 1,
                vm@.drop_last() =~= old(vm)@,
                vm1 == old(vm)@.push(empty_frame()),
                items == self@,
                spec_eval_items(items, vm1) == spec_eval_items(
                    items.subrange(i as int, items.len() as int),
                    vm@,
                ),
            decreases self.0.len() - i,
        {
            proof {
                crate::ast::lemma_view_scope_items(self.0@);
            }
            let ghost suffix = items.subrange(i as int, items.len() as int);
            let ghost vm_before = vm@;
            proof {
                assert(suffix[0] == items[i as int]);
                assert(items[i as int] == self.0@[i as int]@);
                assert(suffix.subrange(1, suffix.len() as int) =~= items.subrange(
                    i as int + 1,
                    items.len() as int,
                ));
            }
            let item = &self.0[i];
            match item.eval(vm) {
                Ok(_) => (),
                Err(e) => {
                    vm.pop_stack();
                    proof {
                        assert(vm@ =~= old(vm)@);
                    }
                    return Err(e);
                },
            }
            i += 1;
        }
        proof {
            crate::ast::lemma_view_scope_items(self.0@);
            assert(items.subrange(items.len() as int, items.len() as int) =~= Seq::<
                SpecScopeItem,
            >::empty());
        }
        let frame = vm.pop_stack().unwrap();
        proof {
            assert(vm@ =~= old(vm)@);
        }
        let result = frame.return_value();
        Ok(result)
    }
}

impl ScopeInnerValue {
    /// Runs one scope item: a comment changes nothing, a statement updates
    /// the innermost frame, a trailing expression stores its value as the
    /// innermost frame's pending return value and yields it. Frames below
    /// the innermost one never change.
    pub fn eval(&self, vm: &mut Vm) -> (r: Result<Value, CrgError>)
        requires
            old(vm)@.len() > 0,
        ensures
            final(vm)@.len() == old(vm)@.len(),
            final(vm)@.drop_last() == old(vm)@.drop_last(),
            match r {
                Ok(v) => spec_eval_item(self@, old(vm)@) == Ok::<Seq<SpecFrame>, SpecCrgError>(
                    final(vm)@,
                ) && (if self@ matches SpecScopeItem::Expr(_) {
                    v@ == final(vm)@.last().ret
                } else {
                    v@ == SpecValue::Empty
                }),
                Err(e) => spec_eval_item(self@, old(vm)@) == Err::<Seq<SpecFrame>, SpecCrgError>(
                    e@,
                ) && final(vm)@ == old(vm)@,
            },
        decreases self,
    {
        match self {
            ScopeInnerValue::Comment(_) => Ok(Value::Empty),
            ScopeInnerValue::Stmt(s) => match s.eval(vm) {
                Ok(()) => Ok(Value::Empty),
                Err(e) => Err(e),
            },
            ScopeInnerValue::Expr(e) => {
                let value = match e.eval(vm) {
                    Ok(v) => v,
                    Err(err) => {
                        return Err(err);
                    },
                };
                vm.set_return_value(&value);
                proof {
                    lemma_top_update(old(vm)@, vm@, with_ret(old(vm)@.last(), value@));
                }
                Ok(value)
            },
        }
    }
}

impl Stmt {
    /// Runs one statement against the innermost frame. Frames below the
    /// innermost one never change, and a failed statement leaves the whole
    /// stack as it was.
    pub fn eval(&self, vm: &mut Vm) -> (r: Result<(), CrgError>)
        requires
            old(vm)@.len() > 0,
        ensures
            final(vm)@.len() == old(vm)@.len(),
            final(vm)@.drop_last() == old(vm)@.drop_last(),
            match r {
                Ok(()) => spec_eval_stmt(self@, old(vm)@) == Ok::<Seq<SpecFrame>, SpecCrgError>(
                    final(vm)@,
                ),
                Err(e) => spec_eval_stmt(self@, old(vm)@) == Err::<Seq<SpecFrame>, SpecCrgError>(
                    e@,
                ) && final(vm)@ == old(vm)@,
            },
        decreases self,
    {
        match self {
            Stmt::Expr(expr) => match expr.eval(vm) {
                Ok(_) => Ok(()),
                Err(e) => Err(e),
            },
            Stmt::TypeStmt(t) => match t.eval(vm) {
                Ok(_) => Ok(()),
                Err(e) => Err(e),
            },
            Stmt::LetStmt(l) => match l.eval(vm) {
                Ok(_) => Ok(()),
                Err(e) => Err(e),
            },
            Stmt::ScopeStmt(sc) => match sc.eval(vm) {
                Ok(_) => Ok(()),
                Err(e) => Err(e),
            },
        }
    }
}

impl TypeExpr {
    /// Runs one type-level statement against the innermost frame and yields
    /// the statement's value: the bound symbol for a bind, the assigned
    /// value for an assignment.
    pub fn eval(&self, vm: &mut Vm) -> (r: Result<TypeValue, CrgError>)
        requires
            old(vm)@.len() > 0,
        ensures
            final(vm)@.len() == old(vm)@.len(),
            final(vm)@.drop_last() == old(vm)@.drop_last(),
            match r {
                Ok(tv) => spec_eval_type_expr(self@, old(vm)@) == Ok::<
                    (Seq<SpecFrame>, SpecTypeValue),
                    SpecCrgError,
                >((final(vm)@, tv@)),
                Err(e) => spec_eval_type_expr(self@, old(vm)@) == Err::<
                    (Seq<SpecFrame>, SpecTypeValue),
                    SpecCrgError,
                >(e@) && final(vm)@ == old(vm)@,
            },
    {
        match self {
            TypeExpr::Bind(symbol) => match vm.bind_type(symbol) {
                Ok(()) => {
                    proof {
                        lemma_top_update(
                            old(vm)@,
                            vm@,
                            with_types(
                                old(vm)@.last(),
                                old(vm)@.last().types.push((symbol@, SpecTypeValue::Empty)),
                            ),
                        );
                    }
                    Ok(TypeValue::TypeSymbol(symbol.clone()))
                },
                Err(e) => Err(e),
            },
            TypeExpr::Assign { symbol, value } => match vm.assign_type(symbol, value) {
                Ok(()) => {
                    proof {
                        lemma_top_update(
                            old(vm)@,
                            vm@,
                            with_types(
                                old(vm)@.last(),
                                spec_assign_types(old(vm)@.last().types, symbol@, value@),
                            ),
                        );
                    }
                    Ok(value.clone())
                },
                Err(e) => Err(e),
            },
            TypeExpr::Id(value) => Ok(value.clone()),
        }
    }
}

impl LetExpr {
    /// Runs one value-level binding statement against the innermost frame
    /// and yields the statement's value: `Empty` for a bind, the assigned
    /// value for an assignment. An assignment evaluates its expression
    /// first and writes into the innermost frame only: an outer binding of
    /// the same name is shadowed, never changed.
    pub fn eval(&self, vm: &mut Vm) -> (r: Result<Value, CrgError>)
        requires
            old(vm)@.len() > 0,
        ensures
            final(vm)@.len() == old(vm)@.len(),
            final(vm)@.drop_last() == old(vm)@.drop_last(),
            match r {
                Ok(v) => spec_eval_let_expr(self@, old(vm)@) == Ok::<
                    (Seq<SpecFrame>, SpecValue),
                    SpecCrgError,
                >((final(vm)@, v@)),
                Err(e) => spec_eval_let_expr(self@, old(vm)@) == Err::<
                    (Seq<SpecFrame>, SpecValue),
                    SpecCrgError,
                >(e@) && final(vm)@ == old(vm)@,
            },
        decreases self,
    {
        match self {
            LetExpr::Bind(symbol) => match vm.bind_value(symbol) {
                Ok(()) => {
                    proof {
                        lemma_top_update(
                            old(vm)@,
                            vm@,
                            with_values(
                                old(vm)@.last(),
                                old(vm)@.last().values.push((symbol@, SpecValue::Empty)),
                            ),
                        );
                    }
                    Ok(Value::Empty)
                },
                Err(e) => Err(e),
            },
            LetExpr::Assign { symbol, expr } => {
                let value = match expr.eval(vm) {
                    Ok(v) => v,
                    Err(e) => {
                        return Err(e);
                    },
                };
                match vm.assign_value(symbol, &value) {
                    Ok(()) => {
                        proof {
                            lemma_top_update(
                                old(vm)@,
                                vm@,
                                with_values(
                                    old(vm)@.last(),
                                    spec_assign_values(old(vm)@.last().values, symbol@, value@),
                                ),
                            );
                        }
                        Ok(value)
                    },
                    Err(e) => Err(e),
                }
            },
        }
    }
}

// ---------------------------------------------------------------------------
// Laws of evaluation
// ---------------------------------------------------------------------------

/// `Id` is neutral on both sides of composition for values of every kind,
/// not only for effects.
pub proof fn lemma_compose_identity(v: SpecValue)
    ensures
        spec_eval_compose(SpecValue::Id, v) == Ok::<SpecValue, SpecCrgError>(v),
        spec_eval_compose(v, SpecValue::Id) == Ok::<SpecValue, SpecCrgError>(v),
{
}

/// Composing two addition effects adds their payloads: within the machine
/// range the sum is exact, and a sum outside it is reported as an overflow
/// rather than silently changed.
pub proof fn lemma_compose_add_effects(a: int, b: int)
    ensures
        spec_eval_compose(
            SpecValue::Effect(SpecEffect::Add(a)),
            SpecValue::Effect(SpecEffect::Add(b)),
        ) == if i64::MIN <= a + b <= i64::MAX {
            Ok::<SpecValue, SpecCrgError>(SpecValue::Effect(SpecEffect::Add(a + b)))
        } else {
            Err::<SpecValue, SpecCrgError>(SpecCrgError::IntegerOverflow)
        },
{
}

/// Composing two transition effects keeps the right one's target, whatever
/// the two targets are: the latest transition supersedes.
pub proof fn lemma_compose_transition_effects(
    x: crate::ast::SpecTransitionEffect,
    y: crate::ast::SpecTransitionEffect,
)
    ensures
        spec_eval_compose(
            SpecValue::Effect(SpecEffect::Transition(x)),
            SpecValue::Effect(SpecEffect::Transition(y)),
        ) == Ok::<SpecValue, SpecCrgError>(SpecValue::Effect(SpecEffect::Transition(y))),
{
}

/// Pushing a context effect onto a slice yields a new slice whose elements
/// are the old ones followed by the pushed effect; the old slice itself is
/// an operand taken by reference and is never changed.
pub proof fn lemma_push_appends(items: Seq<SpecContextEffect>, ce: SpecContextEffect)
    ensures
        spec_eval_push(SpecValue::Slice(items), SpecValue::ContextEffect(ce)) == SpecValue::Slice(
            items.push(ce),
        ),
{
}

/// A nested scope runs in its own frame and is popped on exit: the
/// enclosing frame stack after the statement is exactly the stack before
/// it, so an assignment inside the nested scope can never change an outer
/// binding, only shadow it while the scope runs.
pub proof fn lemma_nested_scope_preserves_frames(items: Seq<SpecScopeItem>, vm: Seq<SpecFrame>)
    ensures
        spec_eval_stmt(SpecStmt::ScopeStmt(items), vm) matches Ok(vm2) ==> vm2 == vm,
{
}

/// An assignment writes into the innermost frame only: every enclosing
/// frame is exactly as it was.
pub proof fn lemma_assign_touches_top_frame_only(l: SpecLetExpr, vm: Seq<SpecFrame>)
    requires
        vm.len() > 0,
    ensures
        spec_eval_let_expr(l, vm) matches Ok(p) ==> p.0.len() == vm.len() && p.0.drop_last()
            =~= vm.drop_last(),
{
    match spec_eval_let_expr(l, vm) {
        Ok(p) => {
            assert(p.0.drop_last() =~= vm.drop_last());
        },
        Err(_) => (),
    }
}

} // verus!
