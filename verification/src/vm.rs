//! The evaluator's state: a stack of lexical frames, each holding an ordered
//! type-symbol table, an ordered value-symbol table and the frame's pending
//! return value. Re-assigning a name only ever touches the innermost frame;
//! an assignment inside a nested scope shadows an outer binding instead of
//! mutating it.

use vstd::prelude::*;

use crate::ast::{
    SpecTypeSymbol, SpecTypeValue, SpecValue, SpecValueSymbol, TypeKind, TypeSymbol, TypeValue,
    Value, ValueSymbol, ValueSymbolReference, BindKeywords,
};
use crate::error::{CrgError, SpecCrgError};

verus! {

// ---------------------------------------------------------------------------
// The ghost model of the frame stack
// ---------------------------------------------------------------------------

/// Model of one lexical frame.
#[verifier::ext_equal]
pub struct SpecFrame {
    pub types: Seq<(SpecTypeSymbol, SpecTypeValue)>,
    pub values: Seq<(SpecValueSymbol, SpecValue)>,
    pub ret: SpecValue,
}

/// The frame every scope starts with: empty tables, `Empty` return value.
pub open spec fn empty_frame() -> SpecFrame {
    SpecFrame { types: Seq::empty(), values: Seq::empty(), ret: SpecValue::Empty }
}

/// The frame with its type table replaced.
pub open spec fn with_types(f: SpecFrame, types: Seq<(SpecTypeSymbol, SpecTypeValue)>) -> SpecFrame {
    SpecFrame { types, ..f }
}

/// The frame with its value table replaced.
pub open spec fn with_values(
    f: SpecFrame,
    values: Seq<(SpecValueSymbol, SpecValue)>,
) -> SpecFrame {
    SpecFrame { values, ..f }
}

/// The frame with its pending return value replaced.
pub open spec fn with_ret(f: SpecFrame, ret: SpecValue) -> SpecFrame {
    SpecFrame { ret, ..f }
}

/// The first entry of the value table whose symbol has the given name.
pub open spec fn spec_find_value(
    vals: Seq<(SpecValueSymbol, SpecValue)>,
    name: Seq<char>,
) -> Option<(SpecValueSymbol, SpecValue)>
    decreases vals.len(),
{
    if vals.len() == 0 {
        None
    } else if vals[0].0.name == name {
        Some(vals[0])
    } else {
        spec_find_value(vals.subrange(1, vals.len() as int), name)
    }
}

/// The first entry of the type table whose symbol has the given name.
pub open spec fn spec_find_type(
    types: Seq<(SpecTypeSymbol, SpecTypeValue)>,
    name: Seq<char>,
) -> Option<(SpecTypeSymbol, SpecTypeValue)>
    decreases types.len(),
{
    if types.len() == 0 {
        None
    } else if types[0].0.name == name {
        Some(types[0])
    } else {
        spec_find_type(types.subrange(1, types.len() as int), name)
    }
}

/// The value table after an assignment: the first entry with the symbol's
/// name keeps its symbol and takes the new value; a name not yet in the
/// table is appended.
pub open spec fn spec_assign_values(
    vals: Seq<(SpecValueSymbol, SpecValue)>,
    sym: SpecValueSymbol,
    v: SpecValue,
) -> Seq<(SpecValueSymbol, SpecValue)>
    decreases vals.len(),
{
    if vals.len() == 0 {
        seq![(sym, v)]
    } else if vals[0].0.name == sym.name {
        seq![(vals[0].0, v)] + vals.subrange(1, vals.len() as int)
    } else {
        seq![vals[0]] + spec_assign_values(vals.subrange(1, vals.len() as int), sym, v)
    }
}

/// The type table after an assignment, under the same first-match rule.
pub open spec fn spec_assign_types(
    types: Seq<(SpecTypeSymbol, SpecTypeValue)>,
    sym: SpecTypeSymbol,
    v: SpecTypeValue,
) -> Seq<(SpecTypeSymbol, SpecTypeValue)>
    decreases types.len(),
{
    if types.len() == 0 {
        seq![(sym, v)]
    } else if types[0].0.name == sym.name {
        seq![(types[0].0, v)] + types.subrange(1, types.len() as int)
    } else {
        seq![types[0]] + spec_assign_types(types.subrange(1, types.len() as int), sym, v)
    }
}

/// The innermost binding of a name: frames are searched from the top of the
/// stack outwards, and the first frame that holds the name answers.
pub open spec fn spec_lookup_value(frames: Seq<SpecFrame>, name: Seq<char>) -> Option<
    (SpecValueSymbol, SpecValue),
>
    decreases frames.len(),
{
    if frames.len() == 0 {
        None
    } else {
        match spec_find_value(frames.last().values, name) {
            Some(p) => Some(p),
            None => spec_lookup_value(frames.drop_last(), name),
        }
    }
}

// ---------------------------------------------------------------------------
// Assignability
// ---------------------------------------------------------------------------

/// Whether a runtime value fits a declared value-symbol kind. The two
/// markers `Id` and `Empty` fit every kind; any other value must match the
/// kind's own shape; a carried scope fits no kind.
pub open spec fn spec_value_assignable(kind: BindKeywords, v: SpecValue) -> bool {
    match v {
        SpecValue::Id => true,
        SpecValue::Empty => true,
        SpecValue::Effect(_) => kind == BindKeywords::Effect,
        SpecValue::Context(_) => kind == BindKeywords::Context,
        SpecValue::ContextEffect(_) => kind == BindKeywords::ContextEffect,
        SpecValue::Slice(_) => kind == BindKeywords::Slice,
        SpecValue::Snapshot(_) => kind == BindKeywords::Snapshot,
        SpecValue::Scope(_) => false,
    }
}

/// Whether a type-level value fits a declared type-symbol kind. `Id` and
/// `Empty` fit every kind, a reference to another type symbol is accepted
/// unchecked, a bare integer type fits no kind, and the structured type
/// values must match the kind's own shape.
pub open spec fn spec_type_assignable(kind: TypeKind, v: SpecTypeValue) -> bool {
    match v {
        SpecTypeValue::Id => true,
        SpecTypeValue::Empty => true,
        SpecTypeValue::Int => false,
        SpecTypeValue::TypeSymbol(_) => true,
        SpecTypeValue::StateMachine(_) => kind == TypeKind::StateMachine,
        SpecTypeValue::Snapshot(_) => kind == TypeKind::Snapshot,
        SpecTypeValue::Context(_) => kind == TypeKind::Context,
    }
}

impl ValueSymbol {
    /// Whether the value fits this symbol's declared kind.
    pub fn assignable(&self, value: &Value) -> (r: bool)
        ensures
            r == spec_value_assignable(self.kind, value@),
    {
        match value {
            Value::Id => true,
            Value::Empty => true,
            Value::Effect(_) => matches!(self.kind, BindKeywords::Effect),
            Value::Context(_) => matches!(self.kind, BindKeywords::Context),
            Value::ContextEffect(_) => matches!(self.kind, BindKeywords::ContextEffect),
            Value::Slice(_) => matches!(self.kind, BindKeywords::Slice),
            Value::Snapshot(_) => matches!(self.kind, BindKeywords::Snapshot),
            Value::Scope(_) => false,
        }
    }
}

impl TypeSymbol {
    /// Whether the type value fits this symbol's declared kind.
    pub fn assignable(&self, value: &TypeValue) -> (r: bool)
        ensures
            r == spec_type_assignable(self.kind, value@),
    {
        match value {
            TypeValue::Id => true,
            TypeValue::Empty => true,
            TypeValue::Int => false,
            TypeValue::TypeSymbol(_) => true,
            TypeValue::StateMachine(_) => matches!(self.kind, TypeKind::StateMachine),
            TypeValue::Snapshot(_) => matches!(self.kind, TypeKind::Snapshot),
            TypeValue::Context(_) => matches!(self.kind, TypeKind::Context),
        }
    }
}

// ---------------------------------------------------------------------------
// Characterizations of the table operations
// ---------------------------------------------------------------------------

proof fn lemma_find_value_skip(
    vals: Seq<(SpecValueSymbol, SpecValue)>,
    name: Seq<char>,
    i: int,
)
    requires
        0 <= i <= vals.len(),
        forall|j: int| 0 <= j < i ==> vals[j].0.name != name,
    ensures
        spec_find_value(vals, name) == spec_find_value(
            vals.subrange(i, vals.len() as int),
            name,
        ),
    decreases i,
{
    assert(vals.subrange(0, vals.len() as int) =~= vals);
    if i > 0 {
        lemma_find_value_skip(vals, name, i - 1);
        let rest = vals.subrange(i - 1, vals.len() as int);
        assert(rest[0] == vals[i - 1]);
        assert(rest.subrange(1, rest.len() as int) =~= vals.subrange(i, vals.len() as int));
    }
}

proof fn lemma_find_type_skip(
    types: Seq<(SpecTypeSymbol, SpecTypeValue)>,
    name: Seq<char>,
    i: int,
)
    requires
        0 <= i <= types.len(),
        forall|j: int| 0 <= j < i ==> types[j].0.name != name,
    ensures
        spec_find_type(types, name) == spec_find_type(
            types.subrange(i, types.len() as int),
            name,
        ),
    decreases i,
{
    assert(types.subrange(0, types.len() as int) =~= types);
    if i > 0 {
        lemma_find_type_skip(types, name, i - 1);
        let rest = types.subrange(i - 1, types.len() as int);
        assert(rest[0] == types[i - 1]);
        assert(rest.subrange(1, rest.len() as int) =~= types.subrange(i, types.len() as int));
    }
}

proof fn lemma_assign_values_at(
    vals: Seq<(SpecValueSymbol, SpecValue)>,
    sym: SpecValueSymbol,
    v: SpecValue,
    i: int,
)
    requires
        0 <= i < vals.len(),
        vals[i].0.name == sym.name,
        forall|j: int| 0 <= j < i ==> vals[j].0.name != sym.name,
    ensures
        spec_assign_values(vals, sym, v) =~= vals.update(i, (vals[i].0, v)),
    decreases i,
{
    let rest = vals.subrange(1, vals.len() as int);
    if i == 0 {
        assert(spec_assign_values(vals, sym, v) =~= vals.update(0, (vals[0].0, v)));
    } else {
        assert(rest[i - 1] == vals[i]);
        lemma_assign_values_at(rest, sym, v, i - 1);
        assert(spec_assign_values(vals, sym, v) =~= seq![vals[0]] + rest.update(
            i - 1,
            (rest[i - 1].0, v),
        ));
        assert(seq![vals[0]] + rest.update(i - 1, (rest[i - 1].0, v)) =~= vals.update(
            i,
            (vals[i].0, v),
        ));
    }
}

proof fn lemma_assign_values_absent(
    vals: Seq<(SpecValueSymbol, SpecValue)>,
    sym: SpecValueSymbol,
    v: SpecValue,
)
    requires
        forall|j: int| 0 <= j < vals.len() ==> vals[j].0.name != sym.name,
    ensures
        spec_assign_values(vals, sym, v) =~= vals.push((sym, v)),
    decreases vals.len(),
{
    if vals.len() > 0 {
        let rest = vals.subrange(1, vals.len() as int);
        lemma_assign_values_absent(rest, sym, v);
        assert(spec_assign_values(vals, sym, v) =~= seq![vals[0]] + rest.push((sym, v)));
        assert(seq![vals[0]] + rest.push((sym, v)) =~= vals.push((sym, v)));
    }
}

proof fn lemma_assign_types_at(
    types: Seq<(SpecTypeSymbol, SpecTypeValue)>,
    sym: SpecTypeSymbol,
    v: SpecTypeValue,
    i: int,
)
    requires
        0 <= i < types.len(),
        types[i].0.name == sym.name,
        forall|j: int| 0 <= j < i ==> types[j].0.name != sym.name,
    ensures
        spec_assign_types(types, sym, v) =~= types.update(i, (types[i].0, v)),
    decreases i,
{
    let rest = types.subrange(1, types.len() as int);
    if i == 0 {
        assert(spec_assign_types(types, sym, v) =~= types.update(0, (types[0].0, v)));
    } else {
        assert(rest[i - 1] == types[i]);
        lemma_assign_types_at(rest, sym, v, i - 1);
        assert(spec_assign_types(types, sym, v) =~= seq![types[0]] + rest.update(
            i - 1,
            (rest[i - 1].0, v),
        ));
        assert(seq![types[0]] + rest.update(i - 1, (rest[i - 1].0, v)) =~= types.update(
            i,
            (types[i].0, v),
        ));
    }
}

proof fn lemma_assign_types_absent(
    types: Seq<(SpecTypeSymbol, SpecTypeValue)>,
    sym: SpecTypeSymbol,
    v: SpecTypeValue,
)
    requires
        forall|j: int| 0 <= j < types.len() ==> types[j].0.name != sym.name,
    ensures
        spec_assign_types(types, sym, v) =~= types.push((sym, v)),
    decreases types.len(),
{
    if types.len() > 0 {
        let rest = types.subrange(1, types.len() as int);
        lemma_assign_types_absent(rest, sym, v);
        assert(spec_assign_types(types, sym, v) =~= seq![types[0]] + rest.push((sym, v)));
        assert(seq![types[0]] + rest.push((sym, v)) =~= types.push((sym, v)));
    }
}

proof fn lemma_lookup_prefix(frames: Seq<SpecFrame>, name: Seq<char>, i: int)
    requires
        0 <= i <= frames.len(),
        forall|k: int|
            i <= k < frames.len() ==> spec_find_value(#[trigger] frames[k].values, name) is None,
    ensures
        spec_lookup_value(frames, name) == spec_lookup_value(
            frames.subrange(0, i),
            name,
        ),
    decreases frames.len() - i,
{
    assert(frames.subrange(0, frames.len() as int) =~= frames);
    if i < frames.len() {
        lemma_lookup_prefix(frames, name, i + 1);
        let pre = frames.subrange(0, i + 1);
        assert(pre.last() == frames[i]);
        assert(pre.drop_last() =~= frames.subrange(0, i));
    }
}

// ---------------------------------------------------------------------------
// One lexical frame
// ---------------------------------------------------------------------------

/// One lexical frame: its two symbol tables and its pending return value.
#[derive(Debug, PartialEq, Eq)]
pub struct VmScope {
    type_symbols: Vec<(TypeSymbol, TypeValue)>,
    value_symbols: Vec<(ValueSymbol, Value)>,
    return_value: Value,
}

impl View for VmScope {
    type V = SpecFrame;

    closed spec fn view(&self) -> SpecFrame {
        SpecFrame {
            types: Seq::new(
                self.type_symbols@.len(),
                |i: int| (self.type_symbols@[i].0@, self.type_symbols@[i].1@),
            ),
            values: Seq::new(
                self.value_symbols@.len(),
                |i: int| (self.value_symbols@[i].0@, self.value_symbols@[i].1@),
            ),
            ret: self.return_value@,
        }
    }
}

impl VmScope {
    /// A fresh frame: empty tables, `Empty` return value.
    pub fn new() -> (r: Self)
        ensures
            r@ == empty_frame(),
    {
        let r = VmScope {
            type_symbols: Vec::new(),
            value_symbols: Vec::new(),
            return_value: Value::Empty,
        };
        proof {
            assert(r@ =~= empty_frame());
        }
        r
    }

    /// Declares a type symbol in this frame with the placeholder value
    /// `Empty`; a name already declared here is a duplicate binding.
    pub fn push_type_symbol(&mut self, symbol: &TypeSymbol) -> (r: Result<(), CrgError>)
        ensures
            match r {
                Ok(()) => (spec_find_type(old(self)@.types, symbol@.name) is None) && final(self)@
                    =~= with_types(old(self)@, old(self)@.types.push((symbol@, SpecTypeValue::Empty))),
                Err(e) => e@ == SpecCrgError::DuplicateBinding(symbol@.name) && (spec_find_type(
                    old(self)@.types,
                    symbol@.name,
                ) is Some) && final(self)@ == old(self)@,
            },
    {
        let ghost types0 = self@.types;
        let mut i: usize = 0;
        while i < self.type_symbols.len()
            invariant
                i <= self.type_symbols.len(),
                self@ == old(self)@,
                types0 == old(self)@.types,
                forall|j: int| 0 <= j < i ==> types0[j].0.name != symbol@.name,
            decreases self.type_symbols.len() - i,
        {
            if self.type_symbols[i].0.name.0 == symbol.name.0 {
                proof {
                    lemma_find_type_skip(types0, symbol@.name, i as int);
                }
                return Err(CrgError::DuplicateBinding(symbol.name.0.clone()));
            }
            i += 1;
        }
        proof {
            lemma_find_type_skip(types0, symbol@.name, types0.len() as int);
        }
        self.type_symbols.push((symbol.clone(), TypeValue::Empty));
        proof {
            assert(self@.types =~= types0.push((symbol@, SpecTypeValue::Empty)));
        }
        Ok(())
    }

    /// Assigns a type value to a symbol in this frame: the first entry with
    /// the symbol's name is overwritten, a new name is appended. A value
    /// that does not fit the symbol's declared kind is rejected.
    pub fn assign_type_symbol(&mut self, symbol: &TypeSymbol, value: &TypeValue) -> (r: Result<
        (),
        CrgError,
    >)
        ensures
            match r {
                Ok(()) => spec_type_assignable(symbol@.kind, value@) && final(self)@
                    =~= with_types(old(self)@, spec_assign_types(old(self)@.types, symbol@, value@)),
                Err(e) => e@ == SpecCrgError::KindMismatch(symbol@.name)
                    && !spec_type_assignable(symbol@.kind, value@) && final(self)@ == old(self)@,
            },
    {
        if !symbol.assignable(value) {
            return Err(CrgError::KindMismatch(symbol.name.0.clone()));
        }
        let ghost types0 = self@.types;
        let mut i: usize = 0;
        while i < self.type_symbols.len()
            invariant
                i <= self.type_symbols.len(),
                self@ == old(self)@,
                types0 == old(self)@.types,
                spec_type_assignable(symbol@.kind, value@),
                forall|j: int| 0 <= j < i ==> types0[j].0.name != symbol@.name,
            decreases self.type_symbols.len() - i,
        {
            if self.type_symbols[i].0.name.0 == symbol.name.0 {
                let kept = self.type_symbols[i].0.clone();
                self.type_symbols[i] = (kept, value.clone());
                proof {
                    lemma_assign_types_at(types0, symbol@, value@, i as int);
                    assert(self@.types =~= types0.update(i as int, (types0[i as int].0, value@)));
                }
                return Ok(());
            }
            i += 1;
        }
        proof {
            lemma_assign_types_absent(types0, symbol@, value@);
        }
        self.type_symbols.push((symbol.clone(), value.clone()));
        proof {
            assert(self@.types =~= types0.push((symbol@, value@)));
        }
        Ok(())
    }

    /// Declares a value symbol in this frame with the placeholder value
    /// `Empty`; a name already declared here is a duplicate binding.
    pub fn push_value_symbol(&mut self, symbol: &ValueSymbol) -> (r: Result<(), CrgError>)
        ensures
            match r {
                Ok(()) => (spec_find_value(old(self)@.values, symbol@.name) is None) && final(self)@
                    =~= with_values(old(self)@, old(self)@.values.push((symbol@, SpecValue::Empty))),
                Err(e) => e@ == SpecCrgError::DuplicateBinding(symbol@.name) && (spec_find_value(
                    old(self)@.values,
                    symbol@.name,
                ) is Some) && final(self)@ == old(self)@,
            },
    {
        let ghost vals0 = self@.values;
        let mut i: usize = 0;
        while i < self.value_symbols.len()
            invariant
                i <= self.value_symbols.len(),
                self@ == old(self)@,
                vals0 == old(self)@.values,
                forall|j: int| 0 <= j < i ==> vals0[j].0.name != symbol@.name,
            decreases self.value_symbols.len() - i,
        {
            if self.value_symbols[i].0.name.0 == symbol.name.0 {
                proof {
                    lemma_find_value_skip(vals0, symbol@.name, i as int);
                }
                return Err(CrgError::DuplicateBinding(symbol.name.0.clone()));
            }
            i += 1;
        }
        proof {
            lemma_find_value_skip(vals0, symbol@.name, vals0.len() as int);
        }
        self.value_symbols.push((symbol.clone(), Value::Empty));
        proof {
            assert(self@.values =~= vals0.push((symbol@, SpecValue::Empty)));
        }
        Ok(())
    }

    /// Assigns a value to a symbol in this frame: the first entry with the
    /// symbol's name is overwritten, a new name is appended. A value that
    /// does not fit the symbol's declared kind is rejected.
    pub fn assign_value_symbol(&mut self, symbol: &ValueSymbol, value: &Value) -> (r: Result<
        (),
        CrgError,
    >)
        ensures
            match r {
                Ok(()) => spec_value_assignable(symbol@.kind, value@) && final(self)@
                    =~= with_values(old(self)@, spec_assign_values(old(self)@.values, symbol@, value@)),
                Err(e) => e@ == SpecCrgError::KindMismatch(symbol@.name)
                    && !spec_value_assignable(symbol@.kind, value@) && final(self)@ == old(self)@,
            },
    {
        if !symbol.assignable(value) {
            return Err(CrgError::KindMismatch(symbol.name.0.clone()));
        }
        let ghost vals0 = self@.values;
        let mut i: usize = 0;
        while i < self.value_symbols.len()
            invariant
                i <= self.value_symbols.len(),
                self@ == old(self)@,
                vals0 == old(self)@.values,
                spec_value_assignable(symbol@.kind, value@),
                forall|j: int| 0 <= j < i ==> vals0[j].0.name != symbol@.name,
            decreases self.value_symbols.len() - i,
        {
            if self.value_symbols[i].0.name.0 == symbol.name.0 {
                let kept = self.value_symbols[i].0.clone();
                self.value_symbols[i] = (kept, value.clone());
                proof {
                    lemma_assign_values_at(vals0, symbol@, value@, i as int);
                    assert(self@.values =~= vals0.update(i as int, (vals0[i as int].0, value@)));
                }
                return Ok(());
            }
            i += 1;
        }
        proof {
            lemma_assign_values_absent(vals0, symbol@, value@);
        }
        self.value_symbols.push((symbol.clone(), value.clone()));
        proof {
            assert(self@.values =~= vals0.push((symbol@, value@)));
        }
        Ok(())
    }

    /// Stores the value of a trailing expression as this frame's pending
    /// return value, overwriting any earlier one.
    pub fn push_return_value(&mut self, value: &Value)
        ensures
            final(self)@ =~= with_ret(old(self)@, value@),
    {
        self.return_value = value.clone();
    }

    /// The frame's pending return value.
    pub fn return_value(&self) -> (r: Value)
        ensures
            r@ == self@.ret,
    {
        self.return_value.clone()
    }

    /// The first entry of this frame's value table with the given name.
    pub fn find_value_symbol(&self, reference: &ValueSymbolReference) -> (r: Option<
        (ValueSymbol, Value),
    >)
        ensures
            match r {
                Some(p) => spec_find_value(self@.values, reference@) == Some((p.0@, p.1@)),
                None => spec_find_value(self@.values, reference@) is None,
            },
    {
        let mut i: usize = 0;
        while i < self.value_symbols.len()
            invariant
                i <= self.value_symbols.len(),
                forall|j: int| 0 <= j < i ==> self@.values[j].0.name != reference@,
            decreases self.value_symbols.len() - i,
        {
            if self.value_symbols[i].0.name.0 == reference.0.0 {
                proof {
                    lemma_find_value_skip(self@.values, reference@, i as int);
                }
                let p = (self.value_symbols[i].0.clone(), self.value_symbols[i].1.clone());
                return Some(p);
            }
            i += 1;
        }
        proof {
            lemma_find_value_skip(self@.values, reference@, self@.values.len() as int);
        }
        None
    }
}

// ---------------------------------------------------------------------------
// The frame stack
// ---------------------------------------------------------------------------

/// The evaluator's state: a stack of lexical frames, innermost last.
#[derive(Debug, PartialEq, Eq)]
pub struct Vm {
    stack: Vec<VmScope>,
}

impl View for Vm {
    type V = Seq<SpecFrame>;

    closed spec fn view(&self) -> Seq<SpecFrame> {
        Seq::new(self.stack@.len(), |i: int| self.stack@[i]@)
    }
}

impl Vm {
    /// A fresh machine with no frames.
    pub fn new() -> (r: Self)
        ensures
            r@ =~= Seq::<SpecFrame>::empty(),
    {
        Vm { stack: Vec::new() }
    }

    /// Pushes a fresh empty frame, entered on entry to a scope.
    pub fn push_stack(&mut self)
        ensures
            final(self)@ =~= old(self)@.push(empty_frame()),
    {
        self.stack.push(VmScope::new());
    }

    /// Pops the innermost frame, dropped on exit from a scope.
    pub fn pop_stack(&mut self) -> (r: Option<VmScope>)
        ensures
            match r {
                Some(frame) => old(self)@.len() > 0 && frame@ == old(self)@.last() && final(self)@
                    =~= old(self)@.drop_last(),
                None => old(self)@.len() == 0 && final(self)@ == old(self)@,
            },
    {
        let r = self.stack.pop();
        proof {
            if old(self)@.len() > 0 {
                assert(self@ =~= old(self)@.drop_last());
            } else {
                assert(self@ =~= old(self)@);
            }
        }
        r
    }

    /// A borrow of the innermost frame.
    pub fn current_scope(&self) -> (r: &VmScope)
        requires
            self@.len() > 0,
        ensures
            r@ == self@.last(),
    {
        &self.stack[self.stack.len() - 1]
    }

    /// The innermost binding of the referenced name, searching frames from
    /// the top of the stack outwards.
    pub fn lookup_value_symbol(&self, reference: &ValueSymbolReference) -> (r: Option<
        (ValueSymbol, Value),
    >)
        ensures
            match r {
                Some(p) => spec_lookup_value(self@, reference@) == Some((p.0@, p.1@)),
                None => spec_lookup_value(self@, reference@) is None,
            },
    {
        let mut i: usize = self.stack.len();
        while i > 0
            invariant
                i <= self.stack.len(),
                forall|k: int|
                    i <= k < self@.len() ==> spec_find_value(
                        #[trigger] self@[k].values,
                        reference@,
                    ) is None,
            decreases i,
        {
            i = i - 1;
            let found = self.stack[i].find_value_symbol(reference);
            match found {
                Some(p) => {
                    proof {
                        lemma_lookup_prefix(self@, reference@, i as int + 1);
                        let pre = self@.subrange(0, i as int + 1);
                        assert(pre.last() == self@[i as int]);
                    }
                    return Some(p);
                },
                None => (),
            }
        }
        proof {
            lemma_lookup_prefix(self@, reference@, 0);
        }
        None
    }

    /// Declares a type symbol in the innermost frame.
    pub fn bind_type(&mut self, symbol: &TypeSymbol) -> (r: Result<(), CrgError>)
        requires
            old(self)@.len() > 0,
        ensures
            final(self)@.len() == old(self)@.len(),
            final(self)@.drop_last() =~= old(self)@.drop_last(),
            match r {
                Ok(()) => (spec_find_type(old(self)@.last().types, symbol@.name) is None)
                    && final(self)@.last() =~= with_types(
                    old(self)@.last(),
                    old(self)@.last().types.push((symbol@, SpecTypeValue::Empty)),
                ),
                Err(e) => e@ == SpecCrgError::DuplicateBinding(symbol@.name) && (spec_find_type(
                    old(self)@.last().types,
                    symbol@.name,
                ) is Some) && final(self)@ =~= old(self)@,
            },
    {
        let mut top = self.stack.pop().unwrap();
        let r = top.push_type_symbol(symbol);
        self.stack.push(top);
        proof {
            assert(self@.drop_last() =~= old(self)@.drop_last());
            if r is Err {
                assert(self@ =~= old(self)@);
            }
        }
        r
    }

    /// Assigns a type value to a symbol in the innermost frame.
    pub fn assign_type(&mut self, symbol: &TypeSymbol, value: &TypeValue) -> (r: Result<
        (),
        CrgError,
    >)
        requires
            old(self)@.len() > 0,
        ensures
            final(self)@.len() == old(self)@.len(),
            final(self)@.drop_last() =~= old(self)@.drop_last(),
            match r {
                Ok(()) => spec_type_assignable(symbol@.kind, value@) && final(self)@.last()
                    =~= with_types(
                    old(self)@.last(),
                    spec_assign_types(old(self)@.last().types, symbol@, value@),
                ),
                Err(e) => e@ == SpecCrgError::KindMismatch(symbol@.name) && !spec_type_assignable(
                    symbol@.kind,
                    value@,
                ) && final(self)@ =~= old(self)@,
            },
    {
        let mut top = self.stack.pop().unwrap();
        let r = top.assign_type_symbol(symbol, value);
        self.stack.push(top);
        proof {
            assert(self@.drop_last() =~= old(self)@.drop_last());
            if r is Err {
                assert(self@ =~= old(self)@);
            }
        }
        r
    }

    /// Declares a value symbol in the innermost frame.
    pub fn bind_value(&mut self, symbol: &ValueSymbol) -> (r: Result<(), CrgError>)
        requires
            old(self)@.len() > 0,
        ensures
            final(self)@.len() == old(self)@.len(),
            final(self)@.drop_last() =~= old(self)@.drop_last(),
            match r {
                Ok(()) => (spec_find_value(old(self)@.last().values, symbol@.name) is None)
                    && final(self)@.last() =~= with_values(
                    old(self)@.last(),
                    old(self)@.last().values.push((symbol@, SpecValue::Empty)),
                ),
                Err(e) => e@ == SpecCrgError::DuplicateBinding(symbol@.name) && (spec_find_value(
                    old(self)@.last().values,
                    symbol@.name,
                ) is Some) && final(self)@ =~= old(self)@,
            },
    {
        let mut top = self.stack.pop().unwrap();
        let r = top.push_value_symbol(symbol);
        self.stack.push(top);
        proof {
            assert(self@.drop_last() =~= old(self)@.drop_last());
            if r is Err {
                assert(self@ =~= old(self)@);
            }
        }
        r
    }

    /// Assigns a value to a symbol in the innermost frame; an outer binding
    /// of the same name is shadowed, never changed.
    pub fn assign_value(&mut self, symbol: &ValueSymbol, value: &Value) -> (r: Result<
        (),
        CrgError,
    >)
        requires
            old(self)@.len() > 0,
        ensures
            final(self)@.len() == old(self)@.len(),
            final(self)@.drop_last() =~= old(self)@.drop_last(),
            match r {
                Ok(()) => spec_value_assignable(symbol@.kind, value@) && final(self)@.last()
                    =~= with_values(
                    old(self)@.last(),
                    spec_assign_values(old(self)@.last().values, symbol@, value@),
                ),
                Err(e) => e@ == SpecCrgError::KindMismatch(symbol@.name) && !spec_value_assignable(
                    symbol@.kind,
                    value@,
                ) && final(self)@ =~= old(self)@,
            },
    {
        let mut top = self.stack.pop().unwrap();
        let r = top.assign_value_symbol(symbol, value);
        self.stack.push(top);
        proof {
            assert(self@.drop_last() =~= old(self)@.drop_last());
            if r is Err {
                assert(self@ =~= old(self)@);
            }
        }
        r
    }

    /// Stores a trailing expression's value in the innermost frame.
    pub fn set_return_value(&mut self, value: &Value)
        requires
            old(self)@.len() > 0,
        ensures
            final(self)@.len() == old(self)@.len(),
            final(self)@.drop_last() =~= old(self)@.drop_last(),
            final(self)@.last() =~= with_ret(old(self)@.last(), value@),
    {
        let mut top = self.stack.pop().unwrap();
        top.push_return_value(value);
        self.stack.push(top);
        proof {
            assert(self@.drop_last() =~= old(self)@.drop_last());
        }
    }
}

} // verus!
