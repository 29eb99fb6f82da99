//! The typed abstract syntax tree of the language, together with its
//! mathematical model: every executable node has a view into a ghost
//! counterpart built from `Seq`, `int` and plain tags, and every contract in
//! the crate speaks of those views.

use vstd::prelude::*;

verus! {

// ---------------------------------------------------------------------------
// Executable data types
// ---------------------------------------------------------------------------

/// A context name: the label of the slot an effect is targeted at.
#[derive(Debug, PartialEq, Eq)]
pub struct ContextLabel(pub String);

/// One state of a finite-state machine, or one of the two distinguished
/// markers.
#[derive(Debug, PartialEq, Eq)]
pub enum StateLabel {
    Id,
    Empty,
    Label(String),
}

/// The payload of an additive effect.
#[derive(Debug, PartialEq, Eq)]
pub struct AddEffect(pub i64);

/// An integer literal.
#[derive(Debug, PartialEq, Eq)]
pub struct IntLiteral(pub i64);

/// A transition effect: jump to a target state.
#[derive(Debug, PartialEq, Eq)]
pub enum TransitionEffect {
    Id,
    Empty,
    StateLabel(StateLabel),
}

/// An effect, the unit of the composition algebra.
#[derive(Debug, PartialEq, Eq)]
pub enum Effect {
    Id,
    Empty,
    AddEffect(AddEffect),
    TransitionEffect(TransitionEffect),
}

/// An effect aimed at one named context.
#[derive(Debug, PartialEq, Eq)]
pub struct ContextEffect(pub ContextLabel, pub Effect);

/// An ordered batch of context effects, not yet applied to a snapshot.
#[derive(Debug, PartialEq, Eq)]
pub struct Slice(pub Vec<ContextEffect>);

/// The current value of one context inside a snapshot.
#[derive(Debug, PartialEq, Eq)]
pub enum SnapshotValueItemValue {
    Id,
    Empty,
    Int(IntLiteral),
    StateLabel(StateLabel),
}

/// One labelled entry of a snapshot.
#[derive(Debug, PartialEq, Eq)]
pub struct SnapshotValueItem(pub ContextLabel, pub SnapshotValueItemValue);

/// A snapshot: an ordered list of labelled entries, at most one per label.
#[derive(Debug, PartialEq, Eq)]
pub struct SnapshotValue(pub Vec<SnapshotValueItem>);

/// A source comment, kept as a leaf of the tree.
#[derive(Debug, PartialEq, Eq)]
pub struct Comment(pub String);

/// The name of a value symbol.
#[derive(Debug, PartialEq, Eq)]
pub struct ValueSymbolName(pub String);

/// The declared kind of a value symbol.
#[derive(Debug, Clone, Copy, PartialEq, Eq)]
pub enum BindKeywords {
    Slice,
    Effect,
    ContextEffect,
    Context,
    Snapshot,
}

/// A value symbol: a name together with its declared kind.
#[derive(Debug, PartialEq, Eq)]
pub struct ValueSymbol {
    pub name: ValueSymbolName,
    pub kind: BindKeywords,
}

/// A reference to a value symbol.
#[derive(Debug, PartialEq, Eq)]
pub struct ValueSymbolReference(pub ValueSymbolName);

/// The name of a type symbol.
#[derive(Debug, PartialEq, Eq)]
pub struct TypeSymbolName(pub String);

/// The declared kind of a type symbol.
#[derive(Debug, Clone, Copy, PartialEq, Eq)]
pub enum TypeKind {
    StateMachine,
    Snapshot,
    Context,
}

/// A type symbol: a name together with its declared kind.
#[derive(Debug, PartialEq, Eq)]
pub struct TypeSymbol {
    pub name: TypeSymbolName,
    pub kind: TypeKind,
}

/// A reference to a type symbol by name.
#[derive(Debug, PartialEq, Eq)]
pub struct TypeSymbolReference(pub String);

/// The effect type of one context inside a snapshot type.
#[derive(Debug, PartialEq, Eq)]
pub enum EffectType {
    Id,
    Empty,
    Int,
    StateMachine,
    TypeSymbolReference(TypeSymbolName),
}

/// One labelled context of a snapshot type.
#[derive(Debug, PartialEq, Eq)]
pub struct ContextType(pub ContextLabel, pub EffectType);

/// A snapshot type: an ordered list of context types.
#[derive(Debug, PartialEq, Eq)]
pub struct SnapshotType(pub Vec<ContextType>);

/// A state machine type: its ordered list of state labels.
#[derive(Debug, PartialEq, Eq)]
pub struct StateMachine(pub Vec<StateLabel>);

/// A type-level value.
#[derive(Debug, PartialEq, Eq)]
pub enum TypeValue {
    Id,
    Empty,
    Int,
    TypeSymbol(TypeSymbol),
    StateMachine(StateMachine),
    Snapshot(SnapshotType),
    Context(ContextType),
}

/// A binary operator of the language.
#[derive(Debug, Clone, Copy, PartialEq, Eq)]
pub enum Op {
    Compose,
    Apply,
    Reduce,
    Push,
}

/// A runtime value.
#[derive(Debug, PartialEq, Eq)]
pub enum Value {
    Id,
    Empty,
    Effect(Effect),
    Context(ContextLabel),
    ContextEffect(ContextEffect),
    Slice(Slice),
    Snapshot(SnapshotValue),
    Scope(ScopeValue),
}

/// An expression: a literal value, a binary operation, or a reference.
#[derive(Debug, PartialEq, Eq)]
pub enum Expr {
    Id(Value),
    Op(Op, Box<Expr>, Box<Expr>),
    Reference(ValueSymbolReference),
}

/// A type-level statement.
#[derive(Debug, PartialEq, Eq)]
pub enum TypeExpr {
    Bind(TypeSymbol),
    Assign { symbol: TypeSymbol, value: TypeValue },
    Id(TypeValue),
}

/// A value-level binding statement.
#[derive(Debug, PartialEq, Eq)]
pub enum LetExpr {
    Bind(ValueSymbol),
    Assign { symbol: ValueSymbol, expr: Expr },
}

/// A statement of a scope.
#[derive(Debug, PartialEq, Eq)]
pub enum Stmt {
    Expr(Expr),
    TypeStmt(TypeExpr),
    LetStmt(LetExpr),
    ScopeStmt(ScopeValue),
}

/// One item of a scope: a comment, a statement, or a trailing expression.
#[derive(Debug, PartialEq, Eq)]
pub enum ScopeInnerValue {
    Comment(Comment),
    Stmt(Stmt),
    Expr(Expr),
}

/// A scope: the ordered items between one pair of braces, or the whole
/// document.
#[derive(Debug, PartialEq, Eq)]
pub struct ScopeValue(pub Vec<ScopeInnerValue>);

/// A whole parsed document.
#[derive(Debug, PartialEq, Eq)]
pub enum Node {
    Root(ScopeValue),
}

// ---------------------------------------------------------------------------
// The ghost model
// ---------------------------------------------------------------------------

/// Model of a state label.
pub enum SpecStateLabel {
    Id,
    Empty,
    Label(Seq<char>),
}

/// Model of a transition effect.
pub enum SpecTransitionEffect {
    Id,
    Empty,
    StateLabel(SpecStateLabel),
}

/// Model of an effect; the additive payload is an unbounded integer.
pub enum SpecEffect {
    Id,
    Empty,
    Add(int),
    Transition(SpecTransitionEffect),
}

/// Model of a context effect.
#[verifier::ext_equal]
pub struct SpecContextEffect {
    pub label: Seq<char>,
    pub effect: SpecEffect,
}

/// Model of one snapshot entry's value.
pub enum SpecEntry {
    Id,
    Empty,
    Int(int),
    State(SpecStateLabel),
}

/// Model of one labelled snapshot entry.
#[verifier::ext_equal]
pub struct SpecSnapshotItem {
    pub label: Seq<char>,
    pub value: SpecEntry,
}

/// Model of a value symbol.
#[verifier::ext_equal]
pub struct SpecValueSymbol {
    pub name: Seq<char>,
    pub kind: BindKeywords,
}

/// Model of a type symbol.
#[verifier::ext_equal]
pub struct SpecTypeSymbol {
    pub name: Seq<char>,
    pub kind: TypeKind,
}

/// Model of an effect type.
pub enum SpecEffectType {
    Id,
    Empty,
    Int,
    StateMachine,
    TypeSymbolReference(Seq<char>),
}

/// Model of one labelled context type.
#[verifier::ext_equal]
pub struct SpecContextType {
    pub label: Seq<char>,
    pub effect: SpecEffectType,
}

/// Model of a type-level value.
#[verifier::ext_equal]
pub enum SpecTypeValue {
    Id,
    Empty,
    Int,
    TypeSymbol(SpecTypeSymbol),
    StateMachine(Seq<SpecStateLabel>),
    Snapshot(Seq<SpecContextType>),
    Context(SpecContextType),
}

/// Model of a runtime value.
#[verifier::ext_equal]
pub enum SpecValue {
    Id,
    Empty,
    Effect(SpecEffect),
    Context(Seq<char>),
    ContextEffect(SpecContextEffect),
    Slice(Seq<SpecContextEffect>),
    Snapshot(Seq<SpecSnapshotItem>),
    Scope(Seq<SpecScopeItem>),
}

/// Model of an expression.
#[verifier::ext_equal]
pub enum SpecExpr {
    Id(SpecValue),
    Op(Op, Box<SpecExpr>, Box<SpecExpr>),
    Reference(Seq<char>),
}

/// Model of a type-level statement.
#[verifier::ext_equal]
pub enum SpecTypeExpr {
    Bind(SpecTypeSymbol),
    Assign(SpecTypeSymbol, SpecTypeValue),
    Id(SpecTypeValue),
}

/// Model of a value-level binding statement.
#[verifier::ext_equal]
pub enum SpecLetExpr {
    Bind(SpecValueSymbol),
    Assign(SpecValueSymbol, SpecExpr),
}

/// Model of a statement.
#[verifier::ext_equal]
pub enum SpecStmt {
    Expr(SpecExpr),
    TypeStmt(SpecTypeExpr),
    LetStmt(SpecLetExpr),
    ScopeStmt(Seq<SpecScopeItem>),
}

/// Model of one scope item.
#[verifier::ext_equal]
pub enum SpecScopeItem {
    Comment(Seq<char>),
    Stmt(SpecStmt),
    Expr(SpecExpr),
}

// ---------------------------------------------------------------------------
// Views of the flat types
// ---------------------------------------------------------------------------

impl View for ContextLabel {
    type V = Seq<char>;

    open spec fn view(&self) -> Seq<char> {
        self.0@
    }
}

impl View for StateLabel {
    type V = SpecStateLabel;

    open spec fn view(&self) -> SpecStateLabel {
        match self {
            StateLabel::Id => SpecStateLabel::Id,
            StateLabel::Empty => SpecStateLabel::Empty,
            StateLabel::Label(s) => SpecStateLabel::Label(s@),
        }
    }
}

impl View for AddEffect {
    type V = int;

    open spec fn view(&self) -> int {
        self.0 as int
    }
}

impl View for IntLiteral {
    type V = int;

    open spec fn view(&self) -> int {
        self.0 as int
    }
}

impl View for TransitionEffect {
    type V = SpecTransitionEffect;

    open spec fn view(&self) -> SpecTransitionEffect {
        match self {
            TransitionEffect::Id => SpecTransitionEffect::Id,
            TransitionEffect::Empty => SpecTransitionEffect::Empty,
            TransitionEffect::StateLabel(s) => SpecTransitionEffect::StateLabel(s@),
        }
    }
}

impl View for Effect {
    type V = SpecEffect;

    open spec fn view(&self) -> SpecEffect {
        match self {
            Effect::Id => SpecEffect::Id,
            Effect::Empty => SpecEffect::Empty,
            Effect::AddEffect(a) => SpecEffect::Add(a@),
            Effect::TransitionEffect(t) => SpecEffect::Transition(t@),
        }
    }
}

impl View for ContextEffect {
    type V = SpecContextEffect;

    open spec fn view(&self) -> SpecContextEffect {
        SpecContextEffect { label: self.0@, effect: self.1@ }
    }
}

impl View for Slice {
    type V = Seq<SpecContextEffect>;

    open spec fn view(&self) -> Seq<SpecContextEffect> {
        Seq::new(self.0@.len(), |i: int| self.0@[i]@)
    }
}

impl View for SnapshotValueItemValue {
    type V = SpecEntry;

    open spec fn view(&self) -> SpecEntry {
        match self {
            SnapshotValueItemValue::Id => SpecEntry::Id,
            SnapshotValueItemValue::Empty => SpecEntry::Empty,
            SnapshotValueItemValue::Int(n) => SpecEntry::Int(n@),
            SnapshotValueItemValue::StateLabel(s) => SpecEntry::State(s@),
        }
    }
}

impl View for SnapshotValueItem {
    type V = SpecSnapshotItem;

    open spec fn view(&self) -> SpecSnapshotItem {
        SpecSnapshotItem { label: self.0@, value: self.1@ }
    }
}

impl View for SnapshotValue {
    type V = Seq<SpecSnapshotItem>;

    open spec fn view(&self) -> Seq<SpecSnapshotItem> {
        Seq::new(self.0@.len(), |i: int| self.0@[i]@)
    }
}

impl View for Comment {
    type V = Seq<char>;

    open spec fn view(&self) -> Seq<char> {
        self.0@
    }
}

impl View for ValueSymbolName {
    type V = Seq<char>;

    open spec fn view(&self) -> Seq<char> {
        self.0@
    }
}

impl View for ValueSymbol {
    type V = SpecValueSymbol;

    open spec fn view(&self) -> SpecValueSymbol {
        SpecValueSymbol { name: self.name@, kind: self.kind }
    }
}

impl View for ValueSymbolReference {
    type V = Seq<char>;

    open spec fn view(&self) -> Seq<char> {
        self.0@
    }
}

impl View for TypeSymbolName {
    type V = Seq<char>;

    open spec fn view(&self) -> Seq<char> {
        self.0@
    }
}

impl View for TypeSymbol {
    type V = SpecTypeSymbol;

    open spec fn view(&self) -> SpecTypeSymbol {
        SpecTypeSymbol { name: self.name@, kind: self.kind }
    }
}

impl View for TypeSymbolReference {
    type V = Seq<char>;

    open spec fn view(&self) -> Seq<char> {
        self.0@
    }
}

impl View for EffectType {
    type V = SpecEffectType;

    open spec fn view(&self) -> SpecEffectType {
        match self {
            EffectType::Id => SpecEffectType::Id,
            EffectType::Empty => SpecEffectType::Empty,
            EffectType::Int => SpecEffectType::Int,
            EffectType::StateMachine => SpecEffectType::StateMachine,
            EffectType::TypeSymbolReference(n) => SpecEffectType::TypeSymbolReference(n@),
        }
    }
}

impl View for ContextType {
    type V = SpecContextType;

    open spec fn view(&self) -> SpecContextType {
        SpecContextType { label: self.0@, effect: self.1@ }
    }
}

impl View for SnapshotType {
    type V = Seq<SpecContextType>;

    open spec fn view(&self) -> Seq<SpecContextType> {
        Seq::new(self.0@.len(), |i: int| self.0@[i]@)
    }
}

impl View for StateMachine {
    type V = Seq<SpecStateLabel>;

    open spec fn view(&self) -> Seq<SpecStateLabel> {
        Seq::new(self.0@.len(), |i: int| self.0@[i]@)
    }
}

impl View for TypeValue {
    type V = SpecTypeValue;

    open spec fn view(&self) -> SpecTypeValue {
        match self {
            TypeValue::Id => SpecTypeValue::Id,
            TypeValue::Empty => SpecTypeValue::Empty,
            TypeValue::Int => SpecTypeValue::Int,
            TypeValue::TypeSymbol(s) => SpecTypeValue::TypeSymbol(s@),
            TypeValue::StateMachine(m) => SpecTypeValue::StateMachine(m@),
            TypeValue::Snapshot(t) => SpecTypeValue::Snapshot(t@),
            TypeValue::Context(c) => SpecTypeValue::Context(c@),
        }
    }
}

// ---------------------------------------------------------------------------
// Views of the recursive family
// ---------------------------------------------------------------------------

/// The model of a runtime value.
pub open spec fn view_value(v: Value) -> SpecValue
    decreases v,
{
    match v {
        Value::Id => SpecValue::Id,
        Value::Empty => SpecValue::Empty,
        Value::Effect(e) => SpecValue::Effect(e@),
        Value::Context(l) => SpecValue::Context(l@),
        Value::ContextEffect(ce) => SpecValue::ContextEffect(ce@),
        Value::Slice(s) => SpecValue::Slice(s@),
        Value::Snapshot(s) => SpecValue::Snapshot(s@),
        Value::Scope(sc) => SpecValue::Scope(view_scope_items(sc.0@)),
    }
}

/// The model of the items of one scope, in order.
pub open spec fn view_scope_items(s: Seq<ScopeInnerValue>) -> Seq<SpecScopeItem>
    decreases s,
{
    if s.len() == 0 {
        Seq::empty()
    } else {
        seq![view_scope_item(s[0])] + view_scope_items(s.subrange(1, s.len() as int))
    }
}

/// The model of one scope item.
pub open spec fn view_scope_item(item: ScopeInnerValue) -> SpecScopeItem
    decreases item,
{
    match item {
        ScopeInnerValue::Comment(c) => SpecScopeItem::Comment(c@),
        ScopeInnerValue::Stmt(s) => SpecScopeItem::Stmt(view_stmt(s)),
        ScopeInnerValue::Expr(e) => SpecScopeItem::Expr(view_expr(e)),
    }
}

/// The model of a statement.
pub open spec fn view_stmt(s: Stmt) -> SpecStmt
    decreases s,
{
    match s {
        Stmt::Expr(e) => SpecStmt::Expr(view_expr(e)),
        Stmt::TypeStmt(t) => SpecStmt::TypeStmt(t@),
        Stmt::LetStmt(l) => SpecStmt::LetStmt(view_let_expr(l)),
        Stmt::ScopeStmt(sc) => SpecStmt::ScopeStmt(view_scope_items(sc.0@)),
    }
}

/// The model of a value-level binding statement.
pub open spec fn view_let_expr(l: LetExpr) -> SpecLetExpr
    decreases l,
{
    match l {
        LetExpr::Bind(sym) => SpecLetExpr::Bind(sym@),
        LetExpr::Assign { symbol, expr } => SpecLetExpr::Assign(symbol@, view_expr(expr)),
    }
}

/// The model of an expression.
pub open spec fn view_expr(e: Expr) -> SpecExpr
    decreases e,
{
    match e {
        Expr::Id(v) => SpecExpr::Id(view_value(v)),
        Expr::Op(op, lhs, rhs) => SpecExpr::Op(
            op,
            Box::new(view_expr(*lhs)),
            Box::new(view_expr(*rhs)),
        ),
        Expr::Reference(r) => SpecExpr::Reference(r@),
    }
}

impl View for Value {
    type V = SpecValue;

    open spec fn view(&self) -> SpecValue {
        view_value(*self)
    }
}

impl View for ScopeInnerValue {
    type V = SpecScopeItem;

    open spec fn view(&self) -> SpecScopeItem {
        view_scope_item(*self)
    }
}

impl View for Stmt {
    type V = SpecStmt;

    open spec fn view(&self) -> SpecStmt {
        view_stmt(*self)
    }
}

impl View for LetExpr {
    type V = SpecLetExpr;

    open spec fn view(&self) -> SpecLetExpr {
        view_let_expr(*self)
    }
}

impl View for Expr {
    type V = SpecExpr;

    open spec fn view(&self) -> SpecExpr {
        view_expr(*self)
    }
}

impl View for TypeExpr {
    type V = SpecTypeExpr;

    open spec fn view(&self) -> SpecTypeExpr {
        match self {
            TypeExpr::Bind(s) => SpecTypeExpr::Bind(s@),
            TypeExpr::Assign { symbol, value } => SpecTypeExpr::Assign(symbol@, value@),
            TypeExpr::Id(v) => SpecTypeExpr::Id(v@),
        }
    }
}

impl View for ScopeValue {
    type V = Seq<SpecScopeItem>;

    open spec fn view(&self) -> Seq<SpecScopeItem> {
        view_scope_items(self.0@)
    }
}

impl View for Node {
    type V = Seq<SpecScopeItem>;

    open spec fn view(&self) -> Seq<SpecScopeItem> {
        match self {
            Node::Root(sc) => sc@,
        }
    }
}

// ---------------------------------------------------------------------------
// Cloning, proved to preserve the model
// ---------------------------------------------------------------------------

impl Clone for ContextLabel {
    fn clone(&self) -> (r: Self)
        ensures
            r@ == self@,
    {
        ContextLabel(self.0.clone())
    }
}

impl Clone for StateLabel {
    fn clone(&self) -> (r: Self)
        ensures
            r@ == self@,
    {
        match self {
            StateLabel::Id => StateLabel::Id,
            StateLabel::Empty => StateLabel::Empty,
            StateLabel::Label(s) => StateLabel::Label(s.clone()),
        }
    }
}

impl Clone for AddEffect {
    fn clone(&self) -> (r: Self)
        ensures
            r@ == self@,
    {
        AddEffect(self.0)
    }
}

impl Clone for IntLiteral {
    fn clone(&self) -> (r: Self)
        ensures
            r@ == self@,
    {
        IntLiteral(self.0)
    }
}

impl Clone for TransitionEffect {
    fn clone(&self) -> (r: Self)
        ensures
            r@ == self@,
    {
        match self {
            TransitionEffect::Id => TransitionEffect::Id,
            TransitionEffect::Empty => TransitionEffect::Empty,
            TransitionEffect::StateLabel(s) => TransitionEffect::StateLabel(s.clone()),
        }
    }
}

impl Clone for Effect {
    fn clone(&self) -> (r: Self)
        ensures
            r@ == self@,
    {
        match self {
            Effect::Id => Effect::Id,
            Effect::Empty => Effect::Empty,
            Effect::AddEffect(a) => Effect::AddEffect(a.clone()),
            Effect::TransitionEffect(t) => Effect::TransitionEffect(t.clone()),
        }
    }
}

impl Clone for ContextEffect {
    fn clone(&self) -> (r: Self)
        ensures
            r@ == self@,
    {
        ContextEffect(self.0.clone(), self.1.clone())
    }
}

impl Clone for Slice {
    fn clone(&self) -> (r: Self)
        ensures
            r@ == self@,
    {
        let mut items: Vec<ContextEffect> = Vec::new();
        let mut i: usize = 0;
        while i < self.0.len()
            invariant
                i <= self.0.len(),
                items@.len() == i as int,
                forall|j: int| 0 <= j < i as int ==> items@[j]@ == self.0@[j]@,
            decreases self.0.len() - i,
        {
            items.push(self.0[i].clone());
            i += 1;
        }
        let r = Slice(items);
        proof {
            assert(r@ =~= self@);
        }
        r
    }
}

impl Clone for SnapshotValueItemValue {
    fn clone(&self) -> (r: Self)
        ensures
            r@ == self@,
    {
        match self {
            SnapshotValueItemValue::Id => SnapshotValueItemValue::Id,
            SnapshotValueItemValue::Empty => SnapshotValueItemValue::Empty,
            SnapshotValueItemValue::Int(n) => SnapshotValueItemValue::Int(n.clone()),
            SnapshotValueItemValue::StateLabel(s) => SnapshotValueItemValue::StateLabel(s.clone()),
        }
    }
}

impl Clone for SnapshotValueItem {
    fn clone(&self) -> (r: Self)
        ensures
            r@ == self@,
    {
        SnapshotValueItem(self.0.clone(), self.1.clone())
    }
}

impl Clone for SnapshotValue {
    fn clone(&self) -> (r: Self)
        ensures
            r@ == self@,
    {
        let mut items: Vec<SnapshotValueItem> = Vec::new();
        let mut i: usize = 0;
        while i < self.0.len()
            invariant
                i <= self.0.len(),
                items@.len() == i as int,
                forall|j: int| 0 <= j < i as int ==> items@[j]@ == self.0@[j]@,
            decreases self.0.len() - i,
        {
            items.push(self.0[i].clone());
            i += 1;
        }
        let r = SnapshotValue(items);
        proof {
            assert(r@ =~= self@);
        }
        r
    }
}

impl Clone for Comment {
    fn clone(&self) -> (r: Self)
        ensures
            r@ == self@,
    {
        Comment(self.0.clone())
    }
}

impl Clone for ValueSymbolName {
    fn clone(&self) -> (r: Self)
        ensures
            r@ == self@,
    {
        ValueSymbolName(self.0.clone())
    }
}

impl Clone for ValueSymbol {
    fn clone(&self) -> (r: Self)
        ensures
            r@ == self@,
    {
        ValueSymbol { name: self.name.clone(), kind: self.kind }
    }
}

impl Clone for ValueSymbolReference {
    fn clone(&self) -> (r: Self)
        ensures
            r@ == self@,
    {
        ValueSymbolReference(self.0.clone())
    }
}

impl Clone for TypeSymbolName {
    fn clone(&self) -> (r: Self)
        ensures
            r@ == self@,
    {
        TypeSymbolName(self.0.clone())
    }
}

impl Clone for TypeSymbol {
    fn clone(&self) -> (r: Self)
        ensures
            r@ == self@,
    {
        TypeSymbol { name: self.name.clone(), kind: self.kind }
    }
}

impl Clone for TypeSymbolReference {
    fn clone(&self) -> (r: Self)
        ensures
            r@ == self@,
    {
        TypeSymbolReference(self.0.clone())
    }
}

impl Clone for EffectType {
    fn clone(&self) -> (r: Self)
        ensures
            r@ == self@,
    {
        match self {
            EffectType::Id => EffectType::Id,
            EffectType::Empty => EffectType::Empty,
            EffectType::Int => EffectType::Int,
            EffectType::StateMachine => EffectType::StateMachine,
            EffectType::TypeSymbolReference(n) => EffectType::TypeSymbolReference(n.clone()),
        }
    }
}

impl Clone for ContextType {
    fn clone(&self) -> (r: Self)
        ensures
            r@ == self@,
    {
        ContextType(self.0.clone(), self.1.clone())
    }
}

impl Clone for SnapshotType {
    fn clone(&self) -> (r: Self)
        ensures
            r@ == self@,
    {
        let mut items: Vec<ContextType> = Vec::new();
        let mut i: usize = 0;
        while i < self.0.len()
            invariant
                i <= self.0.len(),
                items@.len() == i as int,
                forall|j: int| 0 <= j < i as int ==> items@[j]@ == self.0@[j]@,
            decreases self.0.len() - i,
        {
            items.push(self.0[i].clone());
            i += 1;
        }
        let r = SnapshotType(items);
        proof {
            assert(r@ =~= self@);
        }
        r
    }
}

impl Clone for StateMachine {
    fn clone(&self) -> (r: Self)
        ensures
            r@ == self@,
    {
        let mut items: Vec<StateLabel> = Vec::new();
        let mut i: usize = 0;
        while i < self.0.len()
            invariant
                i <= self.0.len(),
                items@.len() == i as int,
                forall|j: int| 0 <= j < i as int ==> items@[j]@ == self.0@[j]@,
            decreases self.0.len() - i,
        {
            items.push(self.0[i].clone());
            i += 1;
        }
        let r = StateMachine(items);
        proof {
            assert(r@ =~= self@);
        }
        r
    }
}

impl Clone for TypeValue {
    fn clone(&self) -> (r: Self)
        ensures
            r@ == self@,
    {
        match self {
            TypeValue::Id => TypeValue::Id,
            TypeValue::Empty => TypeValue::Empty,
            TypeValue::Int => TypeValue::Int,
            TypeValue::TypeSymbol(s) => TypeValue::TypeSymbol(s.clone()),
            TypeValue::StateMachine(m) => TypeValue::StateMachine(m.clone()),
            TypeValue::Snapshot(t) => TypeValue::Snapshot(t.clone()),
            TypeValue::Context(c) => TypeValue::Context(c.clone()),
        }
    }
}

impl Clone for TypeExpr {
    fn clone(&self) -> (r: Self)
        ensures
            r@ == self@,
    {
        match self {
            TypeExpr::Bind(s) => TypeExpr::Bind(s.clone()),
            TypeExpr::Assign { symbol, value } => TypeExpr::Assign {
                symbol: symbol.clone(),
                value: value.clone(),
            },
            TypeExpr::Id(v) => TypeExpr::Id(v.clone()),
        }
    }
}

impl Clone for Value {
    fn clone(&self) -> (r: Self)
        ensures
            r@ == self@,
        decreases self,
    {
        match self {
            Value::Id => Value::Id,
            Value::Empty => Value::Empty,
            Value::Effect(e) => Value::Effect(e.clone()),
            Value::Context(l) => Value::Context(l.clone()),
            Value::ContextEffect(ce) => Value::ContextEffect(ce.clone()),
            Value::Slice(s) => Value::Slice(s.clone()),
            Value::Snapshot(s) => Value::Snapshot(s.clone()),
            Value::Scope(sc) => Value::Scope(sc.clone()),
        }
    }
}

impl Clone for Expr {
    fn clone(&self) -> (r: Self)
        ensures
            r@ == self@,
        decreases self,
    {
        match self {
            Expr::Id(v) => Expr::Id(v.clone()),
            Expr::Op(op, lhs, rhs) => Expr::Op(
                *op,
                Box::new((**lhs).clone()),
                Box::new((**rhs).clone()),
            ),
            Expr::Reference(r) => Expr::Reference(r.clone()),
        }
    }
}

impl Clone for LetExpr {
    fn clone(&self) -> (r: Self)
        ensures
            r@ == self@,
        decreases self,
    {
        match self {
            LetExpr::Bind(sym) => LetExpr::Bind(sym.clone()),
            LetExpr::Assign { symbol, expr } => LetExpr::Assign {
                symbol: symbol.clone(),
                expr: expr.clone(),
            },
        }
    }
}

impl Clone for Stmt {
    fn clone(&self) -> (r: Self)
        ensures
            r@ == self@,
        decreases self,
    {
        match self {
            Stmt::Expr(e) => Stmt::Expr(e.clone()),
            Stmt::TypeStmt(t) => Stmt::TypeStmt(t.clone()),
            Stmt::LetStmt(l) => Stmt::LetStmt(l.clone()),
            Stmt::ScopeStmt(sc) => Stmt::ScopeStmt(sc.clone()),
        }
    }
}

impl Clone for ScopeInnerValue {
    fn clone(&self) -> (r: Self)
        ensures
            r@ == self@,
        decreases self,
    {
        match self {
            ScopeInnerValue::Comment(c) => ScopeInnerValue::Comment(c.clone()),
            ScopeInnerValue::Stmt(s) => ScopeInnerValue::Stmt(s.clone()),
            ScopeInnerValue::Expr(e) => ScopeInnerValue::Expr(e.clone()),
        }
    }
}

impl Clone for ScopeValue {
    fn clone(&self) -> (r: Self)
        ensures
            r@ == self@,
        decreases self,
    {
        let mut items: Vec<ScopeInnerValue> = Vec::new();
        let mut i: usize = 0;
        while i < self.0.len()
            invariant
                i <= self.0.len(),
                items@.len() == i as int,
                forall|j: int| 0 <= j < i as int ==> items@[j]@ == self.0@[j]@,
            decreases self.0.len() - i,
        {
            items.push(self.0[i].clone());
            i += 1;
        }
        let r = ScopeValue(items);
        proof {
            lemma_view_scope_items(r.0@);
            lemma_view_scope_items(self.0@);
            assert(r@ =~= self@);
        }
        r
    }
}

impl Clone for Node {
    fn clone(&self) -> (r: Self)
        ensures
            r@ == self@,
    {
        match self {
            Node::Root(sc) => Node::Root(sc.clone()),
        }
    }
}

/// The model of a literal expression is the model of its value, wrapped.
pub proof fn lemma_view_expr_id(v: Value)
    ensures
        view_expr(Expr::Id(v)) == SpecExpr::Id(view_value(v)),
{
}

/// The item-by-item reading of `view_scope_items`: it maps each element of
/// the sequence to its model, keeping the length and the order.
pub proof fn lemma_view_scope_items(s: Seq<ScopeInnerValue>)
    ensures
        view_scope_items(s).len() == s.len(),
        forall|i: int| 0 <= i < s.len() ==> view_scope_items(s)[i] == view_scope_item(s[i]),
    decreases s.len(),
{
    if s.len() > 0 {
        lemma_view_scope_items(s.subrange(1, s.len() as int));
        assert forall|i: int| 0 <= i < s.len() implies view_scope_items(s)[i] == view_scope_item(
            s[i],
        ) by {
            if i > 0 {
                assert(s.subrange(1, s.len() as int)[i - 1] == s[i]);
            }
        }
    }
}

} // verus!
