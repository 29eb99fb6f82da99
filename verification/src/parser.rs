//! The translator from the concrete parse tree to the typed abstract syntax
//! tree. The parse tree comes from an external grammar recognizer and
//! carries only rule tags, literal spans and ordered children; translation
//! dispatches on the rule tag and on the child count, and any shape a rule
//! can never produce is reported as an error naming that rule -- the
//! builder never falls back to a default value.

use vstd::prelude::*;

use crate::ast::{
    AddEffect, Comment, ContextEffect, ContextLabel, Effect, Expr, IntLiteral, LetExpr, Node, Op,
    TransitionEffect,
    ScopeInnerValue, ScopeValue, Slice, SnapshotType, SnapshotValue, SnapshotValueItem,
    SnapshotValueItemValue, SpecContextEffect, SpecContextType, SpecEffect, SpecEffectType,
    SpecEntry, SpecExpr, SpecLetExpr, SpecScopeItem, SpecSnapshotItem, SpecStateLabel, SpecStmt,
    SpecTransitionEffect, SpecTypeExpr, SpecTypeSymbol, SpecTypeValue, SpecValue, SpecValueSymbol,
    StateLabel, StateMachine, Stmt, TypeExpr, TypeKind, TypeSymbol, TypeSymbolName, TypeValue,
    Value, ValueSymbol, ValueSymbolName, ValueSymbolReference, BindKeywords, ContextType,
    EffectType,
};
use crate::error::{CrgError, SpecCrgError};

verus! {

// ---------------------------------------------------------------------------
// The concrete parse tree
// ---------------------------------------------------------------------------

/// The grammar rule a parse-tree node was produced by.
#[derive(Debug, Clone, Copy, PartialEq, Eq)]
pub enum RuleTag {
    Document,
    Scope,
    Comment,
    Eoi,
    Stmt,
    TypeStmt,
    LetStmt,
    CalcStmt,
    ScopeStmt,
    BindExpr,
    AssignExpr,
    VarSymbol,
    BindKeyword,
    TypeExpr,
    BindTypeExpr,
    AssignTypeExpr,
    TypeLiteral,
    TypeSymbol,
    TypeKeyword,
    StateMachineKeyword,
    SnapshotKeyword,
    ContextKeyword,
    StateMachineTypeExpr,
    StateMachineTypeLiteral,
    SnapshotTypeExpr,
    SnapshotTypeLiteral,
    SnapshotTypeItemLiteral,
    ContextedTypeExpr,
    EffectTypeExpr,
    EffectTypeLiteral,
    IntContextTypeLiteral,
    StateExpr,
    StateLiteral,
    LikeString,
    IdLiteral,
    EmptyLiteral,
    Op,
    ComposeOp,
    ApplyOp,
    ReduceOp,
    PushOp,
    Expr,
    Term,
    AddEffectExpr,
    AddEffectLiteral,
    TransitionEffectExpr,
    TransitionEffectLiteral,
    EffectExpr,
    EffectLiteral,
    SliceLiteral,
    SnapshotLiteral,
    SnapshotValueExpr,
    SnapshotValueLiteral,
    SnapshotItemLiteral,
    ContextEffectLiteral,
    ContextTypeLiteral,
    ContextExpr,
    ContextLiteral,
    ScopeExpr,
    ScopeLiteral,
    IntLiteral,
}

/// One node of the concrete parse tree: its rule tag, the literal text of
/// its span, and its ordered children. A leaf has no children.
#[derive(Debug, PartialEq, Eq)]
pub struct ParseNode {
    pub rule: RuleTag,
    pub text: String,
    pub children: Vec<ParseNode>,
}

/// Model of a parse-tree node.
#[verifier::ext_equal]
pub struct SpecParseNode {
    pub rule: RuleTag,
    pub text: Seq<char>,
    pub children: Seq<SpecParseNode>,
}

/// The model of a parse-tree node.
pub open spec fn view_parse_node(n: ParseNode) -> SpecParseNode
    decreases n,
{
    SpecParseNode { rule: n.rule, text: n.text@, children: view_parse_nodes(n.children@) }
}

/// The models of a sequence of parse-tree nodes, in order.
pub open spec fn view_parse_nodes(s: Seq<ParseNode>) -> Seq<SpecParseNode>
    decreases s,
{
    if s.len() == 0 {
        Seq::empty()
    } else {
        seq![view_parse_node(s[0])] + view_parse_nodes(s.subrange(1, s.len() as int))
    }
}

impl View for ParseNode {
    type V = SpecParseNode;

    open spec fn view(&self) -> SpecParseNode {
        view_parse_node(*self)
    }
}

/// The item-by-item reading of `view_parse_nodes`.
pub proof fn lemma_view_parse_nodes(s: Seq<ParseNode>)
    ensures
        view_parse_nodes(s).len() == s.len(),
        forall|i: int| 0 <= i < s.len() ==> view_parse_nodes(s)[i] == view_parse_node(s[i]),
    decreases s.len(),
{
    if s.len() > 0 {
        lemma_view_parse_nodes(s.subrange(1, s.len() as int));
        assert forall|i: int| 0 <= i < s.len() implies view_parse_nodes(s)[i] == view_parse_node(
            s[i],
        ) by {
            if i > 0 {
                assert(s.subrange(1, s.len() as int)[i - 1] == s[i]);
            }
        }
    }
}

// ---------------------------------------------------------------------------
// Rule names, for error reports
// ---------------------------------------------------------------------------

/// The grammar's name for a rule, as it appears in error reports.
pub open spec fn spec_rule_name(tag: RuleTag) -> Seq<char> {
    match tag {
        RuleTag::Document => "document"@,
        RuleTag::Scope => "scope"@,
        RuleTag::Comment => "comment"@,
        RuleTag::Eoi => "EOI"@,
        RuleTag::Stmt => "stmt"@,
        RuleTag::TypeStmt => "typeStmt"@,
        RuleTag::LetStmt => "letStmt"@,
        RuleTag::CalcStmt => "calcStmt"@,
        RuleTag::ScopeStmt => "scopeStmt"@,
        RuleTag::BindExpr => "bindExpr"@,
        RuleTag::AssignExpr => "assignExpr"@,
        RuleTag::VarSymbol => "varSymbol"@,
        RuleTag::BindKeyword => "bindKeyword"@,
        RuleTag::TypeExpr => "typeExpr"@,
        RuleTag::BindTypeExpr => "bindTypeExpr"@,
        RuleTag::AssignTypeExpr => "assignTypeExpr"@,
        RuleTag::TypeLiteral => "typeLiteral"@,
        RuleTag::TypeSymbol => "typeSymbol"@,
        RuleTag::TypeKeyword => "typeKeyword"@,
        RuleTag::StateMachineKeyword => "stateMachineKeyword"@,
        RuleTag::SnapshotKeyword => "snapshotKeyword"@,
        RuleTag::ContextKeyword => "contextKeyword"@,
        RuleTag::StateMachineTypeExpr => "stateMachineTypeExpr"@,
        RuleTag::StateMachineTypeLiteral => "stateMachineTypeLiteral"@,
        RuleTag::SnapshotTypeExpr => "snapshotTypeExpr"@,
        RuleTag::SnapshotTypeLiteral => "snapshotTypeLiteral"@,
        RuleTag::SnapshotTypeItemLiteral => "snapshotTypeItemLiteral"@,
        RuleTag::ContextedTypeExpr => "contextedTypeExpr"@,
        RuleTag::EffectTypeExpr => "effectTypeExpr"@,
        RuleTag::EffectTypeLiteral => "effectTypeLiteral"@,
        RuleTag::IntContextTypeLiteral => "intContextTypeLiteral"@,
        RuleTag::StateExpr => "stateExpr"@,
        RuleTag::StateLiteral => "stateLiteral"@,
        RuleTag::LikeString => "likeString"@,
        RuleTag::IdLiteral => "idLiteral"@,
        RuleTag::EmptyLiteral => "emptyLiteral"@,
        RuleTag::Op => "op"@,
        RuleTag::ComposeOp => "composeOp"@,
        RuleTag::ApplyOp => "applyOp"@,
        RuleTag::ReduceOp => "reduceOp"@,
        RuleTag::PushOp => "pushOp"@,
        RuleTag::Expr => "expr"@,
        RuleTag::Term => "term"@,
        RuleTag::AddEffectExpr => "addEffectExpr"@,
        RuleTag::AddEffectLiteral => "addEffectLiteral"@,
        RuleTag::TransitionEffectExpr => "transitionEffectExpr"@,
        RuleTag::TransitionEffectLiteral => "transitionEffectLiteral"@,
        RuleTag::EffectExpr => "effectExpr"@,
        RuleTag::EffectLiteral => "effectLiteral"@,
        RuleTag::SliceLiteral => "sliceLiteral"@,
        RuleTag::SnapshotLiteral => "snapshotLiteral"@,
        RuleTag::SnapshotValueExpr => "snapshotValueExpr"@,
        RuleTag::SnapshotValueLiteral => "snapshotValueLiteral"@,
        RuleTag::SnapshotItemLiteral => "snapshotItemLiteral"@,
        RuleTag::ContextEffectLiteral => "contextEffectLiteral"@,
        RuleTag::ContextTypeLiteral => "contextTypeLiteral"@,
        RuleTag::ContextExpr => "contextExpr"@,
        RuleTag::ContextLiteral => "contextLiteral"@,
        RuleTag::ScopeExpr => "scopeExpr"@,
        RuleTag::ScopeLiteral => "scopeLiteral"@,
        RuleTag::IntLiteral => "intLiteral"@,
    }
}

impl RuleTag {
    /// The grammar's name for this rule.
    pub fn name(&self) -> (r: String)
        ensures
            r@ == spec_rule_name(*self),
    {
        match self {
            RuleTag::Document => String::from_str("document"),
            RuleTag::Scope => String::from_str("scope"),
            RuleTag::Comment => String::from_str("comment"),
            RuleTag::Eoi => String::from_str("EOI"),
            RuleTag::Stmt => String::from_str("stmt"),
            RuleTag::TypeStmt => String::from_str("typeStmt"),
            RuleTag::LetStmt => String::from_str("letStmt"),
            RuleTag::CalcStmt => String::from_str("calcStmt"),
            RuleTag::ScopeStmt => String::from_str("scopeStmt"),
            RuleTag::BindExpr => String::from_str("bindExpr"),
            RuleTag::AssignExpr => String::from_str("assignExpr"),
            RuleTag::VarSymbol => String::from_str("varSymbol"),
            RuleTag::BindKeyword => String::from_str("bindKeyword"),
            RuleTag::TypeExpr => String::from_str("typeExpr"),
            RuleTag::BindTypeExpr => String::from_str("bindTypeExpr"),
            RuleTag::AssignTypeExpr => String::from_str("assignTypeExpr"),
            RuleTag::TypeLiteral => String::from_str("typeLiteral"),
            RuleTag::TypeSymbol => String::from_str("typeSymbol"),
            RuleTag::TypeKeyword => String::from_str("typeKeyword"),
            RuleTag::StateMachineKeyword => String::from_str("stateMachineKeyword"),
            RuleTag::SnapshotKeyword => String::from_str("snapshotKeyword"),
            RuleTag::ContextKeyword => String::from_str("contextKeyword"),
            RuleTag::StateMachineTypeExpr => String::from_str("stateMachineTypeExpr"),
            RuleTag::StateMachineTypeLiteral => String::from_str("stateMachineTypeLiteral"),
            RuleTag::SnapshotTypeExpr => String::from_str("snapshotTypeExpr"),
            RuleTag::SnapshotTypeLiteral => String::from_str("snapshotTypeLiteral"),
            RuleTag::SnapshotTypeItemLiteral => String::from_str("snapshotTypeItemLiteral"),
            RuleTag::ContextedTypeExpr => String::from_str("contextedTypeExpr"),
            RuleTag::EffectTypeExpr => String::from_str("effectTypeExpr"),
            RuleTag::EffectTypeLiteral => String::from_str("effectTypeLiteral"),
            RuleTag::IntContextTypeLiteral => String::from_str("intContextTypeLiteral"),
            RuleTag::StateExpr => String::from_str("stateExpr"),
            RuleTag::StateLiteral => String::from_str("stateLiteral"),
            RuleTag::LikeString => String::from_str("likeString"),
            RuleTag::IdLiteral => String::from_str("idLiteral"),
            RuleTag::EmptyLiteral => String::from_str("emptyLiteral"),
            RuleTag::Op => String::from_str("op"),
            RuleTag::ComposeOp => String::from_str("composeOp"),
            RuleTag::ApplyOp => String::from_str("applyOp"),
            RuleTag::ReduceOp => String::from_str("reduceOp"),
            RuleTag::PushOp => String::from_str("pushOp"),
            RuleTag::Expr => String::from_str("expr"),
            RuleTag::Term => String::from_str("term"),
            RuleTag::AddEffectExpr => String::from_str("addEffectExpr"),
            RuleTag::AddEffectLiteral => String::from_str("addEffectLiteral"),
            RuleTag::TransitionEffectExpr => String::from_str("transitionEffectExpr"),
            RuleTag::TransitionEffectLiteral => String::from_str("transitionEffectLiteral"),
            RuleTag::EffectExpr => String::from_str("effectExpr"),
            RuleTag::EffectLiteral => String::from_str("effectLiteral"),
            RuleTag::SliceLiteral => String::from_str("sliceLiteral"),
            RuleTag::SnapshotLiteral => String::from_str("snapshotLiteral"),
            RuleTag::SnapshotValueExpr => String::from_str("snapshotValueExpr"),
            RuleTag::SnapshotValueLiteral => String::from_str("snapshotValueLiteral"),
            RuleTag::SnapshotItemLiteral => String::from_str("snapshotItemLiteral"),
            RuleTag::ContextEffectLiteral => String::from_str("contextEffectLiteral"),
            RuleTag::ContextTypeLiteral => String::from_str("contextTypeLiteral"),
            RuleTag::ContextExpr => String::from_str("contextExpr"),
            RuleTag::ContextLiteral => String::from_str("contextLiteral"),
            RuleTag::ScopeExpr => String::from_str("scopeExpr"),
            RuleTag::ScopeLiteral => String::from_str("scopeLiteral"),
            RuleTag::IntLiteral => String::from_str("intLiteral"),
        }
    }
}

// ---------------------------------------------------------------------------
// Reading an integer literal
// ---------------------------------------------------------------------------

/// Whether the character is a decimal digit.
pub open spec fn spec_is_digit(c: char) -> bool {
    '0' <= c && c <= '9'
}

/// The value of a sequence of decimal digits, most significant first.
pub open spec fn spec_digits_value(s: Seq<char>) -> int
    decreases s.len(),
{
    if s.len() == 0 {
        0
    } else {
        spec_digits_value(s.drop_last()) * 10 + (s.last() as int - '0' as int)
    }
}

/// The integer a literal's text denotes: an optional sign followed by at
/// least one decimal digit. Any other text denotes nothing.
pub open spec fn spec_parse_int(s: Seq<char>) -> Option<int> {
    if s.len() > 0 && (s[0] == '-' || s[0] == '+') {
        let digits = s.subrange(1, s.len() as int);
        if digits.len() > 0 && (forall|i: int| 0 <= i < digits.len() ==> spec_is_digit(
            #[trigger] digits[i],
        )) {
            if s[0] == '-' {
                Some(-spec_digits_value(digits))
            } else {
                Some(spec_digits_value(digits))
            }
        } else {
            None
        }
    } else if s.len() > 0 && (forall|i: int| 0 <= i < s.len() ==> spec_is_digit(
        #[trigger] s[i],
    )) {
        Some(spec_digits_value(s))
    } else {
        None
    }
}

/// The value of a digit sequence never shrinks as digits are appended, and
/// is never negative.
proof fn lemma_digits_value_monotone(s: Seq<char>, i: int)
    requires
        0 <= i <= s.len(),
        forall|j: int| 0 <= j < s.len() ==> spec_is_digit(#[trigger] s[j]),
    ensures
        0 <= spec_digits_value(s.subrange(0, i)) <= spec_digits_value(s),
    decreases s.len() - i,
{
    let pre = s.subrange(0, i);
    assert forall|j: int| 0 <= j < pre.len() implies spec_is_digit(#[trigger] pre[j]) by {
        assert(pre[j] == s[j]);
    }
    lemma_digits_value_nonneg(pre);
    if i == s.len() {
        assert(pre =~= s);
    } else {
        lemma_digits_value_monotone(s, i + 1);
        let longer = s.subrange(0, i + 1);
        assert(longer.drop_last() =~= pre);
        assert(longer.last() == s[i]);
        assert(spec_digits_value(longer) == spec_digits_value(pre) * 10 + (longer.last() as int
            - '0' as int));
        assert(spec_digits_value(pre) * 10 >= spec_digits_value(pre)) by (nonlinear_arith)
            requires
                spec_digits_value(pre) >= 0,
        ;
    }
}

/// The value of a digit sequence is never negative.
proof fn lemma_digits_value_nonneg(s: Seq<char>)
    requires
        forall|j: int| 0 <= j < s.len() ==> spec_is_digit(#[trigger] s[j]),
    ensures
        spec_digits_value(s) >= 0,
    decreases s.len(),
{
    if s.len() > 0 {
        lemma_digits_value_nonneg(s.drop_last());
    }
}

/// Whether every character of `s` from position `from` onwards is a
/// decimal digit, and there is at least one.
fn check_digits(s: &str, from: usize) -> (r: bool)
    requires
        from <= s@.len(),
    ensures
        r == (s@.len() - from > 0 && (forall|i: int|
            from <= i < s@.len() ==> spec_is_digit(#[trigger] s@[i]))),
{
    let len = s.unicode_len();
    if from >= len {
        return false;
    }
    let mut i: usize = from;
    while i < len
        invariant
            from <= i <= len,
            len == s@.len(),
            forall|j: int| from <= j < i ==> spec_is_digit(#[trigger] s@[j]),
        decreases len - i,
    {
        let c = s.get_char(i);
        if !(('0' <= c) && (c <= '9')) {
            return false;
        }
        i += 1;
    }
    true
}

/// Accumulates the digits of `s` from position `from` onwards as a
/// negative machine integer, so that even the most negative one can be
/// read; a magnitude beyond the machine range is an overflow.
fn read_digits(s: &str, from: usize) -> (r: Result<i64, CrgError>)
    requires
        from < s@.len(),
        forall|i: int| from <= i < s@.len() ==> spec_is_digit(#[trigger] s@[i]),
    ensures
        match r {
            Ok(n) => n == -spec_digits_value(s@.subrange(from as int, s@.len() as int)),
            Err(e) => e@ == SpecCrgError::IntegerOverflow && spec_digits_value(
                s@.subrange(from as int, s@.len() as int),
            ) > i64::MAX as int + 1,
        },
{
    let len = s.unicode_len();
    let ghost digits = s@.subrange(from as int, s@.len() as int);
    proof {
        assert forall|j: int| 0 <= j < digits.len() implies spec_is_digit(
            #[trigger] digits[j],
        ) by {
            assert(digits[j] == s@[from + j]);
        }
    }
    let mut acc: i64 = 0;
    let mut i: usize = from;
    while i < len
        invariant
            from <= i <= len,
            len == s@.len(),
            from < len,
            digits == s@.subrange(from as int, s@.len() as int),
            forall|j: int| 0 <= j < digits.len() ==> spec_is_digit(#[trigger] digits[j]),
            forall|j: int| from <= j < len ==> spec_is_digit(#[trigger] s@[j]),
            acc == -spec_digits_value(s@.subrange(from as int, i as int)),
            acc <= 0,
        decreases len - i,
    {
        let c = s.get_char(i);
        let d = (c as u32) - ('0' as u32);
        let ghost prefix_next = s@.subrange(from as int, i as int + 1);
        proof {
            assert(prefix_next.drop_last() =~= s@.subrange(from as int, i as int));
            assert(prefix_next.last() == s@[i as int]);
        }
        let next = match acc.checked_mul(10) {
            Some(m) => m.checked_sub(d as i64),
            None => None,
        };
        let next = match next {
            Some(n) => n,
            None => {
                proof {
                    assert(spec_digits_value(prefix_next) > i64::MAX as int + 1);
                    lemma_digits_value_monotone(digits, i as int + 1 - from);
                    assert(digits.subrange(0, i as int + 1 - from) =~= prefix_next);
                }
                return Err(CrgError::IntegerOverflow);
            },
        };
        acc = next;
        i += 1;
    }
    proof {
        assert(s@.subrange(from as int, i as int) =~= digits);
    }
    Ok(acc)
}

impl IntLiteral {
    /// Reads an integer literal from its span text: an optional sign
    /// followed by at least one decimal digit. Text of any other shape is
    /// a malformed node, and a value outside the machine range is an
    /// overflow.
    pub fn from_text(s: &str) -> (r: Result<IntLiteral, CrgError>)
        ensures
            match r {
                Ok(n) => spec_parse_int(s@) == Some(n@),
                Err(e) => match e@ {
                    SpecCrgError::MalformedNode(m) => spec_parse_int(s@) is None && m
                        == spec_rule_name(RuleTag::IntLiteral),
                    SpecCrgError::IntegerOverflow => (spec_parse_int(s@) matches Some(n) && (n
                        > i64::MAX as int || n < i64::MIN as int)),
                    _ => false,
                },
            },
    {
        let len = s.unicode_len();
        if len == 0 {
            return Err(CrgError::MalformedNode(RuleTag::IntLiteral.name()));
        }
        let first = s.get_char(0);
        let from: usize = if first == '-' || first == '+' {
            1
        } else {
            0
        };
        let ghost digits = s@.subrange(from as int, s@.len() as int);
        let shaped = check_digits(s, from);
        proof {
            if digits.len() > 0 && (forall|j: int|
                0 <= j < digits.len() ==> spec_is_digit(#[trigger] digits[j])) {
                assert forall|i: int| from <= i < s@.len() implies spec_is_digit(
                    #[trigger] s@[i],
                ) by {
                    assert(s@[i] == digits[i - from]);
                }
            }
            if s@.len() - from > 0 && (forall|i: int|
                from <= i < s@.len() ==> spec_is_digit(#[trigger] s@[i])) {
                assert forall|j: int| 0 <= j < digits.len() implies spec_is_digit(
                    #[trigger] digits[j],
                ) by {
                    assert(digits[j] == s@[from + j]);
                }
            }
            if from == 0 {
                assert(digits =~= s@);
            }
        }
        if !shaped {
            return Err(CrgError::MalformedNode(RuleTag::IntLiteral.name()));
        }
        let neg = match read_digits(s, from) {
            Ok(n) => n,
            Err(e) => {
                return Err(e);
            },
        };
        if first == '-' {
            Ok(IntLiteral(neg))
        } else if neg == i64::MIN {
            Err(CrgError::IntegerOverflow)
        } else {
            Ok(IntLiteral(-neg))
        }
    }
}


// ---------------------------------------------------------------------------
// The ghost translation
// ---------------------------------------------------------------------------

/// The error for a node whose child count its rule can never produce.
pub open spec fn malformed(tag: RuleTag) -> SpecCrgError {
    SpecCrgError::MalformedNode(spec_rule_name(tag))
}

/// The error for a rule the translator does not know at this position.
pub open spec fn unsupported(tag: RuleTag) -> SpecCrgError {
    SpecCrgError::UnsupportedConstruct(spec_rule_name(tag))
}

/// The integer an integer-literal node denotes, held to the machine range.
pub open spec fn spec_build_int(text: Seq<char>) -> Result<int, SpecCrgError> {
    match spec_parse_int(text) {
        Some(n) => if i64::MIN <= n <= i64::MAX {
            Ok(n)
        } else {
            Err(SpecCrgError::IntegerOverflow)
        },
        None => Err(malformed(RuleTag::IntLiteral)),
    }
}

/// The name a variable-symbol node denotes.
pub open spec fn spec_build_var_symbol(n: SpecParseNode) -> Result<Seq<char>, SpecCrgError> {
    if n.rule == RuleTag::VarSymbol {
        Ok(n.text)
    } else {
        Err(malformed(RuleTag::VarSymbol))
    }
}

/// The context label a node denotes: a variable symbol read as a label.
pub open spec fn spec_build_context_label(n: SpecParseNode) -> Result<Seq<char>, SpecCrgError> {
    spec_build_var_symbol(n)
}

/// The declared kind a bind-keyword node denotes, read from its span text.
pub open spec fn spec_build_bind_keywords(n: SpecParseNode) -> Result<
    BindKeywords,
    SpecCrgError,
> {
    if n.text == "Slice"@ {
        Ok(BindKeywords::Slice)
    } else if n.text == "Effect"@ {
        Ok(BindKeywords::Effect)
    } else if n.text == "ContextEffect"@ {
        Ok(BindKeywords::ContextEffect)
    } else if n.text == "Context"@ {
        Ok(BindKeywords::Context)
    } else if n.text == "Snapshot"@ {
        Ok(BindKeywords::Snapshot)
    } else {
        Err(SpecCrgError::UnsupportedConstruct(n.text))
    }
}

/// The value symbol a bind-expression node denotes: a name and a kind.
pub open spec fn spec_build_bind_expr(n: SpecParseNode) -> Result<SpecValueSymbol, SpecCrgError> {
    if n.children.len() == 2 {
        match spec_build_var_symbol(n.children[0]) {
            Ok(name) => match spec_build_bind_keywords(n.children[1]) {
                Ok(kind) => Ok(SpecValueSymbol { name, kind }),
                Err(e) => Err(e),
            },
            Err(e) => Err(e),
        }
    } else {
        Err(malformed(RuleTag::BindExpr))
    }
}

/// The type-symbol name a node denotes: its span text, unchecked.
pub open spec fn spec_build_type_symbol(n: SpecParseNode) -> Seq<char> {
    n.text
}

/// The type kind a keyword node denotes.
pub open spec fn spec_build_type_kind(n: SpecParseNode) -> Result<TypeKind, SpecCrgError> {
    match n.rule {
        RuleTag::StateMachineKeyword => Ok(TypeKind::StateMachine),
        RuleTag::SnapshotKeyword => Ok(TypeKind::Snapshot),
        RuleTag::ContextKeyword => Ok(TypeKind::Context),
        _ => Err(unsupported(n.rule)),
    }
}

/// The type kind a type-keyword node's sole child denotes.
pub open spec fn spec_build_type_keyword(n: SpecParseNode) -> Result<TypeKind, SpecCrgError> {
    if n.children.len() == 0 {
        Err(malformed(RuleTag::TypeKeyword))
    } else {
        spec_build_type_kind(n.children[0])
    }
}

/// The type symbol a bind-type-expression node denotes.
pub open spec fn spec_build_type_bind_expr(n: SpecParseNode) -> Result<
    SpecTypeSymbol,
    SpecCrgError,
> {
    if n.children.len() == 2 {
        match spec_build_type_keyword(n.children[1]) {
            Ok(kind) => Ok(SpecTypeSymbol { name: spec_build_type_symbol(n.children[0]), kind }),
            Err(e) => Err(e),
        }
    } else {
        Err(malformed(RuleTag::BindTypeExpr))
    }
}

/// The operator an operator node's sole child denotes.
pub open spec fn spec_build_op(n: SpecParseNode) -> Result<Op, SpecCrgError> {
    if n.children.len() == 0 {
        Err(malformed(RuleTag::Op))
    } else {
        match n.children[0].rule {
            RuleTag::ComposeOp => Ok(Op::Compose),
            RuleTag::ApplyOp => Ok(Op::Apply),
            RuleTag::ReduceOp => Ok(Op::Reduce),
            RuleTag::PushOp => Ok(Op::Push),
            _ => Err(unsupported(n.children[0].rule)),
        }
    }
}

/// The state label a state-expression node denotes.
pub open spec fn spec_build_state_expr(n: SpecParseNode) -> Result<SpecStateLabel, SpecCrgError>
    decreases n, 1int,
{
    if n.children.len() == 0 {
        Err(malformed(RuleTag::StateExpr))
    } else {
        match n.children[0].rule {
            RuleTag::StateLiteral => spec_build_state_literal(n.children[0]),
            RuleTag::IdLiteral => Ok(SpecStateLabel::Id),
            RuleTag::EmptyLiteral => Ok(SpecStateLabel::Empty),
            _ => Err(unsupported(n.children[0].rule)),
        }
    }
}

/// The state label a state-literal node denotes.
pub open spec fn spec_build_state_literal(n: SpecParseNode) -> Result<
    SpecStateLabel,
    SpecCrgError,
>
    decreases n, 0int,
{
    if n.children.len() == 0 {
        Err(malformed(RuleTag::StateLiteral))
    } else {
        match n.children[0].rule {
            RuleTag::LikeString => Ok(SpecStateLabel::Label(n.children[0].text)),
            _ => Err(unsupported(n.children[0].rule)),
        }
    }
}

/// The effect type an effect-type-literal node denotes.
pub open spec fn spec_build_effect_type_literal(n: SpecParseNode) -> Result<
    SpecEffectType,
    SpecCrgError,
> {
    if n.rule != RuleTag::EffectTypeLiteral {
        Err(malformed(RuleTag::EffectTypeLiteral))
    } else if n.children.len() == 0 {
        Err(malformed(RuleTag::EffectTypeLiteral))
    } else {
        match n.children[0].rule {
            RuleTag::IntContextTypeLiteral => Ok(SpecEffectType::Int),
            RuleTag::TypeSymbol => Ok(
                SpecEffectType::TypeSymbolReference(spec_build_type_symbol(n.children[0])),
            ),
            _ => Err(unsupported(n.children[0].rule)),
        }
    }
}

/// The effect type an effect-type-expression node denotes.
pub open spec fn spec_build_effect_type_expr(n: SpecParseNode) -> Result<
    SpecEffectType,
    SpecCrgError,
> {
    if n.rule != RuleTag::EffectTypeExpr {
        Err(unsupported(n.rule))
    } else if n.children.len() == 0 {
        Err(malformed(RuleTag::EffectTypeExpr))
    } else {
        spec_build_effect_type_literal(n.children[0])
    }
}

/// The labelled context type a snapshot-type item denotes.
pub open spec fn spec_build_snapshot_type_item(n: SpecParseNode) -> Result<
    SpecContextType,
    SpecCrgError,
> {
    if n.children.len() == 2 {
        match spec_build_context_label(n.children[0]) {
            Ok(label) => match spec_build_effect_type_expr(n.children[1]) {
                Ok(effect) => Ok(SpecContextType { label, effect }),
                Err(e) => Err(e),
            },
            Err(e) => Err(e),
        }
    } else if n.children.len() == 1 {
        Err(unsupported(n.rule))
    } else {
        Err(malformed(n.rule))
    }
}

/// The context types a snapshot-type literal's children denote, in order.
pub open spec fn spec_build_context_types(s: Seq<SpecParseNode>) -> Result<
    Seq<SpecContextType>,
    SpecCrgError,
>
    decreases s.len(),
{
    if s.len() == 0 {
        Ok(Seq::empty())
    } else {
        match spec_build_context_types(s.drop_last()) {
            Ok(pre) => match spec_build_snapshot_type_item(s.last()) {
                Ok(item) => Ok(pre.push(item)),
                Err(e) => Err(e),
            },
            Err(e) => Err(e),
        }
    }
}

/// The snapshot type a snapshot-type literal denotes.
pub open spec fn spec_build_snapshot_type_literal(n: SpecParseNode) -> Result<
    Seq<SpecContextType>,
    SpecCrgError,
> {
    if n.rule == RuleTag::SnapshotTypeLiteral {
        spec_build_context_types(n.children)
    } else {
        Err(unsupported(n.rule))
    }
}

/// The snapshot type a snapshot-type expression denotes.
pub open spec fn spec_build_snapshot_type_expr(n: SpecParseNode) -> Result<
    Seq<SpecContextType>,
    SpecCrgError,
> {
    if n.rule != RuleTag::SnapshotTypeExpr {
        Err(unsupported(n.rule))
    } else if n.children.len() == 0 {
        Err(malformed(RuleTag::SnapshotTypeExpr))
    } else {
        spec_build_snapshot_type_literal(n.children[0])
    }
}

/// The state labels a state-machine literal's children denote, in order.
pub open spec fn spec_build_state_labels(s: Seq<SpecParseNode>) -> Result<
    Seq<SpecStateLabel>,
    SpecCrgError,
>
    decreases s.len(),
{
    if s.len() == 0 {
        Ok(Seq::empty())
    } else {
        match spec_build_state_labels(s.drop_last()) {
            Ok(pre) => match spec_build_state_expr(s.last()) {
                Ok(label) => Ok(pre.push(label)),
                Err(e) => Err(e),
            },
            Err(e) => Err(e),
        }
    }
}

/// The state machine a state-machine literal denotes.
pub open spec fn spec_build_state_machine_type_literal(n: SpecParseNode) -> Result<
    Seq<SpecStateLabel>,
    SpecCrgError,
> {
    if n.rule == RuleTag::StateMachineTypeLiteral {
        spec_build_state_labels(n.children)
    } else {
        Err(unsupported(n.rule))
    }
}

/// The state machine a state-machine expression denotes.
pub open spec fn spec_build_state_machine_type_expr(n: SpecParseNode) -> Result<
    Seq<SpecStateLabel>,
    SpecCrgError,
> {
    if n.rule != RuleTag::StateMachineTypeExpr {
        Err(unsupported(n.rule))
    } else if n.children.len() == 0 {
        Err(malformed(RuleTag::StateMachineTypeExpr))
    } else {
        spec_build_state_machine_type_literal(n.children[0])
    }
}

/// The labelled context type a contexted-type expression denotes.
pub open spec fn spec_build_context_type_expr(n: SpecParseNode) -> Result<
    SpecContextType,
    SpecCrgError,
>
    decreases n,
{
    if n.children.len() == 1 {
        spec_build_context_type_expr(n.children[0])
    } else if n.children.len() == 2 {
        match spec_build_context_label(n.children[0]) {
            Ok(label) => match spec_build_effect_type_expr(n.children[1]) {
                Ok(effect) => Ok(SpecContextType { label, effect }),
                Err(e) => Err(e),
            },
            Err(e) => Err(e),
        }
    } else {
        Err(unsupported(n.rule))
    }
}

/// The type value a type-literal node denotes.
pub open spec fn spec_build_type_literal(n: SpecParseNode) -> Result<
    SpecTypeValue,
    SpecCrgError,
> {
    if n.rule != RuleTag::TypeLiteral {
        Err(unsupported(n.rule))
    } else if n.children.len() == 0 {
        Err(malformed(RuleTag::TypeLiteral))
    } else {
        match n.children[0].rule {
            RuleTag::StateMachineTypeExpr => match spec_build_state_machine_type_expr(
                n.children[0],
            ) {
                Ok(m) => Ok(SpecTypeValue::StateMachine(m)),
                Err(e) => Err(e),
            },
            RuleTag::SnapshotTypeExpr => match spec_build_snapshot_type_expr(n.children[0]) {
                Ok(t) => Ok(SpecTypeValue::Snapshot(t)),
                Err(e) => Err(e),
            },
            RuleTag::ContextedTypeExpr => match spec_build_context_type_expr(n.children[0]) {
                Ok(c) => Ok(SpecTypeValue::Context(c)),
                Err(e) => Err(e),
            },
            RuleTag::TypeLiteral => match spec_build_context_type_expr(n.children[0]) {
                Ok(c) => Ok(SpecTypeValue::Context(c)),
                Err(e) => Err(e),
            },
            _ => Err(unsupported(n.children[0].rule)),
        }
    }
}

/// The type value a node in value position of a type assignment denotes.
pub open spec fn spec_build_type_value(n: SpecParseNode) -> Result<SpecTypeValue, SpecCrgError> {
    if n.rule != RuleTag::TypeExpr {
        Err(unsupported(n.rule))
    } else if n.children.len() == 0 {
        Err(malformed(RuleTag::TypeExpr))
    } else {
        spec_build_type_literal(n.children[0])
    }
}

/// The type assignment an assign-type-expression node denotes.
pub open spec fn spec_build_type_assign_expr(n: SpecParseNode) -> Result<
    SpecTypeExpr,
    SpecCrgError,
> {
    if n.children.len() == 2 {
        match spec_build_type_bind_expr(n.children[0]) {
            Ok(sym) => match spec_build_type_value(n.children[1]) {
                Ok(value) => Ok(SpecTypeExpr::Assign(sym, value)),
                Err(e) => Err(e),
            },
            Err(e) => Err(e),
        }
    } else {
        Err(malformed(RuleTag::AssignTypeExpr))
    }
}

/// The type-level statement a type-statement node denotes.
pub open spec fn spec_build_type_expr(n: SpecParseNode) -> Result<SpecTypeExpr, SpecCrgError> {
    if n.children.len() == 0 {
        Err(malformed(RuleTag::TypeStmt))
    } else {
        match n.children[0].rule {
            RuleTag::BindTypeExpr => match spec_build_type_bind_expr(n.children[0]) {
                Ok(sym) => Ok(SpecTypeExpr::Bind(sym)),
                Err(e) => Err(e),
            },
            RuleTag::AssignTypeExpr => spec_build_type_assign_expr(n.children[0]),
            RuleTag::TypeExpr => Err(unsupported(RuleTag::TypeExpr)),
            _ => Err(unsupported(n.children[0].rule)),
        }
    }
}

/// The label a context-type literal position denotes.
pub open spec fn spec_build_context_type_literal(n: SpecParseNode) -> Result<
    Seq<char>,
    SpecCrgError,
>
    decreases n,
{
    match n.rule {
        RuleTag::VarSymbol => Ok(n.text),
        RuleTag::ContextLiteral => if n.children.len() == 0 {
            Err(malformed(RuleTag::ContextLiteral))
        } else {
            spec_build_context_type_literal(n.children[0])
        },
        RuleTag::ContextTypeLiteral => if n.children.len() == 0 {
            Err(malformed(RuleTag::ContextTypeLiteral))
        } else {
            spec_build_context_label(n.children[0])
        },
        _ => Err(unsupported(n.rule)),
    }
}

/// The label a context-expression node denotes.
pub open spec fn spec_build_context_expr(n: SpecParseNode) -> Result<Seq<char>, SpecCrgError> {
    if n.rule != RuleTag::ContextExpr {
        Err(unsupported(n.rule))
    } else if n.children.len() == 0 {
        Err(malformed(RuleTag::ContextExpr))
    } else {
        spec_build_context_type_literal(n.children[0])
    }
}

/// The integer payload an add-effect literal denotes.
pub open spec fn spec_build_add_effect_literal(n: SpecParseNode) -> Result<int, SpecCrgError>
    decreases n,
{
    match n.rule {
        RuleTag::AddEffectLiteral => if n.children.len() == 0 {
            Err(malformed(RuleTag::AddEffectLiteral))
        } else {
            spec_build_add_effect_literal(n.children[0])
        },
        RuleTag::IntLiteral => spec_build_int(n.text),
        _ => Err(unsupported(n.rule)),
    }
}

/// The integer payload an add-effect expression denotes.
pub open spec fn spec_build_add_effect_expr(n: SpecParseNode) -> Result<int, SpecCrgError> {
    if n.children.len() == 0 {
        Err(malformed(RuleTag::AddEffectExpr))
    } else {
        match n.children[0].rule {
            RuleTag::AddEffectLiteral => if n.children[0].children.len() == 0 {
                Err(malformed(RuleTag::AddEffectLiteral))
            } else {
                spec_build_add_effect_literal(n.children[0].children[0])
            },
            _ => Err(unsupported(n.children[0].rule)),
        }
    }
}

/// The transition a transition-effect literal denotes.
pub open spec fn spec_build_transition_effect_literal(n: SpecParseNode) -> Result<
    SpecTransitionEffect,
    SpecCrgError,
> {
    if n.children.len() == 0 {
        Err(malformed(RuleTag::TransitionEffectLiteral))
    } else {
        match n.children[0].rule {
            RuleTag::StateExpr => match spec_build_state_expr(n.children[0]) {
                Ok(label) => Ok(SpecTransitionEffect::StateLabel(label)),
                Err(e) => Err(e),
            },
            _ => Err(unsupported(n.children[0].rule)),
        }
    }
}

/// The transition a transition-effect expression denotes.
pub open spec fn spec_build_transition_effect_expr(n: SpecParseNode) -> Result<
    SpecTransitionEffect,
    SpecCrgError,
> {
    if n.children.len() == 0 {
        Err(malformed(RuleTag::TransitionEffectExpr))
    } else {
        match n.children[0].rule {
            RuleTag::IdLiteral => Ok(SpecTransitionEffect::Id),
            RuleTag::EmptyLiteral => Ok(SpecTransitionEffect::Empty),
            RuleTag::TransitionEffectLiteral => spec_build_transition_effect_literal(
                n.children[0],
            ),
            _ => Err(unsupported(n.children[0].rule)),
        }
    }
}

/// The effect an effect-literal node denotes.
pub open spec fn spec_build_effect_literal(n: SpecParseNode) -> Result<SpecEffect, SpecCrgError> {
    if n.children.len() == 0 {
        Err(malformed(RuleTag::EffectLiteral))
    } else {
        match n.children[0].rule {
            RuleTag::IdLiteral => Ok(SpecEffect::Id),
            RuleTag::EmptyLiteral => Ok(SpecEffect::Empty),
            RuleTag::AddEffectExpr => match spec_build_add_effect_expr(n.children[0]) {
                Ok(v) => Ok(SpecEffect::Add(v)),
                Err(e) => Err(e),
            },
            RuleTag::TransitionEffectExpr => match spec_build_transition_effect_expr(
                n.children[0],
            ) {
                Ok(t) => Ok(SpecEffect::Transition(t)),
                Err(e) => Err(e),
            },
            _ => Err(unsupported(n.children[0].rule)),
        }
    }
}

/// The effect a node in effect position of a context effect denotes.
pub open spec fn spec_build_effect_expr(n: SpecParseNode) -> Result<SpecEffect, SpecCrgError> {
    match n.rule {
        RuleTag::AddEffectLiteral => if n.children.len() == 0 {
            Err(malformed(RuleTag::AddEffectLiteral))
        } else {
            match spec_build_add_effect_literal(n.children[0]) {
                Ok(v) => Ok(SpecEffect::Add(v)),
                Err(e) => Err(e),
            }
        },
        RuleTag::TransitionEffectLiteral => if n.children.len() == 0 {
            Err(malformed(RuleTag::TransitionEffectLiteral))
        } else {
            match spec_build_transition_effect_literal(n.children[0]) {
                Ok(t) => Ok(SpecEffect::Transition(t)),
                Err(e) => Err(e),
            }
        },
        RuleTag::IdLiteral => Ok(SpecEffect::Id),
        RuleTag::EmptyLiteral => Ok(SpecEffect::Empty),
        RuleTag::EffectExpr => if n.children.len() == 0 {
            Err(malformed(RuleTag::EffectExpr))
        } else {
            spec_build_effect_literal(n.children[0])
        },
        _ => Err(unsupported(n.rule)),
    }
}

/// The labelled effect a context-effect literal denotes.
pub open spec fn spec_build_context_effect_literal(n: SpecParseNode) -> Result<
    SpecContextEffect,
    SpecCrgError,
>
    decreases n, 0int,
{
    if n.children.len() == 2 {
        match spec_build_context_expr(n.children[0]) {
            Ok(label) => match spec_build_effect_expr(n.children[1]) {
                Ok(effect) => Ok(SpecContextEffect { label, effect }),
                Err(e) => Err(e),
            },
            Err(e) => Err(e),
        }
    } else {
        Err(malformed(n.rule))
    }
}

/// The labelled effect a context-effect position denotes.
pub open spec fn spec_build_context_effect_expr(n: SpecParseNode) -> Result<
    SpecContextEffect,
    SpecCrgError,
>
    decreases n, 1int,
{
    if n.children.len() == 1 {
        spec_build_context_effect_literal(n.children[0])
    } else if n.children.len() == 2 {
        spec_build_context_effect_literal(n)
    } else {
        Err(malformed(n.rule))
    }
}

/// The labelled effects a slice literal's children denote, in order.
pub open spec fn spec_build_context_effects(s: Seq<SpecParseNode>) -> Result<
    Seq<SpecContextEffect>,
    SpecCrgError,
>
    decreases s.len(),
{
    if s.len() == 0 {
        Ok(Seq::empty())
    } else {
        match spec_build_context_effects(s.drop_last()) {
            Ok(pre) => match spec_build_context_effect_expr(s.last()) {
                Ok(ce) => Ok(pre.push(ce)),
                Err(e) => Err(e),
            },
            Err(e) => Err(e),
        }
    }
}

/// The slice a slice literal denotes.
pub open spec fn spec_build_slice(n: SpecParseNode) -> Result<
    Seq<SpecContextEffect>,
    SpecCrgError,
> {
    spec_build_context_effects(n.children)
}

/// The snapshot entry value a literal denotes.
pub open spec fn spec_build_snapshot_value_item_value_literal(n: SpecParseNode) -> Result<
    SpecEntry,
    SpecCrgError,
>
    decreases n, 0int,
{
    if n.children.len() == 0 {
        Err(malformed(n.rule))
    } else {
        match n.children[0].rule {
            RuleTag::IntLiteral => match spec_build_int(n.children[0].text) {
                Ok(v) => Ok(SpecEntry::Int(v)),
                Err(e) => Err(e),
            },
            RuleTag::StateExpr => match spec_build_state_expr(n.children[0]) {
                Ok(l) => Ok(SpecEntry::State(l)),
                Err(e) => Err(e),
            },
            RuleTag::IdLiteral => Ok(SpecEntry::Id),
            RuleTag::EmptyLiteral => Ok(SpecEntry::Empty),
            _ => Err(unsupported(n.children[0].rule)),
        }
    }
}

/// The snapshot entry value a node in value position denotes.
pub open spec fn spec_build_snapshot_value_item_value_expr(n: SpecParseNode) -> Result<
    SpecEntry,
    SpecCrgError,
>
    decreases n, 1int,
{
    match n.rule {
        RuleTag::SnapshotValueExpr => if n.children.len() == 0 {
            Err(malformed(RuleTag::SnapshotValueExpr))
        } else {
            spec_build_snapshot_value_item_value_expr(n.children[0])
        },
        RuleTag::SnapshotValueLiteral => spec_build_snapshot_value_item_value_literal(n),
        _ => Err(unsupported(n.rule)),
    }
}

/// The labelled entry a snapshot-item literal denotes.
pub open spec fn spec_build_snapshot_value_item_literal(n: SpecParseNode) -> Result<
    SpecSnapshotItem,
    SpecCrgError,
>
    decreases n, 0int,
{
    if n.children.len() == 2 {
        match spec_build_context_expr(n.children[0]) {
            Ok(label) => match spec_build_snapshot_value_item_value_expr(n.children[1]) {
                Ok(value) => Ok(SpecSnapshotItem { label, value }),
                Err(e) => Err(e),
            },
            Err(e) => Err(e),
        }
    } else {
        Err(malformed(n.rule))
    }
}

/// The labelled entry a snapshot-item position denotes.
pub open spec fn spec_build_snapshot_value_item_expr(n: SpecParseNode) -> Result<
    SpecSnapshotItem,
    SpecCrgError,
>
    decreases n, 1int,
{
    if n.rule == RuleTag::SnapshotItemLiteral {
        spec_build_snapshot_value_item_literal(n)
    } else {
        Err(unsupported(n.rule))
    }
}

/// The entries a snapshot literal's children denote, in order.
pub open spec fn spec_build_snapshot_items(s: Seq<SpecParseNode>) -> Result<
    Seq<SpecSnapshotItem>,
    SpecCrgError,
>
    decreases s.len(),
{
    if s.len() == 0 {
        Ok(Seq::empty())
    } else {
        match spec_build_snapshot_items(s.drop_last()) {
            Ok(pre) => match spec_build_snapshot_value_item_expr(s.last()) {
                Ok(item) => Ok(pre.push(item)),
                Err(e) => Err(e),
            },
            Err(e) => Err(e),
        }
    }
}

/// The snapshot a snapshot literal denotes.
pub open spec fn spec_build_snapshot_value_literal(n: SpecParseNode) -> Result<
    Seq<SpecSnapshotItem>,
    SpecCrgError,
> {
    spec_build_snapshot_items(n.children)
}

/// The snapshot a node in snapshot position denotes.
pub open spec fn spec_build_snapshot_value_expr(n: SpecParseNode) -> Result<
    Seq<SpecSnapshotItem>,
    SpecCrgError,
> {
    if n.rule == RuleTag::SnapshotLiteral {
        spec_build_snapshot_value_literal(n)
    } else {
        Err(unsupported(n.rule))
    }
}

/// The expression a term node denotes.
pub open spec fn spec_build_term(n: SpecParseNode) -> Result<SpecExpr, SpecCrgError>
    decreases n, 0int,
{
    if n.children.len() == 0 {
        Err(malformed(RuleTag::Term))
    } else {
        let c = n.children[0];
        match c.rule {
            RuleTag::Expr => spec_build_expr(c),
            RuleTag::VarSymbol => Ok(SpecExpr::Reference(c.text)),
            RuleTag::AddEffectLiteral => match spec_build_add_effect_literal(c) {
                Ok(v) => Ok(SpecExpr::Id(SpecValue::Effect(SpecEffect::Add(v)))),
                Err(e) => Err(e),
            },
            RuleTag::TransitionEffectLiteral => match spec_build_transition_effect_literal(c) {
                Ok(t) => Ok(SpecExpr::Id(SpecValue::Effect(SpecEffect::Transition(t)))),
                Err(e) => Err(e),
            },
            RuleTag::IdLiteral => Ok(SpecExpr::Id(SpecValue::Id)),
            RuleTag::EmptyLiteral => Ok(SpecExpr::Id(SpecValue::Empty)),
            RuleTag::SliceLiteral => match spec_build_slice(c) {
                Ok(items) => Ok(SpecExpr::Id(SpecValue::Slice(items))),
                Err(e) => Err(e),
            },
            RuleTag::SnapshotLiteral => match spec_build_snapshot_value_expr(c) {
                Ok(items) => Ok(SpecExpr::Id(SpecValue::Snapshot(items))),
                Err(e) => Err(e),
            },
            RuleTag::ContextEffectLiteral => match spec_build_context_effect_expr(c) {
                Ok(ce) => Ok(SpecExpr::Id(SpecValue::ContextEffect(ce))),
                Err(e) => Err(e),
            },
            RuleTag::ContextTypeLiteral => match spec_build_context_type_expr(c) {
                Ok(ct) => Ok(SpecExpr::Id(SpecValue::Context(ct.label))),
                Err(e) => Err(e),
            },
            RuleTag::EffectLiteral => match spec_build_effect_literal(c) {
                Ok(eff) => Ok(SpecExpr::Id(SpecValue::Effect(eff))),
                Err(e) => Err(e),
            },
            RuleTag::TransitionEffectExpr => match spec_build_transition_effect_expr(c) {
                Ok(t) => Ok(SpecExpr::Id(SpecValue::Effect(SpecEffect::Transition(t)))),
                Err(e) => Err(e),
            },
            RuleTag::ScopeExpr => match spec_build_scope_expr(c) {
                Ok(items) => Ok(SpecExpr::Id(SpecValue::Scope(items))),
                Err(e) => Err(e),
            },
            _ => Err(unsupported(c.rule)),
        }
    }
}

/// The expression an expression node denotes: a sole child passes through,
/// three children form a binary operation.
pub open spec fn spec_build_expr(n: SpecParseNode) -> Result<SpecExpr, SpecCrgError>
    decreases n, 1int,
{
    if n.children.len() == 1 {
        match n.children[0].rule {
            RuleTag::Term => spec_build_term(n.children[0]),
            RuleTag::Expr => spec_build_expr(n.children[0]),
            _ => Err(unsupported(n.children[0].rule)),
        }
    } else if n.children.len() == 3 {
        let lhs = match n.children[0].rule {
            RuleTag::Term => spec_build_term(n.children[0]),
            RuleTag::Expr => spec_build_expr(n.children[0]),
            _ => Err(unsupported(n.children[0].rule)),
        };
        match lhs {
            Ok(l) => match spec_build_op(n.children[1]) {
                Ok(op) => {
                    let rhs = match n.children[2].rule {
                        RuleTag::Term => spec_build_term(n.children[2]),
                        RuleTag::Expr => spec_build_expr(n.children[2]),
                        _ => Err(unsupported(n.children[2].rule)),
                    };
                    match rhs {
                        Ok(r) => Ok(SpecExpr::Op(op, Box::new(l), Box::new(r))),
                        Err(e) => Err(e),
                    }
                },
                Err(e) => Err(e),
            },
            Err(e) => Err(e),
        }
    } else {
        Err(malformed(n.rule))
    }
}

/// The value-level binding an assign-expression node denotes.
pub open spec fn spec_build_assign_expr(n: SpecParseNode) -> Result<SpecLetExpr, SpecCrgError>
    decreases n, 0int,
{
    if n.children.len() == 2 {
        match spec_build_bind_expr(n.children[0]) {
            Ok(sym) => match spec_build_expr(n.children[1]) {
                Ok(e) => Ok(SpecLetExpr::Assign(sym, e)),
                Err(err) => Err(err),
            },
            Err(e) => Err(e),
        }
    } else {
        Err(malformed(RuleTag::AssignExpr))
    }
}

/// The value-level binding a let-statement node denotes.
pub open spec fn spec_build_let_expr(n: SpecParseNode) -> Result<SpecLetExpr, SpecCrgError>
    decreases n, 1int,
{
    if n.children.len() == 0 {
        Err(malformed(RuleTag::LetStmt))
    } else {
        match n.children[0].rule {
            RuleTag::BindExpr => match spec_build_bind_expr(n.children[0]) {
                Ok(sym) => Ok(SpecLetExpr::Bind(sym)),
                Err(e) => Err(e),
            },
            RuleTag::AssignExpr => spec_build_assign_expr(n.children[0]),
            _ => Err(unsupported(n.children[0].rule)),
        }
    }
}

/// The statement a statement node denotes.
pub open spec fn spec_build_stmt(n: SpecParseNode) -> Result<SpecStmt, SpecCrgError>
    decreases n, 2int,
{
    if n.children.len() == 0 {
        Err(malformed(RuleTag::Stmt))
    } else {
        match n.children[0].rule {
            RuleTag::TypeStmt => match spec_build_type_expr(n.children[0]) {
                Ok(t) => Ok(SpecStmt::TypeStmt(t)),
                Err(e) => Err(e),
            },
            RuleTag::LetStmt => match spec_build_let_expr(n.children[0]) {
                Ok(l) => Ok(SpecStmt::LetStmt(l)),
                Err(e) => Err(e),
            },
            RuleTag::CalcStmt => match spec_build_expr(n.children[0]) {
                Ok(e) => Ok(SpecStmt::Expr(e)),
                Err(err) => Err(err),
            },
            RuleTag::ScopeStmt => match spec_build_scope_stmt(n.children[0]) {
                Ok(items) => Ok(SpecStmt::ScopeStmt(items)),
                Err(e) => Err(e),
            },
            _ => Err(unsupported(n.children[0].rule)),
        }
    }
}

/// The scope item a child of a scope denotes; the end-of-input marker
/// denotes nothing and is skipped.
pub open spec fn spec_build_scope_item(n: SpecParseNode) -> Result<
    Option<SpecScopeItem>,
    SpecCrgError,
>
    decreases n, 3int,
{
    match n.rule {
        RuleTag::Comment => Ok(Some(SpecScopeItem::Comment(n.text))),
        RuleTag::Stmt => match spec_build_stmt(n) {
            Ok(s) => Ok(Some(SpecScopeItem::Stmt(s))),
            Err(e) => Err(e),
        },
        RuleTag::Expr => match spec_build_expr(n) {
            Ok(e) => Ok(Some(SpecScopeItem::Expr(e))),
            Err(err) => Err(err),
        },
        RuleTag::Eoi => Ok(None),
        _ => Err(unsupported(n.rule)),
    }
}

/// The scope items a scope's children denote, in order.
pub open spec fn spec_build_scope_items(s: Seq<SpecParseNode>) -> Result<
    Seq<SpecScopeItem>,
    SpecCrgError,
>
    decreases s, 4int,
{
    if s.len() == 0 {
        Ok(Seq::empty())
    } else {
        match spec_build_scope_items(s.drop_last()) {
            Ok(pre) => match spec_build_scope_item(s.last()) {
                Ok(Some(item)) => Ok(pre.push(item)),
                Ok(None) => Ok(pre),
                Err(e) => Err(e),
            },
            Err(e) => Err(e),
        }
    }
}

/// The scope a scope node's children denote.
pub open spec fn spec_build_scope_inner(n: SpecParseNode) -> Result<
    Seq<SpecScopeItem>,
    SpecCrgError,
>
    decreases n, 5int,
{
    spec_build_scope_items(n.children)
}

/// The scope a scope-literal node denotes.
pub open spec fn spec_build_scope_literal(n: SpecParseNode) -> Result<
    Seq<SpecScopeItem>,
    SpecCrgError,
>
    decreases n, 6int,
{
    if n.children.len() == 0 {
        Err(malformed(RuleTag::ScopeLiteral))
    } else {
        spec_build_scope_inner(n.children[0])
    }
}

/// The scope a scope-expression node denotes.
pub open spec fn spec_build_scope_expr(n: SpecParseNode) -> Result<
    Seq<SpecScopeItem>,
    SpecCrgError,
>
    decreases n, 7int,
{
    if n.children.len() == 0 {
        Err(malformed(RuleTag::ScopeExpr))
    } else {
        spec_build_scope_literal(n.children[0])
    }
}

/// The scope a scope-statement node denotes.
pub open spec fn spec_build_scope_stmt(n: SpecParseNode) -> Result<
    Seq<SpecScopeItem>,
    SpecCrgError,
>
    decreases n, 8int,
{
    if n.children.len() == 0 {
        Err(malformed(RuleTag::ScopeStmt))
    } else {
        spec_build_scope_expr(n.children[0])
    }
}

/// The scope a document's root denotes.
pub open spec fn spec_build_root_scope(n: SpecParseNode) -> Result<
    Seq<SpecScopeItem>,
    SpecCrgError,
>
    decreases n, 6int,
{
    if n.children.len() == 0 {
        Err(malformed(RuleTag::Scope))
    } else {
        spec_build_scope_inner(n.children[0])
    }
}

/// The document a parse tree denotes: a document node whose child holds the
/// root scope.
pub open spec fn spec_build_node(n: SpecParseNode) -> Result<Seq<SpecScopeItem>, SpecCrgError>
    decreases n, 7int,
{
    if n.rule != RuleTag::Document {
        Err(unsupported(n.rule))
    } else if n.children.len() == 0 {
        Err(malformed(RuleTag::Document))
    } else {
        spec_build_root_scope(n.children[0])
    }
}

} // verus!


verus! {

// ---------------------------------------------------------------------------
// The executable translation: leaves and type-level nodes
// ---------------------------------------------------------------------------

/// Whether a string equals the given literal, character for character.
fn text_is(a: &String, b: &str) -> (r: bool)
    ensures
        r == (a@ == b@),
{
    *a == String::from_str(b)
}

/// Translates a variable-symbol leaf into a value-symbol name.
fn parse_var_symbol(node: &ParseNode) -> (r: Result<ValueSymbolName, CrgError>)
    ensures
        match r {
            Ok(x) => spec_build_var_symbol(node@) == Ok::<Seq<char>, SpecCrgError>(x@),
            Err(e) => spec_build_var_symbol(node@) == Err::<Seq<char>, SpecCrgError>(e@),
        },
{
    if matches!(node.rule, RuleTag::VarSymbol) {
        Ok(ValueSymbolName(node.text.clone()))
    } else {
        Err(CrgError::MalformedNode(RuleTag::VarSymbol.name()))
    }
}

/// Translates a variable-symbol leaf into a context label.
fn parse_context_label(node: &ParseNode) -> (r: Result<ContextLabel, CrgError>)
    ensures
        match r {
            Ok(x) => spec_build_context_label(node@) == Ok::<Seq<char>, SpecCrgError>(x@),
            Err(e) => spec_build_context_label(node@) == Err::<Seq<char>, SpecCrgError>(e@),
        },
{
    match parse_var_symbol(node) {
        Ok(name) => Ok(ContextLabel(name.0)),
        Err(e) => Err(e),
    }
}

/// Reads the declared kind of a value symbol from the keyword's span text.
fn parse_bind_keywords(node: &ParseNode) -> (r: Result<BindKeywords, CrgError>)
    ensures
        match r {
            Ok(x) => spec_build_bind_keywords(node@) == Ok::<BindKeywords, SpecCrgError>(x),
            Err(e) => spec_build_bind_keywords(node@) == Err::<BindKeywords, SpecCrgError>(e@),
        },
{
    if text_is(&node.text, "Slice") {
        Ok(BindKeywords::Slice)
    } else if text_is(&node.text, "Effect") {
        Ok(BindKeywords::Effect)
    } else if text_is(&node.text, "ContextEffect") {
        Ok(BindKeywords::ContextEffect)
    } else if text_is(&node.text, "Context") {
        Ok(BindKeywords::Context)
    } else if text_is(&node.text, "Snapshot") {
        Ok(BindKeywords::Snapshot)
    } else {
        Err(CrgError::UnsupportedConstruct(node.text.clone()))
    }
}

/// Translates a bind expression: a name and its declared kind.
fn parse_bind_expr(node: &ParseNode) -> (r: Result<ValueSymbol, CrgError>)
    ensures
        match r {
            Ok(x) => spec_build_bind_expr(node@) == Ok::<SpecValueSymbol, SpecCrgError>(x@),
            Err(e) => spec_build_bind_expr(node@) == Err::<SpecValueSymbol, SpecCrgError>(e@),
        },
{
    proof {
        lemma_view_parse_nodes(node.children@);
    }
    if node.children.len() == 2 {
        let name = match parse_var_symbol(&node.children[0]) {
            Ok(n) => n,
            Err(e) => {
                return Err(e);
            },
        };
        let kind = match parse_bind_keywords(&node.children[1]) {
            Ok(k) => k,
            Err(e) => {
                return Err(e);
            },
        };
        Ok(ValueSymbol { name, kind })
    } else {
        Err(CrgError::MalformedNode(RuleTag::BindExpr.name()))
    }
}

/// Reads a type-symbol name from its span text.
fn parse_type_symbol(node: &ParseNode) -> (r: TypeSymbolName)
    ensures
        r@ == spec_build_type_symbol(node@),
{
    TypeSymbolName(node.text.clone())
}

/// Translates a kind keyword into a type kind.
fn parse_type_kind(node: &ParseNode) -> (r: Result<TypeKind, CrgError>)
    ensures
        match r {
            Ok(x) => spec_build_type_kind(node@) == Ok::<TypeKind, SpecCrgError>(x),
            Err(e) => spec_build_type_kind(node@) == Err::<TypeKind, SpecCrgError>(e@),
        },
{
    match node.rule {
        RuleTag::StateMachineKeyword => Ok(TypeKind::StateMachine),
        RuleTag::SnapshotKeyword => Ok(TypeKind::Snapshot),
        RuleTag::ContextKeyword => Ok(TypeKind::Context),
        _ => Err(CrgError::UnsupportedConstruct(node.rule.name())),
    }
}

/// Translates a type-keyword node through its sole child.
fn parse_type_keyword(node: &ParseNode) -> (r: Result<TypeKind, CrgError>)
    ensures
        match r {
            Ok(x) => spec_build_type_keyword(node@) == Ok::<TypeKind, SpecCrgError>(x),
            Err(e) => spec_build_type_keyword(node@) == Err::<TypeKind, SpecCrgError>(e@),
        },
{
    proof {
        lemma_view_parse_nodes(node.children@);
    }
    if node.children.len() == 0 {
        Err(CrgError::MalformedNode(RuleTag::TypeKeyword.name()))
    } else {
        parse_type_kind(&node.children[0])
    }
}

/// Translates a bind-type expression: a type name and its declared kind.
fn parse_type_bind_expr(node: &ParseNode) -> (r: Result<TypeSymbol, CrgError>)
    ensures
        match r {
            Ok(x) => spec_build_type_bind_expr(node@) == Ok::<SpecTypeSymbol, SpecCrgError>(x@),
            Err(e) => spec_build_type_bind_expr(node@) == Err::<SpecTypeSymbol, SpecCrgError>(e@),
        },
{
    proof {
        lemma_view_parse_nodes(node.children@);
    }
    if node.children.len() == 2 {
        let name = parse_type_symbol(&node.children[0]);
        let kind = match parse_type_keyword(&node.children[1]) {
            Ok(k) => k,
            Err(e) => {
                return Err(e);
            },
        };
        Ok(TypeSymbol { name, kind })
    } else {
        Err(CrgError::MalformedNode(RuleTag::BindTypeExpr.name()))
    }
}

/// Translates an operator node through its sole child.
fn parse_op(node: &ParseNode) -> (r: Result<Op, CrgError>)
    ensures
        match r {
            Ok(x) => spec_build_op(node@) == Ok::<Op, SpecCrgError>(x),
            Err(e) => spec_build_op(node@) == Err::<Op, SpecCrgError>(e@),
        },
{
    proof {
        lemma_view_parse_nodes(node.children@);
    }
    if node.children.len() == 0 {
        return Err(CrgError::MalformedNode(RuleTag::Op.name()));
    }
    match node.children[0].rule {
        RuleTag::ComposeOp => Ok(Op::Compose),
        RuleTag::ApplyOp => Ok(Op::Apply),
        RuleTag::ReduceOp => Ok(Op::Reduce),
        RuleTag::PushOp => Ok(Op::Push),
        _ => Err(CrgError::UnsupportedConstruct(node.children[0].rule.name())),
    }
}

/// Translates a state literal into a named state label.
fn parse_state_literal(node: &ParseNode) -> (r: Result<StateLabel, CrgError>)
    ensures
        match r {
            Ok(x) => spec_build_state_literal(node@) == Ok::<SpecStateLabel, SpecCrgError>(x@),
            Err(e) => spec_build_state_literal(node@) == Err::<SpecStateLabel, SpecCrgError>(e@),
        },
{
    proof {
        lemma_view_parse_nodes(node.children@);
    }
    if node.children.len() == 0 {
        return Err(CrgError::MalformedNode(RuleTag::StateLiteral.name()));
    }
    match node.children[0].rule {
        RuleTag::LikeString => Ok(StateLabel::Label(node.children[0].text.clone())),
        _ => Err(CrgError::UnsupportedConstruct(node.children[0].rule.name())),
    }
}

/// Translates a state expression: a named state, or one of the markers.
fn parse_state_expr(node: &ParseNode) -> (r: Result<StateLabel, CrgError>)
    ensures
        match r {
            Ok(x) => spec_build_state_expr(node@) == Ok::<SpecStateLabel, SpecCrgError>(x@),
            Err(e) => spec_build_state_expr(node@) == Err::<SpecStateLabel, SpecCrgError>(e@),
        },
{
    proof {
        lemma_view_parse_nodes(node.children@);
    }
    if node.children.len() == 0 {
        return Err(CrgError::MalformedNode(RuleTag::StateExpr.name()));
    }
    match node.children[0].rule {
        RuleTag::StateLiteral => parse_state_literal(&node.children[0]),
        RuleTag::IdLiteral => Ok(StateLabel::Id),
        RuleTag::EmptyLiteral => Ok(StateLabel::Empty),
        _ => Err(CrgError::UnsupportedConstruct(node.children[0].rule.name())),
    }
}

/// Translates an effect-type literal: a counter type or a type reference.
fn parse_effect_type_literal(node: &ParseNode) -> (r: Result<EffectType, CrgError>)
    ensures
        match r {
            Ok(x) => spec_build_effect_type_literal(node@) == Ok::<SpecEffectType, SpecCrgError>(
                x@,
            ),
            Err(e) => spec_build_effect_type_literal(node@) == Err::<SpecEffectType, SpecCrgError>(
                e@,
            ),
        },
{
    proof {
        lemma_view_parse_nodes(node.children@);
    }
    if !matches!(node.rule, RuleTag::EffectTypeLiteral) {
        return Err(CrgError::MalformedNode(RuleTag::EffectTypeLiteral.name()));
    }
    if node.children.len() == 0 {
        return Err(CrgError::MalformedNode(RuleTag::EffectTypeLiteral.name()));
    }
    match node.children[0].rule {
        RuleTag::IntContextTypeLiteral => Ok(EffectType::Int),
        RuleTag::TypeSymbol => Ok(
            EffectType::TypeSymbolReference(parse_type_symbol(&node.children[0])),
        ),
        _ => Err(CrgError::UnsupportedConstruct(node.children[0].rule.name())),
    }
}

/// Translates a counter-type leaf.
fn parse_int_context_type_literal(node: &ParseNode) -> (r: Result<EffectType, CrgError>)
    ensures
        match r {
            Ok(x) => node@.rule == RuleTag::IntContextTypeLiteral && x@ == SpecEffectType::Int,
            Err(e) => node@.rule != RuleTag::IntContextTypeLiteral && e@ == malformed(
                RuleTag::IntContextTypeLiteral,
            ),
        },
{
    if matches!(node.rule, RuleTag::IntContextTypeLiteral) {
        Ok(EffectType::Int)
    } else {
        Err(CrgError::MalformedNode(RuleTag::IntContextTypeLiteral.name()))
    }
}

/// Translates an effect-type expression through its sole child.
fn parse_effect_type_expr(node: &ParseNode) -> (r: Result<EffectType, CrgError>)
    ensures
        match r {
            Ok(x) => spec_build_effect_type_expr(node@) == Ok::<SpecEffectType, SpecCrgError>(x@),
            Err(e) => spec_build_effect_type_expr(node@) == Err::<SpecEffectType, SpecCrgError>(
                e@,
            ),
        },
{
    proof {
        lemma_view_parse_nodes(node.children@);
    }
    if !matches!(node.rule, RuleTag::EffectTypeExpr) {
        return Err(CrgError::UnsupportedConstruct(node.rule.name()));
    }
    if node.children.len() == 0 {
        return Err(CrgError::MalformedNode(RuleTag::EffectTypeExpr.name()));
    }
    parse_effect_type_literal(&node.children[0])
}

/// Translates one labelled item of a snapshot type.
fn parse_snapshot_type_item_literal(node: &ParseNode) -> (r: Result<ContextType, CrgError>)
    ensures
        match r {
            Ok(x) => spec_build_snapshot_type_item(node@) == Ok::<SpecContextType, SpecCrgError>(
                x@,
            ),
            Err(e) => spec_build_snapshot_type_item(node@) == Err::<
                SpecContextType,
                SpecCrgError,
            >(e@),
        },
{
    proof {
        lemma_view_parse_nodes(node.children@);
    }
    if node.children.len() == 2 {
        let label = match parse_context_label(&node.children[0]) {
            Ok(l) => l,
            Err(e) => {
                return Err(e);
            },
        };
        let effect = match parse_effect_type_expr(&node.children[1]) {
            Ok(t) => t,
            Err(e) => {
                return Err(e);
            },
        };
        Ok(ContextType(label, effect))
    } else if node.children.len() == 1 {
        Err(CrgError::UnsupportedConstruct(node.rule.name()))
    } else {
        Err(CrgError::MalformedNode(node.rule.name()))
    }
}

/// Translates a contexted-type expression: a labelled effect type.
fn parse_context_type_expr(node: &ParseNode) -> (r: Result<ContextType, CrgError>)
    ensures
        match r {
            Ok(x) => spec_build_context_type_expr(node@) == Ok::<SpecContextType, SpecCrgError>(
                x@,
            ),
            Err(e) => spec_build_context_type_expr(node@) == Err::<SpecContextType, SpecCrgError>(
                e@,
            ),
        },
    decreases node,
{
    proof {
        lemma_view_parse_nodes(node.children@);
    }
    if node.children.len() == 1 {
        parse_context_type_expr(&node.children[0])
    } else if node.children.len() == 2 {
        let label = match parse_context_label(&node.children[0]) {
            Ok(l) => l,
            Err(e) => {
                return Err(e);
            },
        };
        let effect = match parse_effect_type_expr(&node.children[1]) {
            Ok(t) => t,
            Err(e) => {
                return Err(e);
            },
        };
        Ok(ContextType(label, effect))
    } else {
        Err(CrgError::UnsupportedConstruct(node.rule.name()))
    }
}

} // verus!

verus! {

// ---------------------------------------------------------------------------
// The executable translation: lists
// ---------------------------------------------------------------------------

proof fn lemma_context_types_error_persists(s: Seq<SpecParseNode>, m: int, e: SpecCrgError)
    requires
        0 <= m <= s.len(),
        spec_build_context_types(s.subrange(0, m)) == Err::<Seq<SpecContextType>, SpecCrgError>(e),
    ensures
        spec_build_context_types(s) == Err::<Seq<SpecContextType>, SpecCrgError>(e),
    decreases s.len() - m,
{
    if m == s.len() {
        assert(s.subrange(0, s.len() as int) =~= s);
    } else {
        assert(s.subrange(0, m + 1).drop_last() =~= s.subrange(0, m));
        lemma_context_types_error_persists(s, m + 1, e);
    }
}

proof fn lemma_state_labels_error_persists(s: Seq<SpecParseNode>, m: int, e: SpecCrgError)
    requires
        0 <= m <= s.len(),
        spec_build_state_labels(s.subrange(0, m)) == Err::<Seq<SpecStateLabel>, SpecCrgError>(e),
    ensures
        spec_build_state_labels(s) == Err::<Seq<SpecStateLabel>, SpecCrgError>(e),
    decreases s.len() - m,
{
    if m == s.len() {
        assert(s.subrange(0, s.len() as int) =~= s);
    } else {
        assert(s.subrange(0, m + 1).drop_last() =~= s.subrange(0, m));
        lemma_state_labels_error_persists(s, m + 1, e);
    }
}

proof fn lemma_context_effects_error_persists(s: Seq<SpecParseNode>, m: int, e: SpecCrgError)
    requires
        0 <= m <= s.len(),
        spec_build_context_effects(s.subrange(0, m)) == Err::<
            Seq<SpecContextEffect>,
            SpecCrgError,
        >(e),
    ensures
        spec_build_context_effects(s) == Err::<Seq<SpecContextEffect>, SpecCrgError>(e),
    decreases s.len() - m,
{
    if m == s.len() {
        assert(s.subrange(0, s.len() as int) =~= s);
    } else {
        assert(s.subrange(0, m + 1).drop_last() =~= s.subrange(0, m));
        lemma_context_effects_error_persists(s, m + 1, e);
    }
}

proof fn lemma_snapshot_items_error_persists(s: Seq<SpecParseNode>, m: int, e: SpecCrgError)
    requires
        0 <= m <= s.len(),
        spec_build_snapshot_items(s.subrange(0, m)) == Err::<
            Seq<SpecSnapshotItem>,
            SpecCrgError,
        >(e),
    ensures
        spec_build_snapshot_items(s) == Err::<Seq<SpecSnapshotItem>, SpecCrgError>(e),
    decreases s.len() - m,
{
    if m == s.len() {
        assert(s.subrange(0, s.len() as int) =~= s);
    } else {
        assert(s.subrange(0, m + 1).drop_last() =~= s.subrange(0, m));
        lemma_snapshot_items_error_persists(s, m + 1, e);
    }
}

proof fn lemma_scope_items_error_persists(s: Seq<SpecParseNode>, m: int, e: SpecCrgError)
    requires
        0 <= m <= s.len(),
        spec_build_scope_items(s.subrange(0, m)) == Err::<Seq<SpecScopeItem>, SpecCrgError>(e),
    ensures
        spec_build_scope_items(s) == Err::<Seq<SpecScopeItem>, SpecCrgError>(e),
    decreases s.len() - m,
{
    if m == s.len() {
        assert(s.subrange(0, s.len() as int) =~= s);
    } else {
        assert(s.subrange(0, m + 1).drop_last() =~= s.subrange(0, m));
        lemma_scope_items_error_persists(s, m + 1, e);
    }
}

/// Translates a snapshot-type literal: its labelled items, in order.
fn parse_snapshot_type_literal(node: &ParseNode) -> (r: Result<SnapshotType, CrgError>)
    ensures
        match r {
            Ok(x) => spec_build_snapshot_type_literal(node@) == Ok::<
                Seq<SpecContextType>,
                SpecCrgError,
            >(x@),
            Err(e) => spec_build_snapshot_type_literal(node@) == Err::<
                Seq<SpecContextType>,
                SpecCrgError,
            >(e@),
        },
{
    proof {
        lemma_view_parse_nodes(node.children@);
    }
    if !matches!(node.rule, RuleTag::SnapshotTypeLiteral) {
        return Err(CrgError::UnsupportedConstruct(node.rule.name()));
    }
    let ghost kids = view_parse_nodes(node.children@);
    let mut items: Vec<ContextType> = Vec::new();
    proof {
        assert(kids.subrange(0, 0) =~= Seq::<SpecParseNode>::empty());
        assert(Seq::new(items@.len(), |k: int| items@[k]@) =~= Seq::<SpecContextType>::empty());
    }
    let mut i: usize = 0;
    while i < node.children.len()
        invariant
            i <= node.children.len(),
            node.rule == RuleTag::SnapshotTypeLiteral,
            kids == view_parse_nodes(node.children@),
            kids.len() == node.children@.len(),
            spec_build_context_types(kids.subrange(0, i as int)) == Ok::<
                Seq<SpecContextType>,
                SpecCrgError,
            >(Seq::new(items@.len(), |k: int| items@[k]@)),
        decreases node.children.len() - i,
    {
        proof {
            lemma_view_parse_nodes(node.children@);
            assert(kids.subrange(0, i as int + 1).drop_last() =~= kids.subrange(0, i as int));
            assert(kids.subrange(0, i as int + 1).last() == kids[i as int]);
        }
        let ghost pre = Seq::new(items@.len(), |k: int| items@[k]@);
        match parse_snapshot_type_item_literal(&node.children[i]) {
            Ok(item) => {
                let ghost itemv = item@;
                items.push(item);
                proof {
                    assert(Seq::new(items@.len(), |k: int| items@[k]@) =~= pre.push(itemv));
                }
            },
            Err(e) => {
                proof {
                    lemma_context_types_error_persists(kids, i as int + 1, e@);
                }
                return Err(e);
            },
        }
        i += 1;
    }
    proof {
        assert(kids.subrange(0, kids.len() as int) =~= kids);
    }
    Ok(SnapshotType(items))
}

/// Translates a snapshot-type expression through its sole child.
fn parse_snapshot_type_expr(node: &ParseNode) -> (r: Result<SnapshotType, CrgError>)
    ensures
        match r {
            Ok(x) => spec_build_snapshot_type_expr(node@) == Ok::<
                Seq<SpecContextType>,
                SpecCrgError,
            >(x@),
            Err(e) => spec_build_snapshot_type_expr(node@) == Err::<
                Seq<SpecContextType>,
                SpecCrgError,
            >(e@),
        },
{
    proof {
        lemma_view_parse_nodes(node.children@);
    }
    if !matches!(node.rule, RuleTag::SnapshotTypeExpr) {
        return Err(CrgError::UnsupportedConstruct(node.rule.name()));
    }
    if node.children.len() == 0 {
        return Err(CrgError::MalformedNode(RuleTag::SnapshotTypeExpr.name()));
    }
    parse_snapshot_type_literal(&node.children[0])
}

/// Translates a state-machine literal: its state labels, in order.
fn parse_state_machine_type_literal(node: &ParseNode) -> (r: Result<StateMachine, CrgError>)
    ensures
        match r {
            Ok(x) => spec_build_state_machine_type_literal(node@) == Ok::<
                Seq<SpecStateLabel>,
                SpecCrgError,
            >(x@),
            Err(e) => spec_build_state_machine_type_literal(node@) == Err::<
                Seq<SpecStateLabel>,
                SpecCrgError,
            >(e@),
        },
{
    proof {
        lemma_view_parse_nodes(node.children@);
    }
    if !matches!(node.rule, RuleTag::StateMachineTypeLiteral) {
        return Err(CrgError::UnsupportedConstruct(node.rule.name()));
    }
    let ghost kids = view_parse_nodes(node.children@);
    let mut items: Vec<StateLabel> = Vec::new();
    proof {
        assert(kids.subrange(0, 0) =~= Seq::<SpecParseNode>::empty());
        assert(Seq::new(items@.len(), |k: int| items@[k]@) =~= Seq::<SpecStateLabel>::empty());
    }
    let mut i: usize = 0;
    while i < node.children.len()
        invariant
            i <= node.children.len(),
            node.rule == RuleTag::StateMachineTypeLiteral,
            kids == view_parse_nodes(node.children@),
            kids.len() == node.children@.len(),
            spec_build_state_labels(kids.subrange(0, i as int)) == Ok::<
                Seq<SpecStateLabel>,
                SpecCrgError,
            >(Seq::new(items@.len(), |k: int| items@[k]@)),
        decreases node.children.len() - i,
    {
        proof {
            lemma_view_parse_nodes(node.children@);
            assert(kids.subrange(0, i as int + 1).drop_last() =~= kids.subrange(0, i as int));
            assert(kids.subrange(0, i as int + 1).last() == kids[i as int]);
        }
        let ghost pre = Seq::new(items@.len(), |k: int| items@[k]@);
        match parse_state_expr(&node.children[i]) {
            Ok(item) => {
                let ghost itemv = item@;
                items.push(item);
                proof {
                    assert(Seq::new(items@.len(), |k: int| items@[k]@) =~= pre.push(itemv));
                }
            },
            Err(e) => {
                proof {
                    lemma_state_labels_error_persists(kids, i as int + 1, e@);
                }
                return Err(e);
            },
        }
        i += 1;
    }
    proof {
        assert(kids.subrange(0, kids.len() as int) =~= kids);
    }
    Ok(StateMachine(items))
}

/// Translates a state-machine expression through its sole child.
fn parse_state_machine_type_expr(node: &ParseNode) -> (r: Result<StateMachine, CrgError>)
    ensures
        match r {
            Ok(x) => spec_build_state_machine_type_expr(node@) == Ok::<
                Seq<SpecStateLabel>,
                SpecCrgError,
            >(x@),
            Err(e) => spec_build_state_machine_type_expr(node@) == Err::<
                Seq<SpecStateLabel>,
                SpecCrgError,
            >(e@),
        },
{
    proof {
        lemma_view_parse_nodes(node.children@);
    }
    if !matches!(node.rule, RuleTag::StateMachineTypeExpr) {
        return Err(CrgError::UnsupportedConstruct(node.rule.name()));
    }
    if node.children.len() == 0 {
        return Err(CrgError::MalformedNode(RuleTag::StateMachineTypeExpr.name()));
    }
    parse_state_machine_type_literal(&node.children[0])
}

/// Translates a type literal into a type value.
fn parse_type_literal(node: &ParseNode) -> (r: Result<TypeValue, CrgError>)
    ensures
        match r {
            Ok(x) => spec_build_type_literal(node@) == Ok::<SpecTypeValue, SpecCrgError>(x@),
            Err(e) => spec_build_type_literal(node@) == Err::<SpecTypeValue, SpecCrgError>(e@),
        },
{
    proof {
        lemma_view_parse_nodes(node.children@);
    }
    if !matches!(node.rule, RuleTag::TypeLiteral) {
        return Err(CrgError::UnsupportedConstruct(node.rule.name()));
    }
    if node.children.len() == 0 {
        return Err(CrgError::MalformedNode(RuleTag::TypeLiteral.name()));
    }
    match node.children[0].rule {
        RuleTag::StateMachineTypeExpr => match parse_state_machine_type_expr(&node.children[0]) {
            Ok(m) => Ok(TypeValue::StateMachine(m)),
            Err(e) => Err(e),
        },
        RuleTag::SnapshotTypeExpr => match parse_snapshot_type_expr(&node.children[0]) {
            Ok(t) => Ok(TypeValue::Snapshot(t)),
            Err(e) => Err(e),
        },
        RuleTag::ContextedTypeExpr => match parse_context_type_expr(&node.children[0]) {
            Ok(c) => Ok(TypeValue::Context(c)),
            Err(e) => Err(e),
        },
        RuleTag::TypeLiteral => match parse_context_type_expr(&node.children[0]) {
            Ok(c) => Ok(TypeValue::Context(c)),
            Err(e) => Err(e),
        },
        _ => Err(CrgError::UnsupportedConstruct(node.children[0].rule.name())),
    }
}

/// Translates the value position of a type assignment.
fn parse_type_value(node: &ParseNode) -> (r: Result<TypeValue, CrgError>)
    ensures
        match r {
            Ok(x) => spec_build_type_value(node@) == Ok::<SpecTypeValue, SpecCrgError>(x@),
            Err(e) => spec_build_type_value(node@) == Err::<SpecTypeValue, SpecCrgError>(e@),
        },
{
    proof {
        lemma_view_parse_nodes(node.children@);
    }
    if !matches!(node.rule, RuleTag::TypeExpr) {
        return Err(CrgError::UnsupportedConstruct(node.rule.name()));
    }
    if node.children.len() == 0 {
        return Err(CrgError::MalformedNode(RuleTag::TypeExpr.name()));
    }
    parse_type_literal(&node.children[0])
}

/// Translates a type assignment: a symbol and the value it takes.
fn parse_type_assign_expr(node: &ParseNode) -> (r: Result<TypeExpr, CrgError>)
    ensures
        match r {
            Ok(x) => spec_build_type_assign_expr(node@) == Ok::<SpecTypeExpr, SpecCrgError>(x@),
            Err(e) => spec_build_type_assign_expr(node@) == Err::<SpecTypeExpr, SpecCrgError>(e@),
        },
{
    proof {
        lemma_view_parse_nodes(node.children@);
    }
    if node.children.len() == 2 {
        let symbol = match parse_type_bind_expr(&node.children[0]) {
            Ok(s) => s,
            Err(e) => {
                return Err(e);
            },
        };
        let value = match parse_type_value(&node.children[1]) {
            Ok(v) => v,
            Err(e) => {
                return Err(e);
            },
        };
        Ok(TypeExpr::Assign { symbol, value })
    } else {
        Err(CrgError::MalformedNode(RuleTag::AssignTypeExpr.name()))
    }
}

/// Translates a type statement: a bind or an assignment.
fn parse_type_expr(node: &ParseNode) -> (r: Result<TypeExpr, CrgError>)
    ensures
        match r {
            Ok(x) => spec_build_type_expr(node@) == Ok::<SpecTypeExpr, SpecCrgError>(x@),
            Err(e) => spec_build_type_expr(node@) == Err::<SpecTypeExpr, SpecCrgError>(e@),
        },
{
    proof {
        lemma_view_parse_nodes(node.children@);
    }
    if node.children.len() == 0 {
        return Err(CrgError::MalformedNode(RuleTag::TypeStmt.name()));
    }
    match node.children[0].rule {
        RuleTag::BindTypeExpr => match parse_type_bind_expr(&node.children[0]) {
            Ok(sym) => Ok(TypeExpr::Bind(sym)),
            Err(e) => Err(e),
        },
        RuleTag::AssignTypeExpr => parse_type_assign_expr(&node.children[0]),
        RuleTag::TypeExpr => Err(CrgError::UnsupportedConstruct(RuleTag::TypeExpr.name())),
        _ => Err(CrgError::UnsupportedConstruct(node.children[0].rule.name())),
    }
}

} // verus!

verus! {

// ---------------------------------------------------------------------------
// The executable translation: values, expressions, scopes
// ---------------------------------------------------------------------------

/// Reads an integer literal node's span text.
fn parse_int_literal(node: &ParseNode) -> (r: Result<IntLiteral, CrgError>)
    ensures
        match r {
            Ok(x) => spec_build_int(node@.text) == Ok::<int, SpecCrgError>(x@),
            Err(e) => spec_build_int(node@.text) == Err::<int, SpecCrgError>(e@),
        },
{
    IntLiteral::from_text(node.text.as_str())
}

/// Translates an add-effect literal, descending to its integer literal.
fn parse_add_effect_literal(node: &ParseNode) -> (r: Result<AddEffect, CrgError>)
    ensures
        match r {
            Ok(x) => spec_build_add_effect_literal(node@) == Ok::<int, SpecCrgError>(x@),
            Err(e) => spec_build_add_effect_literal(node@) == Err::<int, SpecCrgError>(e@),
        },
    decreases node,
{
    proof {
        lemma_view_parse_nodes(node.children@);
    }
    match node.rule {
        RuleTag::AddEffectLiteral => {
            if node.children.len() == 0 {
                return Err(CrgError::MalformedNode(RuleTag::AddEffectLiteral.name()));
            }
            parse_add_effect_literal(&node.children[0])
        },
        RuleTag::IntLiteral => match parse_int_literal(node) {
            Ok(n) => Ok(AddEffect(n.0)),
            Err(e) => Err(e),
        },
        _ => Err(CrgError::UnsupportedConstruct(node.rule.name())),
    }
}

/// Translates an add-effect expression, descending two levels.
fn parse_add_effect_expr(node: &ParseNode) -> (r: Result<AddEffect, CrgError>)
    ensures
        match r {
            Ok(x) => spec_build_add_effect_expr(node@) == Ok::<int, SpecCrgError>(x@),
            Err(e) => spec_build_add_effect_expr(node@) == Err::<int, SpecCrgError>(e@),
        },
{
    proof {
        lemma_view_parse_nodes(node.children@);
    }
    if node.children.len() == 0 {
        return Err(CrgError::MalformedNode(RuleTag::AddEffectExpr.name()));
    }
    match node.children[0].rule {
        RuleTag::AddEffectLiteral => {
            proof {
                lemma_view_parse_nodes(node.children[0].children@);
            }
            if node.children[0].children.len() == 0 {
                return Err(CrgError::MalformedNode(RuleTag::AddEffectLiteral.name()));
            }
            parse_add_effect_literal(&node.children[0].children[0])
        },
        _ => Err(CrgError::UnsupportedConstruct(node.children[0].rule.name())),
    }
}

/// Translates a transition-effect literal through its state expression.
fn parse_transition_effect_literal(node: &ParseNode) -> (r: Result<TransitionEffect, CrgError>)
    ensures
        match r {
            Ok(x) => spec_build_transition_effect_literal(node@) == Ok::<
                SpecTransitionEffect,
                SpecCrgError,
            >(x@),
            Err(e) => spec_build_transition_effect_literal(node@) == Err::<
                SpecTransitionEffect,
                SpecCrgError,
            >(e@),
        },
{
    proof {
        lemma_view_parse_nodes(node.children@);
    }
    if node.children.len() == 0 {
        return Err(CrgError::MalformedNode(RuleTag::TransitionEffectLiteral.name()));
    }
    match node.children[0].rule {
        RuleTag::StateExpr => match parse_state_expr(&node.children[0]) {
            Ok(label) => Ok(TransitionEffect::StateLabel(label)),
            Err(e) => Err(e),
        },
        _ => Err(CrgError::UnsupportedConstruct(node.children[0].rule.name())),
    }
}

/// Translates a transition-effect expression: a marker or a literal.
fn parse_transition_effect_expr(node: &ParseNode) -> (r: Result<TransitionEffect, CrgError>)
    ensures
        match r {
            Ok(x) => spec_build_transition_effect_expr(node@) == Ok::<
                SpecTransitionEffect,
                SpecCrgError,
            >(x@),
            Err(e) => spec_build_transition_effect_expr(node@) == Err::<
                SpecTransitionEffect,
                SpecCrgError,
            >(e@),
        },
{
    proof {
        lemma_view_parse_nodes(node.children@);
    }
    if node.children.len() == 0 {
        return Err(CrgError::MalformedNode(RuleTag::TransitionEffectExpr.name()));
    }
    match node.children[0].rule {
        RuleTag::IdLiteral => Ok(TransitionEffect::Id),
        RuleTag::EmptyLiteral => Ok(TransitionEffect::Empty),
        RuleTag::TransitionEffectLiteral => parse_transition_effect_literal(&node.children[0]),
        _ => Err(CrgError::UnsupportedConstruct(node.children[0].rule.name())),
    }
}

/// Translates an effect literal: a marker, an addition, or a transition.
fn parse_effect_literal(node: &ParseNode) -> (r: Result<Effect, CrgError>)
    ensures
        match r {
            Ok(x) => spec_build_effect_literal(node@) == Ok::<SpecEffect, SpecCrgError>(x@),
            Err(e) => spec_build_effect_literal(node@) == Err::<SpecEffect, SpecCrgError>(e@),
        },
{
    proof {
        lemma_view_parse_nodes(node.children@);
    }
    if node.children.len() == 0 {
        return Err(CrgError::MalformedNode(RuleTag::EffectLiteral.name()));
    }
    match node.children[0].rule {
        RuleTag::IdLiteral => Ok(Effect::Id),
        RuleTag::EmptyLiteral => Ok(Effect::Empty),
        RuleTag::AddEffectExpr => match parse_add_effect_expr(&node.children[0]) {
            Ok(a) => Ok(Effect::AddEffect(a)),
            Err(e) => Err(e),
        },
        RuleTag::TransitionEffectExpr => match parse_transition_effect_expr(&node.children[0]) {
            Ok(t) => Ok(Effect::TransitionEffect(t)),
            Err(e) => Err(e),
        },
        _ => Err(CrgError::UnsupportedConstruct(node.children[0].rule.name())),
    }
}

/// Translates the effect position of a context effect.
fn parse_effect_expr(node: &ParseNode) -> (r: Result<Effect, CrgError>)
    ensures
        match r {
            Ok(x) => spec_build_effect_expr(node@) == Ok::<SpecEffect, SpecCrgError>(x@),
            Err(e) => spec_build_effect_expr(node@) == Err::<SpecEffect, SpecCrgError>(e@),
        },
{
    proof {
        lemma_view_parse_nodes(node.children@);
    }
    match node.rule {
        RuleTag::AddEffectLiteral => {
            if node.children.len() == 0 {
                return Err(CrgError::MalformedNode(RuleTag::AddEffectLiteral.name()));
            }
            match parse_add_effect_literal(&node.children[0]) {
                Ok(a) => Ok(Effect::AddEffect(a)),
                Err(e) => Err(e),
            }
        },
        RuleTag::TransitionEffectLiteral => {
            if node.children.len() == 0 {
                return Err(CrgError::MalformedNode(RuleTag::TransitionEffectLiteral.name()));
            }
            match parse_transition_effect_literal(&node.children[0]) {
                Ok(t) => Ok(Effect::TransitionEffect(t)),
                Err(e) => Err(e),
            }
        },
        RuleTag::IdLiteral => Ok(Effect::Id),
        RuleTag::EmptyLiteral => Ok(Effect::Empty),
        RuleTag::EffectExpr => {
            if node.children.len() == 0 {
                return Err(CrgError::MalformedNode(RuleTag::EffectExpr.name()));
            }
            parse_effect_literal(&node.children[0])
        },
        _ => Err(CrgError::UnsupportedConstruct(node.rule.name())),
    }
}

/// Translates the label position of a context effect or snapshot entry.
fn parse_context_type_literal(node: &ParseNode) -> (r: Result<ContextLabel, CrgError>)
    ensures
        match r {
            Ok(x) => spec_build_context_type_literal(node@) == Ok::<Seq<char>, SpecCrgError>(x@),
            Err(e) => spec_build_context_type_literal(node@) == Err::<Seq<char>, SpecCrgError>(
                e@,
            ),
        },
    decreases node,
{
    proof {
        lemma_view_parse_nodes(node.children@);
    }
    match node.rule {
        RuleTag::VarSymbol => Ok(ContextLabel(node.text.clone())),
        RuleTag::ContextLiteral => {
            if node.children.len() == 0 {
                return Err(CrgError::MalformedNode(RuleTag::ContextLiteral.name()));
            }
            parse_context_type_literal(&node.children[0])
        },
        RuleTag::ContextTypeLiteral => {
            if node.children.len() == 0 {
                return Err(CrgError::MalformedNode(RuleTag::ContextTypeLiteral.name()));
            }
            parse_context_label(&node.children[0])
        },
        _ => Err(CrgError::UnsupportedConstruct(node.rule.name())),
    }
}

/// Translates a context expression into its label.
fn parse_context_expr(node: &ParseNode) -> (r: Result<ContextLabel, CrgError>)
    ensures
        match r {
            Ok(x) => spec_build_context_expr(node@) == Ok::<Seq<char>, SpecCrgError>(x@),
            Err(e) => spec_build_context_expr(node@) == Err::<Seq<char>, SpecCrgError>(e@),
        },
{
    proof {
        lemma_view_parse_nodes(node.children@);
    }
    if !matches!(node.rule, RuleTag::ContextExpr) {
        return Err(CrgError::UnsupportedConstruct(node.rule.name()));
    }
    if node.children.len() == 0 {
        return Err(CrgError::MalformedNode(RuleTag::ContextExpr.name()));
    }
    parse_context_type_literal(&node.children[0])
}

/// Translates a context-effect literal: a label and an effect.
fn parse_context_effect_literal(node: &ParseNode) -> (r: Result<ContextEffect, CrgError>)
    ensures
        match r {
            Ok(x) => spec_build_context_effect_literal(node@) == Ok::<
                SpecContextEffect,
                SpecCrgError,
            >(x@),
            Err(e) => spec_build_context_effect_literal(node@) == Err::<
                SpecContextEffect,
                SpecCrgError,
            >(e@),
        },
    decreases node, 0int,
{
    proof {
        lemma_view_parse_nodes(node.children@);
    }
    if node.children.len() == 2 {
        let label = match parse_context_expr(&node.children[0]) {
            Ok(l) => l,
            Err(e) => {
                return Err(e);
            },
        };
        let effect = match parse_effect_expr(&node.children[1]) {
            Ok(eff) => eff,
            Err(e) => {
                return Err(e);
            },
        };
        Ok(ContextEffect(label, effect))
    } else {
        Err(CrgError::MalformedNode(node.rule.name()))
    }
}

/// Translates a context-effect position: a wrapper descends one level, a
/// bare pair is read in place.
fn parse_context_effect_expr(node: &ParseNode) -> (r: Result<ContextEffect, CrgError>)
    ensures
        match r {
            Ok(x) => spec_build_context_effect_expr(node@) == Ok::<
                SpecContextEffect,
                SpecCrgError,
            >(x@),
            Err(e) => spec_build_context_effect_expr(node@) == Err::<
                SpecContextEffect,
                SpecCrgError,
            >(e@),
        },
    decreases node, 1int,
{
    proof {
        lemma_view_parse_nodes(node.children@);
    }
    if node.children.len() == 1 {
        parse_context_effect_literal(&node.children[0])
    } else if node.children.len() == 2 {
        parse_context_effect_literal(node)
    } else {
        Err(CrgError::MalformedNode(node.rule.name()))
    }
}

/// Translates a slice literal: its context effects, in order.
fn parse_slice_literal(node: &ParseNode) -> (r: Result<Slice, CrgError>)
    ensures
        match r {
            Ok(x) => spec_build_slice(node@) == Ok::<Seq<SpecContextEffect>, SpecCrgError>(x@),
            Err(e) => spec_build_slice(node@) == Err::<Seq<SpecContextEffect>, SpecCrgError>(e@),
        },
    decreases node, 0int,
{
    proof {
        lemma_view_parse_nodes(node.children@);
    }
    let ghost kids = view_parse_nodes(node.children@);
    let mut items: Vec<ContextEffect> = Vec::new();
    proof {
        assert(kids.subrange(0, 0) =~= Seq::<SpecParseNode>::empty());
        assert(Seq::new(items@.len(), |k: int| items@[k]@) =~= Seq::<SpecContextEffect>::empty());
    }
    let mut i: usize = 0;
    while i < node.children.len()
        invariant
            i <= node.children.len(),
            kids == view_parse_nodes(node.children@),
            kids.len() == node.children@.len(),
            spec_build_context_effects(kids.subrange(0, i as int)) == Ok::<
                Seq<SpecContextEffect>,
                SpecCrgError,
            >(Seq::new(items@.len(), |k: int| items@[k]@)),
        decreases node.children.len() - i,
    {
        proof {
            lemma_view_parse_nodes(node.children@);
            assert(kids.subrange(0, i as int + 1).drop_last() =~= kids.subrange(0, i as int));
            assert(kids.subrange(0, i as int + 1).last() == kids[i as int]);
        }
        let ghost pre = Seq::new(items@.len(), |k: int| items@[k]@);
        match parse_context_effect_expr(&node.children[i]) {
            Ok(item) => {
                let ghost itemv = item@;
                items.push(item);
                proof {
                    assert(Seq::new(items@.len(), |k: int| items@[k]@) =~= pre.push(itemv));
                }
            },
            Err(e) => {
                proof {
                    lemma_context_effects_error_persists(kids, i as int + 1, e@);
                }
                return Err(e);
            },
        }
        i += 1;
    }
    proof {
        assert(kids.subrange(0, kids.len() as int) =~= kids);
    }
    Ok(Slice(items))
}

/// Translates a slice position; the same shape as a slice literal.
fn parse_slice_expr(node: &ParseNode) -> (r: Result<Slice, CrgError>)
    ensures
        match r {
            Ok(x) => spec_build_slice(node@) == Ok::<Seq<SpecContextEffect>, SpecCrgError>(x@),
            Err(e) => spec_build_slice(node@) == Err::<Seq<SpecContextEffect>, SpecCrgError>(e@),
        },
    decreases node, 1int,
{
    parse_slice_literal(node)
}

/// Translates the value of one snapshot entry.
fn parse_snapshot_value_item_value_literal(node: &ParseNode) -> (r: Result<
    SnapshotValueItemValue,
    CrgError,
>)
    ensures
        match r {
            Ok(x) => spec_build_snapshot_value_item_value_literal(node@) == Ok::<
                SpecEntry,
                SpecCrgError,
            >(x@),
            Err(e) => spec_build_snapshot_value_item_value_literal(node@) == Err::<
                SpecEntry,
                SpecCrgError,
            >(e@),
        },
    decreases node, 0int,
{
    proof {
        lemma_view_parse_nodes(node.children@);
    }
    if node.children.len() == 0 {
        return Err(CrgError::MalformedNode(node.rule.name()));
    }
    match node.children[0].rule {
        RuleTag::IntLiteral => match parse_int_literal(&node.children[0]) {
            Ok(n) => Ok(SnapshotValueItemValue::Int(n)),
            Err(e) => Err(e),
        },
        RuleTag::StateExpr => match parse_state_expr(&node.children[0]) {
            Ok(l) => Ok(SnapshotValueItemValue::StateLabel(l)),
            Err(e) => Err(e),
        },
        RuleTag::IdLiteral => Ok(SnapshotValueItemValue::Id),
        RuleTag::EmptyLiteral => Ok(SnapshotValueItemValue::Empty),
        _ => Err(CrgError::UnsupportedConstruct(node.children[0].rule.name())),
    }
}

/// Translates the value position of a snapshot entry.
fn parse_snapshot_value_item_value_expr(node: &ParseNode) -> (r: Result<
    SnapshotValueItemValue,
    CrgError,
>)
    ensures
        match r {
            Ok(x) => spec_build_snapshot_value_item_value_expr(node@) == Ok::<
                SpecEntry,
                SpecCrgError,
            >(x@),
            Err(e) => spec_build_snapshot_value_item_value_expr(node@) == Err::<
                SpecEntry,
                SpecCrgError,
            >(e@),
        },
    decreases node, 1int,
{
    proof {
        lemma_view_parse_nodes(node.children@);
    }
    match node.rule {
        RuleTag::SnapshotValueExpr => {
            if node.children.len() == 0 {
                return Err(CrgError::MalformedNode(RuleTag::SnapshotValueExpr.name()));
            }
            parse_snapshot_value_item_value_expr(&node.children[0])
        },
        RuleTag::SnapshotValueLiteral => parse_snapshot_value_item_value_literal(node),
        _ => Err(CrgError::UnsupportedConstruct(node.rule.name())),
    }
}

/// Translates one labelled snapshot entry.
fn parse_snapshot_value_item_literal(node: &ParseNode) -> (r: Result<SnapshotValueItem, CrgError>)
    ensures
        match r {
            Ok(x) => spec_build_snapshot_value_item_literal(node@) == Ok::<
                SpecSnapshotItem,
                SpecCrgError,
            >(x@),
            Err(e) => spec_build_snapshot_value_item_literal(node@) == Err::<
                SpecSnapshotItem,
                SpecCrgError,
            >(e@),
        },
    decreases node, 0int,
{
    proof {
        lemma_view_parse_nodes(node.children@);
    }
    if node.children.len() == 2 {
        let label = match parse_context_expr(&node.children[0]) {
            Ok(l) => l,
            Err(e) => {
                return Err(e);
            },
        };
        let value = match parse_snapshot_value_item_value_expr(&node.children[1]) {
            Ok(v) => v,
            Err(e) => {
                return Err(e);
            },
        };
        Ok(SnapshotValueItem(label, value))
    } else {
        Err(CrgError::MalformedNode(node.rule.name()))
    }
}

/// Translates a snapshot-item position.
fn parse_snapshot_value_item_expr(node: &ParseNode) -> (r: Result<SnapshotValueItem, CrgError>)
    ensures
        match r {
            Ok(x) => spec_build_snapshot_value_item_expr(node@) == Ok::<
                SpecSnapshotItem,
                SpecCrgError,
            >(x@),
            Err(e) => spec_build_snapshot_value_item_expr(node@) == Err::<
                SpecSnapshotItem,
                SpecCrgError,
            >(e@),
        },
    decreases node, 1int,
{
    if matches!(node.rule, RuleTag::SnapshotItemLiteral) {
        parse_snapshot_value_item_literal(node)
    } else {
        Err(CrgError::UnsupportedConstruct(node.rule.name()))
    }
}

/// Translates a snapshot literal: its labelled entries, in order.
fn parse_snapshot_value_literal(node: &ParseNode) -> (r: Result<SnapshotValue, CrgError>)
    ensures
        match r {
            Ok(x) => spec_build_snapshot_value_literal(node@) == Ok::<
                Seq<SpecSnapshotItem>,
                SpecCrgError,
            >(x@),
            Err(e) => spec_build_snapshot_value_literal(node@) == Err::<
                Seq<SpecSnapshotItem>,
                SpecCrgError,
            >(e@),
        },
    decreases node, 0int,
{
    proof {
        lemma_view_parse_nodes(node.children@);
    }
    let ghost kids = view_parse_nodes(node.children@);
    let mut items: Vec<SnapshotValueItem> = Vec::new();
    proof {
        assert(kids.subrange(0, 0) =~= Seq::<SpecParseNode>::empty());
        assert(Seq::new(items@.len(), |k: int| items@[k]@) =~= Seq::<SpecSnapshotItem>::empty());
    }
    let mut i: usize = 0;
    while i < node.children.len()
        invariant
            i <= node.children.len(),
            kids == view_parse_nodes(node.children@),
            kids.len() == node.children@.len(),
            spec_build_snapshot_items(kids.subrange(0, i as int)) == Ok::<
                Seq<SpecSnapshotItem>,
                SpecCrgError,
            >(Seq::new(items@.len(), |k: int| items@[k]@)),
        decreases node.children.len() - i,
    {
        proof {
            lemma_view_parse_nodes(node.children@);
            assert(kids.subrange(0, i as int + 1).drop_last() =~= kids.subrange(0, i as int));
            assert(kids.subrange(0, i as int + 1).last() == kids[i as int]);
        }
        let ghost pre = Seq::new(items@.len(), |k: int| items@[k]@);
        match parse_snapshot_value_item_expr(&node.children[i]) {
            Ok(item) => {
                let ghost itemv = item@;
                items.push(item);
                proof {
                    assert(Seq::new(items@.len(), |k: int| items@[k]@) =~= pre.push(itemv));
                }
            },
            Err(e) => {
                proof {
                    lemma_snapshot_items_error_persists(kids, i as int + 1, e@);
                }
                return Err(e);
            },
        }
        i += 1;
    }
    proof {
        assert(kids.subrange(0, kids.len() as int) =~= kids);
    }
    Ok(SnapshotValue(items))
}

/// Translates a snapshot position.
fn parse_snapshot_value_expr(node: &ParseNode) -> (r: Result<SnapshotValue, CrgError>)
    ensures
        match r {
            Ok(x) => spec_build_snapshot_value_expr(node@) == Ok::<
                Seq<SpecSnapshotItem>,
                SpecCrgError,
            >(x@),
            Err(e) => spec_build_snapshot_value_expr(node@) == Err::<
                Seq<SpecSnapshotItem>,
                SpecCrgError,
            >(e@),
        },
    decreases node, 1int,
{
    if matches!(node.rule, RuleTag::SnapshotLiteral) {
        parse_snapshot_value_literal(node)
    } else {
        Err(CrgError::UnsupportedConstruct(node.rule.name()))
    }
}

} // verus!

verus! {

// ---------------------------------------------------------------------------
// The executable translation: expressions, statements, scopes
// ---------------------------------------------------------------------------

/// Translates a term: a literal of any kind, a reference, or a nested
/// expression.
fn parse_term(node: &ParseNode) -> (r: Result<Expr, CrgError>)
    ensures
        match r {
            Ok(x) => spec_build_term(node@) == Ok::<SpecExpr, SpecCrgError>(x@),
            Err(e) => spec_build_term(node@) == Err::<SpecExpr, SpecCrgError>(e@),
        },
    decreases node, 0int,
{
    proof {
        lemma_view_parse_nodes(node.children@);
    }
    if node.children.len() == 0 {
        return Err(CrgError::MalformedNode(RuleTag::Term.name()));
    }
    let c = &node.children[0];
    match c.rule {
        RuleTag::Expr => parse_expr(c),
        RuleTag::VarSymbol => Ok(
            Expr::Reference(ValueSymbolReference(ValueSymbolName(c.text.clone()))),
        ),
        RuleTag::AddEffectLiteral => match parse_add_effect_literal(c) {
            Ok(a) => {
                let v = Value::Effect(Effect::AddEffect(a));
                proof {
                    crate::ast::lemma_view_expr_id(v);
                }
                Ok(Expr::Id(v))
            },
            Err(e) => Err(e),
        },
        RuleTag::TransitionEffectLiteral => match parse_transition_effect_literal(c) {
            Ok(t) => {
                let v = Value::Effect(Effect::TransitionEffect(t));
                proof {
                    crate::ast::lemma_view_expr_id(v);
                }
                Ok(Expr::Id(v))
            },
            Err(e) => Err(e),
        },
        RuleTag::IdLiteral => {
            proof {
                crate::ast::lemma_view_expr_id(Value::Id);
            }
            Ok(Expr::Id(Value::Id))
        },
        RuleTag::EmptyLiteral => {
            proof {
                crate::ast::lemma_view_expr_id(Value::Empty);
            }
            Ok(Expr::Id(Value::Empty))
        },
        RuleTag::SliceLiteral => match parse_slice_expr(c) {
            Ok(s) => {
                let v = Value::Slice(s);
                proof {
                    crate::ast::lemma_view_expr_id(v);
                }
                Ok(Expr::Id(v))
            },
            Err(e) => Err(e),
        },
        RuleTag::SnapshotLiteral => match parse_snapshot_value_expr(c) {
            Ok(s) => {
                let v = Value::Snapshot(s);
                proof {
                    crate::ast::lemma_view_expr_id(v);
                }
                Ok(Expr::Id(v))
            },
            Err(e) => Err(e),
        },
        RuleTag::ContextEffectLiteral => match parse_context_effect_expr(c) {
            Ok(ce) => {
                let v = Value::ContextEffect(ce);
                proof {
                    crate::ast::lemma_view_expr_id(v);
                }
                Ok(Expr::Id(v))
            },
            Err(e) => Err(e),
        },
        RuleTag::ContextTypeLiteral => match parse_context_type_expr(c) {
            Ok(ct) => {
                let v = Value::Context(ct.0);
                proof {
                    crate::ast::lemma_view_expr_id(v);
                }
                Ok(Expr::Id(v))
            },
            Err(e) => Err(e),
        },
        RuleTag::EffectLiteral => match parse_effect_literal(c) {
            Ok(eff) => {
                let v = Value::Effect(eff);
                proof {
                    crate::ast::lemma_view_expr_id(v);
                }
                Ok(Expr::Id(v))
            },
            Err(e) => Err(e),
        },
        RuleTag::TransitionEffectExpr => match parse_transition_effect_expr(c) {
            Ok(t) => {
                let v = Value::Effect(Effect::TransitionEffect(t));
                proof {
                    crate::ast::lemma_view_expr_id(v);
                }
                Ok(Expr::Id(v))
            },
            Err(e) => Err(e),
        },
        RuleTag::ScopeExpr => match parse_scope_expr(c) {
            Ok(sc) => {
                let v = Value::Scope(sc);
                proof {
                    crate::ast::lemma_view_expr_id(v);
                }
                Ok(Expr::Id(v))
            },
            Err(e) => Err(e),
        },
        _ => Err(CrgError::UnsupportedConstruct(c.rule.name())),
    }
}

/// Translates an expression: a sole child passes through, three children
/// form a binary operation read left to right.
fn parse_expr(node: &ParseNode) -> (r: Result<Expr, CrgError>)
    ensures
        match r {
            Ok(x) => spec_build_expr(node@) == Ok::<SpecExpr, SpecCrgError>(x@),
            Err(e) => spec_build_expr(node@) == Err::<SpecExpr, SpecCrgError>(e@),
        },
    decreases node, 1int,
{
    proof {
        lemma_view_parse_nodes(node.children@);
    }
    if node.children.len() == 1 {
        match node.children[0].rule {
            RuleTag::Term => parse_term(&node.children[0]),
            RuleTag::Expr => parse_expr(&node.children[0]),
            _ => Err(CrgError::UnsupportedConstruct(node.children[0].rule.name())),
        }
    } else if node.children.len() == 3 {
        let lhs = match node.children[0].rule {
            RuleTag::Term => parse_term(&node.children[0]),
            RuleTag::Expr => parse_expr(&node.children[0]),
            _ => Err(CrgError::UnsupportedConstruct(node.children[0].rule.name())),
        };
        let l = match lhs {
            Ok(l) => l,
            Err(e) => {
                return Err(e);
            },
        };
        let op = match parse_op(&node.children[1]) {
            Ok(o) => o,
            Err(e) => {
                return Err(e);
            },
        };
        let rhs = match node.children[2].rule {
            RuleTag::Term => parse_term(&node.children[2]),
            RuleTag::Expr => parse_expr(&node.children[2]),
            _ => Err(CrgError::UnsupportedConstruct(node.children[2].rule.name())),
        };
        let rr = match rhs {
            Ok(rr) => rr,
            Err(e) => {
                return Err(e);
            },
        };
        Ok(Expr::Op(op, Box::new(l), Box::new(rr)))
    } else {
        Err(CrgError::MalformedNode(node.rule.name()))
    }
}

/// Translates an assignment: a bind target and its initializer.
fn parse_assign_expr(node: &ParseNode) -> (r: Result<LetExpr, CrgError>)
    ensures
        match r {
            Ok(x) => spec_build_assign_expr(node@) == Ok::<SpecLetExpr, SpecCrgError>(x@),
            Err(e) => spec_build_assign_expr(node@) == Err::<SpecLetExpr, SpecCrgError>(e@),
        },
    decreases node, 2int,
{
    proof {
        lemma_view_parse_nodes(node.children@);
    }
    if node.children.len() == 2 {
        let symbol = match parse_bind_expr(&node.children[0]) {
            Ok(s) => s,
            Err(e) => {
                return Err(e);
            },
        };
        let expr = match parse_expr(&node.children[1]) {
            Ok(ex) => ex,
            Err(e) => {
                return Err(e);
            },
        };
        Ok(LetExpr::Assign { symbol, expr })
    } else {
        Err(CrgError::MalformedNode(RuleTag::AssignExpr.name()))
    }
}

/// Translates a let statement: a bind or an assignment.
fn parse_let_expr(node: &ParseNode) -> (r: Result<LetExpr, CrgError>)
    ensures
        match r {
            Ok(x) => spec_build_let_expr(node@) == Ok::<SpecLetExpr, SpecCrgError>(x@),
            Err(e) => spec_build_let_expr(node@) == Err::<SpecLetExpr, SpecCrgError>(e@),
        },
    decreases node, 3int,
{
    proof {
        lemma_view_parse_nodes(node.children@);
    }
    if node.children.len() == 0 {
        return Err(CrgError::MalformedNode(RuleTag::LetStmt.name()));
    }
    match node.children[0].rule {
        RuleTag::BindExpr => match parse_bind_expr(&node.children[0]) {
            Ok(sym) => Ok(LetExpr::Bind(sym)),
            Err(e) => Err(e),
        },
        RuleTag::AssignExpr => parse_assign_expr(&node.children[0]),
        _ => Err(CrgError::UnsupportedConstruct(node.children[0].rule.name())),
    }
}

/// Translates a statement through its sole child.
fn parse_stmt(node: &ParseNode) -> (r: Result<Stmt, CrgError>)
    ensures
        match r {
            Ok(x) => spec_build_stmt(node@) == Ok::<SpecStmt, SpecCrgError>(x@),
            Err(e) => spec_build_stmt(node@) == Err::<SpecStmt, SpecCrgError>(e@),
        },
    decreases node, 4int,
{
    proof {
        lemma_view_parse_nodes(node.children@);
    }
    if node.children.len() == 0 {
        return Err(CrgError::MalformedNode(RuleTag::Stmt.name()));
    }
    match node.children[0].rule {
        RuleTag::TypeStmt => match parse_type_expr(&node.children[0]) {
            Ok(t) => Ok(Stmt::TypeStmt(t)),
            Err(e) => Err(e),
        },
        RuleTag::LetStmt => match parse_let_expr(&node.children[0]) {
            Ok(l) => Ok(Stmt::LetStmt(l)),
            Err(e) => Err(e),
        },
        RuleTag::CalcStmt => match parse_expr(&node.children[0]) {
            Ok(e) => Ok(Stmt::Expr(e)),
            Err(err) => Err(err),
        },
        RuleTag::ScopeStmt => match parse_scope_stmt(&node.children[0]) {
            Ok(sc) => Ok(Stmt::ScopeStmt(sc)),
            Err(e) => Err(e),
        },
        _ => Err(CrgError::UnsupportedConstruct(node.children[0].rule.name())),
    }
}

/// Keeps a source comment as a leaf of the tree.
fn parse_comment(node: &ParseNode) -> (r: Comment)
    ensures
        r@ == node@.text,
{
    Comment(node.text.clone())
}

/// Translates one child of a scope: a comment is kept as a leaf, a
/// statement and a trailing expression are translated, and the
/// end-of-input marker denotes nothing.
fn parse_scope_item_node(c: &ParseNode) -> (r: Result<Option<ScopeInnerValue>, CrgError>)
    ensures
        match r {
            Ok(item) => match item {
                Some(x) => spec_build_scope_item(c@) == Ok::<
                    Option<SpecScopeItem>,
                    SpecCrgError,
                >(Some(x@)),
                None => spec_build_scope_item(c@) == Ok::<Option<SpecScopeItem>, SpecCrgError>(
                    None,
                ),
            },
            Err(e) => spec_build_scope_item(c@) == Err::<Option<SpecScopeItem>, SpecCrgError>(e@),
        },
    decreases c, 5int,
{
    match c.rule {
        RuleTag::Comment => Ok(Some(ScopeInnerValue::Comment(parse_comment(c)))),
        RuleTag::Stmt => match parse_stmt(c) {
            Ok(s) => Ok(Some(ScopeInnerValue::Stmt(s))),
            Err(e) => Err(e),
        },
        RuleTag::Expr => match parse_expr(c) {
            Ok(e) => Ok(Some(ScopeInnerValue::Expr(e))),
            Err(err) => Err(err),
        },
        RuleTag::Eoi => Ok(None),
        _ => Err(CrgError::UnsupportedConstruct(c.rule.name())),
    }
}

/// Translates the items of a scope, in order; comments are kept as leaves,
/// and the end-of-input marker is skipped.
#[verifier::spinoff_prover]
fn parse_scope_inner(node: &ParseNode) -> (r: Result<ScopeValue, CrgError>)
    ensures
        match r {
            Ok(x) => spec_build_scope_inner(node@) == Ok::<Seq<SpecScopeItem>, SpecCrgError>(x@),
            Err(e) => spec_build_scope_inner(node@) == Err::<Seq<SpecScopeItem>, SpecCrgError>(
                e@,
            ),
        },
    decreases node, 6int,
{
    proof {
        lemma_view_parse_nodes(node.children@);
    }
    let ghost kids = view_parse_nodes(node.children@);
    let mut items: Vec<ScopeInnerValue> = Vec::new();
    proof {
        assert(kids.subrange(0, 0) =~= Seq::<SpecParseNode>::empty());
        crate::ast::lemma_view_scope_items(items@);
        assert(crate::ast::view_scope_items(items@) =~= Seq::<SpecScopeItem>::empty());
    }
    let mut i: usize = 0;
    while i < node.children.len()
        invariant
            i <= node.children.len(),
            kids == view_parse_nodes(node.children@),
            kids.len() == node.children@.len(),
            spec_build_scope_items(kids.subrange(0, i as int)) == Ok::<
                Seq<SpecScopeItem>,
                SpecCrgError,
            >(crate::ast::view_scope_items(items@)),
        decreases node.children.len() - i,
    {
        proof {
            lemma_view_parse_nodes(node.children@);
            assert(kids.subrange(0, i as int + 1).drop_last() =~= kids.subrange(0, i as int));
            assert(kids.subrange(0, i as int + 1).last() == kids[i as int]);
        }
        let ghost pre = crate::ast::view_scope_items(items@);
        proof {
            crate::ast::lemma_view_scope_items(items@);
        }
        let ghost before = items@;
        match parse_scope_item_node(&node.children[i]) {
            Ok(Some(item)) => {
                let ghost itemv = item@;
                items.push(item);
                proof {
                    crate::ast::lemma_view_scope_items(items@);
                    assert forall|k: int| 0 <= k < before.len() implies crate::ast::view_scope_items(
                        items@,
                    )[k] == pre[k] by {
                        assert(items@[k] == before[k]);
                    }
                    assert(crate::ast::view_scope_items(items@) =~= pre.push(itemv));
                }
            },
            Ok(None) => (),
            Err(e) => {
                proof {
                    lemma_scope_items_error_persists(kids, i as int + 1, e@);
                }
                return Err(e);
            },
        }
        i += 1;
    }
    proof {
        assert(kids.subrange(0, kids.len() as int) =~= kids);
    }
    Ok(ScopeValue(items))
}

/// Translates a scope literal through its sole child.
fn parse_scope_literal(node: &ParseNode) -> (r: Result<ScopeValue, CrgError>)
    ensures
        match r {
            Ok(x) => spec_build_scope_literal(node@) == Ok::<Seq<SpecScopeItem>, SpecCrgError>(
                x@,
            ),
            Err(e) => spec_build_scope_literal(node@) == Err::<Seq<SpecScopeItem>, SpecCrgError>(
                e@,
            ),
        },
    decreases node, 6int,
{
    proof {
        lemma_view_parse_nodes(node.children@);
    }
    if node.children.len() == 0 {
        return Err(CrgError::MalformedNode(RuleTag::ScopeLiteral.name()));
    }
    parse_scope_inner(&node.children[0])
}

/// Translates a scope expression through its sole child.
fn parse_scope_expr(node: &ParseNode) -> (r: Result<ScopeValue, CrgError>)
    ensures
        match r {
            Ok(x) => spec_build_scope_expr(node@) == Ok::<Seq<SpecScopeItem>, SpecCrgError>(x@),
            Err(e) => spec_build_scope_expr(node@) == Err::<Seq<SpecScopeItem>, SpecCrgError>(e@),
        },
    decreases node, 7int,
{
    proof {
        lemma_view_parse_nodes(node.children@);
    }
    if node.children.len() == 0 {
        return Err(CrgError::MalformedNode(RuleTag::ScopeExpr.name()));
    }
    parse_scope_literal(&node.children[0])
}

/// Translates a scope statement through its sole child.
fn parse_scope_stmt(node: &ParseNode) -> (r: Result<ScopeValue, CrgError>)
    ensures
        match r {
            Ok(x) => spec_build_scope_stmt(node@) == Ok::<Seq<SpecScopeItem>, SpecCrgError>(x@),
            Err(e) => spec_build_scope_stmt(node@) == Err::<Seq<SpecScopeItem>, SpecCrgError>(e@),
        },
    decreases node, 8int,
{
    proof {
        lemma_view_parse_nodes(node.children@);
    }
    if node.children.len() == 0 {
        return Err(CrgError::MalformedNode(RuleTag::ScopeStmt.name()));
    }
    parse_scope_expr(&node.children[0])
}

/// Translates the root scope of a document through its sole child.
fn parse_root_scope(node: &ParseNode) -> (r: Result<ScopeValue, CrgError>)
    ensures
        match r {
            Ok(x) => spec_build_root_scope(node@) == Ok::<Seq<SpecScopeItem>, SpecCrgError>(x@),
            Err(e) => spec_build_root_scope(node@) == Err::<Seq<SpecScopeItem>, SpecCrgError>(e@),
        },
{
    proof {
        lemma_view_parse_nodes(node.children@);
    }
    if node.children.len() == 0 {
        return Err(CrgError::MalformedNode(RuleTag::Scope.name()));
    }
    parse_scope_inner(&node.children[0])
}

/// Translates a whole parse tree into a document: the tree must be a
/// document node whose child holds the root scope.
pub fn to_node(node: &ParseNode) -> (r: Result<Node, CrgError>)
    ensures
        match r {
            Ok(x) => spec_build_node(node@) == Ok::<Seq<SpecScopeItem>, SpecCrgError>(x@),
            Err(e) => spec_build_node(node@) == Err::<Seq<SpecScopeItem>, SpecCrgError>(e@),
        },
{
    proof {
        lemma_view_parse_nodes(node.children@);
    }
    if !matches!(node.rule, RuleTag::Document) {
        return Err(CrgError::UnsupportedConstruct(node.rule.name()));
    }
    if node.children.len() == 0 {
        return Err(CrgError::MalformedNode(RuleTag::Document.name()));
    }
    match parse_root_scope(&node.children[0]) {
        Ok(sc) => Ok(Node::Root(sc)),
        Err(e) => Err(e),
    }
}

} // verus!
