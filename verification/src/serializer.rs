//! The serializer: renders any value or syntax-tree node to a stable,
//! compact, tagged textual encoding. A tagged-union variant with a single
//! transparent payload is rendered as that payload; any other variant is
//! rendered as an object with one field per constructor argument, in
//! declaration order; runtime value variants use lower camel case, syntax
//! variants their declared names. A quote, a backslash, a newline, a tab or
//! a carriage return inside a string is escaped with a backslash; any other
//! character stands for itself.

use vstd::prelude::*;

use crate::error::CrgError;
use crate::ast::{
    BindKeywords, ContextEffect, ContextType, Effect, EffectType, Expr, LetExpr, Node, Op,
    ScopeInnerValue, ScopeValue, Slice, SnapshotValue, SnapshotValueItemValue,
    SpecContextEffect, SpecContextType, SpecEffect, SpecEffectType, SpecEntry, SpecExpr,
    SpecLetExpr, SpecScopeItem, SpecSnapshotItem, SpecStateLabel, SpecStmt, SpecTransitionEffect,
    SpecTypeExpr, SpecTypeSymbol, SpecTypeValue, SpecValue, SpecValueSymbol, StateLabel,
    StateMachine, Stmt, TransitionEffect, TypeExpr, TypeKind, TypeSymbol, TypeValue, Value,
    ValueSymbol,
};

verus! {

// ---------------------------------------------------------------------------
// Ghost encoding: characters and numbers
// ---------------------------------------------------------------------------

/// How one character is written inside a quoted string.
pub open spec fn spec_escape_char(c: char) -> Seq<char> {
    if c == '"' {
        seq!['\\', '"']
    } else if c == '\\' {
        seq!['\\', '\\']
    } else if c == '\n' {
        seq!['\\', 'n']
    } else if c == '\t' {
        seq!['\\', 't']
    } else if c == '\r' {
        seq!['\\', 'r']
    } else {
        seq![c]
    }
}

/// How a whole string's characters are written, in order.
pub open spec fn spec_escape(s: Seq<char>) -> Seq<char>
    decreases s.len(),
{
    if s.len() == 0 {
        Seq::empty()
    } else {
        spec_escape(s.drop_last()) + spec_escape_char(s.last())
    }
}

/// A quoted, escaped string.
pub open spec fn spec_quoted(s: Seq<char>) -> Seq<char> {
    seq!['"'] + spec_escape(s) + seq!['"']
}

/// The decimal digits of a non-negative integer, most significant first.
pub open spec fn spec_uint_str(n: int) -> Seq<char>
    recommends
        n >= 0,
    decreases n,
{
    if n < 10 {
        seq![spec_digit_char(n)]
    } else {
        spec_uint_str(n / 10) + seq![spec_digit_char(n % 10)]
    }
}

/// The character of one decimal digit.
pub open spec fn spec_digit_char(d: int) -> char {
    if d == 0 {
        '0'
    } else if d == 1 {
        '1'
    } else if d == 2 {
        '2'
    } else if d == 3 {
        '3'
    } else if d == 4 {
        '4'
    } else if d == 5 {
        '5'
    } else if d == 6 {
        '6'
    } else if d == 7 {
        '7'
    } else if d == 8 {
        '8'
    } else {
        '9'
    }
}

/// The decimal rendering of an integer, with a sign where negative.
pub open spec fn spec_int_str(n: int) -> Seq<char> {
    if n < 0 {
        seq!['-'] + spec_uint_str(-n)
    } else {
        spec_uint_str(n)
    }
}

// ---------------------------------------------------------------------------
// Executable encoding: characters and numbers
// ---------------------------------------------------------------------------

/// Appends a string's characters to the output, escaped and quoted.
fn write_quoted(out: &mut String, s: &str)
    ensures
        final(out)@ == old(out)@ + spec_quoted(s@),
{
    let len = s.unicode_len();
    proof {
        reveal_strlit("\"");
        reveal_strlit("\\\"");
        reveal_strlit("\\\\");
        reveal_strlit("\\n");
        reveal_strlit("\\t");
        reveal_strlit("\\r");
    }
    out.append("\"");
    let ghost base = out@;
    proof {
        assert("\""@ =~= seq!['"']);
        assert(s@.subrange(0, 0) =~= Seq::<char>::empty());
        assert(out@ =~= base + spec_escape(s@.subrange(0, 0)));
    }
    let mut i: usize = 0;
    while i < len
        invariant
            i <= len,
            len == s@.len(),
            out@ == base + spec_escape(s@.subrange(0, i as int)),
        decreases len - i,
    {
        proof {
            assert(s@.subrange(0, i as int + 1).drop_last() =~= s@.subrange(0, i as int));
            assert(s@.subrange(0, i as int + 1).last() == s@[i as int]);
        }
        let c = s.get_char(i);
        if c == '"' {
            out.append("\\\"");
            proof {
                reveal_strlit("\\\"");
                assert("\\\""@ =~= seq!['\\', '"']);
                proof_escape_two(base, s@, i as int, out@);
            }
        } else if c == '\\' {
            out.append("\\\\");
            proof {
                reveal_strlit("\\\\");
                assert("\\\\"@ =~= seq!['\\', '\\']);
                proof_escape_two(base, s@, i as int, out@);
            }
        } else if c == '\n' {
            out.append("\\n");
            proof {
                reveal_strlit("\\n");
                assert("\\n"@ =~= seq!['\\', 'n']);
                proof_escape_two(base, s@, i as int, out@);
            }
        } else if c == '\t' {
            out.append("\\t");
            proof {
                reveal_strlit("\\t");
                assert("\\t"@ =~= seq!['\\', 't']);
                proof_escape_two(base, s@, i as int, out@);
            }
        } else if c == '\r' {
            out.append("\\r");
            proof {
                reveal_strlit("\\r");
                assert("\\r"@ =~= seq!['\\', 'r']);
                proof_escape_two(base, s@, i as int, out@);
            }
        } else {
            let piece = s.substring_char(i, i + 1);
            out.append(piece);
            proof {
                assert(piece@ =~= seq![s@[i as int]]);
                proof_escape_two(base, s@, i as int, out@);
            }
        }
        i += 1;
    }
    proof {
        assert(s@.subrange(0, s@.len() as int) =~= s@);
    }
    out.append("\"");
    proof {
        reveal_strlit("\"");
        assert("\""@ =~= seq!['"']);
        assert(out@ =~= old(out)@ + spec_quoted(s@));
    }
}

/// The output after one more character equals the escape of one more
/// character of the input.
proof fn proof_escape_two(base: Seq<char>, s: Seq<char>, i: int, now: Seq<char>)
    requires
        0 <= i < s.len(),
        now =~= base + spec_escape(s.subrange(0, i)) + spec_escape_char(s[i]),
    ensures
        now == base + spec_escape(s.subrange(0, i + 1)),
{
    assert(s.subrange(0, i + 1).drop_last() =~= s.subrange(0, i));
    assert(s.subrange(0, i + 1).last() == s[i]);
    assert(base + spec_escape(s.subrange(0, i)) + spec_escape_char(s[i]) =~= base + (spec_escape(
        s.subrange(0, i),
    ) + spec_escape_char(s[i])));
}

/// Appends the decimal digits of a non-negative number.
fn write_uint(out: &mut String, m: u64)
    ensures
        final(out)@ == old(out)@ + spec_uint_str(m as int),
    decreases m,
{
    if m >= 10 {
        write_uint(out, m / 10);
    }
    let d = m % 10;
    let piece: &str = if d == 0 {
        "0"
    } else if d == 1 {
        "1"
    } else if d == 2 {
        "2"
    } else if d == 3 {
        "3"
    } else if d == 4 {
        "4"
    } else if d == 5 {
        "5"
    } else if d == 6 {
        "6"
    } else if d == 7 {
        "7"
    } else if d == 8 {
        "8"
    } else {
        "9"
    };
    proof {
        reveal_strlit("0");
        reveal_strlit("1");
        reveal_strlit("2");
        reveal_strlit("3");
        reveal_strlit("4");
        reveal_strlit("5");
        reveal_strlit("6");
        reveal_strlit("7");
        reveal_strlit("8");
        reveal_strlit("9");
        assert(piece@ =~= seq![spec_digit_char(d as int)]);
    }
    out.append(piece);
    proof {
        if m >= 10 {
            assert(old(out)@ + spec_uint_str((m / 10) as int) + piece@ =~= old(out)@ + (
            spec_uint_str(m as int / 10) + seq![spec_digit_char(m as int % 10)]));
        }
    }
}

/// Appends the decimal rendering of a machine integer.
fn write_int(out: &mut String, n: i64)
    ensures
        final(out)@ == old(out)@ + spec_int_str(n as int),
{
    if n >= 0 {
        write_uint(out, n as u64);
    } else {
        out.append("-");
        let ghost mid = out@;
        let mag: u64 = if n == i64::MIN {
            9223372036854775808u64
        } else {
            (-n) as u64
        };
        write_uint(out, mag);
        proof {
            reveal_strlit("-");
            assert(out@ =~= old(out)@ + (seq!['-'] + spec_uint_str(-(n as int))));
        }
    }
}

} // verus!

verus! {

// ---------------------------------------------------------------------------
// Ghost encoding: values and syntax nodes
// ---------------------------------------------------------------------------

/// An object with a single tagged field.
pub open spec fn spec_obj1(tag: Seq<char>, body: Seq<char>) -> Seq<char> {
    seq!['{'] + spec_quoted(tag) + seq![':'] + body + seq!['}']
}

/// A two-element array.
pub open spec fn spec_arr2(a: Seq<char>, b: Seq<char>) -> Seq<char> {
    seq!['['] + a + seq![','] + b + seq![']']
}

/// The rendering of a state label.
pub open spec fn spec_json_state_label(l: SpecStateLabel) -> Seq<char> {
    match l {
        SpecStateLabel::Id => spec_quoted("Id"@),
        SpecStateLabel::Empty => spec_quoted("Empty"@),
        SpecStateLabel::Label(s) => spec_obj1("Label"@, spec_quoted(s)),
    }
}

/// The rendering of a transition effect.
pub open spec fn spec_json_transition(t: SpecTransitionEffect) -> Seq<char> {
    match t {
        SpecTransitionEffect::Id => spec_quoted("Id"@),
        SpecTransitionEffect::Empty => spec_quoted("Empty"@),
        SpecTransitionEffect::StateLabel(l) => spec_obj1("StateLabel"@, spec_json_state_label(l)),
    }
}

/// The rendering of an effect.
pub open spec fn spec_json_effect(e: SpecEffect) -> Seq<char> {
    match e {
        SpecEffect::Id => spec_quoted("id"@),
        SpecEffect::Empty => spec_quoted("empty"@),
        SpecEffect::Add(n) => spec_obj1("addEffect"@, spec_int_str(n)),
        SpecEffect::Transition(t) => spec_obj1("transitionEffect"@, spec_json_transition(t)),
    }
}

/// The rendering of one snapshot entry's value.
pub open spec fn spec_json_entry(v: SpecEntry) -> Seq<char> {
    match v {
        SpecEntry::Id => spec_quoted("Id"@),
        SpecEntry::Empty => spec_quoted("Empty"@),
        SpecEntry::Int(n) => spec_obj1("Int"@, spec_int_str(n)),
        SpecEntry::State(l) => spec_obj1("StateLabel"@, spec_json_state_label(l)),
    }
}

/// The rendering of one context effect: its label and its effect, paired.
pub open spec fn spec_json_ce(ce: SpecContextEffect) -> Seq<char> {
    spec_arr2(spec_quoted(ce.label), spec_json_effect(ce.effect))
}

/// The comma-joined renderings of a slice's elements.
pub open spec fn spec_json_ce_join(items: Seq<SpecContextEffect>) -> Seq<char>
    decreases items.len(),
{
    if items.len() == 0 {
        Seq::empty()
    } else if items.len() == 1 {
        spec_json_ce(items[0])
    } else {
        spec_json_ce_join(items.drop_last()) + seq![','] + spec_json_ce(items.last())
    }
}

/// The rendering of a slice.
pub open spec fn spec_json_slice(items: Seq<SpecContextEffect>) -> Seq<char> {
    seq!['['] + spec_json_ce_join(items) + seq![']']
}

/// The rendering of one labelled snapshot entry.
pub open spec fn spec_json_snapshot_item(it: SpecSnapshotItem) -> Seq<char> {
    spec_arr2(spec_quoted(it.label), spec_json_entry(it.value))
}

/// The comma-joined renderings of a snapshot's entries.
pub open spec fn spec_json_snapshot_join(items: Seq<SpecSnapshotItem>) -> Seq<char>
    decreases items.len(),
{
    if items.len() == 0 {
        Seq::empty()
    } else if items.len() == 1 {
        spec_json_snapshot_item(items[0])
    } else {
        spec_json_snapshot_join(items.drop_last()) + seq![','] + spec_json_snapshot_item(
            items.last(),
        )
    }
}

/// The rendering of a snapshot.
pub open spec fn spec_json_snapshot(items: Seq<SpecSnapshotItem>) -> Seq<char> {
    seq!['['] + spec_json_snapshot_join(items) + seq![']']
}

/// The rendering of an operator.
pub open spec fn spec_json_op(op: Op) -> Seq<char> {
    match op {
        Op::Compose => spec_quoted("Compose"@),
        Op::Apply => spec_quoted("Apply"@),
        Op::Reduce => spec_quoted("Reduce"@),
        Op::Push => spec_quoted("Push"@),
    }
}

/// The rendering of a value symbol's declared kind.
pub open spec fn spec_json_bind_keyword(k: BindKeywords) -> Seq<char> {
    match k {
        BindKeywords::Slice => spec_quoted("Slice"@),
        BindKeywords::Effect => spec_quoted("Effect"@),
        BindKeywords::ContextEffect => spec_quoted("ContextEffect"@),
        BindKeywords::Context => spec_quoted("Context"@),
        BindKeywords::Snapshot => spec_quoted("Snapshot"@),
    }
}

/// The rendering of a value symbol: its name and kind, in declaration
/// order.
pub open spec fn spec_json_value_symbol(s: SpecValueSymbol) -> Seq<char> {
    seq!['{'] + spec_quoted("name"@) + seq![':'] + spec_quoted(s.name) + seq![','] + spec_quoted(
        "kind"@,
    ) + seq![':'] + spec_json_bind_keyword(s.kind) + seq!['}']
}

/// The rendering of a type symbol's declared kind.
pub open spec fn spec_json_type_kind(k: TypeKind) -> Seq<char> {
    match k {
        TypeKind::StateMachine => spec_quoted("StateMachine"@),
        TypeKind::Snapshot => spec_quoted("Snapshot"@),
        TypeKind::Context => spec_quoted("Context"@),
    }
}

/// The rendering of a type symbol: its name and kind, in declaration order.
pub open spec fn spec_json_type_symbol(s: SpecTypeSymbol) -> Seq<char> {
    seq!['{'] + spec_quoted("name"@) + seq![':'] + spec_quoted(s.name) + seq![','] + spec_quoted(
        "kind"@,
    ) + seq![':'] + spec_json_type_kind(s.kind) + seq!['}']
}

/// The rendering of an effect type.
pub open spec fn spec_json_effect_type(t: SpecEffectType) -> Seq<char> {
    match t {
        SpecEffectType::Id => spec_quoted("Id"@),
        SpecEffectType::Empty => spec_quoted("Empty"@),
        SpecEffectType::Int => spec_quoted("Int"@),
        SpecEffectType::StateMachine => spec_quoted("StateMachine"@),
        SpecEffectType::TypeSymbolReference(n) => spec_obj1(
            "TypeSymbolReference"@,
            spec_quoted(n),
        ),
    }
}

/// The rendering of one labelled context type.
pub open spec fn spec_json_context_type(ct: SpecContextType) -> Seq<char> {
    spec_arr2(spec_quoted(ct.label), spec_json_effect_type(ct.effect))
}

/// The comma-joined renderings of a snapshot type's contexts.
pub open spec fn spec_json_context_type_join(items: Seq<SpecContextType>) -> Seq<char>
    decreases items.len(),
{
    if items.len() == 0 {
        Seq::empty()
    } else if items.len() == 1 {
        spec_json_context_type(items[0])
    } else {
        spec_json_context_type_join(items.drop_last()) + seq![','] + spec_json_context_type(
            items.last(),
        )
    }
}

/// The comma-joined renderings of a state machine's labels.
pub open spec fn spec_json_state_label_join(items: Seq<SpecStateLabel>) -> Seq<char>
    decreases items.len(),
{
    if items.len() == 0 {
        Seq::empty()
    } else if items.len() == 1 {
        spec_json_state_label(items[0])
    } else {
        spec_json_state_label_join(items.drop_last()) + seq![','] + spec_json_state_label(
            items.last(),
        )
    }
}

/// The rendering of a type value.
pub open spec fn spec_json_type_value(tv: SpecTypeValue) -> Seq<char> {
    match tv {
        SpecTypeValue::Id => spec_quoted("Id"@),
        SpecTypeValue::Empty => spec_quoted("Empty"@),
        SpecTypeValue::Int => spec_quoted("Int"@),
        SpecTypeValue::TypeSymbol(s) => spec_obj1("TypeSymbol"@, spec_json_type_symbol(s)),
        SpecTypeValue::StateMachine(items) => spec_obj1(
            "StateMachine"@,
            seq!['['] + spec_json_state_label_join(items) + seq![']'],
        ),
        SpecTypeValue::Snapshot(items) => spec_obj1(
            "Snapshot"@,
            seq!['['] + spec_json_context_type_join(items) + seq![']'],
        ),
        SpecTypeValue::Context(ct) => spec_obj1("Context"@, spec_json_context_type(ct)),
    }
}

/// The rendering of a type-level statement.
pub open spec fn spec_json_type_expr(t: SpecTypeExpr) -> Seq<char> {
    match t {
        SpecTypeExpr::Bind(s) => spec_obj1("Bind"@, spec_json_type_symbol(s)),
        SpecTypeExpr::Assign(s, v) => spec_obj1(
            "Assign"@,
            seq!['{'] + spec_quoted("symbol"@) + seq![':'] + spec_json_type_symbol(s) + seq![',']
                + spec_quoted("value"@) + seq![':'] + spec_json_type_value(v) + seq!['}'],
        ),
        SpecTypeExpr::Id(v) => spec_obj1("Id"@, spec_json_type_value(v)),
    }
}

/// The rendering of a runtime value.
pub open spec fn spec_json_value(v: SpecValue) -> Seq<char>
    decreases v, 0int,
{
    match v {
        SpecValue::Id => spec_quoted("id"@),
        SpecValue::Empty => spec_quoted("empty"@),
        SpecValue::Effect(e) => spec_obj1("effect"@, spec_json_effect(e)),
        SpecValue::Context(l) => spec_obj1("context"@, spec_quoted(l)),
        SpecValue::ContextEffect(ce) => spec_obj1("contextEffect"@, spec_json_ce(ce)),
        SpecValue::Slice(items) => spec_obj1("slice"@, spec_json_slice(items)),
        SpecValue::Snapshot(items) => spec_obj1("snapshot"@, spec_json_snapshot(items)),
        SpecValue::Scope(items) => spec_obj1("scope"@, spec_json_scope_list(items)),
    }
}

/// The rendering of a scope: its items, in order, as an array.
pub open spec fn spec_json_scope_list(items: Seq<SpecScopeItem>) -> Seq<char>
    decreases items, 2int,
{
    seq!['['] + spec_json_scope_join(items) + seq![']']
}

/// The comma-joined renderings of a scope's items.
pub open spec fn spec_json_scope_join(items: Seq<SpecScopeItem>) -> Seq<char>
    decreases items, 1int,
{
    if items.len() == 0 {
        Seq::empty()
    } else if items.len() == 1 {
        spec_json_scope_item(items[0])
    } else {
        spec_json_scope_join(items.drop_last()) + seq![','] + spec_json_scope_item(items.last())
    }
}

/// The rendering of one scope item: the payload stands on its own.
pub open spec fn spec_json_scope_item(item: SpecScopeItem) -> Seq<char>
    decreases item, 2int,
{
    match item {
        SpecScopeItem::Comment(c) => spec_quoted(c),
        SpecScopeItem::Stmt(s) => spec_json_stmt(s),
        SpecScopeItem::Expr(e) => spec_json_expr(e),
    }
}

/// The rendering of a statement.
pub open spec fn spec_json_stmt(s: SpecStmt) -> Seq<char>
    decreases s, 3int,
{
    match s {
        SpecStmt::Expr(e) => spec_obj1("Expr"@, spec_json_expr(e)),
        SpecStmt::TypeStmt(t) => spec_obj1("TypeStmt"@, spec_json_type_expr(t)),
        SpecStmt::LetStmt(l) => spec_obj1("LetStmt"@, spec_json_let_expr(l)),
        SpecStmt::ScopeStmt(items) => spec_obj1("ScopeStmt"@, spec_json_scope_list(items)),
    }
}

/// The rendering of a value-level binding statement.
pub open spec fn spec_json_let_expr(l: SpecLetExpr) -> Seq<char>
    decreases l, 1int,
{
    match l {
        SpecLetExpr::Bind(s) => spec_obj1("Bind"@, spec_json_value_symbol(s)),
        SpecLetExpr::Assign(s, e) => spec_obj1(
            "Assign"@,
            seq!['{'] + spec_quoted("symbol"@) + seq![':'] + spec_json_value_symbol(s) + seq![',']
                + spec_quoted("expr"@) + seq![':'] + spec_json_expr(e) + seq!['}'],
        ),
    }
}

/// The rendering of an expression.
pub open spec fn spec_json_expr(e: SpecExpr) -> Seq<char>
    decreases e, 1int,
{
    match e {
        SpecExpr::Id(v) => spec_obj1("Id"@, spec_json_value(v)),
        SpecExpr::Op(op, lhs, rhs) => spec_obj1(
            "Op"@,
            seq!['['] + spec_json_op(op) + seq![','] + spec_json_expr(*lhs) + seq![',']
                + spec_json_expr(*rhs) + seq![']'],
        ),
        SpecExpr::Reference(name) => spec_obj1("Reference"@, spec_quoted(name)),
    }
}

} // verus!

verus! {

// ---------------------------------------------------------------------------
// Executable encoding: values and syntax nodes
// ---------------------------------------------------------------------------

fn w_open(out: &mut String)
    ensures
        final(out)@ == old(out)@ + seq!['{'],
{
    out.append("{");
    proof {
        reveal_strlit("{");
        assert(out@ =~= old(out)@ + seq!['{']);
    }
}

fn w_close(out: &mut String)
    ensures
        final(out)@ == old(out)@ + seq!['}'],
{
    out.append("}");
    proof {
        reveal_strlit("}");
        assert(out@ =~= old(out)@ + seq!['}']);
    }
}

fn w_colon(out: &mut String)
    ensures
        final(out)@ == old(out)@ + seq![':'],
{
    out.append(":");
    proof {
        reveal_strlit(":");
        assert(out@ =~= old(out)@ + seq![':']);
    }
}

fn w_comma(out: &mut String)
    ensures
        final(out)@ == old(out)@ + seq![','],
{
    out.append(",");
    proof {
        reveal_strlit(",");
        assert(out@ =~= old(out)@ + seq![',']);
    }
}

fn w_lbrack(out: &mut String)
    ensures
        final(out)@ == old(out)@ + seq!['['],
{
    out.append("[");
    proof {
        reveal_strlit("[");
        assert(out@ =~= old(out)@ + seq!['[']);
    }
}

fn w_rbrack(out: &mut String)
    ensures
        final(out)@ == old(out)@ + seq![']'],
{
    out.append("]");
    proof {
        reveal_strlit("]");
        assert(out@ =~= old(out)@ + seq![']']);
    }
}

/// Appends a state label's rendering.
fn write_state_label(l: &StateLabel, out: &mut String)
    ensures
        final(out)@ == old(out)@ + spec_json_state_label(l@),
{
    match l {
        StateLabel::Id => write_quoted(out, "Id"),
        StateLabel::Empty => write_quoted(out, "Empty"),
        StateLabel::Label(s) => {
            w_open(out);
            write_quoted(out, "Label");
            w_colon(out);
            write_quoted(out, s.as_str());
            w_close(out);
            proof {
                assert(out@ =~= old(out)@ + spec_json_state_label(l@));
            }
        },
    }
}

/// Appends a transition effect's rendering.
fn write_transition(t: &TransitionEffect, out: &mut String)
    ensures
        final(out)@ == old(out)@ + spec_json_transition(t@),
{
    match t {
        TransitionEffect::Id => write_quoted(out, "Id"),
        TransitionEffect::Empty => write_quoted(out, "Empty"),
        TransitionEffect::StateLabel(l) => {
            w_open(out);
            write_quoted(out, "StateLabel");
            w_colon(out);
            write_state_label(l, out);
            w_close(out);
            proof {
                assert(out@ =~= old(out)@ + spec_json_transition(t@));
            }
        },
    }
}

/// Appends an effect's rendering.
fn write_effect(e: &Effect, out: &mut String)
    ensures
        final(out)@ == old(out)@ + spec_json_effect(e@),
{
    match e {
        Effect::Id => write_quoted(out, "id"),
        Effect::Empty => write_quoted(out, "empty"),
        Effect::AddEffect(a) => {
            w_open(out);
            write_quoted(out, "addEffect");
            w_colon(out);
            write_int(out, a.0);
            w_close(out);
            proof {
                assert(out@ =~= old(out)@ + spec_json_effect(e@));
            }
        },
        Effect::TransitionEffect(t) => {
            w_open(out);
            write_quoted(out, "transitionEffect");
            w_colon(out);
            write_transition(t, out);
            w_close(out);
            proof {
                assert(out@ =~= old(out)@ + spec_json_effect(e@));
            }
        },
    }
}

/// Appends the rendering of one snapshot entry's value.
fn write_entry(v: &SnapshotValueItemValue, out: &mut String)
    ensures
        final(out)@ == old(out)@ + spec_json_entry(v@),
{
    match v {
        SnapshotValueItemValue::Id => write_quoted(out, "Id"),
        SnapshotValueItemValue::Empty => write_quoted(out, "Empty"),
        SnapshotValueItemValue::Int(n) => {
            w_open(out);
            write_quoted(out, "Int");
            w_colon(out);
            write_int(out, n.0);
            w_close(out);
            proof {
                assert(out@ =~= old(out)@ + spec_json_entry(v@));
            }
        },
        SnapshotValueItemValue::StateLabel(l) => {
            w_open(out);
            write_quoted(out, "StateLabel");
            w_colon(out);
            write_state_label(l, out);
            w_close(out);
            proof {
                assert(out@ =~= old(out)@ + spec_json_entry(v@));
            }
        },
    }
}

/// Appends the rendering of one context effect.
fn write_ce(ce: &ContextEffect, out: &mut String)
    ensures
        final(out)@ == old(out)@ + spec_json_ce(ce@),
{
    w_lbrack(out);
    write_quoted(out, ce.0.0.as_str());
    w_comma(out);
    write_effect(&ce.1, out);
    w_rbrack(out);
    proof {
        assert(out@ =~= old(out)@ + spec_json_ce(ce@));
    }
}

/// Appends a slice's rendering: its context effects, in order.
fn write_slice(s: &Slice, out: &mut String)
    ensures
        final(out)@ == old(out)@ + spec_json_slice(s@),
{
    w_lbrack(out);
    let ghost base = out@;
    proof {
        assert(s@.subrange(0, 0) =~= Seq::<SpecContextEffect>::empty());
        assert(out@ =~= base + spec_json_ce_join(s@.subrange(0, 0)));
    }
    let mut i: usize = 0;
    while i < s.0.len()
        invariant
            i <= s.0.len(),
            s@.len() == s.0@.len(),
            out@ == base + spec_json_ce_join(s@.subrange(0, i as int)),
        decreases s.0.len() - i,
    {
        proof {
            assert(s@.subrange(0, i as int + 1).drop_last() =~= s@.subrange(0, i as int));
            assert(s@.subrange(0, i as int + 1).last() == s@[i as int]);
        }
        if i > 0 {
            w_comma(out);
        }
        write_ce(&s.0[i], out);
        proof {
            if i == 0 {
                assert(out@ =~= base + spec_json_ce_join(s@.subrange(0, 1)));
            } else {
                assert(out@ =~= base + spec_json_ce_join(s@.subrange(0, i as int + 1)));
            }
        }
        i += 1;
    }
    proof {
        assert(s@.subrange(0, s@.len() as int) =~= s@);
    }
    w_rbrack(out);
    proof {
        assert(out@ =~= old(out)@ + spec_json_slice(s@));
    }
}

/// Appends a snapshot's rendering: its labelled entries, in order.
fn write_snapshot(s: &SnapshotValue, out: &mut String)
    ensures
        final(out)@ == old(out)@ + spec_json_snapshot(s@),
{
    w_lbrack(out);
    let ghost base = out@;
    proof {
        assert(s@.subrange(0, 0) =~= Seq::<SpecSnapshotItem>::empty());
        assert(out@ =~= base + spec_json_snapshot_join(s@.subrange(0, 0)));
    }
    let mut i: usize = 0;
    while i < s.0.len()
        invariant
            i <= s.0.len(),
            s@.len() == s.0@.len(),
            out@ == base + spec_json_snapshot_join(s@.subrange(0, i as int)),
        decreases s.0.len() - i,
    {
        proof {
            assert(s@.subrange(0, i as int + 1).drop_last() =~= s@.subrange(0, i as int));
            assert(s@.subrange(0, i as int + 1).last() == s@[i as int]);
        }
        if i > 0 {
            w_comma(out);
        }
        w_lbrack(out);
        write_quoted(out, s.0[i].0.0.as_str());
        w_comma(out);
        write_entry(&s.0[i].1, out);
        w_rbrack(out);
        proof {
            assert(out@ =~= base + spec_json_snapshot_join(s@.subrange(0, i as int + 1)));
        }
        i += 1;
    }
    proof {
        assert(s@.subrange(0, s@.len() as int) =~= s@);
    }
    w_rbrack(out);
    proof {
        assert(out@ =~= old(out)@ + spec_json_snapshot(s@));
    }
}

} // verus!

verus! {

/// Appends an operator's rendering.
fn write_op(op: &Op, out: &mut String)
    ensures
        final(out)@ == old(out)@ + spec_json_op(*op),
{
    match op {
        Op::Compose => write_quoted(out, "Compose"),
        Op::Apply => write_quoted(out, "Apply"),
        Op::Reduce => write_quoted(out, "Reduce"),
        Op::Push => write_quoted(out, "Push"),
    }
}

/// Appends the rendering of a value symbol's declared kind.
fn write_bind_keyword(k: &BindKeywords, out: &mut String)
    ensures
        final(out)@ == old(out)@ + spec_json_bind_keyword(*k),
{
    match k {
        BindKeywords::Slice => write_quoted(out, "Slice"),
        BindKeywords::Effect => write_quoted(out, "Effect"),
        BindKeywords::ContextEffect => write_quoted(out, "ContextEffect"),
        BindKeywords::Context => write_quoted(out, "Context"),
        BindKeywords::Snapshot => write_quoted(out, "Snapshot"),
    }
}

/// Appends a value symbol's rendering.
fn write_value_symbol(s: &ValueSymbol, out: &mut String)
    ensures
        final(out)@ == old(out)@ + spec_json_value_symbol(s@),
{
    w_open(out);
    write_quoted(out, "name");
    w_colon(out);
    write_quoted(out, s.name.0.as_str());
    w_comma(out);
    write_quoted(out, "kind");
    w_colon(out);
    write_bind_keyword(&s.kind, out);
    w_close(out);
    proof {
        assert(out@ =~= old(out)@ + spec_json_value_symbol(s@));
    }
}

/// Appends the rendering of a type symbol's declared kind.
fn write_type_kind(k: &TypeKind, out: &mut String)
    ensures
        final(out)@ == old(out)@ + spec_json_type_kind(*k),
{
    match k {
        TypeKind::StateMachine => write_quoted(out, "StateMachine"),
        TypeKind::Snapshot => write_quoted(out, "Snapshot"),
        TypeKind::Context => write_quoted(out, "Context"),
    }
}

/// Appends a type symbol's rendering.
fn write_type_symbol(s: &TypeSymbol, out: &mut String)
    ensures
        final(out)@ == old(out)@ + spec_json_type_symbol(s@),
{
    w_open(out);
    write_quoted(out, "name");
    w_colon(out);
    write_quoted(out, s.name.0.as_str());
    w_comma(out);
    write_quoted(out, "kind");
    w_colon(out);
    write_type_kind(&s.kind, out);
    w_close(out);
    proof {
        assert(out@ =~= old(out)@ + spec_json_type_symbol(s@));
    }
}

/// Appends an effect type's rendering.
fn write_effect_type(t: &EffectType, out: &mut String)
    ensures
        final(out)@ == old(out)@ + spec_json_effect_type(t@),
{
    match t {
        EffectType::Id => write_quoted(out, "Id"),
        EffectType::Empty => write_quoted(out, "Empty"),
        EffectType::Int => write_quoted(out, "Int"),
        EffectType::StateMachine => write_quoted(out, "StateMachine"),
        EffectType::TypeSymbolReference(n) => {
            w_open(out);
            write_quoted(out, "TypeSymbolReference");
            w_colon(out);
            write_quoted(out, n.0.as_str());
            w_close(out);
            proof {
                assert(out@ =~= old(out)@ + spec_json_effect_type(t@));
            }
        },
    }
}

/// Appends one labelled context type's rendering.
fn write_context_type(ct: &ContextType, out: &mut String)
    ensures
        final(out)@ == old(out)@ + spec_json_context_type(ct@),
{
    w_lbrack(out);
    write_quoted(out, ct.0.0.as_str());
    w_comma(out);
    write_effect_type(&ct.1, out);
    w_rbrack(out);
    proof {
        assert(out@ =~= old(out)@ + spec_json_context_type(ct@));
    }
}

/// Appends a type value's rendering.
fn write_type_value(tv: &TypeValue, out: &mut String)
    ensures
        final(out)@ == old(out)@ + spec_json_type_value(tv@),
{
    match tv {
        TypeValue::Id => write_quoted(out, "Id"),
        TypeValue::Empty => write_quoted(out, "Empty"),
        TypeValue::Int => write_quoted(out, "Int"),
        TypeValue::TypeSymbol(s) => {
            w_open(out);
            write_quoted(out, "TypeSymbol");
            w_colon(out);
            write_type_symbol(s, out);
            w_close(out);
            proof {
                assert(out@ =~= old(out)@ + spec_json_type_value(tv@));
            }
        },
        TypeValue::StateMachine(m) => {
            w_open(out);
            write_quoted(out, "StateMachine");
            w_colon(out);
            w_lbrack(out);
            let ghost base = out@;
            proof {
                assert(m@.subrange(0, 0) =~= Seq::<SpecStateLabel>::empty());
                assert(out@ =~= base + spec_json_state_label_join(m@.subrange(0, 0)));
            }
            let mut i: usize = 0;
            while i < m.0.len()
                invariant
                    i <= m.0.len(),
                    m@.len() == m.0@.len(),
                    out@ == base + spec_json_state_label_join(m@.subrange(0, i as int)),
                decreases m.0.len() - i,
            {
                proof {
                    assert(m@.subrange(0, i as int + 1).drop_last() =~= m@.subrange(0, i as int));
                    assert(m@.subrange(0, i as int + 1).last() == m@[i as int]);
                }
                if i > 0 {
                    w_comma(out);
                }
                write_state_label(&m.0[i], out);
                proof {
                    assert(out@ =~= base + spec_json_state_label_join(
                        m@.subrange(0, i as int + 1),
                    ));
                }
                i += 1;
            }
            proof {
                assert(m@.subrange(0, m@.len() as int) =~= m@);
            }
            w_rbrack(out);
            w_close(out);
            proof {
                assert(out@ =~= old(out)@ + spec_json_type_value(tv@));
            }
        },
        TypeValue::Snapshot(t) => {
            w_open(out);
            write_quoted(out, "Snapshot");
            w_colon(out);
            w_lbrack(out);
            let ghost base = out@;
            proof {
                assert(t@.subrange(0, 0) =~= Seq::<SpecContextType>::empty());
                assert(out@ =~= base + spec_json_context_type_join(t@.subrange(0, 0)));
            }
            let mut i: usize = 0;
            while i < t.0.len()
                invariant
                    i <= t.0.len(),
                    t@.len() == t.0@.len(),
                    out@ == base + spec_json_context_type_join(t@.subrange(0, i as int)),
                decreases t.0.len() - i,
            {
                proof {
                    assert(t@.subrange(0, i as int + 1).drop_last() =~= t@.subrange(0, i as int));
                    assert(t@.subrange(0, i as int + 1).last() == t@[i as int]);
                }
                if i > 0 {
                    w_comma(out);
                }
                write_context_type(&t.0[i], out);
                proof {
                    assert(out@ =~= base + spec_json_context_type_join(
                        t@.subrange(0, i as int + 1),
                    ));
                }
                i += 1;
            }
            proof {
                assert(t@.subrange(0, t@.len() as int) =~= t@);
            }
            w_rbrack(out);
            w_close(out);
            proof {
                assert(out@ =~= old(out)@ + spec_json_type_value(tv@));
            }
        },
        TypeValue::Context(ct) => {
            w_open(out);
            write_quoted(out, "Context");
            w_colon(out);
            write_context_type(ct, out);
            w_close(out);
            proof {
                assert(out@ =~= old(out)@ + spec_json_type_value(tv@));
            }
        },
    }
}

/// Appends a type-level statement's rendering.
fn write_type_expr(t: &TypeExpr, out: &mut String)
    ensures
        final(out)@ == old(out)@ + spec_json_type_expr(t@),
{
    match t {
        TypeExpr::Bind(s) => {
            w_open(out);
            write_quoted(out, "Bind");
            w_colon(out);
            write_type_symbol(s, out);
            w_close(out);
            proof {
                assert(out@ =~= old(out)@ + spec_json_type_expr(t@));
            }
        },
        TypeExpr::Assign { symbol, value } => {
            w_open(out);
            write_quoted(out, "Assign");
            w_colon(out);
            w_open(out);
            write_quoted(out, "symbol");
            w_colon(out);
            write_type_symbol(symbol, out);
            w_comma(out);
            write_quoted(out, "value");
            w_colon(out);
            write_type_value(value, out);
            w_close(out);
            w_close(out);
            proof {
                assert(out@ =~= old(out)@ + spec_json_type_expr(t@));
            }
        },
        TypeExpr::Id(v) => {
            w_open(out);
            write_quoted(out, "Id");
            w_colon(out);
            write_type_value(v, out);
            w_close(out);
            proof {
                assert(out@ =~= old(out)@ + spec_json_type_expr(t@));
            }
        },
    }
}

} // verus!

verus! {

/// Appends a runtime value's rendering.
fn write_value(v: &Value, out: &mut String)
    ensures
        final(out)@ == old(out)@ + spec_json_value(v@),
    decreases v, 0int,
{
    match v {
        Value::Id => write_quoted(out, "id"),
        Value::Empty => write_quoted(out, "empty"),
        Value::Effect(e) => {
            w_open(out);
            write_quoted(out, "effect");
            w_colon(out);
            write_effect(e, out);
            w_close(out);
            proof {
                assert(out@ =~= old(out)@ + spec_json_value(v@));
            }
        },
        Value::Context(l) => {
            w_open(out);
            write_quoted(out, "context");
            w_colon(out);
            write_quoted(out, l.0.as_str());
            w_close(out);
            proof {
                assert(out@ =~= old(out)@ + spec_json_value(v@));
            }
        },
        Value::ContextEffect(ce) => {
            w_open(out);
            write_quoted(out, "contextEffect");
            w_colon(out);
            write_ce(ce, out);
            w_close(out);
            proof {
                assert(out@ =~= old(out)@ + spec_json_value(v@));
            }
        },
        Value::Slice(s) => {
            w_open(out);
            write_quoted(out, "slice");
            w_colon(out);
            write_slice(s, out);
            w_close(out);
            proof {
                assert(out@ =~= old(out)@ + spec_json_value(v@));
            }
        },
        Value::Snapshot(s) => {
            w_open(out);
            write_quoted(out, "snapshot");
            w_colon(out);
            write_snapshot(s, out);
            w_close(out);
            proof {
                assert(out@ =~= old(out)@ + spec_json_value(v@));
            }
        },
        Value::Scope(sc) => {
            w_open(out);
            write_quoted(out, "scope");
            w_colon(out);
            write_scope_value(sc, out);
            w_close(out);
            proof {
                assert(out@ =~= old(out)@ + spec_json_value(v@));
            }
        },
    }
}

/// Appends a scope's rendering: its items, in order.
fn write_scope_value(sc: &ScopeValue, out: &mut String)
    ensures
        final(out)@ == old(out)@ + spec_json_scope_list(sc@),
    decreases sc, 1int,
{
    w_lbrack(out);
    let ghost items = sc@;
    let ghost base = out@;
    proof {
        crate::ast::lemma_view_scope_items(sc.0@);
        assert(items.subrange(0, 0) =~= Seq::<SpecScopeItem>::empty());
        assert(out@ =~= base + spec_json_scope_join(items.subrange(0, 0)));
    }
    let mut i: usize = 0;
    while i < sc.0.len()
        invariant
            i <= sc.0.len(),
            items == sc@,
            items.len() == sc.0@.len(),
            out@ == base + spec_json_scope_join(items.subrange(0, i as int)),
        decreases sc.0.len() - i,
    {
        proof {
            crate::ast::lemma_view_scope_items(sc.0@);
            assert(items.subrange(0, i as int + 1).drop_last() =~= items.subrange(0, i as int));
            assert(items.subrange(0, i as int + 1).last() == items[i as int]);
        }
        if i > 0 {
            w_comma(out);
        }
        write_scope_item(&sc.0[i], out);
        proof {
            assert(out@ =~= base + spec_json_scope_join(items.subrange(0, i as int + 1)));
        }
        i += 1;
    }
    proof {
        assert(items.subrange(0, items.len() as int) =~= items);
    }
    w_rbrack(out);
    proof {
        assert(out@ =~= old(out)@ + spec_json_scope_list(sc@));
    }
}

/// Appends one scope item's rendering: the payload stands on its own.
fn write_scope_item(item: &ScopeInnerValue, out: &mut String)
    ensures
        final(out)@ == old(out)@ + spec_json_scope_item(item@),
    decreases item, 2int,
{
    match item {
        ScopeInnerValue::Comment(c) => write_quoted(out, c.0.as_str()),
        ScopeInnerValue::Stmt(s) => write_stmt(s, out),
        ScopeInnerValue::Expr(e) => write_expr(e, out),
    }
}

/// Appends a statement's rendering.
fn write_stmt(s: &Stmt, out: &mut String)
    ensures
        final(out)@ == old(out)@ + spec_json_stmt(s@),
    decreases s, 3int,
{
    match s {
        Stmt::Expr(e) => {
            w_open(out);
            write_quoted(out, "Expr");
            w_colon(out);
            write_expr(e, out);
            w_close(out);
            proof {
                assert(out@ =~= old(out)@ + spec_json_stmt(s@));
            }
        },
        Stmt::TypeStmt(t) => {
            w_open(out);
            write_quoted(out, "TypeStmt");
            w_colon(out);
            write_type_expr(t, out);
            w_close(out);
            proof {
                assert(out@ =~= old(out)@ + spec_json_stmt(s@));
            }
        },
        Stmt::LetStmt(l) => {
            w_open(out);
            write_quoted(out, "LetStmt");
            w_colon(out);
            write_let_expr(l, out);
            w_close(out);
            proof {
                assert(out@ =~= old(out)@ + spec_json_stmt(s@));
            }
        },
        Stmt::ScopeStmt(sc) => {
            w_open(out);
            write_quoted(out, "ScopeStmt");
            w_colon(out);
            write_scope_value(sc, out);
            w_close(out);
            proof {
                assert(out@ =~= old(out)@ + spec_json_stmt(s@));
            }
        },
    }
}

/// Appends a value-level binding statement's rendering.
fn write_let_expr(l: &LetExpr, out: &mut String)
    ensures
        final(out)@ == old(out)@ + spec_json_let_expr(l@),
    decreases l, 1int,
{
    match l {
        LetExpr::Bind(sym) => {
            w_open(out);
            write_quoted(out, "Bind");
            w_colon(out);
            write_value_symbol(sym, out);
            w_close(out);
            proof {
                assert(out@ =~= old(out)@ + spec_json_let_expr(l@));
            }
        },
        LetExpr::Assign { symbol, expr } => {
            w_open(out);
            write_quoted(out, "Assign");
            w_colon(out);
            w_open(out);
            write_quoted(out, "symbol");
            w_colon(out);
            write_value_symbol(symbol, out);
            w_comma(out);
            write_quoted(out, "expr");
            w_colon(out);
            write_expr(expr, out);
            w_close(out);
            w_close(out);
            proof {
                assert(out@ =~= old(out)@ + spec_json_let_expr(l@));
            }
        },
    }
}

/// Appends an expression's rendering.
fn write_expr(e: &Expr, out: &mut String)
    ensures
        final(out)@ == old(out)@ + spec_json_expr(e@),
    decreases e, 1int,
{
    match e {
        Expr::Id(v) => {
            w_open(out);
            write_quoted(out, "Id");
            w_colon(out);
            write_value(v, out);
            w_close(out);
            proof {
                assert(out@ =~= old(out)@ + spec_json_expr(e@));
            }
        },
        Expr::Op(op, lhs, rhs) => {
            w_open(out);
            write_quoted(out, "Op");
            w_colon(out);
            w_lbrack(out);
            write_op(op, out);
            w_comma(out);
            write_expr(&**lhs, out);
            w_comma(out);
            write_expr(&**rhs, out);
            w_rbrack(out);
            w_close(out);
            proof {
                assert(out@ =~= old(out)@ + spec_json_expr(e@));
            }
        },
        Expr::Reference(r) => {
            w_open(out);
            write_quoted(out, "Reference");
            w_colon(out);
            write_quoted(out, r.0.0.as_str());
            w_close(out);
            proof {
                assert(out@ =~= old(out)@ + spec_json_expr(e@));
            }
        },
    }
}

impl Value {
    /// Renders this value in the compact structured form.
    pub fn to_json(&self) -> (r: String)
        ensures
            r@ == spec_json_value(self@),
    {
        let mut out = String::new();
        write_value(self, &mut out);
        proof {
            assert(out@ =~= spec_json_value(self@));
        }
        out
    }
}

impl Node {
    /// Renders a whole document in the compact structured form: the root
    /// scope stands transparently for the document.
    pub fn to_json(&self) -> (r: Result<String, CrgError>)
        ensures
            r matches Ok(s) && s@ == spec_json_scope_list(self@),
    {
        match self {
            Node::Root(sc) => {
                let mut out = String::new();
                write_scope_value(sc, &mut out);
                proof {
                    assert(out@ =~= spec_json_scope_list(self@));
                }
                Ok(out)
            },
        }
    }

    /// Renders a whole document as a flow-style document in the
    /// human-readable form: a document header line, then the same tagged
    /// encoding as the compact form.
    pub fn to_yaml(&self) -> (r: Result<String, CrgError>)
        ensures
            r matches Ok(s) && s@ == "---\n"@ + spec_json_scope_list(self@),
    {
        match self {
            Node::Root(sc) => {
                let mut out = String::from_str("---\n");
                write_scope_value(sc, &mut out);
                proof {
                    assert(out@ =~= "---\n"@ + spec_json_scope_list(self@));
                }
                Ok(out)
            },
        }
    }
}

} // verus!
