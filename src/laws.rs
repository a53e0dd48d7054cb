//! Properties of the parser and the history that hold for all inputs.
use vstd::prelude::*;
use crate::ast::{AstView, NumeralView};
use crate::error::ErrorView;
use crate::history::{added, history_wf, matching, record_matches, HistoryView, RecordView};
use crate::lexer::TokenView;
use crate::parser::{
    add_rest, add_spec, binary, expr_spec, front_end, mul_rest, mul_spec, parse_spec, pow_spec, primary_spec,
    unary_spec,
};

verus! {

/// The tree of a numeric literal.
pub open spec fn num(s: Seq<char>) -> AstView {
    AstView::Number(NumeralView::Literal(s))
}

pub open spec fn arithmetic_op(c: char) -> bool {
    c == '+' || c == '-' || c == '*' || c == '/'
}

pub open spec fn additive_op(c: char) -> bool {
    c == '+' || c == '-'
}

/// The tokens `a op1 b op2 c` for literals `a`, `b`, `c`.
pub open spec fn chain(a: Seq<char>, op1: char, b: Seq<char>, op2: char, c: Seq<char>) -> Seq<TokenView> {
    seq![
        TokenView::Number(a),
        TokenView::Operator(op1),
        TokenView::Number(b),
        TokenView::Operator(op2),
        TokenView::Number(c),
    ]
}

/// A literal followed by anything but `^` is a complete power of its own.
proof fn lemma_literal_operand(t: Seq<TokenView>, p: int, s: Seq<char>)
    requires
        0 <= p < t.len(),
        t[p] == TokenView::Number(s),
        !(p + 1 < t.len() && t[p + 1] == TokenView::Operator('^')),
    ensures
        pow_spec(t, p) == Ok::<(AstView, int), ErrorView>((num(s), p + 1)),
{
    assert(primary_spec(t, p) == Ok::<(AstView, int), ErrorView>((num(s), p + 1)));
    assert(unary_spec(t, p) == Ok::<(AstView, int), ErrorView>((num(s), p + 1)));
}

/// With literals and the four basic operators, `*` and `/` bind tighter than `+` and `-`,
/// and operators of one level group from the left: `a + b * c` is `a + (b * c)`, while
/// `a * b + c`, `a - b + c` and `a / b * c` group as `(a op1 b) op2 c`.
pub proof fn law_precedence(a: Seq<char>, op1: char, b: Seq<char>, op2: char, c: Seq<char>)
    requires
        arithmetic_op(op1),
        arithmetic_op(op2),
    ensures
        parse_spec(chain(a, op1, b, op2, c)) == Ok::<AstView, ErrorView>(
            if additive_op(op1) && !additive_op(op2) {
                binary(op1, num(a), binary(op2, num(b), num(c)))
            } else {
                binary(op2, binary(op1, num(a), num(b)), num(c))
            },
        ),
{
    let t = chain(a, op1, b, op2, c);
    lemma_literal_operand(t, 0, a);
    lemma_literal_operand(t, 2, b);
    lemma_literal_operand(t, 4, c);
    let x = if additive_op(op1) && !additive_op(op2) {
        binary(op1, num(a), binary(op2, num(b), num(c)))
    } else {
        binary(op2, binary(op1, num(a), num(b)), num(c))
    };
    if additive_op(op2) {
        assert(mul_rest(t, num(c), 5) == Ok::<(AstView, int), ErrorView>((num(c), 5)));
        assert(mul_spec(t, 4) == Ok::<(AstView, int), ErrorView>((num(c), 5)));
        if additive_op(op1) {
            assert(mul_rest(t, num(b), 3) == Ok::<(AstView, int), ErrorView>((num(b), 3)));
            assert(mul_spec(t, 2) == Ok::<(AstView, int), ErrorView>((num(b), 3)));
            assert(mul_rest(t, num(a), 1) == Ok::<(AstView, int), ErrorView>((num(a), 1)));
            assert(mul_spec(t, 0) == Ok::<(AstView, int), ErrorView>((num(a), 1)));
            assert(add_rest(t, x, 5) == Ok::<(AstView, int), ErrorView>((x, 5)));
            assert(add_rest(t, binary(op1, num(a), num(b)), 3) == Ok::<(AstView, int), ErrorView>((x, 5)));
            assert(add_rest(t, num(a), 1) == Ok::<(AstView, int), ErrorView>((x, 5)));
        } else {
            let y = binary(op1, num(a), num(b));
            assert(mul_rest(t, y, 3) == Ok::<(AstView, int), ErrorView>((y, 3)));
            assert(mul_rest(t, num(a), 1) == Ok::<(AstView, int), ErrorView>((y, 3)));
            assert(mul_spec(t, 0) == Ok::<(AstView, int), ErrorView>((y, 3)));
            assert(add_rest(t, x, 5) == Ok::<(AstView, int), ErrorView>((x, 5)));
            assert(add_rest(t, y, 3) == Ok::<(AstView, int), ErrorView>((x, 5)));
        }
    } else {
        if additive_op(op1) {
            let y = binary(op2, num(b), num(c));
            assert(mul_rest(t, y, 5) == Ok::<(AstView, int), ErrorView>((y, 5)));
            assert(mul_rest(t, num(b), 3) == Ok::<(AstView, int), ErrorView>((y, 5)));
            assert(mul_spec(t, 2) == Ok::<(AstView, int), ErrorView>((y, 5)));
            assert(mul_rest(t, num(a), 1) == Ok::<(AstView, int), ErrorView>((num(a), 1)));
            assert(mul_spec(t, 0) == Ok::<(AstView, int), ErrorView>((num(a), 1)));
            assert(add_rest(t, x, 5) == Ok::<(AstView, int), ErrorView>((x, 5)));
            assert(add_rest(t, num(a), 1) == Ok::<(AstView, int), ErrorView>((x, 5)));
        } else {
            let y = binary(op1, num(a), num(b));
            assert(mul_rest(t, x, 5) == Ok::<(AstView, int), ErrorView>((x, 5)));
            assert(mul_rest(t, y, 3) == Ok::<(AstView, int), ErrorView>((x, 5)));
            assert(mul_rest(t, num(a), 1) == Ok::<(AstView, int), ErrorView>((x, 5)));
            assert(mul_spec(t, 0) == Ok::<(AstView, int), ErrorView>((x, 5)));
            assert(add_rest(t, x, 5) == Ok::<(AstView, int), ErrorView>((x, 5)));
        }
    }
    assert(add_spec(t, 0) == Ok::<(AstView, int), ErrorView>((x, 5)));
    assert(expr_spec(t, 0) == Ok::<(AstView, int), ErrorView>((x, 5)));
}

/// Powers group from the right: `a ^ b ^ c` is `a ^ (b ^ c)`.
pub proof fn law_power_right_assoc(a: Seq<char>, b: Seq<char>, c: Seq<char>)
    ensures
        parse_spec(chain(a, '^', b, '^', c)) == Ok::<AstView, ErrorView>(
            binary('^', num(a), binary('^', num(b), num(c))),
        ),
{
    let t = chain(a, '^', b, '^', c);
    let x = binary('^', num(a), binary('^', num(b), num(c)));
    lemma_literal_operand(t, 4, c);
    assert(primary_spec(t, 2) == Ok::<(AstView, int), ErrorView>((num(b), 3)));
    assert(unary_spec(t, 2) == Ok::<(AstView, int), ErrorView>((num(b), 3)));
    assert(pow_spec(t, 2) == Ok::<(AstView, int), ErrorView>((binary('^', num(b), num(c)), 5)));
    assert(primary_spec(t, 0) == Ok::<(AstView, int), ErrorView>((num(a), 1)));
    assert(unary_spec(t, 0) == Ok::<(AstView, int), ErrorView>((num(a), 1)));
    assert(pow_spec(t, 0) == Ok::<(AstView, int), ErrorView>((x, 5)));
    assert(mul_rest(t, x, 5) == Ok::<(AstView, int), ErrorView>((x, 5)));
    assert(mul_spec(t, 0) == Ok::<(AstView, int), ErrorView>((x, 5)));
    assert(add_rest(t, x, 5) == Ok::<(AstView, int), ErrorView>((x, 5)));
    assert(add_spec(t, 0) == Ok::<(AstView, int), ErrorView>((x, 5)));
    assert(expr_spec(t, 0) == Ok::<(AstView, int), ErrorView>((x, 5)));
}

/// Reading text has no hidden state: the same text always gives the same tree or error.
pub proof fn law_front_end_deterministic(first: Seq<char>, second: Seq<char>)
    requires
        first == second,
    ensures
        front_end(first) == front_end(second),
{
}

/// Adding a record keeps a history well formed; the new record is the newest, under the
/// index that was next, and the history grows by one until it is full, after which the
/// oldest record leaves.
pub proof fn law_add_record(h: HistoryView, expression: Seq<char>, bits: u64, text: Seq<char>)
    requires
        history_wf(h),
    ensures
        history_wf(added(h, expression, bits, text)),
        added(h, expression, bits, text).next_index == h.next_index + 1,
        added(h, expression, bits, text).records.len() == if h.records.len() < h.capacity {
            h.records.len() + 1
        } else {
            h.capacity
        },
        h.capacity > 0 ==> added(h, expression, bits, text).records.last() == (RecordView {
            expression,
            bits,
            text,
            index: h.next_index,
        }),
        h.records.len() == h.capacity && h.capacity > 0 ==> added(h, expression, bits, text).records
            =~= h.records.drop_first().push(RecordView { expression, bits, text, index: h.next_index }),
{
    let r = RecordView { expression, bits, text, index: h.next_index };
    let pushed = h.records.push(r);
    let g = added(h, expression, bits, text);
    assert forall|i: int, j: int| 0 <= i < j < g.records.len() implies g.records[i].index < g.records[j].index by {
        if pushed.len() > h.capacity {
            assert(g.records[i] == pushed[i + 1] && g.records[j] == pushed[j + 1]);
        }
    }
    assert forall|i: int| 0 <= i < g.records.len() implies 1 <= #[trigger] g.records[i].index < g.next_index by {
        if pushed.len() > h.capacity {
            assert(g.records[i] == pushed[i + 1]);
        }
    }
}

/// Searching returns exactly the records that match the query, in their order: every
/// returned record matches, and every matching record is returned.
pub proof fn law_search_matches(rs: Seq<RecordView>, query: Seq<char>)
    ensures
        forall|i: int| 0 <= i < matching(rs, query).len() ==> record_matches(#[trigger] matching(rs, query)[i], query),
        forall|i: int| 0 <= i < rs.len() && record_matches(rs[i], query) ==> matching(rs, query).contains(#[trigger] rs[i]),
    decreases rs.len(),
{
    if rs.len() > 0 {
        let init = rs.drop_last();
        law_search_matches(init, query);
        let m = matching(rs, query);
        let mi = matching(init, query);
        assert forall|i: int| 0 <= i < rs.len() && record_matches(rs[i], query) implies m.contains(#[trigger] rs[i]) by {
            if i < rs.len() - 1 {
                assert(init[i] == rs[i]);
                let k = choose|k: int| 0 <= k < mi.len() && mi[k] == init[i];
                assert(m[k] == rs[i]);
            } else {
                assert(m[m.len() - 1] == rs[i]);
            }
        }
        assert forall|i: int| 0 <= i < m.len() implies record_matches(#[trigger] m[i], query) by {
            if i < mi.len() {
                assert(m[i] == mi[i]);
            }
        }
    }
}

} // verus!
