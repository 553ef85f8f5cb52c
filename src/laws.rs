//! Laws of the evaluation pipeline and of the editing state machine.
use vstd::prelude::*;
use crate::calculator::{
    after_calculate, after_clear, after_decimal, after_delete, after_number, after_operator,
    after_parenthesis, after_percentage, canonical_glyph, char_count, closing_allowed, display,
    evaluation_input, expression_ok, has_work, initial_state, is_printed_magnitude,
    is_printed_number, restarted, resumed, run_has_point, segment_has_point, single_point_runs,
    well_formed, zero_text, StateView,
};
use crate::logic::{expression_value, point_count};
use crate::text::{is_any_operator, is_ascii_operator, is_digit};

verus! {

/// One editing operation, as the state machine sees it. `Calculate` carries
/// the printed result that the evaluation produced.
pub enum Edit {
    Number(char),
    Operator(char),
    Decimal,
    Parenthesis(char),
    Percentage,
    Clear,
    Delete,
    Calculate(Seq<char>),
}

pub open spec fn apply_edit(v: StateView, e: Edit) -> StateView {
    match e {
        Edit::Number(d) => after_number(v, d),
        Edit::Operator(c) => after_operator(v, c),
        Edit::Decimal => after_decimal(v),
        Edit::Parenthesis(p) => after_parenthesis(v, p),
        Edit::Percentage => after_percentage(v),
        Edit::Clear => after_clear(v),
        Edit::Delete => after_delete(v),
        Edit::Calculate(r) => after_calculate(v, r),
    }
}

pub open spec fn apply_edits(v: StateView, es: Seq<Edit>) -> StateView
    decreases es.len(),
{
    if es.len() == 0 {
        v
    } else {
        apply_edit(apply_edits(v, es.drop_last()), es.last())
    }
}

/// Every result handed to `Calculate` has the shape of a printed number.
pub open spec fn results_printed(es: Seq<Edit>) -> bool {
    forall|i: int| 0 <= i < es.len() ==> (#[trigger] es[i] matches Edit::Calculate(r) ==> is_printed_number(r))
}

proof fn lemma_char_count_push(s: Seq<char>, c: char, x: char)
    ensures
        char_count(s.push(c), x) == char_count(s, x) + if c == x { 1nat } else { 0nat },
{
    assert(s.push(c).drop_last() =~= s);
}

proof fn lemma_push_ok(s: Seq<char>, c: char)
    requires
        expression_ok(s),
        c == '.' ==> !run_has_point(s),
        c == ')' ==> closing_allowed(s),
        is_any_operator(c) ==> !(s.len() > 0 && is_any_operator(s.last())),
    ensures
        expression_ok(s.push(c)),
{
    let t = s.push(c);
    assert(t.drop_last() =~= s);
    assert forall|i: int| 0 <= i <= t.len() implies #[trigger] char_count(t.subrange(0, i), ')')
        <= char_count(t.subrange(0, i), '(') by {
        if i == t.len() {
            assert(t.subrange(0, i) =~= t);
            assert(s.subrange(0, s.len() as int) =~= s);
            lemma_char_count_push(s, c, ')');
            lemma_char_count_push(s, c, '(');
        } else {
            assert(t.subrange(0, i) =~= s.subrange(0, i));
        }
    }
    assert forall|i: int| 1 <= i < t.len() implies !(is_any_operator(t[i - 1])
        && #[trigger] is_any_operator(t[i])) by {
        if i < s.len() {
            assert(t[i - 1] == s[i - 1] && t[i] == s[i]);
        }
    }
}

proof fn lemma_drop_last_ok(s: Seq<char>)
    requires
        expression_ok(s),
        s.len() > 0,
    ensures
        expression_ok(s.drop_last()),
{
    let t = s.drop_last();
    assert forall|i: int| 0 <= i <= t.len() implies #[trigger] char_count(t.subrange(0, i), ')')
        <= char_count(t.subrange(0, i), '(') by {
        assert(t.subrange(0, i) =~= s.subrange(0, i));
    }
}

proof fn lemma_run_point_in_segment(s: Seq<char>)
    ensures
        run_has_point(s) ==> segment_has_point(s),
    decreases s.len(),
{
    if s.len() > 0 {
        lemma_run_point_in_segment(s.drop_last());
    }
}

proof fn lemma_run_point_counted(s: Seq<char>)
    ensures
        run_has_point(s) ==> point_count(s) >= 1,
    decreases s.len(),
{
    if s.len() > 0 {
        lemma_run_point_counted(s.drop_last());
    }
}

proof fn lemma_one_point_single_runs(s: Seq<char>)
    requires
        point_count(s) <= 1,
    ensures
        single_point_runs(s),
    decreases s.len(),
{
    if s.len() > 0 {
        lemma_one_point_single_runs(s.drop_last());
        lemma_run_point_counted(s.drop_last());
    }
}

proof fn lemma_count_absent(s: Seq<char>, c: char)
    requires
        forall|i: int| 0 <= i < s.len() ==> s[i] != c,
    ensures
        char_count(s, c) == 0,
    decreases s.len(),
{
    if s.len() > 0 {
        lemma_count_absent(s.drop_last(), c);
    }
}

/// Text without parentheses, with an operator glyph at most in front, and with
/// at most one point.
proof fn lemma_plain_ok(s: Seq<char>)
    requires
        s.len() > 0,
        forall|i: int| 0 <= i < s.len() ==> s[i] != '(' && s[i] != ')',
        forall|i: int| 1 <= i < s.len() ==> !is_any_operator(#[trigger] s[i]),
        point_count(s) <= 1,
    ensures
        expression_ok(s),
{
    lemma_one_point_single_runs(s);
    assert forall|i: int| 0 <= i <= s.len() implies #[trigger] char_count(s.subrange(0, i), ')')
        <= char_count(s.subrange(0, i), '(') by {
        lemma_count_absent(s.subrange(0, i), ')');
    }
}

proof fn lemma_point_count_drop_first(s: Seq<char>)
    requires
        s.len() > 0,
        s[0] != '.',
    ensures
        point_count(s) == point_count(s.drop_first()),
    decreases s.len(),
{
    if s.len() > 1 {
        assert(s.drop_last().drop_first() =~= s.drop_first().drop_last());
        assert(s.drop_first().last() == s.last());
        assert(s.drop_last()[0] == s[0]);
        lemma_point_count_drop_first(s.drop_last());
        assert(point_count(s.drop_last()) == point_count(s.drop_first().drop_last()));
    } else {
        assert(s.drop_first().len() == 0);
        assert(s.drop_last().len() == 0);
        assert(s.last() == s[0]);
        assert(point_count(s.drop_last()) == 0);
        assert(point_count(s.drop_first()) == 0);
    }
}

proof fn lemma_no_points(s: Seq<char>)
    requires
        forall|i: int| 0 <= i < s.len() ==> s[i] != '.',
    ensures
        point_count(s) == 0,
    decreases s.len(),
{
    if s.len() > 0 {
        lemma_no_points(s.drop_last());
    }
}

proof fn lemma_printed_ok(r: Seq<char>)
    requires
        is_printed_number(r),
    ensures
        r.len() > 0,
        expression_ok(r),
{
    if r == seq!['N', 'a', 'N'] || r == seq!['i', 'n', 'f'] {
        lemma_no_points(r);
        lemma_plain_ok(r);
    } else if is_printed_magnitude(r) {
        lemma_plain_ok(r);
    } else {
        let t = r.drop_first();
        assert forall|i: int| 0 <= i < r.len() implies r[i] != '(' && r[i] != ')' by {
            if i > 0 {
                assert(r[i] == t[i - 1]);
            }
        }
        if t == seq!['i', 'n', 'f'] {
            assert(r =~= seq!['-', 'i', 'n', 'f']);
            lemma_no_points(r);
        } else {
            assert forall|i: int| 1 <= i < r.len() implies !is_any_operator(#[trigger] r[i]) by {
                assert(r[i] == t[i - 1]);
            }
            lemma_point_count_drop_first(r);
        }
        lemma_plain_ok(r);
    }
}

proof fn lemma_zero_ok()
    ensures
        expression_ok(zero_text()),
        !run_has_point(zero_text()),
{
    let z = zero_text();
    assert(z.drop_last() =~= Seq::<char>::empty());
    assert(z.last() == '0');
    assert(!run_has_point(Seq::<char>::empty()));
    assert(Seq::<char>::empty().push('0') =~= z);
    lemma_push_ok(Seq::<char>::empty(), '0');
}

/// One edit keeps a well-formed state well-formed, given that a result handed
/// to `Calculate` has the shape of a printed number.
pub proof fn edit_keeps_well_formed(v: StateView, e: Edit)
    requires
        well_formed(v),
        e matches Edit::Calculate(r) ==> is_printed_number(r),
    ensures
        well_formed(apply_edit(v, e)),
{
    lemma_zero_ok();
    let empty = Seq::<char>::empty();
    assert(expression_ok(empty));
    match e {
        Edit::Number(d) => {
            if is_digit(d) {
                let base = if v.just_calculated { empty } else { v.expression };
                if base != zero_text() {
                    lemma_push_ok(base, d);
                } else {
                    assert(empty.push(d) =~= seq![d]);
                    lemma_push_ok(empty, d);
                }
            }
        },
        Edit::Operator(c) => {
            if c == '%' {
                if v.just_calculated {
                    lemma_printed_ok(v.last_result->0);
                }
                lemma_push_ok(resumed(v), '%');
            } else if is_ascii_operator(canonical_glyph(c)) {
                let base = resumed(v);
                if v.just_calculated {
                    lemma_printed_ok(v.last_result->0);
                }
                if base.len() > 0 && is_any_operator(base.last()) {
                    lemma_drop_last_ok(base);
                    if base.len() > 1 {
                        assert(base.drop_last().last() == base[base.len() - 2]);
                    }
                    lemma_push_ok(base.drop_last(), canonical_glyph(c));
                } else {
                    lemma_push_ok(base, canonical_glyph(c));
                }
            }
        },
        Edit::Percentage => {
            if v.just_calculated {
                lemma_printed_ok(v.last_result->0);
            }
            lemma_push_ok(resumed(v), '%');
        },
        Edit::Decimal => {
            let base = restarted(v);
            lemma_run_point_in_segment(base);
            if v.just_calculated || !segment_has_point(v.expression) {
                lemma_push_ok(base, '.');
            }
        },
        Edit::Parenthesis(p) => {
            let base = restarted(v);
            if p == ')' && closing_allowed(base) {
                lemma_push_ok(base, ')');
            } else if p == '(' {
                if base.len() > 0 && (is_digit(base.last()) || base.last() == ')') {
                    lemma_push_ok(base, '*');
                    assert(base.push('*').last() == '*');
                    lemma_push_ok(base.push('*'), '(');
                } else {
                    lemma_push_ok(base, '(');
                }
            }
        },
        Edit::Clear => {},
        Edit::Delete => {
            if !v.just_calculated {
                lemma_drop_last_ok(v.expression);
            }
        },
        Edit::Calculate(r) => {},
    }
}

/// Starting from the initial state, any sequence of edits leaves an
/// expression that is non-empty, has at most one point in each number, never
/// closes more parentheses than it has opened, and has no two operators side
/// by side; a result is held exactly while it is shown.
pub proof fn edits_keep_state_well_formed(es: Seq<Edit>)
    requires
        results_printed(es),
    ensures
        well_formed(apply_edits(initial_state(), es)),
        apply_edits(initial_state(), es).expression.len() > 0,
    decreases es.len(),
{
    if es.len() == 0 {
        lemma_zero_ok();
    } else {
        assert(results_printed(es.drop_last())) by {
            assert forall|i: int| 0 <= i < es.drop_last().len() implies (
            #[trigger] es.drop_last()[i] matches Edit::Calculate(r) ==> is_printed_number(r)) by {
                assert(es.drop_last()[i] == es[i]);
            }
        }
        edits_keep_state_well_formed(es.drop_last());
        assert(es[es.len() - 1] == es.last());
        edit_keeps_well_formed(apply_edits(initial_state(), es.drop_last()), es.last());
    }
}

/// Evaluating again right after an evaluation asks for the same text, and
/// recording the same result again changes neither the state nor the display.
pub proof fn calculate_twice_is_stable(v: StateView, result: Seq<char>)
    ensures
        evaluation_input(after_calculate(v, result)) == evaluation_input(v),
        after_calculate(after_calculate(v, result), result) == after_calculate(v, result),
        display(after_calculate(after_calculate(v, result), result)) == display(
            after_calculate(v, result),
        ),
{
}

/// A digit entered right after a successful evaluation starts a new
/// expression holding just that digit.
pub proof fn digit_after_calculate_starts_fresh(v: StateView, result: Seq<char>, d: char)
    requires
        has_work(v.expression),
        is_digit(d),
    ensures
        after_number(after_calculate(v, result), d).expression == seq![d],
        !after_number(after_calculate(v, result), d).just_calculated,
{
}

/// The evaluation tree of a text depends on the text alone.
pub proof fn evaluation_is_a_function_of_text(a: Seq<char>, b: Seq<char>)
    requires
        a == b,
    ensures
        expression_value(a) == expression_value(b),
{
}

} // verus!
