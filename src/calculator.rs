//! The editing state machine of the calculator: the expression text, built
//! key by key, and the result of the last evaluation.
//!
//! Results are held as the text they print as. Evaluating the text that
//! [`Calculator::evaluation_text`] gives is left to the caller, which hands the
//! printed result to [`Calculator::calculate`].
use vstd::prelude::*;
use crate::logic::point_count;
use crate::text::{
    any_operator, ascii_operator, chars_of, digit, is_any_operator, is_ascii_operator, is_digit,
    is_number_char, text_of,
};

verus! {

/// What an editing operation reports to the presentation layer.
#[derive(Clone, Debug)]
pub enum CalculatorEvent {
    NumberPressed(char),
    OperatorPressed(char),
    DecimalPressed,
    ParenthesisPressed(char),
    PercentagePressed,
    ClearPressed,
    DeletePressed,
    EqualsPressed,
    ExpressionChanged(String),
    ResultCalculated(String),
    StateReset,
}

/// The mathematical value of a [`CalculatorEvent`].
pub enum Notice {
    NumberPressed(char),
    OperatorPressed(char),
    DecimalPressed,
    ParenthesisPressed(char),
    PercentagePressed,
    ClearPressed,
    DeletePressed,
    EqualsPressed,
    ExpressionChanged(Seq<char>),
    ResultCalculated(Seq<char>),
    StateReset,
}

impl View for CalculatorEvent {
    type V = Notice;

    open spec fn view(&self) -> Notice {
        match self {
            CalculatorEvent::NumberPressed(c) => Notice::NumberPressed(*c),
            CalculatorEvent::OperatorPressed(c) => Notice::OperatorPressed(*c),
            CalculatorEvent::DecimalPressed => Notice::DecimalPressed,
            CalculatorEvent::ParenthesisPressed(c) => Notice::ParenthesisPressed(*c),
            CalculatorEvent::PercentagePressed => Notice::PercentagePressed,
            CalculatorEvent::ClearPressed => Notice::ClearPressed,
            CalculatorEvent::DeletePressed => Notice::DeletePressed,
            CalculatorEvent::EqualsPressed => Notice::EqualsPressed,
            CalculatorEvent::ExpressionChanged(s) => Notice::ExpressionChanged(s@),
            CalculatorEvent::ResultCalculated(s) => Notice::ResultCalculated(s@),
            CalculatorEvent::StateReset => Notice::StateReset,
        }
    }
}

pub open spec fn notices(v: Seq<CalculatorEvent>) -> Seq<Notice> {
    v.map_values(|e: CalculatorEvent| e@)
}

/// A snapshot of the calculator.
#[derive(Clone, Debug)]
pub struct CalculatorState {
    /// The expression being edited, with canonical operator glyphs.
    pub expression: String,
    /// The printed result of the last evaluation, while it is shown.
    pub last_result: Option<String>,
    /// Whether an evaluation happened after the last edit.
    pub just_calculated: bool,
    /// Whether `expression` is empty.
    pub is_empty: bool,
}

/// The mathematical value of a [`CalculatorState`].
pub struct StateView {
    pub expression: Seq<char>,
    pub last_result: Option<Seq<char>>,
    pub just_calculated: bool,
    pub is_empty: bool,
}

impl View for CalculatorState {
    type V = StateView;

    open spec fn view(&self) -> StateView {
        StateView {
            expression: self.expression@,
            last_result: match self.last_result {
                Some(r) => Some(r@),
                None => None,
            },
            just_calculated: self.just_calculated,
            is_empty: self.is_empty,
        }
    }
}

pub open spec fn zero_text() -> Seq<char> {
    seq!['0']
}

pub open spec fn initial_state() -> StateView {
    StateView {
        expression: zero_text(),
        last_result: None,
        just_calculated: false,
        is_empty: false,
    }
}

/// The state in entering mode with expression `e`.
pub open spec fn entering(e: Seq<char>) -> StateView {
    StateView { expression: e, last_result: None, just_calculated: false, is_empty: e.len() == 0 }
}

pub open spec fn after_number(v: StateView, d: char) -> StateView {
    if !is_digit(d) {
        v
    } else {
        let base = if v.just_calculated {
            Seq::<char>::empty()
        } else {
            v.expression
        };
        entering(
            if base == zero_text() {
                seq![d]
            } else {
                base.push(d)
            },
        )
    }
}

pub open spec fn after_clear(v: StateView) -> StateView {
    initial_state()
}

pub open spec fn after_delete(v: StateView) -> StateView {
    if v.just_calculated {
        initial_state()
    } else {
        let rest = if v.expression.len() > 0 {
            v.expression.drop_last()
        } else {
            v.expression
        };
        entering(
            if rest.len() == 0 {
                zero_text()
            } else {
                rest
            },
        )
    }
}

/// `×` and `÷` as `*` and `/`; other characters unchanged.
pub open spec fn canonical_glyph(c: char) -> char {
    if c == '×' {
        '*'
    } else if c == '÷' {
        '/'
    } else {
        c
    }
}

/// The expression that an operator or a percentage continues: the printed
/// result right after an evaluation, else the expression.
pub open spec fn resumed(v: StateView) -> Seq<char> {
    if v.just_calculated {
        match v.last_result {
            Some(r) => r,
            None => v.expression,
        }
    } else {
        v.expression
    }
}

pub open spec fn after_percentage(v: StateView) -> StateView {
    entering(resumed(v).push('%'))
}

pub open spec fn after_operator(v: StateView, c: char) -> StateView {
    if c == '%' {
        after_percentage(v)
    } else if !is_ascii_operator(canonical_glyph(c)) {
        v
    } else {
        let base = resumed(v);
        let kept = if base.len() > 0 && is_any_operator(base.last()) {
            base.drop_last()
        } else {
            base
        };
        entering(kept.push(canonical_glyph(c)))
    }
}

pub open spec fn char_count(s: Seq<char>, c: char) -> nat
    decreases s.len(),
{
    if s.len() == 0 {
        0
    } else {
        char_count(s.drop_last(), c) + if s.last() == c { 1nat } else { 0nat }
    }
}

/// A closing parenthesis is accepted only while some opening one is unclosed.
pub open spec fn closing_allowed(s: Seq<char>) -> bool {
    char_count(s, '(') > char_count(s, ')')
}

/// The expression that a parenthesis or a point is added to.
pub open spec fn restarted(v: StateView) -> Seq<char> {
    if v.just_calculated {
        zero_text()
    } else {
        v.expression
    }
}

pub open spec fn after_parenthesis(v: StateView, p: char) -> StateView {
    let base = restarted(v);
    if p != '(' && p != ')' {
        v
    } else if p == ')' {
        if closing_allowed(base) {
            entering(base.push(')'))
        } else if v.just_calculated {
            entering(base)
        } else {
            v
        }
    } else if base.len() > 0 && (is_digit(base.last()) || base.last() == ')') {
        entering(base.push('*').push('('))
    } else {
        entering(base.push('('))
    }
}

/// Whether the text after the last operator holds a point.
pub open spec fn segment_has_point(s: Seq<char>) -> bool
    decreases s.len(),
{
    if s.len() == 0 {
        false
    } else if is_ascii_operator(s.last()) {
        false
    } else if s.last() == '.' {
        true
    } else {
        segment_has_point(s.drop_last())
    }
}

pub open spec fn after_decimal(v: StateView) -> StateView {
    if !v.just_calculated && segment_has_point(v.expression) {
        v
    } else {
        entering(restarted(v).push('.'))
    }
}

/// Whether the expression is worth evaluating: neither empty nor `0`.
pub open spec fn has_work(e: Seq<char>) -> bool {
    e.len() > 0 && e != zero_text()
}

pub open spec fn after_calculate(v: StateView, result: Seq<char>) -> StateView {
    if has_work(v.expression) {
        StateView {
            expression: v.expression,
            last_result: Some(result),
            just_calculated: true,
            is_empty: v.is_empty,
        }
    } else {
        v
    }
}

pub open spec fn percent_text() -> Seq<char> {
    seq!['/', '1', '0', '0', '.', '0']
}

/// What one character of the expression becomes in the text to evaluate.
pub open spec fn normalized_char(c: char) -> Seq<char> {
    if c == '%' {
        percent_text()
    } else {
        seq![canonical_glyph(c)]
    }
}

/// The expression with canonical glyphs and each `%` written as `/100.0`.
pub open spec fn normalized(s: Seq<char>) -> Seq<char>
    decreases s.len(),
{
    if s.len() == 0 {
        s
    } else {
        normalized(s.drop_last()) + normalized_char(s.last())
    }
}

pub open spec fn evaluation_input(v: StateView) -> Option<Seq<char>> {
    if has_work(v.expression) {
        Some(normalized(v.expression))
    } else {
        None
    }
}

/// `*` and `/` as `×` and `÷`; other characters unchanged.
pub open spec fn display_glyph(c: char) -> char {
    if c == '*' {
        '×'
    } else if c == '/' {
        '÷'
    } else {
        c
    }
}

/// A printed result without its trailing `.0` groups.
pub open spec fn stripped(s: Seq<char>) -> Seq<char>
    decreases s.len(),
{
    if s.len() >= 2 && s[s.len() - 2] == '.' && s.last() == '0' {
        stripped(s.subrange(0, s.len() - 2))
    } else {
        s
    }
}

pub open spec fn display(v: StateView) -> Seq<char> {
    if v.just_calculated {
        match v.last_result {
            Some(r) => stripped(r),
            None => zero_text(),
        }
    } else if v.expression.len() == 0 {
        zero_text()
    } else {
        v.expression.map_values(|c: char| display_glyph(c))
    }
}

/// Whether the run of digits and points at the end of `s` holds a point.
pub open spec fn run_has_point(s: Seq<char>) -> bool
    decreases s.len(),
{
    s.len() > 0 && is_number_char(s.last()) && (s.last() == '.' || run_has_point(s.drop_last()))
}

/// Every maximal run of digits and points holds at most one point.
pub open spec fn single_point_runs(s: Seq<char>) -> bool
    decreases s.len(),
{
    s.len() == 0 || (single_point_runs(s.drop_last()) && (s.last() == '.' ==> !run_has_point(
        s.drop_last(),
    )))
}

/// No prefix closes more parentheses than it opens.
pub open spec fn parens_balanced(s: Seq<char>) -> bool {
    forall|i: int|
        0 <= i <= s.len() ==> #[trigger] char_count(s.subrange(0, i), ')') <= char_count(
            s.subrange(0, i),
            '(',
        )
}

/// No two operator glyphs stand side by side.
pub open spec fn no_operator_pairs(s: Seq<char>) -> bool {
    forall|i: int| 1 <= i < s.len() ==> !(is_any_operator(s[i - 1]) && #[trigger] is_any_operator(s[i]))
}

pub open spec fn expression_ok(s: Seq<char>) -> bool {
    &&& single_point_runs(s)
    &&& parens_balanced(s)
    &&& no_operator_pairs(s)
}

/// The unsigned part of a printed floating-point number: `inf`, or digits with
/// at most one point.
pub open spec fn is_printed_magnitude(t: Seq<char>) -> bool {
    ||| t == seq!['i', 'n', 'f']
    ||| t.len() > 0 && (forall|i: int| 0 <= i < t.len() ==> is_number_char(#[trigger] t[i]))
        && point_count(t) <= 1
}

/// The shape of a printed floating-point number: `NaN`, or a magnitude with
/// an optional leading `-`.
pub open spec fn is_printed_number(r: Seq<char>) -> bool {
    ||| r == seq!['N', 'a', 'N']
    ||| is_printed_magnitude(r)
    ||| r.len() > 1 && r[0] == '-' && is_printed_magnitude(r.drop_first())
}

/// The invariant of the calculator's state.
pub open spec fn well_formed(v: StateView) -> bool {
    &&& v.expression.len() > 0
    &&& v.is_empty == (v.expression.len() == 0)
    &&& expression_ok(v.expression)
    &&& v.just_calculated <==> v.last_result is Some
    &&& v.last_result matches Some(r) ==> is_printed_number(r)
}

impl CalculatorState {
    /// The text of the state: the printed result right after an evaluation,
    /// else the expression.
    pub fn summary(&self) -> (r: String)
        ensures
            r@ == if self@.just_calculated && self@.last_result is Some {
                self@.last_result->0
            } else {
                self@.expression
            },
    {
        if self.just_calculated {
            match &self.last_result {
                Some(res) => return res.clone(),
                None => {},
            }
        }
        self.expression.clone()
    }
}

impl Default for CalculatorState {
    fn default() -> (r: CalculatorState)
        ensures
            r@ == initial_state(),
    {
        CalculatorState {
            expression: text_of(&zero_chars()),
            last_result: None,
            just_calculated: false,
            is_empty: false,
        }
    }
}

/// The calculator: owns its state and changes it only through the editing
/// operations, each of which returns the events it reports.
#[derive(Clone, Debug)]
pub struct Calculator {
    state: CalculatorState,
}

impl View for Calculator {
    type V = StateView;

    closed spec fn view(&self) -> StateView {
        self.state@
    }
}

impl Default for Calculator {
    fn default() -> (r: Calculator)
        ensures
            r@ == initial_state(),
    {
        Calculator::new()
    }
}

proof fn lemma_notices_two(a: CalculatorEvent, b: CalculatorEvent)
    ensures
        notices(vec_two(a, b)) == seq![a@, b@],
{
    assert(notices(vec_two(a, b)) =~= seq![a@, b@]);
}

pub open spec fn vec_two(a: CalculatorEvent, b: CalculatorEvent) -> Seq<CalculatorEvent> {
    seq![a, b]
}

fn two_events(a: CalculatorEvent, b: CalculatorEvent) -> (r: Vec<CalculatorEvent>)
    ensures
        notices(r@) == seq![a@, b@],
{
    let r = vec![a, b];
    proof {
        assert(r@ =~= vec_two(a, b));
        lemma_notices_two(a, b);
    }
    r
}

fn no_events() -> (r: Vec<CalculatorEvent>)
    ensures
        notices(r@) == Seq::<Notice>::empty(),
{
    let r: Vec<CalculatorEvent> = Vec::new();
    assert(notices(r@) =~= Seq::<Notice>::empty());
    r
}

fn zero_chars() -> (r: Vec<char>)
    ensures
        r@ == zero_text(),
{
    let r = vec!['0'];
    assert(r@ =~= zero_text());
    r
}

fn is_zero_text(e: &Vec<char>) -> (r: bool)
    ensures
        r == (e@ == zero_text()),
{
    if e.len() == 1 && e[0] == '0' {
        assert(e@ =~= zero_text());
        true
    } else {
        false
    }
}

fn canonical(c: char) -> (r: char)
    ensures
        r == canonical_glyph(c),
{
    if c == '×' {
        '*'
    } else if c == '÷' {
        '/'
    } else {
        c
    }
}

fn count_char(s: &Vec<char>, c: char) -> (r: usize)
    ensures
        r == char_count(s@, c),
{
    let mut n: usize = 0;
    let mut i: usize = 0;
    while i < s.len()
        invariant
            i <= s.len(),
            n == char_count(s@.subrange(0, i as int), c),
            n <= i,
        decreases s.len() - i,
    {
        assert(s@.subrange(0, i + 1).drop_last() =~= s@.subrange(0, i as int));
        if s[i] == c {
            n = n + 1;
        }
        i = i + 1;
    }
    assert(s@.subrange(0, i as int) =~= s@);
    n
}

fn point_in_segment(s: &Vec<char>) -> (r: bool)
    ensures
        r == segment_has_point(s@),
{
    let mut seen = false;
    let mut i: usize = 0;
    while i < s.len()
        invariant
            i <= s.len(),
            seen == segment_has_point(s@.subrange(0, i as int)),
        decreases s.len() - i,
    {
        assert(s@.subrange(0, i + 1).drop_last() =~= s@.subrange(0, i as int));
        if ascii_operator(s[i]) {
            seen = false;
        } else if s[i] == '.' {
            seen = true;
        }
        i = i + 1;
    }
    assert(s@.subrange(0, i as int) =~= s@);
    seen
}

fn normalize(s: &Vec<char>) -> (r: Vec<char>)
    ensures
        r@ == normalized(s@),
{
    let mut r: Vec<char> = Vec::new();
    let mut i: usize = 0;
    while i < s.len()
        invariant
            i <= s.len(),
            r@ == normalized(s@.subrange(0, i as int)),
        decreases s.len() - i,
    {
        assert(s@.subrange(0, i + 1).drop_last() =~= s@.subrange(0, i as int));
        let c = s[i];
        if c == '%' {
            r.push('/');
            r.push('1');
            r.push('0');
            r.push('0');
            r.push('.');
            r.push('0');
        } else {
            r.push(canonical(c));
        }
        assert(r@ =~= normalized(s@.subrange(0, i + 1)));
        i = i + 1;
    }
    assert(s@.subrange(0, i as int) =~= s@);
    r
}

fn strip_point_zero(s: &Vec<char>) -> (r: Vec<char>)
    ensures
        r@ == stripped(s@),
{
    let mut n: usize = s.len();
    assert(s@.subrange(0, n as int) =~= s@);
    while n >= 2 && s[n - 2] == '.' && s[n - 1] == '0'
        invariant
            n <= s.len(),
            stripped(s@.subrange(0, n as int)) == stripped(s@),
        decreases n,
    {
        assert(s@.subrange(0, n - 2) =~= s@.subrange(0, n as int).subrange(0, n - 2));
        n = n - 2;
    }
    let mut r: Vec<char> = Vec::new();
    let mut i: usize = 0;
    while i < n
        invariant
            i <= n <= s.len(),
            r@ == s@.subrange(0, i as int),
        decreases n - i,
    {
        r.push(s[i]);
        i = i + 1;
        assert(r@ =~= s@.subrange(0, i as int));
    }
    proof {
        assert(s@.subrange(0, n as int) =~= s@.subrange(0, n as int).subrange(0, n as int));
    }
    r
}

fn display_glyphs(s: &Vec<char>) -> (r: Vec<char>)
    ensures
        r@ == s@.map_values(|c: char| display_glyph(c)),
{
    let mut r: Vec<char> = Vec::new();
    let mut i: usize = 0;
    while i < s.len()
        invariant
            i <= s.len(),
            r@ == s@.subrange(0, i as int).map_values(|c: char| display_glyph(c)),
        decreases s.len() - i,
    {
        let c = s[i];
        let d = if c == '*' {
            '×'
        } else if c == '/' {
            '÷'
        } else {
            c
        };
        r.push(d);
        i = i + 1;
        assert(r@ =~= s@.subrange(0, i as int).map_values(|c: char| display_glyph(c)));
    }
    assert(s@.subrange(0, i as int) =~= s@);
    r
}

impl Calculator {
    /// A calculator showing `0`.
    pub fn new() -> (r: Calculator)
        ensures
            r@ == initial_state(),
    {
        Calculator { state: CalculatorState::default() }
    }

    fn expression_chars(&self) -> (r: Vec<char>)
        ensures
            r@ == self@.expression,
    {
        chars_of(self.state.expression.as_str())
    }

    fn enter(&mut self, e: &Vec<char>)
        ensures
            final(self)@ == entering(e@),
    {
        self.state = CalculatorState {
            expression: text_of(e),
            last_result: None,
            just_calculated: false,
            is_empty: e.len() == 0,
        };
    }

    fn expression_changed(&self) -> (r: CalculatorEvent)
        ensures
            r@ == Notice::ExpressionChanged(self@.expression),
    {
        CalculatorEvent::ExpressionChanged(self.state.expression.clone())
    }

    /// Enters a digit; a fresh expression starts after an evaluation, and a
    /// lone `0` is replaced. Other characters are ignored.
    pub fn input_number(&mut self, number: char) -> (r: Vec<CalculatorEvent>)
        ensures
            final(self)@ == after_number(old(self)@, number),
            notices(r@) == if is_digit(number) {
                seq![
                    Notice::NumberPressed(number),
                    Notice::ExpressionChanged(final(self)@.expression),
                ]
            } else {
                Seq::<Notice>::empty()
            },
    {
        if !digit(number) {
            return no_events();
        }
        let mut e = if self.state.just_calculated {
            Vec::new()
        } else {
            self.expression_chars()
        };
        if is_zero_text(&e) {
            e = vec![number];
        } else {
            e.push(number);
        }
        assert(e@ =~= after_number(old(self)@, number).expression);
        self.enter(&e);
        let changed = self.expression_changed();
        two_events(CalculatorEvent::NumberPressed(number), changed)
    }

    /// Resets to the initial state.
    pub fn clear(&mut self) -> (r: Vec<CalculatorEvent>)
        ensures
            final(self)@ == after_clear(old(self)@),
            notices(r@) == seq![Notice::ClearPressed, Notice::StateReset],
    {
        self.state = CalculatorState::default();
        two_events(CalculatorEvent::ClearPressed, CalculatorEvent::StateReset)
    }

    /// Removes the last character, leaving `0` rather than nothing; right after
    /// an evaluation it clears instead.
    pub fn delete(&mut self) -> (r: Vec<CalculatorEvent>)
        ensures
            final(self)@ == after_delete(old(self)@),
            notices(r@) == if old(self)@.just_calculated {
                seq![Notice::ClearPressed, Notice::StateReset]
            } else {
                seq![Notice::DeletePressed, Notice::ExpressionChanged(final(self)@.expression)]
            },
    {
        if self.state.just_calculated {
            return self.clear();
        }
        let mut e = self.expression_chars();
        if e.len() > 0 {
            e.pop();
        }
        if e.len() == 0 {
            e = zero_chars();
        }
        assert(e@ =~= after_delete(old(self)@).expression);
        self.enter(&e);
        let changed = self.expression_changed();
        two_events(CalculatorEvent::DeletePressed, changed)
    }
    fn resumed_chars(&self) -> (r: Vec<char>)
        ensures
            r@ == resumed(self@),
    {
        if self.state.just_calculated {
            match &self.state.last_result {
                Some(res) => chars_of(res.as_str()),
                None => self.expression_chars(),
            }
        } else {
            self.expression_chars()
        }
    }

    fn restarted_chars(&self) -> (r: Vec<char>)
        ensures
            r@ == restarted(self@),
    {
        if self.state.just_calculated {
            zero_chars()
        } else {
            self.expression_chars()
        }
    }

    /// Appends a `%` marker, continuing from the printed result right after an
    /// evaluation.
    pub fn input_percentage(&mut self) -> (r: Vec<CalculatorEvent>)
        ensures
            final(self)@ == after_percentage(old(self)@),
            notices(r@) == seq![
                Notice::PercentagePressed,
                Notice::ExpressionChanged(final(self)@.expression),
            ],
    {
        let mut e = self.resumed_chars();
        e.push('%');
        self.enter(&e);
        let changed = self.expression_changed();
        two_events(CalculatorEvent::PercentagePressed, changed)
    }

    /// Enters an operator: `%` is a percentage, `×` and `÷` are stored as `*`
    /// and `/`, anything else is ignored. An operator at the end of the
    /// expression is replaced rather than followed.
    pub fn input_operator(&mut self, operator: char) -> (r: Vec<CalculatorEvent>)
        ensures
            final(self)@ == after_operator(old(self)@, operator),
            notices(r@) == if operator == '%' {
                seq![
                    Notice::PercentagePressed,
                    Notice::ExpressionChanged(final(self)@.expression),
                ]
            } else if is_ascii_operator(canonical_glyph(operator)) {
                seq![
                    Notice::OperatorPressed(operator),
                    Notice::ExpressionChanged(final(self)@.expression),
                ]
            } else {
                Seq::<Notice>::empty()
            },
    {
        if operator == '%' {
            return self.input_percentage();
        }
        let op = canonical(operator);
        if !ascii_operator(op) {
            return no_events();
        }
        let mut e = self.resumed_chars();
        if e.len() > 0 && any_operator(e[e.len() - 1]) {
            e.pop();
        }
        e.push(op);
        self.enter(&e);
        let changed = self.expression_changed();
        two_events(CalculatorEvent::OperatorPressed(operator), changed)
    }

    /// Enters `(` or `)`; anything else is ignored. After an evaluation the
    /// expression restarts from `0`. A `)` that would close nothing is
    /// refused, and a `(` right after a digit or a `)` is preceded by `*`.
    pub fn input_parenthesis(&mut self, parenthesis: char) -> (r: Vec<CalculatorEvent>)
        ensures
            final(self)@ == after_parenthesis(old(self)@, parenthesis),
            notices(r@) == if parenthesis != '(' && parenthesis != ')' {
                Seq::<Notice>::empty()
            } else if parenthesis == ')' && !closing_allowed(restarted(old(self)@)) {
                if old(self)@.just_calculated {
                    seq![Notice::ExpressionChanged(final(self)@.expression)]
                } else {
                    Seq::<Notice>::empty()
                }
            } else {
                seq![
                    Notice::ParenthesisPressed(parenthesis),
                    Notice::ExpressionChanged(final(self)@.expression),
                ]
            },
    {
        if parenthesis != '(' && parenthesis != ')' {
            return no_events();
        }
        let mut e = self.restarted_chars();
        if parenthesis == ')' && count_char(&e, '(') <= count_char(&e, ')') {
            if self.state.just_calculated {
                self.enter(&e);
                let changed = self.expression_changed();
                let r = vec![changed];
                assert(notices(r@) =~= seq![changed@]);
                return r;
            }
            return no_events();
        }
        if parenthesis == '(' && e.len() > 0 && (digit(e[e.len() - 1]) || e[e.len() - 1] == ')') {
            e.push('*');
        }
        e.push(parenthesis);
        self.enter(&e);
        let changed = self.expression_changed();
        two_events(CalculatorEvent::ParenthesisPressed(parenthesis), changed)
    }

    /// Appends a point unless the number being entered (the text after the
    /// last operator) already has one. After an evaluation the expression
    /// restarts from `0`.
    pub fn input_decimal(&mut self) -> (r: Vec<CalculatorEvent>)
        ensures
            final(self)@ == after_decimal(old(self)@),
            notices(r@) == if !old(self)@.just_calculated && segment_has_point(old(self)@.expression) {
                Seq::<Notice>::empty()
            } else {
                seq![Notice::DecimalPressed, Notice::ExpressionChanged(final(self)@.expression)]
            },
    {
        let mut e = self.restarted_chars();
        if !self.state.just_calculated && point_in_segment(&e) {
            return no_events();
        }
        e.push('.');
        self.enter(&e);
        let changed = self.expression_changed();
        two_events(CalculatorEvent::DecimalPressed, changed)
    }

    /// The text to evaluate: the expression with canonical glyphs and each `%`
    /// written as `/100.0`; `None` when the expression is empty or `0`.
    pub fn evaluation_text(&self) -> (r: Option<String>)
        ensures
            match r {
                Some(t) => evaluation_input(self@) == Some(t@),
                None => evaluation_input(self@) is None,
            },
    {
        let e = self.expression_chars();
        if e.len() == 0 || is_zero_text(&e) {
            return None;
        }
        Some(text_of(&normalize(&e)))
    }

    /// Records the printed result of evaluating [`Self::evaluation_text`] and
    /// shows it; does nothing when there was nothing to evaluate.
    pub fn calculate(&mut self, result: String) -> (r: Vec<CalculatorEvent>)
        ensures
            final(self)@ == after_calculate(old(self)@, result@),
            notices(r@) == if has_work(old(self)@.expression) {
                seq![Notice::EqualsPressed, Notice::ResultCalculated(result@)]
            } else {
                Seq::<Notice>::empty()
            },
    {
        let e = self.expression_chars();
        if e.len() == 0 || is_zero_text(&e) {
            return no_events();
        }
        let shown = CalculatorEvent::ResultCalculated(result.clone());
        self.state.last_result = Some(result);
        self.state.just_calculated = true;
        two_events(CalculatorEvent::EqualsPressed, shown)
    }

    /// The expression being edited.
    pub fn expression(&self) -> (r: &str)
        ensures
            r@ == self@.expression,
    {
        self.state.expression.as_str()
    }

    /// What the display shows: the printed result without trailing `.0` right
    /// after an evaluation, else the expression with `×` and `÷`.
    pub fn display_text(&self) -> (r: String)
        ensures
            r@ == display(self@),
    {
        if self.state.just_calculated {
            match &self.state.last_result {
                Some(res) => text_of(&strip_point_zero(&chars_of(res.as_str()))),
                None => text_of(&zero_chars()),
            }
        } else {
            let e = self.expression_chars();
            if e.len() == 0 {
                text_of(&zero_chars())
            } else {
                text_of(&display_glyphs(&e))
            }
        }
    }

    /// The current state.
    pub fn state(&self) -> (r: &CalculatorState)
        ensures
            r@ == self@,
    {
        &self.state
    }

    /// Replaces the expression, in entering mode.
    pub fn set_expression(&mut self, expr: &str) -> (r: Vec<CalculatorEvent>)
        ensures
            final(self)@ == entering(expr@),
            notices(r@) == seq![Notice::ExpressionChanged(expr@)],
    {
        let e = chars_of(expr);
        self.enter(&e);
        let changed = self.expression_changed();
        let r = vec![changed];
        assert(notices(r@) =~= seq![changed@]);
        r
    }
}

} // verus!
