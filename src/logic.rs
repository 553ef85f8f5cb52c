//! Expression evaluation: tokens, the shunting-yard converter and the
//! postfix evaluator.
use vstd::prelude::*;
use crate::text::{chars_of, is_number_char, number_char, text_of};

verus! {

/// A binary arithmetic operator.
#[derive(Clone, Copy, Debug, PartialEq, Eq, Structural)]
pub enum Operation {
    Plus,
    Minus,
    Times,
    Divide,
}

pub open spec fn precedence(op: Operation) -> u8 {
    match op {
        Operation::Plus | Operation::Minus => 1,
        Operation::Times | Operation::Divide => 2,
    }
}

/// Binding strength of an operator: the larger binds tighter.
pub fn operator_precedence(op: &Operation) -> (r: u8)
    ensures
        r == precedence(*op),
{
    match op {
        Operation::Plus | Operation::Minus => 1,
        Operation::Times | Operation::Divide => 2,
    }
}


/// A lexical unit of an expression. A number keeps the text of its literal.
#[derive(Debug)]
pub enum Token {
    Number(String),
    Operator(Operation),
    LeftParen,
    RightParen,
}

/// The mathematical value of a [`Token`].
pub enum Lexeme {
    Number(Seq<char>),
    Operator(Operation),
    LeftParen,
    RightParen,
}

impl View for Token {
    type V = Lexeme;

    open spec fn view(&self) -> Lexeme {
        match self {
            Token::Number(s) => Lexeme::Number(s@),
            Token::Operator(op) => Lexeme::Operator(*op),
            Token::LeftParen => Lexeme::LeftParen,
            Token::RightParen => Lexeme::RightParen,
        }
    }
}

impl Token {
    /// A copy of this token.
    pub fn duplicate(&self) -> (r: Token)
        ensures
            r@ == self@,
    {
        match self {
            Token::Number(s) => Token::Number(s.clone()),
            Token::Operator(op) => Token::Operator(*op),
            Token::LeftParen => Token::LeftParen,
            Token::RightParen => Token::RightParen,
        }
    }
}

pub open spec fn lexemes(v: Seq<Token>) -> Seq<Lexeme> {
    v.map_values(|t: Token| t@)
}

pub open spec fn lexeme_option(o: Option<Token>) -> Option<Lexeme> {
    match o {
        Some(t) => Some(t@),
        None => None,
    }
}

/// The token that a single non-numeric character stands for, if any.
pub open spec fn lexeme_of_char(c: char) -> Option<Lexeme> {
    if c == '+' {
        Some(Lexeme::Operator(Operation::Plus))
    } else if c == '-' {
        Some(Lexeme::Operator(Operation::Minus))
    } else if c == '*' || c == '×' {
        Some(Lexeme::Operator(Operation::Times))
    } else if c == '/' || c == '÷' {
        Some(Lexeme::Operator(Operation::Divide))
    } else if c == '(' {
        Some(Lexeme::LeftParen)
    } else if c == ')' {
        Some(Lexeme::RightParen)
    } else {
        None
    }
}

pub open spec fn point_count(s: Seq<char>) -> nat
    decreases s.len(),
{
    if s.len() == 0 {
        0
    } else {
        point_count(s.drop_last()) + if s.last() == '.' { 1nat } else { 0nat }
    }
}

/// A run of digits and points reads as a number when it holds at least one
/// digit and at most one point.
pub open spec fn is_literal(run: Seq<char>) -> bool {
    point_count(run) <= 1 && point_count(run) < run.len()
}

/// The tokens that a finished run of digits and points contributes: a number,
/// or nothing when the run is empty or malformed.
pub open spec fn flushed(run: Seq<char>) -> Seq<Lexeme> {
    if is_literal(run) {
        seq![Lexeme::Number(run)]
    } else {
        seq![]
    }
}

pub open spec fn option_seq(o: Option<Lexeme>) -> Seq<Lexeme> {
    match o {
        Some(l) => seq![l],
        None => seq![],
    }
}

/// Left-to-right scan of `s`: the tokens completed so far and the pending
/// numeric run. Characters that are neither numeric nor a token (whitespace,
/// anything unknown) only end the pending run.
pub open spec fn scan(s: Seq<char>) -> (Seq<Lexeme>, Seq<char>)
    decreases s.len(),
{
    if s.len() == 0 {
        (seq![], seq![])
    } else {
        let (done, run) = scan(s.drop_last());
        let c = s.last();
        if is_number_char(c) {
            (done, run.push(c))
        } else {
            (done + flushed(run) + option_seq(lexeme_of_char(c)), seq![])
        }
    }
}

/// The token sequence of an expression text.
pub open spec fn tokenized(s: Seq<char>) -> Seq<Lexeme> {
    scan(s).0 + flushed(scan(s).1)
}

/// Classifies a character that cannot be part of a number.
pub fn char_to_token(c: char) -> (r: Option<Token>)
    ensures
        lexeme_option(r) == lexeme_of_char(c),
{
    if c == '+' {
        Some(Token::Operator(Operation::Plus))
    } else if c == '-' {
        Some(Token::Operator(Operation::Minus))
    } else if c == '*' || c == '×' {
        Some(Token::Operator(Operation::Times))
    } else if c == '/' || c == '÷' {
        Some(Token::Operator(Operation::Divide))
    } else if c == '(' {
        Some(Token::LeftParen)
    } else if c == ')' {
        Some(Token::RightParen)
    } else {
        None
    }
}

proof fn lemma_lexemes_push(v: Seq<Token>, t: Token)
    ensures
        lexemes(v.push(t)) == lexemes(v).push(t@),
{
    assert(lexemes(v.push(t)) =~= lexemes(v).push(t@));
}

fn literal(run: &Vec<char>) -> (r: bool)
    ensures
        r == is_literal(run@),
{
    let mut points: usize = 0;
    let mut i: usize = 0;
    while i < run.len()
        invariant
            i <= run.len(),
            points as nat == point_count(run@.subrange(0, i as int)),
            points <= i,
        decreases run.len() - i,
    {
        assert(run@.subrange(0, i + 1).drop_last() =~= run@.subrange(0, i as int));
        if run[i] == '.' {
            points = points + 1;
        }
        i = i + 1;
    }
    assert(run@.subrange(0, i as int) =~= run@);
    points <= 1 && points < run.len()
}

fn flush_run(tokens: &mut Vec<Token>, run: &Vec<char>)
    ensures
        lexemes(final(tokens)@) == lexemes(old(tokens)@) + flushed(run@),
{
    if literal(run) {
        let t = Token::Number(text_of(run));
        proof {
            lemma_lexemes_push(tokens@, t);
        }
        tokens.push(t);
        assert(lexemes(tokens@) =~= lexemes(old(tokens)@) + flushed(run@));
    } else {
        assert(lexemes(tokens@) =~= lexemes(old(tokens)@) + flushed(run@));
    }
}

/// Splits an expression text into tokens.
pub fn parse_expression(expr: &str) -> (r: Vec<Token>)
    ensures
        lexemes(r@) == tokenized(expr@),
{
    let chars = chars_of(expr);
    let mut tokens: Vec<Token> = Vec::new();
    let mut run: Vec<char> = Vec::new();
    let mut i: usize = 0;
    assert(lexemes(tokens@) =~= seq![]);
    while i < chars.len()
        invariant
            i <= chars.len(),
            chars@ == expr@,
            scan(chars@.subrange(0, i as int)) == (lexemes(tokens@), run@),
        decreases chars.len() - i,
    {
        let c = chars[i];
        assert(chars@.subrange(0, i + 1).drop_last() =~= chars@.subrange(0, i as int));
        if number_char(c) {
            run.push(c);
        } else {
            flush_run(&mut tokens, &run);
            run = Vec::new();
            match char_to_token(c) {
                Some(t) => {
                    proof {
                        lemma_lexemes_push(tokens@, t);
                    }
                    tokens.push(t);
                },
                None => {},
            }
            assert(lexemes(tokens@) =~= scan(chars@.subrange(0, i + 1)).0);
            assert(run@ =~= seq![]);
        }
        i = i + 1;
    }
    assert(chars@.subrange(0, i as int) =~= expr@);
    flush_run(&mut tokens, &run);
    tokens
}


/// Right parenthesis: moves operators from the stack (top last) to the output
/// until a left parenthesis is popped and dropped, or the stack runs out.
pub open spec fn pop_to_left(out: Seq<Lexeme>, stack: Seq<Lexeme>) -> (Seq<Lexeme>, Seq<Lexeme>)
    decreases stack.len(),
{
    if stack.len() == 0 {
        (out, stack)
    } else if stack.last() is LeftParen {
        (out, stack.drop_last())
    } else {
        pop_to_left(out.push(stack.last()), stack.drop_last())
    }
}

/// Operator `op`: moves operators of precedence at least that of `op` from the
/// top of the stack to the output.
pub open spec fn pop_binding(out: Seq<Lexeme>, stack: Seq<Lexeme>, op: Operation) -> (
    Seq<Lexeme>,
    Seq<Lexeme>,
)
    decreases stack.len(),
{
    if stack.len() == 0 {
        (out, stack)
    } else {
        match stack.last() {
            Lexeme::Operator(top) => if precedence(top) >= precedence(op) {
                pop_binding(out.push(stack.last()), stack.drop_last(), op)
            } else {
                (out, stack)
            },
            _ => (out, stack),
        }
    }
}

/// End of input: the whole stack goes to the output, top first.
pub open spec fn drained(out: Seq<Lexeme>, stack: Seq<Lexeme>) -> Seq<Lexeme>
    decreases stack.len(),
{
    if stack.len() == 0 {
        out
    } else {
        drained(out.push(stack.last()), stack.drop_last())
    }
}

/// One token of the shunting-yard algorithm on (output, operator stack).
pub open spec fn shunt_step(out: Seq<Lexeme>, stack: Seq<Lexeme>, t: Lexeme) -> (
    Seq<Lexeme>,
    Seq<Lexeme>,
) {
    match t {
        Lexeme::Number(_) => (out.push(t), stack),
        Lexeme::LeftParen => (out, stack.push(t)),
        Lexeme::RightParen => pop_to_left(out, stack),
        Lexeme::Operator(op) => {
            let (o, s) = pop_binding(out, stack, op);
            (o, s.push(t))
        },
    }
}

pub open spec fn shunt(ts: Seq<Lexeme>) -> (Seq<Lexeme>, Seq<Lexeme>)
    decreases ts.len(),
{
    if ts.len() == 0 {
        (seq![], seq![])
    } else {
        let (out, stack) = shunt(ts.drop_last());
        shunt_step(out, stack, ts.last())
    }
}

/// The postfix order of an infix token sequence.
pub open spec fn postfix(ts: Seq<Lexeme>) -> Seq<Lexeme> {
    drained(shunt(ts).0, shunt(ts).1)
}

proof fn lemma_lexemes_drop_last(v: Seq<Token>)
    requires
        v.len() > 0,
    ensures
        lexemes(v.drop_last()) == lexemes(v).drop_last(),
        lexemes(v).last() == v.last()@,
{
    assert(lexemes(v.drop_last()) =~= lexemes(v).drop_last());
}

fn move_to_left_paren(output: &mut Vec<Token>, stack: &mut Vec<Token>)
    ensures
        (lexemes(final(output)@), lexemes(final(stack)@)) == pop_to_left(
            lexemes(old(output)@),
            lexemes(old(stack)@),
        ),
{
    let ghost target = pop_to_left(lexemes(output@), lexemes(stack@));
    let mut done = false;
    while !done && stack.len() > 0
        invariant
            done ==> (lexemes(output@), lexemes(stack@)) == target,
            !done ==> pop_to_left(lexemes(output@), lexemes(stack@)) == target,
        decreases stack.len(),
    {
        proof {
            lemma_lexemes_drop_last(stack@);
        }
        match stack.pop() {
            Some(top) => {
                match top {
                    Token::LeftParen => {
                        done = true;
                    },
                    _ => {
                        proof {
                            lemma_lexemes_push(output@, top);
                        }
                        output.push(top);
                    },
                }
            },
            None => {},
        }
    }
}

fn move_binding(output: &mut Vec<Token>, stack: &mut Vec<Token>, op: Operation)
    ensures
        (lexemes(final(output)@), lexemes(final(stack)@)) == pop_binding(
            lexemes(old(output)@),
            lexemes(old(stack)@),
            op,
        ),
{
    let ghost target = pop_binding(lexemes(output@), lexemes(stack@), op);
    let mut done = false;
    while !done && stack.len() > 0
        invariant
            done ==> (lexemes(output@), lexemes(stack@)) == target,
            !done ==> pop_binding(lexemes(output@), lexemes(stack@), op) == target,
        decreases stack.len() + if done { 0int } else { 1int },
    {
        proof {
            lemma_lexemes_drop_last(stack@);
        }
        let n = stack.len();
        let pops = match &stack[n - 1] {
            Token::Operator(top) => operator_precedence(top) >= operator_precedence(&op),
            _ => false,
        };
        if pops {
            match stack.pop() {
                Some(top) => {
                    proof {
                        lemma_lexemes_push(output@, top);
                    }
                    output.push(top);
                },
                None => {},
            }
        } else {
            done = true;
        }
    }
}

/// Reorders infix tokens into postfix order (shunting-yard). A right
/// parenthesis without a partner drains the stack; left parentheses still on
/// the stack at the end go to the output with the operators.
pub fn infix_to_postfix(tokens: &[Token]) -> (r: Vec<Token>)
    ensures
        lexemes(r@) == postfix(lexemes(tokens@)),
{
    let mut output: Vec<Token> = Vec::new();
    let mut stack: Vec<Token> = Vec::new();
    let mut i: usize = 0;
    assert(lexemes(output@) =~= seq![]);
    assert(lexemes(stack@) =~= seq![]);
    while i < tokens.len()
        invariant
            i <= tokens.len(),
            shunt(lexemes(tokens@).subrange(0, i as int)) == (lexemes(output@), lexemes(stack@)),
        decreases tokens.len() - i,
    {
        let ghost prefix = lexemes(tokens@).subrange(0, i + 1);
        assert(prefix.drop_last() =~= lexemes(tokens@).subrange(0, i as int));
        assert(prefix.last() == tokens@[i as int]@);
        let t = tokens[i].duplicate();
        match t {
            Token::Number(_) => {
                proof {
                    lemma_lexemes_push(output@, t);
                }
                output.push(t);
            },
            Token::LeftParen => {
                proof {
                    lemma_lexemes_push(stack@, t);
                }
                stack.push(t);
            },
            Token::RightParen => {
                move_to_left_paren(&mut output, &mut stack);
            },
            Token::Operator(op) => {
                move_binding(&mut output, &mut stack, op);
                proof {
                    lemma_lexemes_push(stack@, t);
                }
                stack.push(t);
            },
        }
        i = i + 1;
    }
    assert(lexemes(tokens@).subrange(0, i as int) =~= lexemes(tokens@));
    let ghost target = postfix(lexemes(tokens@));
    while stack.len() > 0
        invariant
            drained(lexemes(output@), lexemes(stack@)) == target,
        decreases stack.len(),
    {
        proof {
            lemma_lexemes_drop_last(stack@);
        }
        match stack.pop() {
            Some(top) => {
                proof {
                    lemma_lexemes_push(output@, top);
                }
                output.push(top);
            },
            None => {},
        }
    }
    output
}


/// An evaluation tree: what a postfix sequence computes, with each number
/// kept as the text of its literal.
#[derive(Debug)]
pub enum Expr {
    Number(String),
    Binary(Operation, Box<Expr>, Box<Expr>),
}

/// The mathematical value of an [`Expr`].
pub enum Term {
    Number(Seq<char>),
    Binary(Operation, Box<Term>, Box<Term>),
}

pub open spec fn term_of(e: Expr) -> Term
    decreases e,
{
    match e {
        Expr::Number(s) => Term::Number(s@),
        Expr::Binary(op, a, b) => Term::Binary(op, Box::new(term_of(*a)), Box::new(term_of(*b))),
    }
}

impl View for Expr {
    type V = Term;

    open spec fn view(&self) -> Term {
        term_of(*self)
    }
}

pub open spec fn terms(v: Seq<Expr>) -> Seq<Term> {
    v.map_values(|e: Expr| e@)
}

pub open spec fn term_option(o: Option<Expr>) -> Option<Term> {
    match o {
        Some(e) => Some(e@),
        None => None,
    }
}

/// One token of postfix evaluation on a value stack (top last); `None` once
/// evaluation has failed.
pub open spec fn eval_step(stack: Option<Seq<Term>>, t: Lexeme) -> Option<Seq<Term>> {
    match stack {
        None => None,
        Some(st) => match t {
            Lexeme::Number(s) => Some(st.push(Term::Number(s))),
            Lexeme::Operator(op) => if st.len() < 2 {
                None
            } else {
                let a = st[st.len() - 2];
                let b = st.last();
                Some(st.drop_last().drop_last().push(Term::Binary(op, Box::new(a), Box::new(b))))
            },
            _ => None,
        },
    }
}

pub open spec fn eval_stack(ts: Seq<Lexeme>) -> Option<Seq<Term>>
    decreases ts.len(),
{
    if ts.len() == 0 {
        Some(seq![])
    } else {
        eval_step(eval_stack(ts.drop_last()), ts.last())
    }
}

/// What a postfix sequence evaluates to: present exactly when every operator
/// finds two operands, no parenthesis occurs, and one value is left.
pub open spec fn postfix_value(ts: Seq<Lexeme>) -> Option<Term> {
    match eval_stack(ts) {
        Some(st) => if st.len() == 1 {
            Some(st[0])
        } else {
            None
        },
        None => None,
    }
}

/// The evaluation tree of an infix expression text.
pub open spec fn expression_value(s: Seq<char>) -> Option<Term> {
    postfix_value(postfix(tokenized(s)))
}

proof fn lemma_failure_persists(ts: Seq<Lexeme>, i: int)
    requires
        0 <= i <= ts.len(),
        eval_stack(ts.subrange(0, i)) is None,
    ensures
        eval_stack(ts) is None,
    decreases ts.len(),
{
    if i < ts.len() {
        assert(ts.drop_last().subrange(0, i) =~= ts.subrange(0, i));
        lemma_failure_persists(ts.drop_last(), i);
    } else {
        assert(ts.subrange(0, i) =~= ts);
    }
}

proof fn lemma_terms_push(v: Seq<Expr>, e: Expr)
    ensures
        terms(v.push(e)) == terms(v).push(e@),
{
    assert(terms(v.push(e)) =~= terms(v).push(e@));
}

proof fn lemma_terms_drop_last(v: Seq<Expr>)
    requires
        v.len() > 0,
    ensures
        terms(v.drop_last()) == terms(v).drop_last(),
{
    assert(terms(v.drop_last()) =~= terms(v).drop_last());
}

/// Evaluates a postfix sequence into a tree; `None` when an operator lacks
/// operands, a parenthesis occurs, or more or less than one value remains.
pub fn evaluate_postfix(tokens: &[Token]) -> (r: Option<Expr>)
    ensures
        term_option(r) == postfix_value(lexemes(tokens@)),
{
    let ghost ts = lexemes(tokens@);
    let mut stack: Vec<Expr> = Vec::new();
    let mut i: usize = 0;
    assert(terms(stack@) =~= seq![]);
    while i < tokens.len()
        invariant
            i <= tokens.len(),
            ts == lexemes(tokens@),
            eval_stack(ts.subrange(0, i as int)) == Some(terms(stack@)),
        decreases tokens.len() - i,
    {
        let ghost prefix = ts.subrange(0, i + 1);
        assert(prefix.drop_last() =~= ts.subrange(0, i as int));
        assert(prefix.last() == tokens@[i as int]@);
        match &tokens[i] {
            Token::Number(s) => {
                let e = Expr::Number(s.clone());
                proof {
                    lemma_terms_push(stack@, e);
                }
                stack.push(e);
            },
            Token::Operator(op) => {
                if stack.len() < 2 {
                    proof {
                        lemma_failure_persists(ts, i + 1);
                    }
                    return None;
                }
                let ghost before = stack@;
                proof {
                    lemma_terms_drop_last(before);
                    lemma_terms_drop_last(before.drop_last());
                }
                let b = stack.pop().unwrap();
                let a = stack.pop().unwrap();
                let e = Expr::Binary(*op, Box::new(a), Box::new(b));
                proof {
                    lemma_terms_push(stack@, e);
                }
                stack.push(e);
                assert(terms(stack@) =~= eval_stack(prefix)->0);
            },
            _ => {
                proof {
                    lemma_failure_persists(ts, i + 1);
                }
                return None;
            },
        }
        i = i + 1;
    }
    assert(ts.subrange(0, i as int) =~= ts);
    if stack.len() == 1 {
        stack.pop()
    } else {
        None
    }
}

/// Tokenizes, converts and evaluates an expression text into its tree.
pub fn expression_tree(text: &str) -> (r: Option<Expr>)
    ensures
        term_option(r) == expression_value(text@),
{
    let tokens = parse_expression(text);
    let post = infix_to_postfix(tokens.as_slice());
    evaluate_postfix(post.as_slice())
}

} // verus!
