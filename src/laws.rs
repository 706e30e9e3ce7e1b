use vstd::prelude::*;
use crate::enums::{
    BufferState, CharType, ExpressionType, OperatorType, char_class, is_digit, is_number_char,
    operator_of,
};
use crate::errors::ParseError;
use crate::expression::{Term, number_literal, symbol, unsigned_decimal};
use crate::parser::{
    ParseState, awaits_operand, buffer_term, flush, initial_state, lemma_run_concat, node_kind,
    parse_model, run, step, step_empty,
};

verus! {

/// A literal that can open an expression: a number literal that does not
/// start with a decimal point.
pub open spec fn decimal_literal(s: Seq<char>) -> bool {
    number_literal(s) && s[0] != '.'
}

/// The shape of the trees that parsing builds: every left operand is complete
/// and every right operand present is a single decimal literal, so a chain of
/// operators groups from the left.
pub open spec fn left_grouped(t: Term) -> bool
    decreases t,
{
    match t {
        Term::Scalar(s) => decimal_literal(s),
        Term::Binary(k, l, r) => {
            &&& k != ExpressionType::ScalarValue
            &&& left_grouped(*l)
            &&& l.complete()
            &&& match r {
                Some(r) => match *r {
                    Term::Scalar(x) => decimal_literal(x),
                    _ => false,
                },
                None => true,
            }
        },
    }
}

/// What holds of the parser between two characters.
pub open spec fn consistent(st: ParseState) -> bool {
    &&& (st.tree matches Some(t) ==> left_grouped(t))
    &&& (st.state == BufferState::Empty ==> st.buffer.len() == 0)
    &&& (st.state == BufferState::Number ==> {
        &&& st.buffer.len() > 0
        &&& (st.buffer[0] == '-' || is_number_char(st.buffer[0]))
    })
}

proof fn lemma_literal_start(s: Seq<char>)
    requires
        number_literal(s),
    ensures
        s.len() > 0,
        is_digit(s[0]) || s[0] == '.' || s[0] == '-',
        forall|i: int| 1 <= i < s.len() ==> is_digit(#[trigger] s[i]) || s[i] == '.',
{
    if unsigned_decimal(s) {
        assert(is_digit(s[0]) || s[0] == '.');
    } else {
        assert forall|i: int| 1 <= i < s.len() implies is_digit(#[trigger] s[i]) || s[i]
            == '.' by {
            assert(s[i] == s.drop_first()[i - 1]);
        }
    }
}

proof fn lemma_flush_consistent(st: ParseState)
    requires
        consistent(st),
    ensures
        flush(st) matches Ok(f) ==> consistent(f),
{
    if let Ok(t) = buffer_term(st) {
        lemma_literal_start(st.buffer);
    }
}

/// A left-grouped tree that does not wait for an operand is complete.
proof fn lemma_closed_complete(t: Term)
    requires
        left_grouped(t),
        !t.is_open(),
    ensures
        t.complete(),
{
    if let Term::Binary(k, l, r) = t {
        let r = r->Some_0;
        assert(*r matches Term::Scalar(_));
        assert(r.complete());
    }
}

proof fn lemma_step_empty_consistent(st: ParseState, c: char, index: int)
    requires
        consistent(st),
        st.state == BufferState::Empty,
    ensures
        step_empty(st, c, index) matches Ok(n) ==> consistent(n),
{
    if let Some(t) = st.tree {
        if !t.is_open() {
            lemma_closed_complete(t);
        }
    }
    assert(st.buffer.push(c)[0] == c);
}

proof fn lemma_step_consistent(st: ParseState, c: char, index: int)
    requires
        consistent(st),
    ensures
        step(st, c, index) matches Ok(n) ==> consistent(n),
{
    lemma_flush_consistent(st);
    if st.state == BufferState::Empty {
        lemma_step_empty_consistent(st, c, index);
    }
    if let Ok(f) = flush(st) {
        lemma_step_empty_consistent(f, c, index);
    }
}

proof fn lemma_run_consistent(st: ParseState, s: Seq<char>, base: int)
    requires
        consistent(st),
    ensures
        run(st, s, base) matches Ok(n) ==> consistent(n),
    decreases s.len(),
{
    if s.len() > 0 {
        lemma_run_consistent(st, s.drop_last(), base);
        if let Ok(prev) = run(st, s.drop_last(), base) {
            lemma_step_consistent(prev, s.last(), base + s.len() - 1);
        }
    }
}

/// Every tree that parsing returns is complete and groups from the left: the
/// right operand of each binary node is a single literal, so `a - b + c` reads
/// `(a - b) + c`.
pub proof fn parsed_trees_group_from_the_left(s: Seq<char>, t: Term)
    requires
        parse_model(s) == Ok::<Term, ParseError>(t),
    ensures
        left_grouped(t),
        t.complete(),
{
    lemma_run_consistent(initial_state(), s, 0);
    let st = run(initial_state(), s, 0)->Ok_0;
    lemma_flush_consistent(st);
    lemma_closed_complete(t);
}

/// The literal a complete tree ends with.
pub open spec fn last_literal(t: Term) -> Seq<char> {
    match t {
        Term::Scalar(s) => s,
        Term::Binary(_, _, Some(r)) => r.render(),
        Term::Binary(_, _, None) => Seq::empty(),
    }
}

/// The tree without its last literal.
pub open spec fn pending(t: Term) -> Option<Term> {
    match t {
        Term::Scalar(_) => None,
        Term::Binary(k, l, _) => Some(Term::Binary(k, l, None)),
    }
}

/// The parser just before the end of the text of `t`.
pub open spec fn reading_last(t: Term) -> ParseState {
    ParseState { buffer: last_literal(t), state: BufferState::Number, tree: pending(t) }
}

pub open spec fn settled(t: Term) -> ParseState {
    ParseState { buffer: Seq::empty(), state: BufferState::Empty, tree: Some(t) }
}

proof fn lemma_collect_digits(st: ParseState, s: Seq<char>, base: int)
    requires
        st.state == BufferState::Number,
        forall|i: int| 0 <= i < s.len() ==> is_digit(#[trigger] s[i]) || s[i] == '.',
    ensures
        run(st, s, base) == Ok::<ParseState, ParseError>(
            ParseState { buffer: st.buffer + s, state: BufferState::Number, tree: st.tree },
        ),
    decreases s.len(),
{
    if s.len() == 0 {
        assert(st.buffer + s =~= st.buffer);
    } else {
        let c = s.last();
        assert(is_digit(s[s.len() - 1]) || s[s.len() - 1] == '.');
        lemma_collect_digits(st, s.drop_last(), base);
        assert((st.buffer + s.drop_last()).push(c) =~= st.buffer + s);
    }
}

proof fn lemma_read_literal(st: ParseState, s: Seq<char>, base: int)
    requires
        st.state == BufferState::Empty,
        st.buffer.len() == 0,
        number_literal(s),
        s[0] != '.',
        s[0] == '-' ==> awaits_operand(st),
    ensures
        run(st, s, base) == Ok::<ParseState, ParseError>(
            ParseState { buffer: s, state: BufferState::Number, tree: st.tree },
        ),
{
    lemma_literal_start(s);
    let head = s.take(1);
    let tail = s.skip(1);
    assert(head.drop_last() =~= Seq::<char>::empty());
    assert(head.last() == s[0]);
    assert(st.buffer.push(s[0]) =~= head);
    let first = ParseState { buffer: head, state: BufferState::Number, tree: st.tree };
    assert(run(st, head.drop_last(), base) == Ok::<ParseState, ParseError>(st));
    if is_digit(s[0]) {
        assert(char_class(s[0]) == CharType::Number);
    } else {
        assert(char_class(s[0]) == CharType::Operator);
        assert(operator_of(s[0]) == OperatorType::Subtract);
    }
    assert(run(st, head, base) == Ok::<ParseState, ParseError>(first));
    assert forall|i: int| 0 <= i < tail.len() implies is_digit(#[trigger] tail[i]) || tail[i]
        == '.' by {
        assert(tail[i] == s[i + 1]);
    }
    lemma_collect_digits(first, tail, base + 1);
    lemma_run_concat(st, head, tail, base);
    assert(head + tail =~= s);
}

proof fn lemma_flush_last(t: Term)
    requires
        left_grouped(t),
        t.complete(),
    ensures
        flush(reading_last(t)) == Ok::<ParseState, ParseError>(settled(t)),
{
    match t {
        Term::Scalar(s) => {},
        Term::Binary(k, l, r) => {
            let r = r->Some_0;
            assert(*r matches Term::Scalar(x) && last_literal(t) == x);
        },
    }
}

proof fn lemma_separator(t: Term, k: ExpressionType, base: int)
    requires
        left_grouped(t),
        t.complete(),
        k != ExpressionType::ScalarValue,
    ensures
        run(reading_last(t), seq![' ', symbol(k), ' '], base) == Ok::<ParseState, ParseError>(
            ParseState {
                buffer: Seq::empty(),
                state: BufferState::Empty,
                tree: Some(Term::Binary(k, Box::new(t), None)),
            },
        ),
{
    reveal_with_fuel(run, 4);
    let sep = seq![' ', symbol(k), ' '];
    assert(sep.drop_last() =~= seq![' ', symbol(k)]);
    assert(sep.drop_last().drop_last() =~= seq![' ']);
    assert(sep.drop_last().drop_last().drop_last() =~= Seq::<char>::empty());
    lemma_flush_last(t);
    assert(char_class(' ') == CharType::Whitespace);
    assert(char_class(symbol(k)) == CharType::Operator);
    assert(node_kind(operator_of(symbol(k))) == Some(k));
}

proof fn lemma_render_run(t: Term)
    requires
        left_grouped(t),
        t.complete(),
    ensures
        run(initial_state(), t.render(), 0) == Ok::<ParseState, ParseError>(reading_last(t)),
    decreases t,
{
    match t {
        Term::Scalar(s) => {
            lemma_read_literal(initial_state(), s, 0);
        },
        Term::Binary(k, l, r) => {
            let r = r->Some_0;
            let x = match *r {
                Term::Scalar(x) => x,
                _ => Seq::empty(),
            };
            let sep = seq![' ', symbol(k), ' '];
            lemma_render_run(*l);
            lemma_separator(*l, k, l.render().len() as int);
            lemma_run_concat(initial_state(), l.render(), sep, 0);
            let mid = ParseState {
                buffer: Seq::empty(),
                state: BufferState::Empty,
                tree: Some(Term::Binary(k, l, None)),
            };
            lemma_read_literal(mid, x, (l.render() + sep).len() as int);
            lemma_run_concat(initial_state(), l.render() + sep, x, 0);
        },
    }
}

/// A decimal literal, optionally negative, parses to the scalar written with
/// exactly its characters, and that scalar renders as the literal itself.
pub proof fn literal_parses_to_itself(s: Seq<char>)
    requires
        decimal_literal(s),
    ensures
        parse_model(s) == Ok::<Term, ParseError>(Term::Scalar(s)),
        Term::Scalar(s).render() == s,
{
    lemma_literal_start(s);
    lemma_read_literal(initial_state(), s, 0);
}

/// Parsing the rendering of a parsed tree gives that tree back, so the two
/// evaluate to the same value in every environment.
pub proof fn render_round_trip(s: Seq<char>, t: Term)
    requires
        parse_model(s) == Ok::<Term, ParseError>(t),
    ensures
        parse_model(t.render()) == Ok::<Term, ParseError>(t),
{
    parsed_trees_group_from_the_left(s, t);
    lemma_render_run(t);
    lemma_flush_last(t);
    lemma_literal_start(last_literal(t));
}

/// Something has been read: a buffer being filled, or a tree.
pub open spec fn started(st: ParseState) -> bool {
    st.buffer.len() > 0 || st.tree is Some
}

proof fn lemma_run_errors(st: ParseState, s: Seq<char>, base: int)
    ensures
        run(st, s, base) matches Err(e) ==> !(e is EmptyBuffer),
    decreases s.len(),
{
    if s.len() > 0 {
        lemma_run_errors(st, s.drop_last(), base);
    }
}

proof fn lemma_step_started(st: ParseState, c: char, index: int)
    requires
        started(st) || char_class(c) != CharType::Whitespace,
    ensures
        step(st, c, index) matches Ok(n) ==> started(n),
{
}

proof fn lemma_run_started(st: ParseState, s: Seq<char>, base: int)
    requires
        started(st),
    ensures
        run(st, s, base) matches Ok(n) ==> started(n),
    decreases s.len(),
{
    if s.len() > 0 {
        lemma_run_started(st, s.drop_last(), base);
        if let Ok(prev) = run(st, s.drop_last(), base) {
            lemma_step_started(prev, s.last(), base + s.len() - 1);
        }
    }
}

proof fn lemma_run_blank(s: Seq<char>, base: int)
    requires
        forall|i: int| 0 <= i < s.len() ==> char_class(#[trigger] s[i]) == CharType::Whitespace,
    ensures
        run(initial_state(), s, base) == Ok::<ParseState, ParseError>(initial_state()),
    decreases s.len(),
{
    if s.len() > 0 {
        assert(char_class(s[s.len() - 1]) == CharType::Whitespace);
        lemma_run_blank(s.drop_last(), base);
    }
}

/// Parsing fails with `EmptyBuffer` exactly when every character of the input
/// is whitespace (the empty input included).
pub proof fn empty_buffer_exactly_on_blank_input(s: Seq<char>)
    ensures
        (parse_model(s) matches Err(ParseError::EmptyBuffer(_))) <==> forall|i: int|
            0 <= i < s.len() ==> char_class(#[trigger] s[i]) == CharType::Whitespace,
{
    if forall|i: int| 0 <= i < s.len() ==> char_class(#[trigger] s[i]) == CharType::Whitespace {
        lemma_run_blank(s, 0);
    } else {
        let j = choose|j: int| 0 <= j < s.len() && char_class(#[trigger] s[j]) != CharType::Whitespace;
        let head = s.take(j + 1);
        let tail = s.skip(j + 1);
        assert(head.drop_last() =~= s.take(j));
        assert(head.last() == s[j]);
        lemma_run_errors(initial_state(), s.take(j), 0);
        if let Ok(m) = run(initial_state(), s.take(j), 0) {
            lemma_step_started(m, s[j], j);
        }
        lemma_run_errors(initial_state(), head, 0);
        lemma_run_concat(initial_state(), head, tail, 0);
        assert(head + tail =~= s);
        if let Ok(n) = run(initial_state(), head, 0) {
            lemma_run_started(n, tail, j + 1);
            lemma_run_errors(n, tail, j + 1);
        }
    }
}

} // verus!
