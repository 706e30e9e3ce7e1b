use vstd::prelude::*;
use crate::enums::{
    BufferState, CharType, ExpressionType, OperatorType, char_class, is_operator_symbol,
    operator_of,
};
use crate::errors::{
    AttachImpossible, EmptyBuffer, InvalidCharacter, ParseError, ParsingError, BRACKETS_UNSUPPORTED,
    LETTER_IN_NUMBER, MALFORMED_NUMBER, MISSING_OPERAND, NAMES_UNSUPPORTED, NOTHING_BUFFERED,
    OPERATOR_AT_START, POINT_AT_START, POWER_UNSUPPORTED, UNKNOWN_SYMBOL,
};
use crate::expression::{Expression, ScalarValue, Term, binary_node, number_literal};
use crate::laws::parsed_trees_group_from_the_left;
use crate::text::chars_of;

verus! {

/// Model of the parser between two characters: the text collected so far,
/// what is being collected, and the tree built so far.
pub struct ParseState {
    pub buffer: Seq<char>,
    pub state: BufferState,
    pub tree: Option<Term>,
}

pub open spec fn initial_state() -> ParseState {
    ParseState { buffer: Seq::empty(), state: BufferState::Empty, tree: None }
}

pub open spec fn invalid(character: char, index: int, message: &'static str) -> ParseError {
    ParseError::InvalidCharacter(InvalidCharacter { index: index as usize, character, message })
}

/// The node kind that an operator starts, if it starts one.
pub open spec fn node_kind(op: OperatorType) -> Option<ExpressionType> {
    match op {
        OperatorType::Add => Some(ExpressionType::Addition),
        OperatorType::Subtract => Some(ExpressionType::Subtraction),
        OperatorType::Multiply => Some(ExpressionType::Multiplication),
        OperatorType::Divide => Some(ExpressionType::Division),
        OperatorType::Power => None,
    }
}

/// The expression that the buffer holds: a scalar in number mode.
pub open spec fn buffer_term(st: ParseState) -> Result<Term, ParsingError> {
    match st.state {
        BufferState::Number => if number_literal(st.buffer) {
            Ok(Term::Scalar(st.buffer))
        } else {
            Err(ParsingError { message: MALFORMED_NUMBER })
        },
        BufferState::Name => Err(ParsingError { message: NAMES_UNSUPPORTED }),
        BufferState::Empty => Err(ParsingError { message: NOTHING_BUFFERED }),
        BufferState::Bracket => Err(ParsingError { message: BRACKETS_UNSUPPORTED }),
    }
}

/// Whether the next thing the parser needs is an operand: there is no tree
/// yet, or its top node waits for its right operand.
pub open spec fn awaits_operand(st: ParseState) -> bool {
    match st.tree {
        Some(t) => t.is_open(),
        None => true,
    }
}

/// Turns the buffer into an expression, attaches it to the tree and empties
/// the buffer.
pub open spec fn flush(st: ParseState) -> Result<ParseState, ParseError> {
    match buffer_term(st) {
        Err(e) => Err(ParseError::ParsingError(e)),
        Ok(t) => match st.tree {
            None => Ok(ParseState { buffer: Seq::empty(), state: BufferState::Empty, tree: Some(t) }),
            Some(old) => match old.attach(t) {
                Ok(n) => Ok(ParseState { buffer: Seq::empty(), state: BufferState::Empty, tree: Some(n) }),
                Err(x) => Err(ParseError::AttachImpossible(x)),
            },
        },
    }
}

pub open spec fn collect(st: ParseState, c: char, mode: BufferState) -> ParseState {
    ParseState { buffer: st.buffer.push(c), state: mode, tree: st.tree }
}

/// Reaction to `c` at `index` while nothing is being collected.
pub open spec fn step_empty(st: ParseState, c: char, index: int) -> Result<ParseState, ParseError> {
    match char_class(c) {
        CharType::Number => Ok(collect(st, c, BufferState::Number)),
        CharType::Letter => Ok(collect(st, c, BufferState::Name)),
        CharType::Operator => if awaits_operand(st) {
            if operator_of(c) == OperatorType::Subtract {
                Ok(collect(st, c, BufferState::Number))
            } else {
                Err(invalid(c, index, OPERATOR_AT_START))
            }
        } else {
            match node_kind(operator_of(c)) {
                Some(k) => Ok(
                    ParseState { tree: Some(Term::Binary(k, Box::new(st.tree->Some_0), None)), ..st },
                ),
                None => Err(invalid(c, index, POWER_UNSUPPORTED)),
            }
        },
        CharType::Whitespace => Ok(st),
        CharType::Bracket => Err(invalid(c, index, BRACKETS_UNSUPPORTED)),
        CharType::Point => Err(invalid(c, index, POINT_AT_START)),
        CharType::Unknown => Err(invalid(c, index, UNKNOWN_SYMBOL)),
    }
}

/// Reaction to `c` at `index` while a number is being collected.
pub open spec fn step_number(st: ParseState, c: char, index: int) -> Result<ParseState, ParseError> {
    match char_class(c) {
        CharType::Number => Ok(collect(st, c, BufferState::Number)),
        CharType::Letter => Err(invalid(c, index, LETTER_IN_NUMBER)),
        CharType::Operator => match flush(st) {
            Ok(f) => step_empty(f, c, index),
            Err(e) => Err(e),
        },
        CharType::Whitespace => flush(st),
        CharType::Bracket => Err(invalid(c, index, BRACKETS_UNSUPPORTED)),
        CharType::Point => Ok(collect(st, c, BufferState::Number)),
        CharType::Unknown => Err(invalid(c, index, UNKNOWN_SYMBOL)),
    }
}

/// Reaction to `c` at `index` while a name is being collected.
pub open spec fn step_name(st: ParseState, c: char, index: int) -> Result<ParseState, ParseError> {
    match char_class(c) {
        CharType::Number | CharType::Letter | CharType::Point => Ok(
            collect(st, c, BufferState::Name),
        ),
        CharType::Operator => match flush(st) {
            Ok(f) => step_empty(f, c, index),
            Err(e) => Err(e),
        },
        CharType::Whitespace => flush(st),
        CharType::Bracket => Err(invalid(c, index, BRACKETS_UNSUPPORTED)),
        CharType::Unknown => Err(invalid(c, index, UNKNOWN_SYMBOL)),
    }
}

/// One transition of the parser on the character `c` at `index`.
pub open spec fn step(st: ParseState, c: char, index: int) -> Result<ParseState, ParseError> {
    match st.state {
        BufferState::Empty => step_empty(st, c, index),
        BufferState::Number => step_number(st, c, index),
        BufferState::Name => step_name(st, c, index),
        BufferState::Bracket => Err(invalid(c, index, BRACKETS_UNSUPPORTED)),
    }
}

/// The parser after reading `s` from `st`, the first character of `s` being
/// at position `base` of the input; the first error stops it.
pub open spec fn run(st: ParseState, s: Seq<char>, base: int) -> Result<ParseState, ParseError>
    decreases s.len(),
{
    if s.len() == 0 {
        Ok(st)
    } else {
        match run(st, s.drop_last(), base) {
            Ok(prev) => step(prev, s.last(), base + s.len() - 1),
            Err(e) => Err(e),
        }
    }
}

/// The finished tree; one still waiting for an operand is refused.
pub open spec fn tree_of(st: ParseState) -> Result<Term, ParseError> {
    match st.tree {
        Some(t) => if t.is_open() {
            Err(ParseError::ParsingError(ParsingError { message: MISSING_OPERAND }))
        } else {
            Ok(t)
        },
        None => Err(ParseError::EmptyBuffer(EmptyBuffer)),
    }
}

/// End of input: a non-empty buffer is flushed, then the tree is the result.
pub open spec fn finish(st: ParseState) -> Result<Term, ParseError> {
    if st.buffer.len() > 0 {
        match flush(st) {
            Ok(f) => tree_of(f),
            Err(e) => Err(e),
        }
    } else {
        tree_of(st)
    }
}

/// What parsing `s` gives.
pub open spec fn parse_model(s: Seq<char>) -> Result<Term, ParseError> {
    match run(initial_state(), s, 0) {
        Ok(st) => finish(st),
        Err(e) => Err(e),
    }
}

pub open spec fn stepped(r: Result<(), ParseError>, after: ParseState, expected: Result<
    ParseState,
    ParseError,
>) -> bool {
    match expected {
        Ok(st) => r is Ok && after == st,
        Err(e) => r == Err::<(), ParseError>(e),
    }
}

pub open spec fn term_of(e: Option<Expression>) -> Option<Term> {
    match e {
        Some(e) => Some(e.term()),
        None => None,
    }
}

struct ParserContext {
    buffer: Vec<char>,
    state: BufferState,
    expression: Option<Expression>,
}

impl ParserContext {
    spec fn model(&self) -> ParseState {
        ParseState { buffer: self.buffer@, state: self.state, tree: term_of(self.expression) }
    }

    /// Puts `exp` into the tree: it becomes the tree if there is none, else it
    /// is attached after it. On failure the tree is left as it was.
    fn attach_exp(&mut self, exp: Expression) -> (r: Result<(), ParseError>)
        ensures
            match old(self).expression {
                None => r is Ok && final(self).expression == Some(exp),
                Some(t) => match t.term().attach(exp.term()) {
                    Ok(n) => r is Ok && term_of(final(self).expression) == Some(n),
                    Err(x) => r == Err::<(), ParseError>(ParseError::AttachImpossible(x)),
                },
            },
            r is Err ==> final(self).model() == old(self).model(),
            final(self).buffer == old(self).buffer,
            final(self).state == old(self).state,
    {
        if let Some(t) = &self.expression {
            let target_type = t.get_exp_type();
            let attach_type = exp.get_exp_type();
            if (target_type == ExpressionType::ScalarValue && attach_type
                == ExpressionType::ScalarValue) || (target_type != ExpressionType::ScalarValue
                && !t.is_open()) {
                return Err(
                    ParseError::AttachImpossible(AttachImpossible { target_type, attach_type }),
                );
            }
        }
        match self.expression.take() {
            Some(t) => match t.attach_after(exp) {
                Ok(n) => {
                    self.expression = Some(n);
                    Ok(())
                },
                Err(x) => Err(ParseError::AttachImpossible(x)),
            },
            None => {
                self.expression = Some(exp);
                Ok(())
            },
        }
    }
}

/// The expression that the buffer holds.
fn parse_buffer(context: &ParserContext) -> (r: Result<Expression, ParseError>)
    ensures
        match buffer_term(context.model()) {
            Ok(t) => r matches Ok(e) && e.term() == t,
            Err(e) => r == Err::<Expression, ParseError>(ParseError::ParsingError(e)),
        },
{
    let message = match context.state {
        BufferState::Number => {
            return match ScalarValue::from_chars(&context.buffer) {
                Ok(v) => Ok(Expression::ScalarValue(v)),
                Err(e) => Err(ParseError::ParsingError(e)),
            };
        },
        BufferState::Name => NAMES_UNSUPPORTED,
        BufferState::Empty => NOTHING_BUFFERED,
        BufferState::Bracket => BRACKETS_UNSUPPORTED,
    };
    Err(ParseError::ParsingError(ParsingError { message }))
}

fn apply_buffer(context: &mut ParserContext) -> (r: Result<(), ParseError>)
    ensures
        stepped(r, final(context).model(), flush(old(context).model())),
        r is Err ==> final(context).model() == old(context).model(),
{
    let parsed = parse_buffer(context)?;
    context.attach_exp(parsed)?;
    context.buffer = Vec::new();
    context.state = BufferState::Empty;
    Ok(())
}

fn invalid_character(character: char, index: usize, message: &'static str) -> (r: Result<
    (),
    ParseError,
>)
    ensures
        r == Err::<(), ParseError>(invalid(character, index as int, message)),
{
    Err(ParseError::InvalidCharacter(InvalidCharacter { index, character, message }))
}

fn parse_empty(character: char, char_type: CharType, index: usize, context: &mut ParserContext) -> (r:
    Result<(), ParseError>)
    requires
        char_type == char_class(character),
    ensures
        stepped(r, final(context).model(), step_empty(old(context).model(), character, index as int)),
        r is Err ==> final(context).model() == old(context).model(),
{
    match char_type {
        CharType::Number => {
            context.state = BufferState::Number;
            context.buffer.push(character);
        },
        CharType::Letter => {
            context.state = BufferState::Name;
            context.buffer.push(character);
        },
        CharType::Operator => {
            assert(is_operator_symbol(character));
            let operator_type = OperatorType::parse_operator_type(character);
            let awaits = match &context.expression {
                Some(exp) => exp.is_open(),
                None => true,
            };
            if awaits {
                if operator_type == OperatorType::Subtract {
                    context.state = BufferState::Number;
                    context.buffer.push(character);
                } else {
                    return invalid_character(character, index, OPERATOR_AT_START);
                }
            } else {
                let kind = match operator_type {
                    OperatorType::Add => ExpressionType::Addition,
                    OperatorType::Subtract => ExpressionType::Subtraction,
                    OperatorType::Multiply => ExpressionType::Multiplication,
                    OperatorType::Divide => ExpressionType::Division,
                    OperatorType::Power => {
                        return invalid_character(character, index, POWER_UNSUPPORTED);
                    },
                };
                if let Some(exp) = context.expression.take() {
                    context.expression = Some(binary_node(kind, Box::new(exp), None));
                }
            }
        },
        CharType::Whitespace => {},
        CharType::Bracket => {
            return invalid_character(character, index, BRACKETS_UNSUPPORTED);
        },
        CharType::Point => {
            return invalid_character(character, index, POINT_AT_START);
        },
        CharType::Unknown => {
            return invalid_character(character, index, UNKNOWN_SYMBOL);
        },
    }
    Ok(())
}

fn parse_number(character: char, char_type: CharType, index: usize, context: &mut ParserContext) -> (r:
    Result<(), ParseError>)
    requires
        char_type == char_class(character),
    ensures
        stepped(r, final(context).model(), step_number(old(context).model(), character, index as int)),
{
    match char_type {
        CharType::Number | CharType::Point => {
            context.state = BufferState::Number;
            context.buffer.push(character);
            Ok(())
        },
        CharType::Letter => invalid_character(character, index, LETTER_IN_NUMBER),
        CharType::Operator => {
            apply_buffer(context)?;
            parse_empty(character, char_type, index, context)
        },
        CharType::Whitespace => apply_buffer(context),
        CharType::Bracket => invalid_character(character, index, BRACKETS_UNSUPPORTED),
        CharType::Unknown => invalid_character(character, index, UNKNOWN_SYMBOL),
    }
}

fn parse_name(character: char, char_type: CharType, index: usize, context: &mut ParserContext) -> (r:
    Result<(), ParseError>)
    requires
        char_type == char_class(character),
    ensures
        stepped(r, final(context).model(), step_name(old(context).model(), character, index as int)),
{
    match char_type {
        CharType::Number | CharType::Letter | CharType::Point => {
            context.state = BufferState::Name;
            context.buffer.push(character);
            Ok(())
        },
        CharType::Operator => {
            apply_buffer(context)?;
            parse_empty(character, char_type, index, context)
        },
        CharType::Whitespace => apply_buffer(context),
        CharType::Bracket => invalid_character(character, index, BRACKETS_UNSUPPORTED),
        CharType::Unknown => invalid_character(character, index, UNKNOWN_SYMBOL),
    }
}

/// Reading `a + b` is reading `a`, then `b` from where `a` left the parser.
pub proof fn lemma_run_concat(st: ParseState, a: Seq<char>, b: Seq<char>, base: int)
    ensures
        run(st, a + b, base) == match run(st, a, base) {
            Ok(m) => run(m, b, base + a.len()),
            Err(e) => Err(e),
        },
    decreases b.len(),
{
    if b.len() == 0 {
        assert(a + b =~= a);
    } else {
        lemma_run_concat(st, a, b.drop_last(), base);
        assert((a + b).drop_last() =~= a + b.drop_last());
    }
}

/// The result of parsing `string_to_parse`: the expression tree, complete,
/// or the first error met.
pub fn parse_string(string_to_parse: String) -> (r: Result<Expression, ParseError>)
    ensures
        match parse_model(string_to_parse@) {
            Ok(t) => r matches Ok(e) && e.term() == t,
            Err(x) => r == Err::<Expression, ParseError>(x),
        },
        r matches Ok(e) ==> e.term().complete(),
{
    let chars = chars_of(string_to_parse.as_str());
    let mut context = ParserContext {
        buffer: Vec::new(),
        state: BufferState::Empty,
        expression: None,
    };
    let mut index: usize = 0;
    assert(chars@.take(0) =~= Seq::<char>::empty());
    while index < chars.len()
        invariant
            chars@ == string_to_parse@,
            index <= chars.len(),
            run(initial_state(), chars@.take(index as int), 0) == Ok::<ParseState, ParseError>(
                context.model(),
            ),
        decreases chars.len() - index,
    {
        let character = chars[index];
        let char_type = CharType::parse_char_type(character);
        let stepped_r = match context.state {
            BufferState::Empty => parse_empty(character, char_type, index, &mut context),
            BufferState::Number => parse_number(character, char_type, index, &mut context),
            BufferState::Name => parse_name(character, char_type, index, &mut context),
            BufferState::Bracket => invalid_character(character, index, BRACKETS_UNSUPPORTED),
        };
        let ghost next = chars@.take(index + 1);
        assert(next.drop_last() =~= chars@.take(index as int));
        if let Err(e) = stepped_r {
            proof {
                lemma_run_concat(initial_state(), next, chars@.skip(index + 1), 0);
                assert(next + chars@.skip(index + 1) =~= chars@);
            }
            return Err(e);
        }
        index = index + 1;
    }
    assert(chars@.take(index as int) =~= chars@);
    if context.buffer.len() > 0 {
        apply_buffer(&mut context)?;
    }
    proof {
        if let Ok(t) = parse_model(string_to_parse@) {
            parsed_trees_group_from_the_left(string_to_parse@, t);
        }
    }
    match context.expression {
        Some(e) => if e.is_open() {
            Err(ParseError::ParsingError(ParsingError { message: MISSING_OPERAND }))
        } else {
            Ok(e)
        },
        None => Err(ParseError::EmptyBuffer(EmptyBuffer)),
    }
}

} // verus!
