use vstd::prelude::*;

verus! {

/// What the parser is currently collecting into its buffer.
#[derive(Clone, Copy, Debug, PartialEq, Eq, Structural)]
pub enum BufferState {
    Empty,
    Number,
    Name,
    Bracket,
}

/// Coarse class of a single input character.
#[derive(Clone, Copy, Debug, PartialEq, Eq, Structural)]
pub enum CharType {
    Number,
    Letter,
    Operator,
    Whitespace,
    Bracket,
    Point,
    Unknown,
}

/// Operator named by an operator character.
#[derive(Clone, Copy, Debug, PartialEq, Eq, Structural)]
pub enum OperatorType {
    Add,
    Subtract,
    Multiply,
    Divide,
    Power,
}

/// The shape of an expression node.
#[derive(Clone, Copy, Debug, PartialEq, Eq, Structural)]
pub enum ExpressionType {
    ScalarValue,
    Addition,
    Subtraction,
    Multiplication,
    Division,
}

pub open spec fn is_ascii_char(c: char) -> bool {
    (c as u32) < 128
}

pub open spec fn is_digit(c: char) -> bool {
    '0' <= c && c <= '9'
}

pub open spec fn is_ascii_letter(c: char) -> bool {
    ('a' <= c && c <= 'z') || ('A' <= c && c <= 'Z')
}

pub open spec fn is_ascii_space(c: char) -> bool {
    c == ' ' || c == '\t' || c == '\n' || c == '\r' || c == '\x0B' || c == '\x0C'
}

/// Whether `char::is_numeric` holds of `c` (Unicode number categories).
pub uninterp spec fn numeric_char(c: char) -> bool;

/// Whether `char::is_alphabetic` holds of `c` (Unicode `Alphabetic` property).
pub uninterp spec fn alphabetic_char(c: char) -> bool;

/// Whether `char::is_whitespace` holds of `c` (Unicode `White_Space` property).
pub uninterp spec fn whitespace_char(c: char) -> bool;

/// Relies on `char::is_numeric`: whether `c` is in a Unicode number category.
#[verifier::external_body]
fn char_is_numeric(c: char) -> (r: bool)
    ensures
        r == numeric_char(c),
{
    c.is_numeric()
}

/// Relies on `char::is_alphabetic`: whether `c` has the `Alphabetic` property.
#[verifier::external_body]
fn char_is_alphabetic(c: char) -> (r: bool)
    ensures
        r == alphabetic_char(c),
{
    c.is_alphabetic()
}

/// Relies on `char::is_whitespace`: whether `c` has the `White_Space` property.
#[verifier::external_body]
fn char_is_whitespace(c: char) -> (r: bool)
    ensures
        r == whitespace_char(c),
{
    c.is_whitespace()
}

/// A numeric character: among ASCII characters exactly the decimal digits.
pub open spec fn is_number_char(c: char) -> bool {
    if is_ascii_char(c) {
        is_digit(c)
    } else {
        numeric_char(c)
    }
}

/// An alphabetic character: among ASCII characters exactly the Latin letters.
pub open spec fn is_letter_char(c: char) -> bool {
    if is_ascii_char(c) {
        is_ascii_letter(c)
    } else {
        alphabetic_char(c)
    }
}

/// A whitespace character: among ASCII characters tab, line feed, vertical
/// tab, form feed, carriage return and space.
pub open spec fn is_space_char(c: char) -> bool {
    if is_ascii_char(c) {
        is_ascii_space(c)
    } else {
        whitespace_char(c)
    }
}

pub open spec fn is_operator_symbol(c: char) -> bool {
    c == '+' || c == '-' || c == '*' || c == '/' || c == '^'
}

pub open spec fn is_bracket_symbol(c: char) -> bool {
    c == '(' || c == ')' || c == '{' || c == '}' || c == '[' || c == ']'
}

/// Classification of a character; the first matching rule wins.
pub open spec fn char_class(c: char) -> CharType {
    if is_number_char(c) {
        CharType::Number
    } else if is_operator_symbol(c) {
        CharType::Operator
    } else if is_letter_char(c) {
        CharType::Letter
    } else if c == '.' {
        CharType::Point
    } else if is_space_char(c) {
        CharType::Whitespace
    } else if is_bracket_symbol(c) {
        CharType::Bracket
    } else {
        CharType::Unknown
    }
}

pub open spec fn operator_of(c: char) -> OperatorType
    recommends
        is_operator_symbol(c),
{
    if c == '+' {
        OperatorType::Add
    } else if c == '-' {
        OperatorType::Subtract
    } else if c == '*' {
        OperatorType::Multiply
    } else if c == '/' {
        OperatorType::Divide
    } else {
        OperatorType::Power
    }
}

impl CharType {
    pub fn parse_char_type(character: char) -> (r: CharType)
        ensures
            r == char_class(character),
    {
        let c = character;
        let ascii = (c as u32) < 128;
        let number = if ascii {
            '0' <= c && c <= '9'
        } else {
            char_is_numeric(c)
        };
        let letter = if ascii {
            ('a' <= c && c <= 'z') || ('A' <= c && c <= 'Z')
        } else {
            char_is_alphabetic(c)
        };
        let space = if ascii {
            c == ' ' || c == '\t' || c == '\n' || c == '\r' || c == '\x0B' || c == '\x0C'
        } else {
            char_is_whitespace(c)
        };
        if number {
            CharType::Number
        } else if c == '+' || c == '-' || c == '*' || c == '/' || c == '^' {
            CharType::Operator
        } else if letter {
            CharType::Letter
        } else if c == '.' {
            CharType::Point
        } else if space {
            CharType::Whitespace
        } else if c == '(' || c == ')' || c == '{' || c == '}' || c == '[' || c == ']' {
            CharType::Bracket
        } else {
            CharType::Unknown
        }
    }
}

impl OperatorType {
    /// Operator kind of a character already classified as an operator.
    pub fn parse_operator_type(character: char) -> (r: OperatorType)
        requires
            is_operator_symbol(character),
        ensures
            r == operator_of(character),
    {
        match character {
            '+' => OperatorType::Add,
            '-' => OperatorType::Subtract,
            '*' => OperatorType::Multiply,
            '/' => OperatorType::Divide,
            _ => OperatorType::Power,
        }
    }
}

} // verus!
