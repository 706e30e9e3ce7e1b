use vstd::prelude::*;
use vstd::string::StringExecFns;
use crate::enums::ExpressionType;
use crate::text::{decimal, push_char, push_decimal};

verus! {

pub const OPERATOR_AT_START: &'static str = "Operator at the start of a block";
pub const POINT_AT_START: &'static str = "Point at the start of a block";
pub const LETTER_IN_NUMBER: &'static str = "Letter inside number";
pub const UNKNOWN_SYMBOL: &'static str = "Unknown symbol";
pub const BRACKETS_UNSUPPORTED: &'static str = "Brackets are not supported";
pub const POWER_UNSUPPORTED: &'static str = "Power operator is not supported";
pub const MALFORMED_NUMBER: &'static str = "Malformed number literal";
pub const NAMES_UNSUPPORTED: &'static str = "Names are not supported";
pub const NOTHING_BUFFERED: &'static str = "Empty buffer!";
pub const MISSING_OPERAND: &'static str = "Missing right operand";

/// Parsing ended without producing any expression.
#[derive(Clone, Copy, Debug)]
pub struct EmptyBuffer;

/// A character that is not allowed where it stands.
#[derive(Clone, Copy, Debug)]
pub struct InvalidCharacter {
    /// Position of the character, counted in characters from 0.
    pub index: usize,
    pub character: char,
    pub message: &'static str,
}

/// An attach-after between two node shapes that cannot be combined.
#[derive(Clone, Copy, Debug)]
pub struct AttachImpossible {
    pub target_type: ExpressionType,
    pub attach_type: ExpressionType,
}

/// The buffered text could not be turned into an expression.
#[derive(Clone, Copy, Debug)]
pub struct ParsingError {
    pub message: &'static str,
}

/// Any failure of a parse.
#[derive(Clone, Copy, Debug)]
pub enum ParseError {
    EmptyBuffer(EmptyBuffer),
    InvalidCharacter(InvalidCharacter),
    AttachImpossible(AttachImpossible),
    ParsingError(ParsingError),
}

pub open spec fn kind_label(t: ExpressionType) -> Seq<char> {
    match t {
        ExpressionType::ScalarValue => "ScalarValue"@,
        ExpressionType::Addition => "Addition"@,
        ExpressionType::Subtraction => "Subtraction"@,
        ExpressionType::Multiplication => "Multiplication"@,
        ExpressionType::Division => "Division"@,
    }
}

fn kind_label_str(t: ExpressionType) -> (r: &'static str)
    ensures
        r@ == kind_label(t),
{
    match t {
        ExpressionType::ScalarValue => "ScalarValue",
        ExpressionType::Addition => "Addition",
        ExpressionType::Subtraction => "Subtraction",
        ExpressionType::Multiplication => "Multiplication",
        ExpressionType::Division => "Division",
    }
}

impl EmptyBuffer {
    pub open spec fn text(self) -> Seq<char> {
        "Empty buffer!"@
    }

    pub fn to_string(&self) -> (r: String)
        ensures
            r@ == self.text(),
    {
        String::from_str("Empty buffer!")
    }
}

impl InvalidCharacter {
    pub open spec fn text(self) -> Seq<char> {
        "Error at char '"@ + seq![self.character] + "' at index "@ + decimal(self.index as nat)
            + " ("@ + self.message@ + ")"@
    }

    pub fn to_string(&self) -> (r: String)
        ensures
            r@ == self.text(),
    {
        let mut s = String::from_str("Error at char '");
        push_char(&mut s, self.character);
        s.append("' at index ");
        push_decimal(&mut s, self.index);
        s.append(" (");
        s.append(self.message);
        s.append(")");
        s
    }
}

impl AttachImpossible {
    pub open spec fn text(self) -> Seq<char> {
        "Attach from "@ + kind_label(self.target_type) + " to "@ + kind_label(self.attach_type)
            + " impossible"@
    }

    pub fn to_string(&self) -> (r: String)
        ensures
            r@ == self.text(),
    {
        let mut s = String::from_str("Attach from ");
        s.append(kind_label_str(self.target_type));
        s.append(" to ");
        s.append(kind_label_str(self.attach_type));
        s.append(" impossible");
        s
    }
}

impl ParsingError {
    pub open spec fn text(self) -> Seq<char> {
        "Parsing buffer error ("@ + self.message@ + ")"@
    }

    pub fn to_string(&self) -> (r: String)
        ensures
            r@ == self.text(),
    {
        let mut s = String::from_str("Parsing buffer error (");
        s.append(self.message);
        s.append(")");
        s
    }
}

impl ParseError {
    pub open spec fn text(self) -> Seq<char> {
        match self {
            ParseError::EmptyBuffer(e) => e.text(),
            ParseError::InvalidCharacter(e) => e.text(),
            ParseError::AttachImpossible(e) => e.text(),
            ParseError::ParsingError(e) => e.text(),
        }
    }

    /// Human-readable description of the failure.
    pub fn to_string(&self) -> (r: String)
        ensures
            r@ == self.text(),
    {
        match self {
            ParseError::EmptyBuffer(e) => e.to_string(),
            ParseError::InvalidCharacter(e) => e.to_string(),
            ParseError::AttachImpossible(e) => e.to_string(),
            ParseError::ParsingError(e) => e.to_string(),
        }
    }
}

} // verus!
