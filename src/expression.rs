use vstd::prelude::*;
use vstd::string::StringExecFns;
use crate::enums::{ExpressionType, is_digit};
use crate::errors::{AttachImpossible, ParsingError, MALFORMED_NUMBER};
use crate::text::{chars_of, string_from_chars};

verus! {

/// Mathematical model of an expression tree: a scalar holds the text of its
/// decimal literal; a binary node holds its kind, its left operand and its
/// right operand once that has been attached.
pub enum Term {
    Scalar(Seq<char>),
    Binary(ExpressionType, Box<Term>, Option<Box<Term>>),
}

pub open spec fn symbol(kind: ExpressionType) -> char {
    match kind {
        ExpressionType::Addition => '+',
        ExpressionType::Subtraction => '-',
        ExpressionType::Multiplication => '*',
        _ => '/',
    }
}

impl Term {
    pub open spec fn kind(self) -> ExpressionType {
        match self {
            Term::Scalar(_) => ExpressionType::ScalarValue,
            Term::Binary(k, _, _) => k,
        }
    }

    /// A binary node still waiting for its right operand.
    pub open spec fn is_open(self) -> bool {
        self matches Term::Binary(_, _, None)
    }

    /// Every binary node of the tree has its right operand.
    pub open spec fn complete(self) -> bool
        decreases self,
    {
        match self {
            Term::Scalar(_) => true,
            Term::Binary(_, l, r) => match r {
                Some(r) => l.complete() && r.complete(),
                None => false,
            },
        }
    }

    /// Text of a complete tree: `"{left} {symbol} {right}"` for a binary node.
    pub open spec fn render(self) -> Seq<char>
        decreases self,
    {
        match self {
            Term::Scalar(s) => s,
            Term::Binary(k, l, r) => match r {
                Some(r) => l.render() + seq![' ', symbol(k), ' '] + r.render(),
                None => Seq::empty(),
            },
        }
    }

    /// Attach-after: a scalar becomes the left operand of an empty node of the
    /// new node's kind; a node without right operand takes the new node there.
    pub open spec fn attach(self, new: Term) -> Result<Term, AttachImpossible> {
        match self {
            Term::Scalar(_) => match new {
                Term::Scalar(_) => Err(
                    AttachImpossible {
                        target_type: ExpressionType::ScalarValue,
                        attach_type: ExpressionType::ScalarValue,
                    },
                ),
                Term::Binary(k, _, _) => Ok(Term::Binary(k, Box::new(self), None)),
            },
            Term::Binary(k, l, r) => match r {
                None => Ok(Term::Binary(k, l, Some(Box::new(new)))),
                Some(_) => Err(AttachImpossible { target_type: k, attach_type: new.kind() }),
            },
        }
    }
}

/// Text that converts to a number: ASCII digits with at most one decimal point
/// and at least one digit.
pub open spec fn unsigned_decimal(s: Seq<char>) -> bool {
    &&& forall|i: int| 0 <= i < s.len() ==> is_digit(#[trigger] s[i]) || s[i] == '.'
    &&& exists|i: int| 0 <= i < s.len() && is_digit(#[trigger] s[i])
    &&& forall|i: int, j: int|
        0 <= i < j < s.len() && #[trigger] s[i] == '.' ==> #[trigger] s[j] != '.'
}

/// A number literal: an unsigned decimal, possibly preceded by `-`.
pub open spec fn number_literal(s: Seq<char>) -> bool {
    unsigned_decimal(s) || (s.len() > 0 && s[0] == '-' && unsigned_decimal(s.drop_first()))
}

/// Whether `v[start..]` is an unsigned decimal.
fn is_unsigned_decimal(v: &Vec<char>, start: usize) -> (r: bool)
    requires
        start <= v.len(),
    ensures
        r == unsigned_decimal(v@.subrange(start as int, v.len() as int)),
{
    let ghost s = v@.subrange(start as int, v.len() as int);
    let mut i: usize = start;
    let mut seen_digit = false;
    let mut seen_point = false;
    while i < v.len()
        invariant
            start <= i <= v.len(),
            s == v@.subrange(start as int, v.len() as int),
            forall|k: int| 0 <= k < i - start ==> is_digit(#[trigger] s[k]) || s[k] == '.',
            seen_digit <==> exists|k: int| 0 <= k < i - start && is_digit(#[trigger] s[k]),
            seen_point <==> exists|k: int| 0 <= k < i - start && #[trigger] s[k] == '.',
            forall|k: int, m: int|
                0 <= k < m < i - start && #[trigger] s[k] == '.' ==> #[trigger] s[m] != '.',
        decreases v.len() - i,
    {
        let c = v[i];
        assert(s[i - start] == c);
        if '0' <= c && c <= '9' {
            seen_digit = true;
        } else if c == '.' {
            if seen_point {
                let ghost k = choose|k: int| 0 <= k < i - start && #[trigger] s[k] == '.';
                assert(s[k] == '.' && s[i - start] == '.');
                return false;
            }
            seen_point = true;
        } else {
            assert(!(is_digit(s[i - start]) || s[i - start] == '.'));
            return false;
        }
        i = i + 1;
    }
    seen_digit
}

/// Whether `v` is a number literal.
pub fn is_number_literal(v: &Vec<char>) -> (r: bool)
    ensures
        r == number_literal(v@),
{
    if v.len() > 0 && v[0] == '-' {
        assert(v@.subrange(1, v.len() as int) =~= v@.drop_first());
        assert(v@.subrange(0, v.len() as int) =~= v@);
        let signed = is_unsigned_decimal(v, 1);
        let unsigned = is_unsigned_decimal(v, 0);
        signed || unsigned
    } else {
        assert(v@.subrange(0, v.len() as int) =~= v@);
        is_unsigned_decimal(v, 0)
    }
}

/// A numeric literal, kept as the text it was written in.
#[derive(Debug)]
pub struct ScalarValue {
    literal: String,
}

impl View for ScalarValue {
    type V = Seq<char>;

    closed spec fn view(&self) -> Seq<char> {
        self.literal@
    }
}

impl ScalarValue {
    #[verifier::type_invariant]
    spec fn well_formed(self) -> bool {
        number_literal(self.literal@)
    }

    /// The scalar written as `text`, if `text` is a number literal; text with a
    /// second decimal point, a non-ASCII digit or no digit at all is refused.
    pub fn from_chars(text: &Vec<char>) -> (r: Result<ScalarValue, ParsingError>)
        ensures
            r is Ok <==> number_literal(text@),
            r matches Ok(v) ==> v@ == text@,
            r matches Err(e) ==> e.message == MALFORMED_NUMBER,
    {
        if is_number_literal(text) {
            Ok(ScalarValue { literal: string_from_chars(text) })
        } else {
            Err(ParsingError { message: MALFORMED_NUMBER })
        }
    }

    /// The scalar written as `text`, if `text` is a number literal.
    pub fn new(text: &str) -> (r: Result<ScalarValue, ParsingError>)
        ensures
            r is Ok <==> number_literal(text@),
            r matches Ok(v) ==> v@ == text@,
            r matches Err(e) ==> e.message == MALFORMED_NUMBER,
    {
        ScalarValue::from_chars(&chars_of(text))
    }

    /// The literal's text; it always converts to a number.
    pub fn literal(&self) -> (r: &str)
        ensures
            r@ == self@,
            number_literal(r@),
    {
        proof {
            use_type_invariant(self);
        }
        self.literal.as_str()
    }
}

/// Sum of `left` and `right`.
#[derive(Debug)]
pub struct Addition {
    pub left: Box<Expression>,
    pub right: Option<Box<Expression>>,
}

/// Difference of `left` and `right`.
#[derive(Debug)]
pub struct Subtraction {
    pub left: Box<Expression>,
    pub right: Option<Box<Expression>>,
}

/// Product of `left` and `right`.
#[derive(Debug)]
pub struct Multiplication {
    pub left: Box<Expression>,
    pub right: Option<Box<Expression>>,
}

/// Quotient of `left` and `right`.
#[derive(Debug)]
pub struct Division {
    pub left: Box<Expression>,
    pub right: Option<Box<Expression>>,
}

/// An expression tree node. A binary node whose `right` is absent is
/// incomplete: it may only be rendered once an attach-after has filled it.
#[derive(Debug)]
pub enum Expression {
    ScalarValue(ScalarValue),
    Addition(Addition),
    Subtraction(Subtraction),
    Multiplication(Multiplication),
    Division(Division),
}

/// Model of an optional right operand.
pub open spec fn operand_term(r: Option<Box<Expression>>) -> Option<Box<Term>> {
    match r {
        Some(e) => Some(Box::new(e.term())),
        None => None,
    }
}

impl Expression {
    pub open spec fn term(self) -> Term
        decreases self,
    {
        match self {
            Expression::ScalarValue(s) => Term::Scalar(s@),
            Expression::Addition(b) => Term::Binary(
                ExpressionType::Addition,
                Box::new(b.left.term()),
                match b.right {
                    Some(e) => Some(Box::new(e.term())),
                    None => None,
                },
            ),
            Expression::Subtraction(b) => Term::Binary(
                ExpressionType::Subtraction,
                Box::new(b.left.term()),
                match b.right {
                    Some(e) => Some(Box::new(e.term())),
                    None => None,
                },
            ),
            Expression::Multiplication(b) => Term::Binary(
                ExpressionType::Multiplication,
                Box::new(b.left.term()),
                match b.right {
                    Some(e) => Some(Box::new(e.term())),
                    None => None,
                },
            ),
            Expression::Division(b) => Term::Binary(
                ExpressionType::Division,
                Box::new(b.left.term()),
                match b.right {
                    Some(e) => Some(Box::new(e.term())),
                    None => None,
                },
            ),
        }
    }
}

/// A binary node of kind `kind`.
pub(crate) fn binary_node(kind: ExpressionType, left: Box<Expression>, right: Option<Box<Expression>>) -> (r:
    Expression)
    requires
        kind != ExpressionType::ScalarValue,
    ensures
        r.term() == Term::Binary(kind, Box::new(left.term()), operand_term(right)),
{
    match kind {
        ExpressionType::Addition => Expression::Addition(Addition { left, right }),
        ExpressionType::Subtraction => Expression::Subtraction(Subtraction { left, right }),
        ExpressionType::Multiplication => Expression::Multiplication(
            Multiplication { left, right },
        ),
        _ => Expression::Division(Division { left, right }),
    }
}

/// `left`, `sep` and `right`, one after the other.
fn joined(left: String, sep: &str, right: String) -> (r: String)
    ensures
        r@ == left@ + sep@ + right@,
{
    let mut s = left;
    s.append(sep);
    s.append(right.as_str());
    s
}

impl Expression {
    pub fn get_exp_type(&self) -> (r: ExpressionType)
        ensures
            r == self.term().kind(),
    {
        match self {
            Expression::ScalarValue(_) => ExpressionType::ScalarValue,
            Expression::Addition(_) => ExpressionType::Addition,
            Expression::Subtraction(_) => ExpressionType::Subtraction,
            Expression::Multiplication(_) => ExpressionType::Multiplication,
            Expression::Division(_) => ExpressionType::Division,
        }
    }

    /// Whether this is a binary node still waiting for its right operand.
    pub fn is_open(&self) -> (r: bool)
        ensures
            r == self.term().is_open(),
    {
        match self {
            Expression::ScalarValue(_) => false,
            Expression::Addition(b) => b.right.is_none(),
            Expression::Subtraction(b) => b.right.is_none(),
            Expression::Multiplication(b) => b.right.is_none(),
            Expression::Division(b) => b.right.is_none(),
        }
    }

    /// Whether every binary node of the tree has its right operand.
    pub fn is_complete(&self) -> (r: bool)
        ensures
            r == self.term().complete(),
        decreases self,
    {
        match self {
            Expression::ScalarValue(_) => true,
            Expression::Addition(b) => match &b.right {
                Some(r) => b.left.is_complete() && r.is_complete(),
                None => false,
            },
            Expression::Subtraction(b) => match &b.right {
                Some(r) => b.left.is_complete() && r.is_complete(),
                None => false,
            },
            Expression::Multiplication(b) => match &b.right {
                Some(r) => b.left.is_complete() && r.is_complete(),
                None => false,
            },
            Expression::Division(b) => match &b.right {
                Some(r) => b.left.is_complete() && r.is_complete(),
                None => false,
            },
        }
    }

    /// The tree's text, with one space on each side of every operator symbol.
    pub fn to_string(&self) -> (r: String)
        requires
            self.term().complete(),
        ensures
            r@ == self.term().render(),
        decreases self,
    {
        proof {
            reveal_strlit(" + ");
            reveal_strlit(" - ");
            reveal_strlit(" * ");
            reveal_strlit(" / ");
        }
        let sep = match self {
            Expression::ScalarValue(_) => "",
            Expression::Addition(_) => " + ",
            Expression::Subtraction(_) => " - ",
            Expression::Multiplication(_) => " * ",
            Expression::Division(_) => " / ",
        };
        assert(self.term() is Binary ==> sep@ =~= seq![' ', symbol(self.term().kind()), ' ']);
        match self {
            Expression::ScalarValue(v) => String::from_str(v.literal()),
            Expression::Addition(b) => match &b.right {
                Some(r) => joined(b.left.to_string(), sep, r.to_string()),
                None => String::new(),
            },
            Expression::Subtraction(b) => match &b.right {
                Some(r) => joined(b.left.to_string(), sep, r.to_string()),
                None => String::new(),
            },
            Expression::Multiplication(b) => match &b.right {
                Some(r) => joined(b.left.to_string(), sep, r.to_string()),
                None => String::new(),
            },
            Expression::Division(b) => match &b.right {
                Some(r) => joined(b.left.to_string(), sep, r.to_string()),
                None => String::new(),
            },
        }
    }

    /// Attach-after: incorporates `exp` into the tree, or fails where the
    /// shapes do not fit.
    pub fn attach_after(self, exp: Expression) -> (r: Result<Expression, AttachImpossible>)
        ensures
            match self.term().attach(exp.term()) {
                Ok(t) => r matches Ok(e) && e.term() == t,
                Err(x) => r == Err::<Expression, AttachImpossible>(x),
            },
            (self.term() is Scalar && exp.term() is Scalar) ==> r is Err,
            (self.term() matches Term::Binary(_, _, Some(_))) ==> r is Err,
            (self.term() matches Term::Binary(_, _, None)) ==> (r matches Ok(e) && (e.term()
                matches Term::Binary(k, _, Some(n)) && k == self.term().kind() && *n
                == exp.term())),
    {
        match self {
            Expression::ScalarValue(v) => {
                let attach_type = exp.get_exp_type();
                if attach_type == ExpressionType::ScalarValue {
                    Err(AttachImpossible { target_type: ExpressionType::ScalarValue, attach_type })
                } else {
                    Ok(binary_node(attach_type, Box::new(Expression::ScalarValue(v)), None))
                }
            },
            Expression::Addition(b) => attach_right(
                ExpressionType::Addition,
                b.left,
                b.right,
                exp,
            ),
            Expression::Subtraction(b) => attach_right(
                ExpressionType::Subtraction,
                b.left,
                b.right,
                exp,
            ),
            Expression::Multiplication(b) => attach_right(
                ExpressionType::Multiplication,
                b.left,
                b.right,
                exp,
            ),
            Expression::Division(b) => attach_right(
                ExpressionType::Division,
                b.left,
                b.right,
                exp,
            ),
        }
    }
}

/// Attach-after on the binary node `(kind, left, right)`.
fn attach_right(
    kind: ExpressionType,
    left: Box<Expression>,
    right: Option<Box<Expression>>,
    exp: Expression,
) -> (r: Result<Expression, AttachImpossible>)
    requires
        kind != ExpressionType::ScalarValue,
    ensures
        match Term::Binary(kind, Box::new(left.term()), operand_term(right)).attach(exp.term()) {
            Ok(t) => r matches Ok(e) && e.term() == t,
            Err(x) => r == Err::<Expression, AttachImpossible>(x),
        },
{
    match right {
        None => Ok(binary_node(kind, left, Some(Box::new(exp)))),
        Some(_) => Err(AttachImpossible { target_type: kind, attach_type: exp.get_exp_type() }),
    }
}

} // verus!
