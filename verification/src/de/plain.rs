//! Reading a scalar from a piece of text.

use vstd::prelude::*;
use vstd::string::*;
use crate::error::{scalar_parse, with_message, DecodeError, Failure};
use crate::shape::{
    find_unit_variant, lemma_view_of_items, unit_variant_index, value_views, IntKind, Shape, Value,
    ValueView,
};

verus! {

/// Whether `c` is one of the ten decimal digits.
pub open spec fn is_digit(c: char) -> bool {
    '0' <= c <= '9'
}

/// The number that a run of decimal digits writes.
pub open spec fn digits_value(digits: Seq<char>) -> nat
    decreases digits.len(),
{
    if digits.len() == 0 {
        0
    } else {
        (digits_value(digits.drop_last()) * 10 + (digits.last() as nat - '0' as nat)) as nat
    }
}

/// Whether `digits` is one decimal digit or more, and nothing else.
pub open spec fn all_digits(digits: Seq<char>) -> bool {
    digits.len() > 0 && forall|i: int| 0 <= i < digits.len() ==> is_digit(#[trigger] digits[i])
}

/// The integer that `text` writes in decimal: digits after an optional `+`,
/// or, where `signed`, after an optional `-`. `None` for any other text.
pub open spec fn decimal_value(text: Seq<char>, signed: bool) -> Option<int> {
    if text.len() > 0 && text[0] == '+' {
        if all_digits(text.skip(1)) {
            Some(digits_value(text.skip(1)) as int)
        } else {
            None
        }
    } else if signed && text.len() > 0 && text[0] == '-' {
        if all_digits(text.skip(1)) {
            Some(-(digits_value(text.skip(1)) as int))
        } else {
            None
        }
    } else if all_digits(text) {
        Some(digits_value(text) as int)
    } else {
        None
    }
}

/// The integer of width `kind` that `text` writes, if it writes one.
pub open spec fn integer_of_text(text: Seq<char>, kind: IntKind) -> Option<int> {
    match decimal_value(text, kind.signed()) {
        Some(n) => if kind.min() <= n <= kind.max() {
            Some(n)
        } else {
            None
        },
        None => None,
    }
}

/// `str::parse::<i8>`: the number that the whole text writes in decimal, or
/// an error where it writes none that fits.
#[verifier::external_body]
fn parse_i8(text: &str) -> (r: Result<i8, std::num::ParseIntError>)
    ensures
        match r {
            Ok(n) => integer_of_text(text@, IntKind::I8) == Some(n as int),
            Err(_) => integer_of_text(text@, IntKind::I8) is None,
        },
{
    text.parse::<i8>()
}

/// `str::parse::<i16>`: the number that the whole text writes in decimal, or
/// an error where it writes none that fits.
#[verifier::external_body]
fn parse_i16(text: &str) -> (r: Result<i16, std::num::ParseIntError>)
    ensures
        match r {
            Ok(n) => integer_of_text(text@, IntKind::I16) == Some(n as int),
            Err(_) => integer_of_text(text@, IntKind::I16) is None,
        },
{
    text.parse::<i16>()
}

/// `str::parse::<i32>`: the number that the whole text writes in decimal, or
/// an error where it writes none that fits.
#[verifier::external_body]
fn parse_i32(text: &str) -> (r: Result<i32, std::num::ParseIntError>)
    ensures
        match r {
            Ok(n) => integer_of_text(text@, IntKind::I32) == Some(n as int),
            Err(_) => integer_of_text(text@, IntKind::I32) is None,
        },
{
    text.parse::<i32>()
}

/// `str::parse::<i64>`: the number that the whole text writes in decimal, or
/// an error where it writes none that fits.
#[verifier::external_body]
fn parse_i64(text: &str) -> (r: Result<i64, std::num::ParseIntError>)
    ensures
        match r {
            Ok(n) => integer_of_text(text@, IntKind::I64) == Some(n as int),
            Err(_) => integer_of_text(text@, IntKind::I64) is None,
        },
{
    text.parse::<i64>()
}

/// `str::parse::<u8>`: the number that the whole text writes in decimal, or
/// an error where it writes none that fits.
#[verifier::external_body]
fn parse_u8(text: &str) -> (r: Result<u8, std::num::ParseIntError>)
    ensures
        match r {
            Ok(n) => integer_of_text(text@, IntKind::U8) == Some(n as int),
            Err(_) => integer_of_text(text@, IntKind::U8) is None,
        },
{
    text.parse::<u8>()
}

/// `str::parse::<u16>`: the number that the whole text writes in decimal, or
/// an error where it writes none that fits.
#[verifier::external_body]
fn parse_u16(text: &str) -> (r: Result<u16, std::num::ParseIntError>)
    ensures
        match r {
            Ok(n) => integer_of_text(text@, IntKind::U16) == Some(n as int),
            Err(_) => integer_of_text(text@, IntKind::U16) is None,
        },
{
    text.parse::<u16>()
}

/// `str::parse::<u32>`: the number that the whole text writes in decimal, or
/// an error where it writes none that fits.
#[verifier::external_body]
fn parse_u32(text: &str) -> (r: Result<u32, std::num::ParseIntError>)
    ensures
        match r {
            Ok(n) => integer_of_text(text@, IntKind::U32) == Some(n as int),
            Err(_) => integer_of_text(text@, IntKind::U32) is None,
        },
{
    text.parse::<u32>()
}

/// `str::parse::<u64>`: the number that the whole text writes in decimal, or
/// an error where it writes none that fits.
#[verifier::external_body]
fn parse_u64(text: &str) -> (r: Result<u64, std::num::ParseIntError>)
    ensures
        match r {
            Ok(n) => integer_of_text(text@, IntKind::U64) == Some(n as int),
            Err(_) => integer_of_text(text@, IntKind::U64) is None,
        },
{
    text.parse::<u64>()
}

/// Reads `text` as an integer of width `kind`.
pub fn parse_integer(text: &str, kind: IntKind) -> (r: Result<i128, std::num::ParseIntError>)
    ensures
        match r {
            Ok(n) => integer_of_text(text@, kind) == Some(n as int),
            Err(_) => integer_of_text(text@, kind) is None,
        },
{
    match kind {
        IntKind::I8 => match parse_i8(text) {
            Ok(n) => Ok(n as i128),
            Err(e) => Err(e),
        },
        IntKind::I16 => match parse_i16(text) {
            Ok(n) => Ok(n as i128),
            Err(e) => Err(e),
        },
        IntKind::I32 => match parse_i32(text) {
            Ok(n) => Ok(n as i128),
            Err(e) => Err(e),
        },
        IntKind::I64 => match parse_i64(text) {
            Ok(n) => Ok(n as i128),
            Err(e) => Err(e),
        },
        IntKind::U8 => match parse_u8(text) {
            Ok(n) => Ok(n as i128),
            Err(e) => Err(e),
        },
        IntKind::U16 => match parse_u16(text) {
            Ok(n) => Ok(n as i128),
            Err(e) => Err(e),
        },
        IntKind::U32 => match parse_u32(text) {
            Ok(n) => Ok(n as i128),
            Err(e) => Err(e),
        },
        IntKind::U64 => match parse_u64(text) {
            Ok(n) => Ok(n as i128),
            Err(e) => Err(e),
        },
    }
}

/// What `text` is when read as a value of the given shape, or the kind of
/// error that it gives.
pub open spec fn plain_value(text: Seq<char>, shape: Shape) -> Result<ValueView, Failure>
    decreases shape,
{
    match shape {
        Shape::Unit => if text.len() == 0 {
            Ok(ValueView::Unit)
        } else {
            Err(Failure::Structure("expected nothing, found text"@))
        },
        Shape::Bool => if text == "true"@ {
            Ok(ValueView::Bool(true))
        } else if text == "false"@ {
            Ok(ValueView::Bool(false))
        } else {
            Err(Failure::Structure("expected true or false"@))
        },
        Shape::Integer(kind) => match integer_of_text(text, kind) {
            Some(n) => Ok(ValueView::Integer(kind, n)),
            None => Err(Failure::Scalar(text, kind)),
        },
        Shape::Float => Ok(ValueView::Float(text)),
        Shape::Char => if text.len() == 1 {
            Ok(ValueView::Char(text[0]))
        } else {
            Err(Failure::Structure("expected a single character"@))
        },
        Shape::Text => Ok(ValueView::Text(text)),
        Shape::Bytes => Ok(ValueView::Bytes(vstd::utf8::encode_utf8(text))),
        Shape::Optional(inner) => match plain_value(text, *inner) {
            Ok(v) => Ok(ValueView::Optional(Some(Box::new(v)))),
            Err(e) => Err(e),
        },
        Shape::Record(_) => Err(Failure::Structure("expected an element, found text"@)),
        Shape::Union(variants) => match unit_variant_index(variants@, text) {
            Some(_) => Ok(ValueView::Variant(text, Box::new(ValueView::Unit))),
            None => Err(Failure::Structure("unknown variant"@)),
        },
    }
}

/// Whether a decode's result is what the model says: the same value, or an
/// error of the same kind.
pub open spec fn agrees(r: Result<Value, DecodeError>, model: Result<ValueView, Failure>) -> bool {
    match r {
        Ok(v) => model == Ok::<ValueView, Failure>(v@),
        Err(e) => model == Err::<ValueView, Failure>(e.failure()),
    }
}

/// Reads `text` as a value of the given shape.
///
/// The whole text must be the value; nothing is trimmed or skipped. A
/// text that is no integer of the asked width is carried by the error.
pub fn interpret(text: String, shape: &Shape) -> (r: Result<Value, DecodeError>)
    ensures
        agrees(r, plain_value(text@, *shape)),
    decreases *shape,
{
    match shape {
        Shape::Unit => {
            if text.as_str().unicode_len() == 0 {
                Ok(Value::Unit)
            } else {
                Err(with_message("expected nothing, found text".to_owned()))
            }
        },
        Shape::Bool => {
            if text == "true".to_owned() {
                Ok(Value::Bool(true))
            } else if text == "false".to_owned() {
                Ok(Value::Bool(false))
            } else {
                Err(with_message("expected true or false".to_owned()))
            }
        },
        Shape::Integer(kind) => match parse_integer(text.as_str(), *kind) {
            Ok(n) => Ok(Value::Integer(*kind, n)),
            Err(e) => Err(scalar_parse(text, *kind, e)),
        },
        Shape::Float => Ok(Value::Float(text)),
        Shape::Char => {
            if text.as_str().unicode_len() == 1 {
                Ok(Value::Char(text.as_str().get_char(0)))
            } else {
                Err(with_message("expected a single character".to_owned()))
            }
        },
        Shape::Text => Ok(Value::Text(text)),
        Shape::Bytes => Ok(Value::Bytes(text.as_str().as_bytes_vec())),
        Shape::Optional(inner) => match interpret(text, inner) {
            Ok(v) => Ok(Value::Optional(Some(Box::new(v)))),
            Err(e) => Err(e),
        },
        Shape::Record(_) => Err(with_message("expected an element, found text".to_owned())),
        Shape::Union(variants) => match find_unit_variant(variants, &text) {
            Some(_) => {
                let payload = Value::Unit;
                assert(payload@ == ValueView::Unit);
                Ok(Value::Variant(text, Box::new(payload)))
            },
            None => Err(with_message("unknown variant".to_owned())),
        },
    }
}

/// The tokens of `text`, which single spaces separate. A text without a
/// space is one token; two spaces in a row have an empty token between them.
pub open spec fn split_at_spaces(text: Seq<char>) -> Seq<Seq<char>>
    decreases text.len(),
{
    if text.len() == 0 {
        seq![Seq::<char>::empty()]
    } else {
        let before = split_at_spaces(text.drop_last());
        if text.last() == ' ' {
            before.push(Seq::<char>::empty())
        } else {
            before.update(before.len() - 1, before.last().push(text.last()))
        }
    }
}

/// The text of each token.
pub open spec fn token_views(tokens: Seq<String>) -> Seq<Seq<char>> {
    Seq::new(tokens.len(), |i: int| tokens[i]@)
}

/// Splits `text` at each space.
pub fn split_tokens(text: &str) -> (tokens: Vec<String>)
    ensures
        token_views(tokens@) == split_at_spaces(text@),
{
    let n = text.unicode_len();
    let mut tokens: Vec<String> = Vec::new();
    let mut start: usize = 0;
    let mut i: usize = 0;
    proof {
        assert(text@.subrange(0, 0) =~= Seq::<char>::empty());
        assert(token_views(tokens@).push(text@.subrange(0, 0)) =~= seq![Seq::<char>::empty()]);
    }
    while i < n
        invariant
            start <= i <= n,
            n == text@.len(),
            split_at_spaces(text@.subrange(0, i as int)) == token_views(tokens@).push(
                text@.subrange(start as int, i as int),
            ),
        decreases n - i,
    {
        let c = text.get_char(i);
        let ghost upto = text@.subrange(0, i + 1);
        let ghost before = token_views(tokens@);
        let ghost current = text@.subrange(start as int, i as int);
        proof {
            assert(upto.drop_last() =~= text@.subrange(0, i as int));
            assert(upto.last() == c);
        }
        if c == ' ' {
            tokens.push(text.substring_char(start, i).to_owned());
            start = i + 1;
            proof {
                assert(token_views(tokens@) =~= before.push(current));
                assert(text@.subrange(start as int, i + 1) =~= Seq::<char>::empty());
            }
        } else {
            proof {
                let all = before.push(current);
                assert(text@.subrange(start as int, i + 1) =~= current.push(c));
                assert(all.update(all.len() - 1, all.last().push(c)) =~= before.push(
                    current.push(c),
                ));
            }
        }
        i += 1;
    }
    tokens.push(text.substring_char(start, n).to_owned());
    proof {
        assert(text@.subrange(0, n as int) =~= text@);
        assert(token_views(tokens@) =~= split_at_spaces(text@));
    }
    tokens
}

/// What the tokens are when each is read as a value of the shape at its
/// place, from the token at `i` on, after the values in `done`. The first
/// token that cannot be read decides the error.
pub open spec fn plain_values_from(
    tokens: Seq<Seq<char>>,
    shapes: Seq<Shape>,
    i: int,
    done: Seq<ValueView>,
) -> Result<Seq<ValueView>, Failure>
    decreases tokens.len() - i,
{
    if i < 0 || i >= tokens.len() || i >= shapes.len() {
        Ok(done)
    } else {
        match plain_value(tokens[i], shapes[i]) {
            Ok(v) => plain_values_from(tokens, shapes, i + 1, done.push(v)),
            Err(k) => Err(k),
        }
    }
}

/// What `text` is when read as the payloads of a tuple variant: as many
/// tokens as there are shapes, each read as a value of the shape at its place.
pub open spec fn tuple_value(text: Seq<char>, shapes: Seq<Shape>) -> Result<ValueView, Failure> {
    let tokens = split_at_spaces(text);
    if tokens.len() != shapes.len() {
        Err(Failure::Structure("wrong number of values for the variant"@))
    } else {
        match plain_values_from(tokens, shapes, 0, Seq::empty()) {
            Ok(values) => Ok(ValueView::Tuple(values)),
            Err(k) => Err(k),
        }
    }
}

/// Splits the text of a tuple variant into its tokens, which must be as
/// many as the variant has payloads.
pub fn split_tuple(text: &str, arity: usize) -> (r: Result<Vec<String>, DecodeError>)
    ensures
        match r {
            Ok(tokens) => token_views(tokens@) == split_at_spaces(text@) && tokens@.len() == arity,
            Err(e) => split_at_spaces(text@).len() != arity && e.failure() == Failure::Structure(
                "wrong number of values for the variant"@,
            ),
        },
{
    let tokens = split_tokens(text);
    assert(token_views(tokens@).len() == tokens@.len());
    if tokens.len() != arity {
        Err(with_message("wrong number of values for the variant".to_owned()))
    } else {
        Ok(tokens)
    }
}

/// Reads `text` as the payloads of a tuple variant.
pub fn interpret_tuple(text: String, shapes: &Vec<Shape>) -> (r: Result<Value, DecodeError>)
    ensures
        agrees(r, tuple_value(text@, shapes@)),
{
    let tokens = match split_tuple(text.as_str(), shapes.len()) {
        Ok(tokens) => tokens,
        Err(e) => {
            return Err(e);
        },
    };
    assert(token_views(tokens@).len() == tokens@.len());
    let mut values: Vec<Value> = Vec::new();
    let mut i: usize = 0;
    assert(value_views(values@) =~= Seq::empty());
    while i < tokens.len()
        invariant
            i <= tokens.len(),
            tokens.len() == shapes.len(),
            token_views(tokens@) == split_at_spaces(text@),
            plain_values_from(token_views(tokens@), shapes@, 0, Seq::empty())
                == plain_values_from(token_views(tokens@), shapes@, i as int, value_views(values@)),
        decreases tokens.len() - i,
    {
        let ghost before = value_views(values@);
        match interpret(tokens[i].clone(), &shapes[i]) {
            Ok(v) => {
                values.push(v);
                assert(value_views(values@) =~= before.push(v@));
            },
            Err(e) => {
                return Err(e);
            },
        }
        i += 1;
    }
    let r = Value::Tuple(values);
    proof {
        lemma_view_of_items(r);
    }
    Ok(r)
}

} // verus!
