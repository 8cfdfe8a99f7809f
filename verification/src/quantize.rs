//! Quantization: every decimal literal becomes the bit pattern of the nearest
//! value of the requested binary floating-point format.

use crate::bigint::big_value;
use crate::error::Error;
use crate::expr::{Expr, ExprV};
use crate::number::{number_type_of, NumberType};
use crate::rounding::{
    denominator, lemma_in_range_has_image, magnitude, nearest_bits, round_to_nearest, rounds_to,
    top_pattern, value,
};
use crate::visitor::{no_number, no_numbers, result_view, rewrite, rewrite_all, Visitor};
use bigdecimal::{BigDecimal, ToPrimitive};
use num_bigint::BigInt;
use std::str::FromStr;
use vstd::prelude::*;

verus! {

/// What `BigDecimal::from_str` reads from a text: the integer of all its
/// digits and the number of them that stand after the decimal point, or
/// nothing where the text is no decimal number.
pub uninterp spec fn decimal_parts(text: Seq<char>) -> Option<(int, int)>;

/// `BigDecimal::from_str`, then `BigDecimal::into_bigint_and_scale`: the
/// digits and the scale that the text was read as.
#[verifier::external_body]
pub(crate) fn parse_decimal(text: &str) -> (r: Option<(BigInt, i64)>)
    ensures
        match r {
            Some((n, s)) => decimal_parts(text@) == Some((big_value(n), s as int)),
            None => decimal_parts(text@) is None,
        },
{
    match BigDecimal::from_str(text) {
        Ok(d) => Some(d.into_bigint_and_scale()),
        Err(_) => None,
    }
}

/// The scales within which `BigDecimal` is asked to convert a decimal.
pub const HINT_SCALE: i64 = 10000;

/// `ToPrimitive::to_f32` on the `BigDecimal` of the given digits and scale,
/// then `to_bits`: the pattern of the value that it converts to. Nothing is
/// claimed of it: the conversion goes through double precision, and so rounds
/// twice. Scales beyond those of a hint are left out.
#[verifier::external_body]
pub(crate) fn convert_single(n: &BigInt, scale: i64) -> (r: Option<u32>)
    requires
        -HINT_SCALE <= scale <= HINT_SCALE,
{
    match BigDecimal::new(n.clone(), scale).to_f32() {
        Some(x) => Some(x.to_bits()),
        None => None,
    }
}

/// `ToPrimitive::to_f64` on the `BigDecimal` of the given digits and scale,
/// then `to_bits`: the pattern of the value that it converts to. Nothing is
/// claimed of it: the conversion keeps some 25 digits and may scale by a
/// power of ten in floating point. Scales beyond those of a hint are left
/// out.
#[verifier::external_body]
pub(crate) fn convert_double(n: &BigInt, scale: i64) -> (r: Option<u64>)
    requires
        -HINT_SCALE <= scale <= HINT_SCALE,
{
    match BigDecimal::new(n.clone(), scale).to_f64() {
        Some(x) => Some(x.to_bits()),
        None => None,
    }
}

/// The bit pattern of a literal in a format: that of the nearest value, or a
/// quantization failure where the text is no decimal number or its value
/// cannot be represented.
pub open spec fn literal_bits(text: Seq<char>, wide: bool) -> Result<u64, Error> {
    match decimal_parts(text) {
        Some((n, scale)) => nearest_bits(n, scale, wide),
        None => Err(Error::QuantizationFailure),
    }
}

/// Quantizes one literal: the bit pattern of the value of the format that is
/// nearest to the decimal that the text holds, ties to even. Every decimal
/// that is not beyond the largest finite value has one. The decimal is
/// converted by `BigDecimal` first, and what that gives is kept where it is
/// the nearest, or next to it; else the nearest is searched for.
pub fn quantize_literal(text: &str, wide: bool) -> (r: Result<u64, Error>)
    ensures
        r == literal_bits(text@, wide),
        r matches Ok(b) ==> decimal_parts(text@) matches Some((n, scale)) && rounds_to(
            n,
            scale,
            b as int,
            wide,
        ),
        decimal_parts(text@) matches Some((n, scale)) && magnitude(n, scale, wide) <= value(
            top_pattern(wide),
            wide,
        ) * denominator(scale) ==> r is Ok,
{
    match parse_decimal(text) {
        Some((n, scale)) => {
            proof {
                if magnitude(big_value(n), scale as int, wide) <= value(top_pattern(wide), wide)
                    * denominator(scale as int) {
                    lemma_in_range_has_image(big_value(n), scale as int, wide);
                }
            }
            if scale > HINT_SCALE || scale < -HINT_SCALE {
                return round_to_nearest(&n, scale, wide, None);
            }
            let hint = if wide {
                convert_double(&n, scale)
            } else {
                match convert_single(&n, scale) {
                    Some(b) => Some(b as u64),
                    None => None,
                }
            };
            round_to_nearest(&n, scale, wide, hint)
        },
        None => Err(Error::QuantizationFailure),
    }
}

/// The visitor that quantizes every number for one number type, and leaves
/// every other literal as it is. Without a number type it changes nothing.
#[derive(Debug, Clone, Copy, PartialEq, Eq)]
pub struct UseNumberType {
    pub number_type: Option<NumberType>,
}

/// What a literal becomes under a number type: the constant of its bit
/// pattern.
pub open spec fn quantized_literal(nt: Option<NumberType>, text: Seq<char>) -> Result<
    ExprV,
    Error,
> {
    match nt {
        Some(t) => match literal_bits(text, t.wide()) {
            Ok(b) => Ok(ExprV::Bits(t, b)),
            Err(f) => Err(f),
        },
        None => Ok(ExprV::Num(text)),
    }
}

/// The visitor for the number type that a tag names.
pub open spec fn quantizer(tag: Seq<char>) -> UseNumberType {
    UseNumberType { number_type: number_type_of(tag) }
}

impl UseNumberType {
    /// The visitor for the number type of the given tag; one that changes
    /// nothing where the tag names none.
    pub fn new(number_type: &str) -> (v: Self)
        ensures
            v == quantizer(number_type@),
    {
        UseNumberType { number_type: NumberType::from_tag(number_type) }
    }

    /// The number type that the visitor quantizes for, if any.
    pub open spec fn target(&self) -> Option<NumberType> {
        self.number_type
    }
}

impl Visitor for UseNumberType {
    open spec fn lit_rewrite(&self, text: Seq<char>, numeric: bool) -> Result<ExprV, Error> {
        if numeric {
            quantized_literal(self.number_type, text)
        } else {
            Ok(ExprV::Lit(text))
        }
    }

    fn visit_lit(&self, text: &String, numeric: bool) -> (r: Result<Expr, Error>) {
        if !numeric {
            return Ok(Expr::Lit(text.clone()));
        }
        match self.number_type {
            Some(t) => {
                let b = quantize_literal(text.as_str(), t.is_wide())?;
                Ok(Expr::Bits(t, b))
            },
            None => Ok(Expr::Num(text.clone())),
        }
    }
}

/// Quantization is determined by the tree and the number type: two runs on
/// the same tree give the same bit patterns, or fail alike.
pub proof fn lemma_quantization_is_determined(
    v: UseNumberType,
    e: ExprV,
    first: Result<Expr, Error>,
    second: Result<Expr, Error>,
)
    requires
        result_view(first) == rewrite(v, e),
        result_view(second) == rewrite(v, e),
    ensures
        result_view(first) == result_view(second),
{
}

/// Quantizing a tree that holds only bit patterns, and no number as a
/// literal, changes nothing.
pub proof fn lemma_quantize_quantized(v: UseNumberType, e: ExprV)
    requires
        no_number(e),
    ensures
        rewrite(v, e) == Ok::<ExprV, Error>(e),
    decreases e,
{
    match e {
        ExprV::Num(t) => {},
        ExprV::Lit(t) => {},
        ExprV::Int(i) => {},
        ExprV::Bits(nt, b) => {},
        ExprV::Var(n) => {},
        ExprV::Neg(a) => {
            lemma_quantize_quantized(v, *a);
        },
        ExprV::Binary(op, a, b) => {
            lemma_quantize_quantized(v, *a);
            lemma_quantize_quantized(v, *b);
        },
        ExprV::Call(n, args) => {
            lemma_quantize_all_quantized(v, args);
        },
        ExprV::Method(r, n, args) => {
            lemma_quantize_quantized(v, *r);
            lemma_quantize_all_quantized(v, args);
        },
        ExprV::Cast(a, ty) => {
            lemma_quantize_quantized(v, *a);
        },
        ExprV::If(c, a, b) => {
            lemma_quantize_quantized(v, *c);
            lemma_quantize_quantized(v, *a);
            lemma_quantize_quantized(v, *b);
        },
        ExprV::Tuple(items) => {
            lemma_quantize_all_quantized(v, items);
        },
        ExprV::Field(a, i) => {
            lemma_quantize_quantized(v, *a);
        },
    }
}

/// Quantizing a sequence of trees that hold no number as a literal changes
/// nothing.
pub proof fn lemma_quantize_all_quantized(v: UseNumberType, es: Seq<ExprV>)
    requires
        no_numbers(es),
    ensures
        rewrite_all(v, es) == Ok::<Seq<ExprV>, Error>(es),
    decreases es,
{
    if es.len() > 0 {
        lemma_quantize_all_quantized(v, es.drop_last());
        lemma_quantize_quantized(v, es.last());
        assert(es.drop_last().push(es.last()) =~= es);
    } else {
        assert(es =~= Seq::empty());
    }
}

/// What quantization for a known number type gives holds no number as a
/// literal.
pub proof fn lemma_quantized_has_no_number(v: UseNumberType, e: ExprV)
    requires
        v.target() is Some,
        rewrite(v, e) is Ok,
    ensures
        no_number(rewrite(v, e)->Ok_0),
    decreases e,
{
    match e {
        ExprV::Num(t) => {},
        ExprV::Lit(t) => {},
        ExprV::Int(i) => {},
        ExprV::Bits(nt, b) => {},
        ExprV::Var(n) => {},
        ExprV::Neg(a) => {
            lemma_quantized_has_no_number(v, *a);
        },
        ExprV::Binary(op, a, b) => {
            lemma_quantized_has_no_number(v, *a);
            lemma_quantized_has_no_number(v, *b);
        },
        ExprV::Call(n, args) => {
            lemma_quantized_have_no_number(v, args);
        },
        ExprV::Method(r, n, args) => {
            lemma_quantized_has_no_number(v, *r);
            lemma_quantized_have_no_number(v, args);
        },
        ExprV::Cast(a, ty) => {
            lemma_quantized_has_no_number(v, *a);
        },
        ExprV::If(c, a, b) => {
            lemma_quantized_has_no_number(v, *c);
            lemma_quantized_has_no_number(v, *a);
            lemma_quantized_has_no_number(v, *b);
        },
        ExprV::Tuple(items) => {
            lemma_quantized_have_no_number(v, items);
        },
        ExprV::Field(a, i) => {
            lemma_quantized_has_no_number(v, *a);
        },
    }
}

/// What quantization for a known number type gives of a sequence of trees
/// holds no number as a literal.
pub proof fn lemma_quantized_have_no_number(v: UseNumberType, es: Seq<ExprV>)
    requires
        v.target() is Some,
        rewrite_all(v, es) is Ok,
    ensures
        no_numbers(rewrite_all(v, es)->Ok_0),
    decreases es,
{
    if es.len() > 0 {
        lemma_quantized_have_no_number(v, es.drop_last());
        lemma_quantized_has_no_number(v, es.last());
        let front = rewrite_all(v, es.drop_last())->Ok_0;
        let x = rewrite(v, es.last())->Ok_0;
        assert(front.push(x).drop_last() =~= front);
    }
}

/// A literal that is no number passes through quantization as it is.
pub proof fn lemma_other_literals_pass(v: UseNumberType, text: Seq<char>)
    ensures
        rewrite(v, ExprV::Lit(text)) == Ok::<ExprV, Error>(ExprV::Lit(text)),
{
}

/// Quantization is idempotent: a second run on what the first gave changes
/// nothing.
pub proof fn lemma_quantize_twice(v: UseNumberType, e: ExprV)
    requires
        rewrite(v, e) is Ok,
    ensures
        rewrite(v, rewrite(v, e)->Ok_0) == rewrite(v, e),
{
    if v.target() is Some {
        lemma_quantized_has_no_number(v, e);
        lemma_quantize_quantized(v, rewrite(v, e)->Ok_0);
    } else {
        lemma_rewrite_identity(v, e);
    }
}

/// With a tag that names no number type the visitor changes nothing.
pub proof fn lemma_rewrite_identity(v: UseNumberType, e: ExprV)
    requires
        v.target() is None,
    ensures
        rewrite(v, e) == Ok::<ExprV, Error>(e),
    decreases e,
{
    match e {
        ExprV::Num(t) => {},
        ExprV::Lit(t) => {},
        ExprV::Int(i) => {},
        ExprV::Bits(nt, b) => {},
        ExprV::Var(n) => {},
        ExprV::Neg(a) => {
            lemma_rewrite_identity(v, *a);
        },
        ExprV::Binary(op, a, b) => {
            lemma_rewrite_identity(v, *a);
            lemma_rewrite_identity(v, *b);
        },
        ExprV::Call(n, args) => {
            lemma_rewrite_all_identity(v, args);
        },
        ExprV::Method(r, n, args) => {
            lemma_rewrite_identity(v, *r);
            lemma_rewrite_all_identity(v, args);
        },
        ExprV::Cast(a, ty) => {
            lemma_rewrite_identity(v, *a);
        },
        ExprV::If(c, a, b) => {
            lemma_rewrite_identity(v, *c);
            lemma_rewrite_identity(v, *a);
            lemma_rewrite_identity(v, *b);
        },
        ExprV::Tuple(items) => {
            lemma_rewrite_all_identity(v, items);
        },
        ExprV::Field(a, i) => {
            lemma_rewrite_identity(v, *a);
        },
    }
}

/// With a tag that names no number type the visitor changes no tree of a
/// sequence.
pub proof fn lemma_rewrite_all_identity(v: UseNumberType, es: Seq<ExprV>)
    requires
        v.target() is None,
    ensures
        rewrite_all(v, es) == Ok::<Seq<ExprV>, Error>(es),
    decreases es,
{
    if es.len() > 0 {
        lemma_rewrite_all_identity(v, es.drop_last());
        lemma_rewrite_identity(v, es.last());
        assert(es.drop_last().push(es.last()) =~= es);
    } else {
        assert(es =~= Seq::empty());
    }
}

} // verus!
