//! Calls of an FMI 3.0 FMU and the values of its variables.
use vstd::prelude::*;

pub mod csv;

use crate::fmi3::types::fmi3Status;
use crate::model_description::fmi3::file::{
    hex_bytes, hex_bytes_from, hex_digit_value, hex_pair, is_ascii_char, parse_hex,
};
use crate::model_description::fmi3::{ModelDescription, ModelVariable, VariableType};
use crate::sim::fmi2::{
    missing_message, missing_names, missing_start_values_message, push_quoted, quoted_names,
};
use crate::text::{
    is_plain_word, is_white_space, lemma_parse_signed_decimal, lemma_signed_decimal_word,
    lemma_words_of_join, decimal, i64_to_decimal, join_mapped, join_strings, join_words, signed_decimal,
    u64_to_decimal, chars_of, is_float_literal, is_float_literal_chars, owned, parse_i16, parse_i32, parse_i64,
    parse_i8, parse_integer, parse_u16, parse_u32, parse_u64, parse_u8, push_str,
    split_white_space, string_from_chars, words,
};

verus! {

/// Passes on the status of a call that succeeded (`fmi3OK` or `fmi3Warning`); any
/// other status is an error.
pub fn call(status: fmi3Status) -> (res: Result<fmi3Status, String>)
    ensures
        match res {
            Ok(s) => s == status && (status == fmi3Status::fmi3OK || status
                == fmi3Status::fmi3Warning),
            Err(m) => status != fmi3Status::fmi3OK && status != fmi3Status::fmi3Warning && m@
                == crate::sim::fmi2::call_failed_message(status.spec_debug_name()),
        },
{
    if status == fmi3Status::fmi3OK || status == fmi3Status::fmi3Warning {
        Ok(status)
    } else {
        let mut m = owned("FMI call failed with status: ");
        let name = status.debug_name();
        push_str(&mut m, name.as_str());
        Err(m)
    }
}

/// The values of a variable, one per word of its literal. Floating-point values are
/// kept as their literals, which `str::parse` accepts.
#[derive(Debug, PartialEq)]
pub enum VariableValue {
    Float32(Vec<String>),
    Float64(Vec<String>),
    Int8(Vec<i8>),
    UInt8(Vec<u8>),
    Int16(Vec<i16>),
    UInt16(Vec<u16>),
    Int32(Vec<i32>),
    UInt32(Vec<u32>),
    Int64(Vec<i64>),
    UInt64(Vec<u64>),
    Boolean(Vec<bool>),
    String(Vec<String>),
    Binary(Vec<Vec<u8>>),
}

/// The lower-case hexadecimal digit of `d` (`0 <= d < 16`).
pub open spec fn hex_char(d: int) -> char {
    if d < 10 {
        (d + 48) as char
    } else {
        (d + 87) as char
    }
}

/// The bytes `bs` written as two lower-case hexadecimal digits each.
pub open spec fn hex_text(bs: Seq<u8>) -> Seq<char>
    decreases bs.len(),
{
    if bs.len() == 0 {
        seq![]
    } else {
        hex_text(bs.drop_last()) + seq![
            hex_char((bs.last() / 16) as int),
            hex_char((bs.last() % 16) as int),
        ]
    }
}

fn hex_digit_of(d: u8) -> (c: char)
    requires
        d < 16,
    ensures
        c == hex_char(d as int),
{
    if d < 10 {
        (d + 48) as char
    } else {
        (d + 87) as char
    }
}

/// The bytes `bs` written as two lower-case hexadecimal digits each.
fn hex_of(bs: &Vec<u8>) -> (res: String)
    ensures
        res@ == hex_text(bs@),
{
    let mut cs: Vec<char> = Vec::new();
    let mut i: usize = 0;
    while i < bs.len()
        invariant
            i <= bs@.len(),
            cs@ == hex_text(bs@.take(i as int)),
        decreases bs.len() - i,
    {
        let b = bs[i];
        cs.push(hex_digit_of(b / 16));
        cs.push(hex_digit_of(b % 16));
        proof {
            assert(bs@.take(i + 1).drop_last() =~= bs@.take(i as int));
        }
        i = i + 1;
    }
    proof {
        assert(bs@.take(bs@.len() as int) =~= bs@);
    }
    string_from_chars(cs.as_slice())
}

/// How a Boolean value is written.
pub open spec fn bool_text(b: bool) -> Seq<char> {
    if b {
        "true"@
    } else {
        "false"@
    }
}

fn i8_text(x: i8) -> (r: String)
    ensures
        r@ == signed_decimal(x as int),
{
    i64_to_decimal(x as i64)
}

fn u8_text(x: u8) -> (r: String)
    ensures
        r@ == decimal(x as nat),
{
    u64_to_decimal(x as u64)
}

fn i16_text(x: i16) -> (r: String)
    ensures
        r@ == signed_decimal(x as int),
{
    i64_to_decimal(x as i64)
}

fn u16_text(x: u16) -> (r: String)
    ensures
        r@ == decimal(x as nat),
{
    u64_to_decimal(x as u64)
}

fn i32_text(x: i32) -> (r: String)
    ensures
        r@ == signed_decimal(x as int),
{
    i64_to_decimal(x as i64)
}

fn u32_text(x: u32) -> (r: String)
    ensures
        r@ == decimal(x as nat),
{
    u64_to_decimal(x as u64)
}

fn i64_text(x: i64) -> (r: String)
    ensures
        r@ == signed_decimal(x as int),
{
    i64_to_decimal(x)
}

fn u64_text(x: u64) -> (r: String)
    ensures
        r@ == decimal(x as nat),
{
    u64_to_decimal(x)
}

fn bool_word_text(x: bool) -> (r: String)
    ensures
        r@ == bool_text(x),
{
    if x {
        owned("true")
    } else {
        owned("false")
    }
}

impl VariableValue {
    /// The number of values.
    pub open spec fn spec_len(&self) -> nat {
        match self {
            VariableValue::Float32(v) => v@.len(),
            VariableValue::Float64(v) => v@.len(),
            VariableValue::Int8(v) => v@.len(),
            VariableValue::UInt8(v) => v@.len(),
            VariableValue::Int16(v) => v@.len(),
            VariableValue::UInt16(v) => v@.len(),
            VariableValue::Int32(v) => v@.len(),
            VariableValue::UInt32(v) => v@.len(),
            VariableValue::Int64(v) => v@.len(),
            VariableValue::UInt64(v) => v@.len(),
            VariableValue::Boolean(v) => v@.len(),
            VariableValue::String(v) => v@.len(),
            VariableValue::Binary(v) => v@.len(),
        }
    }

    /// The number of values.
    pub fn len(&self) -> (res: usize)
        ensures
            res == self.spec_len(),
    {
        match self {
            VariableValue::Float32(v) => v.len(),
            VariableValue::Float64(v) => v.len(),
            VariableValue::Int8(v) => v.len(),
            VariableValue::UInt8(v) => v.len(),
            VariableValue::Int16(v) => v.len(),
            VariableValue::UInt16(v) => v.len(),
            VariableValue::Int32(v) => v.len(),
            VariableValue::UInt32(v) => v.len(),
            VariableValue::Int64(v) => v.len(),
            VariableValue::UInt64(v) => v.len(),
            VariableValue::Boolean(v) => v.len(),
            VariableValue::String(v) => v.len(),
            VariableValue::Binary(v) => v.len(),
        }
    }

    /// Whether there are no values.
    pub fn is_empty(&self) -> (res: bool)
        ensures
            res == (self.spec_len() == 0),
    {
        self.len() == 0
    }

    /// The words of the value's literal, one per value: floating-point values as
    /// their literals, integers in decimal, Booleans as `true` or `false`, strings
    /// as they are and binary values in hexadecimal.
    pub open spec fn value_words(&self) -> Seq<Seq<char>> {
        match self {
            VariableValue::Float32(v) => v@.map_values(|x: String| x@),
            VariableValue::Float64(v) => v@.map_values(|x: String| x@),
            VariableValue::Int8(v) => v@.map_values(|x: i8| signed_decimal(x as int)),
            VariableValue::UInt8(v) => v@.map_values(|x: u8| decimal(x as nat)),
            VariableValue::Int16(v) => v@.map_values(|x: i16| signed_decimal(x as int)),
            VariableValue::UInt16(v) => v@.map_values(|x: u16| decimal(x as nat)),
            VariableValue::Int32(v) => v@.map_values(|x: i32| signed_decimal(x as int)),
            VariableValue::UInt32(v) => v@.map_values(|x: u32| decimal(x as nat)),
            VariableValue::Int64(v) => v@.map_values(|x: i64| signed_decimal(x as int)),
            VariableValue::UInt64(v) => v@.map_values(|x: u64| decimal(x as nat)),
            VariableValue::Boolean(v) => v@.map_values(|x: bool| bool_text(x)),
            VariableValue::String(v) => v@.map_values(|x: String| x@),
            VariableValue::Binary(v) => v@.map_values(|x: Vec<u8>| hex_text(x@)),
        }
    }

    /// The literal of the value: its words joined by single spaces.
    pub fn to_literal(&self) -> (res: String)
        ensures
            res@ == join_words(self.value_words()),
    {
        match self {
            VariableValue::Float32(v) => join_strings(v),
            VariableValue::Float64(v) => join_strings(v),
            VariableValue::Int8(v) => {
                let r = join_mapped(
                    v,
                    i8_text,
                    Ghost(|x: i8| signed_decimal(x as int)),
                );
                proof {
                    assert(v@.map_values(|x: i8| signed_decimal(x as int)) =~= self.value_words());
                }
                r
            },
            VariableValue::UInt8(v) => {
                let r = join_mapped(
                    v,
                    u8_text,
                    Ghost(|x: u8| decimal(x as nat)),
                );
                proof {
                    assert(v@.map_values(|x: u8| decimal(x as nat)) =~= self.value_words());
                }
                r
            },
            VariableValue::Int16(v) => {
                let r = join_mapped(
                    v,
                    i16_text,
                    Ghost(|x: i16| signed_decimal(x as int)),
                );
                proof {
                    assert(v@.map_values(|x: i16| signed_decimal(x as int)) =~= self.value_words());
                }
                r
            },
            VariableValue::UInt16(v) => {
                let r = join_mapped(
                    v,
                    u16_text,
                    Ghost(|x: u16| decimal(x as nat)),
                );
                proof {
                    assert(v@.map_values(|x: u16| decimal(x as nat)) =~= self.value_words());
                }
                r
            },
            VariableValue::Int32(v) => {
                let r = join_mapped(
                    v,
                    i32_text,
                    Ghost(|x: i32| signed_decimal(x as int)),
                );
                proof {
                    assert(v@.map_values(|x: i32| signed_decimal(x as int)) =~= self.value_words());
                }
                r
            },
            VariableValue::UInt32(v) => {
                let r = join_mapped(
                    v,
                    u32_text,
                    Ghost(|x: u32| decimal(x as nat)),
                );
                proof {
                    assert(v@.map_values(|x: u32| decimal(x as nat)) =~= self.value_words());
                }
                r
            },
            VariableValue::Int64(v) => {
                let r = join_mapped(
                    v,
                    i64_text,
                    Ghost(|x: i64| signed_decimal(x as int)),
                );
                proof {
                    assert(v@.map_values(|x: i64| signed_decimal(x as int)) =~= self.value_words());
                }
                r
            },
            VariableValue::UInt64(v) => {
                let r = join_mapped(
                    v,
                    u64_text,
                    Ghost(|x: u64| decimal(x as nat)),
                );
                proof {
                    assert(v@.map_values(|x: u64| decimal(x as nat)) =~= self.value_words());
                }
                r
            },
            VariableValue::Boolean(v) => {
                let r = join_mapped(
                    v,
                    bool_word_text,
                    Ghost(|x: bool| bool_text(x)),
                );
                proof {
                    assert(v@.map_values(|x: bool| bool_text(x)) =~= self.value_words());
                }
                r
            },
            VariableValue::String(v) => join_strings(v),
            VariableValue::Binary(v) => {
                let mut ws: Vec<String> = Vec::new();
                let mut i: usize = 0;
                while i < v.len()
                    invariant
                        i <= v@.len(),
                        ws@.map_values(|x: String| x@) =~= v@.take(i as int).map_values(
                            |x: Vec<u8>| hex_text(x@),
                        ),
                    decreases v.len() - i,
                {
                    ws.push(hex_of(&v[i]));
                    proof {
                        assert(v@.take(i + 1).map_values(|x: Vec<u8>| hex_text(x@)) =~= v@.take(
                            i as int,
                        ).map_values(|x: Vec<u8>| hex_text(x@)).push(hex_text(v@[i as int]@)));
                    }
                    i = i + 1;
                }
                proof {
                    assert(v@.take(v@.len() as int) =~= v@);
                }
                join_strings(&ws)
            },
        }
    }
}

/// Reads the words `ws[i..]` with `f`, after the values `acc`: the first word that
/// `f` refuses gives the error.
pub open spec fn parse_words<T>(
    ws: Seq<Seq<char>>,
    f: spec_fn(Seq<char>) -> Result<T, Seq<char>>,
    i: nat,
    acc: Seq<T>,
) -> Result<Seq<T>, Seq<char>>
    decreases ws.len() - i,
{
    if i >= ws.len() {
        Ok(acc)
    } else {
        match f(ws[i as int]) {
            Ok(x) => parse_words(ws, f, i + 1, acc.push(x)),
            Err(m) => Err(m),
        }
    }
}

/// A word read as a floating-point literal.
pub open spec fn float_word(w: Seq<char>) -> Result<Seq<char>, Seq<char>> {
    if is_float_literal(w) {
        Ok(w)
    } else {
        Err("invalid float literal"@)
    }
}

/// A word read as an integer of the range `[lo, hi]`.
pub open spec fn int_word(w: Seq<char>, lo: int, hi: int) -> Result<int, Seq<char>> {
    match parse_integer(w, lo, hi) {
        Ok(x) => Ok(x),
        Err(k) => Err(k.spec_message()),
    }
}

/// A word read as `str::parse::<bool>` reads it.
pub open spec fn bool_word(w: Seq<char>) -> Result<bool, Seq<char>> {
    if w == "true"@ {
        Ok(true)
    } else if w == "false"@ {
        Ok(false)
    } else {
        Err("provided string was not `true` or `false`"@)
    }
}

/// The result of reading the words of `literal` for a variable of type `t`, as the
/// literals of the words for floating-point types.
pub open spec fn literal_words(literal: Seq<char>) -> Result<Seq<Seq<char>>, Seq<char>> {
    parse_words(words(literal), |w: Seq<char>| float_word(w), 0, seq![])
}

/// The result of reading the words of `literal` as integers of `[lo, hi]`.
pub open spec fn integer_words(literal: Seq<char>, lo: int, hi: int) -> Result<Seq<int>, Seq<char>> {
    parse_words(words(literal), |w: Seq<char>| int_word(w, lo, hi), 0, seq![])
}

/// The result of reading the words of `literal` as booleans.
pub open spec fn boolean_words(literal: Seq<char>) -> Result<Seq<bool>, Seq<char>> {
    parse_words(words(literal), |w: Seq<char>| bool_word(w), 0, seq![])
}

/// The result of reading the words of `literal` as hexadecimal binary values.
pub open spec fn binary_words(literal: Seq<char>) -> Result<Seq<Seq<u8>>, Seq<char>> {
    parse_words(words(literal), |w: Seq<char>| hex_bytes(w), 0, seq![])
}

/// The error in reading `literal` as the values of a variable of type `t`, if any.
pub open spec fn value_error(t: VariableType, literal: Seq<char>) -> Option<Seq<char>> {
    match t {
        VariableType::Float32 { .. } | VariableType::Float64 { .. } => crate::model_description::error_of(
            literal_words(literal),
        ),
        VariableType::Int8 { .. } => crate::model_description::error_of(
            integer_words(literal, i8::MIN as int, i8::MAX as int),
        ),
        VariableType::UInt8 { .. } => crate::model_description::error_of(
            integer_words(literal, 0, u8::MAX as int),
        ),
        VariableType::Int16 { .. } => crate::model_description::error_of(
            integer_words(literal, i16::MIN as int, i16::MAX as int),
        ),
        VariableType::UInt16 { .. } => crate::model_description::error_of(
            integer_words(literal, 0, u16::MAX as int),
        ),
        VariableType::Int32 { .. } => crate::model_description::error_of(
            integer_words(literal, i32::MIN as int, i32::MAX as int),
        ),
        VariableType::UInt32 { .. } => crate::model_description::error_of(
            integer_words(literal, 0, u32::MAX as int),
        ),
        VariableType::Int64 { .. } | VariableType::Enumeration { .. } => crate::model_description::error_of(
            integer_words(literal, i64::MIN as int, i64::MAX as int),
        ),
        VariableType::UInt64 { .. } => crate::model_description::error_of(
            integer_words(literal, 0, u64::MAX as int),
        ),
        VariableType::Boolean { .. } | VariableType::Clock { .. } => crate::model_description::error_of(
            boolean_words(literal),
        ),
        VariableType::String { .. } => None,
        VariableType::Binary { .. } => crate::model_description::error_of(binary_words(literal)),
    }
}

/// `v` is the values that `literal` gives a variable of type `t`.
pub open spec fn value_of(t: VariableType, literal: Seq<char>, v: VariableValue) -> bool {
    match t {
        VariableType::Float32 { .. } => v matches VariableValue::Float32(xs) && literal_words(literal)
            == Ok::<Seq<Seq<char>>, Seq<char>>(xs@.map_values(|x: String| x@)),
        VariableType::Float64 { .. } => v matches VariableValue::Float64(xs) && literal_words(literal)
            == Ok::<Seq<Seq<char>>, Seq<char>>(xs@.map_values(|x: String| x@)),
        VariableType::Int8 { .. } => v matches VariableValue::Int8(xs) && integer_words(
            literal,
            i8::MIN as int,
            i8::MAX as int,
        ) == Ok::<Seq<int>, Seq<char>>(xs@.map_values(|x: i8| x as int)),
        VariableType::UInt8 { .. } => v matches VariableValue::UInt8(xs) && integer_words(
            literal,
            0,
            u8::MAX as int,
        ) == Ok::<Seq<int>, Seq<char>>(xs@.map_values(|x: u8| x as int)),
        VariableType::Int16 { .. } => v matches VariableValue::Int16(xs) && integer_words(
            literal,
            i16::MIN as int,
            i16::MAX as int,
        ) == Ok::<Seq<int>, Seq<char>>(xs@.map_values(|x: i16| x as int)),
        VariableType::UInt16 { .. } => v matches VariableValue::UInt16(xs) && integer_words(
            literal,
            0,
            u16::MAX as int,
        ) == Ok::<Seq<int>, Seq<char>>(xs@.map_values(|x: u16| x as int)),
        VariableType::Int32 { .. } => v matches VariableValue::Int32(xs) && integer_words(
            literal,
            i32::MIN as int,
            i32::MAX as int,
        ) == Ok::<Seq<int>, Seq<char>>(xs@.map_values(|x: i32| x as int)),
        VariableType::UInt32 { .. } => v matches VariableValue::UInt32(xs) && integer_words(
            literal,
            0,
            u32::MAX as int,
        ) == Ok::<Seq<int>, Seq<char>>(xs@.map_values(|x: u32| x as int)),
        VariableType::Int64 { .. } | VariableType::Enumeration { .. } => v matches VariableValue::Int64(xs) && integer_words(
            literal,
            i64::MIN as int,
            i64::MAX as int,
        ) == Ok::<Seq<int>, Seq<char>>(xs@.map_values(|x: i64| x as int)),
        VariableType::UInt64 { .. } => v matches VariableValue::UInt64(xs) && integer_words(
            literal,
            0,
            u64::MAX as int,
        ) == Ok::<Seq<int>, Seq<char>>(xs@.map_values(|x: u64| x as int)),
        VariableType::Boolean { .. } | VariableType::Clock { .. } => v matches VariableValue::Boolean(
            xs,
        ) && boolean_words(literal) == Ok::<Seq<bool>, Seq<char>>(xs@),
        VariableType::String { .. } => v matches VariableValue::String(xs) && xs@.map_values(
            |x: String| x@,
        ) == words(literal),
        VariableType::Binary { .. } => v matches VariableValue::Binary(xs) && binary_words(literal)
            == Ok::<Seq<Seq<u8>>, Seq<char>>(xs@.map_values(|x: Vec<u8>| x@)),
    }
}

fn read_literal_words(literal: &str) -> (res: Result<Vec<String>, String>)
    ensures
        match res {
            Ok(v) => literal_words(literal@) == Ok::<Seq<Seq<char>>, Seq<char>>(
                v@.map_values(|x: String| x@),
            ),
            Err(m) => literal_words(literal@) == Err::<Seq<Seq<char>>, Seq<char>>(m@),
        },
{
    let cs = chars_of(literal);
    let ws = split_white_space(cs.as_slice());
    let mut out: Vec<String> = Vec::new();
    proof {
        assert(out@.map_values(|x: String| x@) =~= Seq::empty());
    }
    let mut i: usize = 0;
    while i < ws.len()
        invariant
            i <= ws@.len(),
            ws@.len() == words(literal@).len(),
            forall|k: int| 0 <= k < ws@.len() ==> (#[trigger] ws@[k])@ == words(literal@)[k],
            parse_words(
                words(literal@),
                |w: Seq<char>| float_word(w),
                i as nat,
                out@.map_values(|x: String| x@),
            ) == literal_words(literal@),
        decreases ws.len() - i,
    {
        if !is_float_literal_chars(ws[i].as_slice()) {
            return Err(owned("invalid float literal"));
        }
        let w = string_from_chars(ws[i].as_slice());
        let ghost before = out@;
        out.push(w);
        proof {
            assert(out@.map_values(|x: String| x@) =~= before.map_values(|x: String| x@).push(
                ws@[i as int]@,
            ));
        }
        i = i + 1;
    }
    Ok(out)
}

fn read_boolean_words(literal: &str) -> (res: Result<Vec<bool>, String>)
    ensures
        match res {
            Ok(v) => boolean_words(literal@) == Ok::<Seq<bool>, Seq<char>>(v@),
            Err(m) => boolean_words(literal@) == Err::<Seq<bool>, Seq<char>>(m@),
        },
{
    let cs = chars_of(literal);
    let ws = split_white_space(cs.as_slice());
    let mut out: Vec<bool> = Vec::new();
    let mut i: usize = 0;
    while i < ws.len()
        invariant
            i <= ws@.len(),
            ws@.len() == words(literal@).len(),
            forall|k: int| 0 <= k < ws@.len() ==> (#[trigger] ws@[k])@ == words(literal@)[k],
            parse_words(words(literal@), |w: Seq<char>| bool_word(w), i as nat, out@)
                == boolean_words(literal@),
        decreases ws.len() - i,
    {
        let w = string_from_chars(ws[i].as_slice());
        if w == owned("true") {
            out.push(true);
        } else if w == owned("false") {
            out.push(false);
        } else {
            return Err(owned("provided string was not `true` or `false`"));
        }
        i = i + 1;
    }
    Ok(out)
}

fn read_string_words(literal: &str) -> (res: Vec<String>)
    ensures
        res@.map_values(|x: String| x@) == words(literal@),
{
    let cs = chars_of(literal);
    let ws = split_white_space(cs.as_slice());
    let mut out: Vec<String> = Vec::new();
    proof {
        assert(out@.map_values(|x: String| x@) =~= Seq::empty());
    }
    let mut i: usize = 0;
    while i < ws.len()
        invariant
            i <= ws@.len(),
            ws@.len() == words(literal@).len(),
            forall|k: int| 0 <= k < ws@.len() ==> (#[trigger] ws@[k])@ == words(literal@)[k],
            out@.map_values(|x: String| x@) == words(literal@).take(i as int),
        decreases ws.len() - i,
    {
        let w = string_from_chars(ws[i].as_slice());
        let ghost before = out@;
        out.push(w);
        proof {
            assert(before.map_values(|x: String| x@) =~= words(literal@).take(i as int));
            assert(out@.map_values(|x: String| x@) =~= before.map_values(|x: String| x@).push(
                ws@[i as int]@,
            ));
            assert(out@.map_values(|x: String| x@) =~= words(literal@).take(i + 1));
        }
        i = i + 1;
    }
    proof {
        assert(words(literal@).take(ws@.len() as int) =~= words(literal@));
    }
    out
}

fn read_binary_words(literal: &str) -> (res: Result<Vec<Vec<u8>>, String>)
    ensures
        match res {
            Ok(v) => binary_words(literal@) == Ok::<Seq<Seq<u8>>, Seq<char>>(
                v@.map_values(|x: Vec<u8>| x@),
            ),
            Err(m) => binary_words(literal@) == Err::<Seq<Seq<u8>>, Seq<char>>(m@),
        },
{
    let cs = chars_of(literal);
    let ws = split_white_space(cs.as_slice());
    let mut out: Vec<Vec<u8>> = Vec::new();
    proof {
        assert(out@.map_values(|x: Vec<u8>| x@) =~= Seq::empty());
    }
    let mut i: usize = 0;
    while i < ws.len()
        invariant
            i <= ws@.len(),
            ws@.len() == words(literal@).len(),
            forall|k: int| 0 <= k < ws@.len() ==> (#[trigger] ws@[k])@ == words(literal@)[k],
            parse_words(
                words(literal@),
                |w: Seq<char>| hex_bytes(w),
                i as nat,
                out@.map_values(|x: Vec<u8>| x@),
            ) == binary_words(literal@),
        decreases ws.len() - i,
    {
        let w = string_from_chars(ws[i].as_slice());
        let bytes = parse_hex(w.as_str())?;
        let ghost before = out@;
        out.push(bytes);
        proof {
            assert(out@.map_values(|x: Vec<u8>| x@) =~= before.map_values(|x: Vec<u8>| x@).push(
                bytes@,
            ));
        }
        i = i + 1;
    }
    Ok(out)
}

fn read_i8_words(literal: &str) -> (res: Result<Vec<i8>, String>)
    ensures
        match res {
            Ok(v) => integer_words(literal@, i8::MIN as int, i8::MAX as int) == Ok::<Seq<int>, Seq<char>>(
                v@.map_values(|x: i8| x as int),
            ),
            Err(m) => integer_words(literal@, i8::MIN as int, i8::MAX as int) == Err::<Seq<int>, Seq<char>>(m@),
        },
{
    let cs = chars_of(literal);
    let ws = split_white_space(cs.as_slice());
    let mut out: Vec<i8> = Vec::new();
    proof {
        assert(out@.map_values(|x: i8| x as int) =~= Seq::empty());
    }
    let mut i: usize = 0;
    while i < ws.len()
        invariant
            i <= ws@.len(),
            ws@.len() == words(literal@).len(),
            forall|k: int| 0 <= k < ws@.len() ==> (#[trigger] ws@[k])@ == words(literal@)[k],
            parse_words(
                words(literal@),
                |w: Seq<char>| int_word(w, i8::MIN as int, i8::MAX as int),
                i as nat,
                out@.map_values(|x: i8| x as int),
            ) == integer_words(literal@, i8::MIN as int, i8::MAX as int),
        decreases ws.len() - i,
    {
        match parse_i8(ws[i].as_slice()) {
            Ok(x) => {
                let ghost before = out@;
                out.push(x);
                proof {
                    assert(out@.map_values(|x: i8| x as int) =~= before.map_values(
                        |x: i8| x as int,
                    ).push(x as int));
                }
            },
            Err(k) => {
                return Err(k.message());
            },
        }
        i = i + 1;
    }
    Ok(out)
}

fn read_u8_words(literal: &str) -> (res: Result<Vec<u8>, String>)
    ensures
        match res {
            Ok(v) => integer_words(literal@, 0, u8::MAX as int) == Ok::<Seq<int>, Seq<char>>(
                v@.map_values(|x: u8| x as int),
            ),
            Err(m) => integer_words(literal@, 0, u8::MAX as int) == Err::<Seq<int>, Seq<char>>(m@),
        },
{
    let cs = chars_of(literal);
    let ws = split_white_space(cs.as_slice());
    let mut out: Vec<u8> = Vec::new();
    proof {
        assert(out@.map_values(|x: u8| x as int) =~= Seq::empty());
    }
    let mut i: usize = 0;
    while i < ws.len()
        invariant
            i <= ws@.len(),
            ws@.len() == words(literal@).len(),
            forall|k: int| 0 <= k < ws@.len() ==> (#[trigger] ws@[k])@ == words(literal@)[k],
            parse_words(
                words(literal@),
                |w: Seq<char>| int_word(w, 0, u8::MAX as int),
                i as nat,
                out@.map_values(|x: u8| x as int),
            ) == integer_words(literal@, 0, u8::MAX as int),
        decreases ws.len() - i,
    {
        match parse_u8(ws[i].as_slice()) {
            Ok(x) => {
                let ghost before = out@;
                out.push(x);
                proof {
                    assert(out@.map_values(|x: u8| x as int) =~= before.map_values(
                        |x: u8| x as int,
                    ).push(x as int));
                }
            },
            Err(k) => {
                return Err(k.message());
            },
        }
        i = i + 1;
    }
    Ok(out)
}

fn read_i16_words(literal: &str) -> (res: Result<Vec<i16>, String>)
    ensures
        match res {
            Ok(v) => integer_words(literal@, i16::MIN as int, i16::MAX as int) == Ok::<Seq<int>, Seq<char>>(
                v@.map_values(|x: i16| x as int),
            ),
            Err(m) => integer_words(literal@, i16::MIN as int, i16::MAX as int) == Err::<Seq<int>, Seq<char>>(m@),
        },
{
    let cs = chars_of(literal);
    let ws = split_white_space(cs.as_slice());
    let mut out: Vec<i16> = Vec::new();
    proof {
        assert(out@.map_values(|x: i16| x as int) =~= Seq::empty());
    }
    let mut i: usize = 0;
    while i < ws.len()
        invariant
            i <= ws@.len(),
            ws@.len() == words(literal@).len(),
            forall|k: int| 0 <= k < ws@.len() ==> (#[trigger] ws@[k])@ == words(literal@)[k],
            parse_words(
                words(literal@),
                |w: Seq<char>| int_word(w, i16::MIN as int, i16::MAX as int),
                i as nat,
                out@.map_values(|x: i16| x as int),
            ) == integer_words(literal@, i16::MIN as int, i16::MAX as int),
        decreases ws.len() - i,
    {
        match parse_i16(ws[i].as_slice()) {
            Ok(x) => {
                let ghost before = out@;
                out.push(x);
                proof {
                    assert(out@.map_values(|x: i16| x as int) =~= before.map_values(
                        |x: i16| x as int,
                    ).push(x as int));
                }
            },
            Err(k) => {
                return Err(k.message());
            },
        }
        i = i + 1;
    }
    Ok(out)
}

fn read_u16_words(literal: &str) -> (res: Result<Vec<u16>, String>)
    ensures
        match res {
            Ok(v) => integer_words(literal@, 0, u16::MAX as int) == Ok::<Seq<int>, Seq<char>>(
                v@.map_values(|x: u16| x as int),
            ),
            Err(m) => integer_words(literal@, 0, u16::MAX as int) == Err::<Seq<int>, Seq<char>>(m@),
        },
{
    let cs = chars_of(literal);
    let ws = split_white_space(cs.as_slice());
    let mut out: Vec<u16> = Vec::new();
    proof {
        assert(out@.map_values(|x: u16| x as int) =~= Seq::empty());
    }
    let mut i: usize = 0;
    while i < ws.len()
        invariant
            i <= ws@.len(),
            ws@.len() == words(literal@).len(),
            forall|k: int| 0 <= k < ws@.len() ==> (#[trigger] ws@[k])@ == words(literal@)[k],
            parse_words(
                words(literal@),
                |w: Seq<char>| int_word(w, 0, u16::MAX as int),
                i as nat,
                out@.map_values(|x: u16| x as int),
            ) == integer_words(literal@, 0, u16::MAX as int),
        decreases ws.len() - i,
    {
        match parse_u16(ws[i].as_slice()) {
            Ok(x) => {
                let ghost before = out@;
                out.push(x);
                proof {
                    assert(out@.map_values(|x: u16| x as int) =~= before.map_values(
                        |x: u16| x as int,
                    ).push(x as int));
                }
            },
            Err(k) => {
                return Err(k.message());
            },
        }
        i = i + 1;
    }
    Ok(out)
}

fn read_i32_words(literal: &str) -> (res: Result<Vec<i32>, String>)
    ensures
        match res {
            Ok(v) => integer_words(literal@, i32::MIN as int, i32::MAX as int) == Ok::<Seq<int>, Seq<char>>(
                v@.map_values(|x: i32| x as int),
            ),
            Err(m) => integer_words(literal@, i32::MIN as int, i32::MAX as int) == Err::<Seq<int>, Seq<char>>(m@),
        },
{
    let cs = chars_of(literal);
    let ws = split_white_space(cs.as_slice());
    let mut out: Vec<i32> = Vec::new();
    proof {
        assert(out@.map_values(|x: i32| x as int) =~= Seq::empty());
    }
    let mut i: usize = 0;
    while i < ws.len()
        invariant
            i <= ws@.len(),
            ws@.len() == words(literal@).len(),
            forall|k: int| 0 <= k < ws@.len() ==> (#[trigger] ws@[k])@ == words(literal@)[k],
            parse_words(
                words(literal@),
                |w: Seq<char>| int_word(w, i32::MIN as int, i32::MAX as int),
                i as nat,
                out@.map_values(|x: i32| x as int),
            ) == integer_words(literal@, i32::MIN as int, i32::MAX as int),
        decreases ws.len() - i,
    {
        match parse_i32(ws[i].as_slice()) {
            Ok(x) => {
                let ghost before = out@;
                out.push(x);
                proof {
                    assert(out@.map_values(|x: i32| x as int) =~= before.map_values(
                        |x: i32| x as int,
                    ).push(x as int));
                }
            },
            Err(k) => {
                return Err(k.message());
            },
        }
        i = i + 1;
    }
    Ok(out)
}

fn read_u32_words(literal: &str) -> (res: Result<Vec<u32>, String>)
    ensures
        match res {
            Ok(v) => integer_words(literal@, 0, u32::MAX as int) == Ok::<Seq<int>, Seq<char>>(
                v@.map_values(|x: u32| x as int),
            ),
            Err(m) => integer_words(literal@, 0, u32::MAX as int) == Err::<Seq<int>, Seq<char>>(m@),
        },
{
    let cs = chars_of(literal);
    let ws = split_white_space(cs.as_slice());
    let mut out: Vec<u32> = Vec::new();
    proof {
        assert(out@.map_values(|x: u32| x as int) =~= Seq::empty());
    }
    let mut i: usize = 0;
    while i < ws.len()
        invariant
            i <= ws@.len(),
            ws@.len() == words(literal@).len(),
            forall|k: int| 0 <= k < ws@.len() ==> (#[trigger] ws@[k])@ == words(literal@)[k],
            parse_words(
                words(literal@),
                |w: Seq<char>| int_word(w, 0, u32::MAX as int),
                i as nat,
                out@.map_values(|x: u32| x as int),
            ) == integer_words(literal@, 0, u32::MAX as int),
        decreases ws.len() - i,
    {
        match parse_u32(ws[i].as_slice()) {
            Ok(x) => {
                let ghost before = out@;
                out.push(x);
                proof {
                    assert(out@.map_values(|x: u32| x as int) =~= before.map_values(
                        |x: u32| x as int,
                    ).push(x as int));
                }
            },
            Err(k) => {
                return Err(k.message());
            },
        }
        i = i + 1;
    }
    Ok(out)
}

fn read_i64_words(literal: &str) -> (res: Result<Vec<i64>, String>)
    ensures
        match res {
            Ok(v) => integer_words(literal@, i64::MIN as int, i64::MAX as int) == Ok::<Seq<int>, Seq<char>>(
                v@.map_values(|x: i64| x as int),
            ),
            Err(m) => integer_words(literal@, i64::MIN as int, i64::MAX as int) == Err::<Seq<int>, Seq<char>>(m@),
        },
{
    let cs = chars_of(literal);
    let ws = split_white_space(cs.as_slice());
    let mut out: Vec<i64> = Vec::new();
    proof {
        assert(out@.map_values(|x: i64| x as int) =~= Seq::empty());
    }
    let mut i: usize = 0;
    while i < ws.len()
        invariant
            i <= ws@.len(),
            ws@.len() == words(literal@).len(),
            forall|k: int| 0 <= k < ws@.len() ==> (#[trigger] ws@[k])@ == words(literal@)[k],
            parse_words(
                words(literal@),
                |w: Seq<char>| int_word(w, i64::MIN as int, i64::MAX as int),
                i as nat,
                out@.map_values(|x: i64| x as int),
            ) == integer_words(literal@, i64::MIN as int, i64::MAX as int),
        decreases ws.len() - i,
    {
        match parse_i64(ws[i].as_slice()) {
            Ok(x) => {
                let ghost before = out@;
                out.push(x);
                proof {
                    assert(out@.map_values(|x: i64| x as int) =~= before.map_values(
                        |x: i64| x as int,
                    ).push(x as int));
                }
            },
            Err(k) => {
                return Err(k.message());
            },
        }
        i = i + 1;
    }
    Ok(out)
}

fn read_u64_words(literal: &str) -> (res: Result<Vec<u64>, String>)
    ensures
        match res {
            Ok(v) => integer_words(literal@, 0, u64::MAX as int) == Ok::<Seq<int>, Seq<char>>(
                v@.map_values(|x: u64| x as int),
            ),
            Err(m) => integer_words(literal@, 0, u64::MAX as int) == Err::<Seq<int>, Seq<char>>(m@),
        },
{
    let cs = chars_of(literal);
    let ws = split_white_space(cs.as_slice());
    let mut out: Vec<u64> = Vec::new();
    proof {
        assert(out@.map_values(|x: u64| x as int) =~= Seq::empty());
    }
    let mut i: usize = 0;
    while i < ws.len()
        invariant
            i <= ws@.len(),
            ws@.len() == words(literal@).len(),
            forall|k: int| 0 <= k < ws@.len() ==> (#[trigger] ws@[k])@ == words(literal@)[k],
            parse_words(
                words(literal@),
                |w: Seq<char>| int_word(w, 0, u64::MAX as int),
                i as nat,
                out@.map_values(|x: u64| x as int),
            ) == integer_words(literal@, 0, u64::MAX as int),
        decreases ws.len() - i,
    {
        match parse_u64(ws[i].as_slice()) {
            Ok(x) => {
                let ghost before = out@;
                out.push(x);
                proof {
                    assert(out@.map_values(|x: u64| x as int) =~= before.map_values(
                        |x: u64| x as int,
                    ).push(x as int));
                }
            },
            Err(k) => {
                return Err(k.message());
            },
        }
        i = i + 1;
    }
    Ok(out)
}

/// Reads the values of a variable of the given type from a literal, one value per
/// word.
pub fn parse_variable_value(variable_type: &VariableType, literal: &str) -> (res: Result<
    VariableValue,
    String,
>)
    ensures
        match res {
            Ok(v) => value_error(*variable_type, literal@) is None && value_of(
                *variable_type,
                literal@,
                v,
            ),
            Err(m) => value_error(*variable_type, literal@) == Some(m@),
        },
{
    match variable_type {
        VariableType::Float32 { .. } => Ok(VariableValue::Float32(read_literal_words(literal)?)),
        VariableType::Float64 { .. } => Ok(VariableValue::Float64(read_literal_words(literal)?)),
        VariableType::Int8 { .. } => Ok(VariableValue::Int8(read_i8_words(literal)?)),
        VariableType::UInt8 { .. } => Ok(VariableValue::UInt8(read_u8_words(literal)?)),
        VariableType::Int16 { .. } => Ok(VariableValue::Int16(read_i16_words(literal)?)),
        VariableType::UInt16 { .. } => Ok(VariableValue::UInt16(read_u16_words(literal)?)),
        VariableType::Int32 { .. } => Ok(VariableValue::Int32(read_i32_words(literal)?)),
        VariableType::UInt32 { .. } => Ok(VariableValue::UInt32(read_u32_words(literal)?)),
        VariableType::Int64 { .. } | VariableType::Enumeration { .. } => Ok(VariableValue::Int64(read_i64_words(literal)?)),
        VariableType::UInt64 { .. } => Ok(VariableValue::UInt64(read_u64_words(literal)?)),
        VariableType::Boolean { .. } | VariableType::Clock { .. } => Ok(
            VariableValue::Boolean(read_boolean_words(literal)?),
        ),
        VariableType::String { .. } => Ok(VariableValue::String(read_string_words(literal))),
        VariableType::Binary { .. } => Ok(VariableValue::Binary(read_binary_words(literal)?)),
    }
}

// ---------------------------------------------------------------------------
// Literals read back
// ---------------------------------------------------------------------------
proof fn lemma_hex_char(d: int)
    requires
        0 <= d < 16,
    ensures
        hex_digit_value(hex_char(d)) == Some(d),
        '\0' <= hex_char(d),
        is_ascii_char(hex_char(d)),
        hex_char(d) != '+',
        !is_white_space(hex_char(d)),
{
}

proof fn lemma_hex_text(bs: Seq<u8>)
    ensures
        hex_text(bs).len() == 2 * bs.len(),
        forall|m: int|
            0 <= m < bs.len() ==> hex_text(bs)[2 * m] == hex_char((#[trigger] bs[m] / 16) as int)
                && hex_text(bs)[2 * m + 1] == hex_char((bs[m] % 16) as int),
    decreases bs.len(),
{
    if bs.len() > 0 {
        let d = bs.drop_last();
        lemma_hex_text(d);
        assert forall|m: int| 0 <= m < bs.len() implies hex_text(bs)[2 * m] == hex_char(
            (#[trigger] bs[m] / 16) as int,
        ) && hex_text(bs)[2 * m + 1] == hex_char((bs[m] % 16) as int) by {
            if m < d.len() {
                assert(d[m] == bs[m]);
            }
        }
    }
}

proof fn lemma_ascii_utf8_len(cs: Seq<char>)
    requires
        forall|q: int| 0 <= q < cs.len() ==> '\0' <= #[trigger] cs[q] && is_ascii_char(cs[q]),
    ensures
        vstd::utf8::encode_utf8(cs).len() == cs.len(),
    decreases cs.len(),
{
    if cs.len() > 0 {
        assert(is_ascii_char(cs[0]));
        assert forall|q: int| 0 <= q < cs.drop_first().len() implies '\0' <= #[trigger] cs.drop_first()[q]
            && is_ascii_char(cs.drop_first()[q]) by {
            assert(cs.drop_first()[q] == cs[q + 1]);
        }
        lemma_ascii_utf8_len(cs.drop_first());
        assert((cs[0] as u32) <= 0x7f);
        assert(vstd::utf8::has_width_1_encoding(cs[0] as u32));
        assert(vstd::utf8::encode_scalar(cs[0] as u32).len() == 1);
    }
}

proof fn lemma_hex_bytes_from(bs: Seq<u8>, m: nat)
    requires
        m <= bs.len(),
    ensures
        hex_bytes_from(hex_text(bs), 2 * m, bs.take(m as int)) == Ok::<Seq<u8>, Seq<char>>(bs),
    decreases bs.len() - m,
{
    lemma_hex_text(bs);
    let cs = hex_text(bs);
    if m < bs.len() {
        let b = bs[m as int];
        let hi = (b / 16) as int;
        let lo = (b % 16) as int;
        lemma_hex_char(hi);
        lemma_hex_char(lo);
        assert(cs[2 * m as int] == hex_char(hi));
        assert(cs[(2 * m + 1) as int] == hex_char(lo));
        assert(hi * 16 + lo == b) by (nonlinear_arith)
            requires
                hi == b / 16,
                lo == b % 16,
        ;
        assert(hex_pair(hex_char(hi), hex_char(lo)) == Some(b));
        assert(bs.take(m as int).push(b) =~= bs.take((m + 1) as int));
        lemma_hex_bytes_from(bs, m + 1);
        assert(2 * m + 2 == 2 * (m + 1));
    } else {
        assert(bs.take(m as int) =~= bs);
    }
}

/// The hexadecimal text of a non-empty byte string is a plain word that reads back
/// as the bytes.
proof fn lemma_hex_reads_back(bs: Seq<u8>)
    requires
        bs.len() > 0,
    ensures
        is_plain_word(hex_text(bs)),
        hex_bytes(hex_text(bs)) == Ok::<Seq<u8>, Seq<char>>(bs),
{
    lemma_hex_text(bs);
    let cs = hex_text(bs);
    assert forall|q: int| 0 <= q < cs.len() implies '\0' <= #[trigger] cs[q] && is_ascii_char(cs[q])
        && !is_white_space(cs[q]) by {
        let m = q / 2;
        assert(0 <= m < bs.len());
        lemma_hex_char((bs[m] / 16) as int);
        lemma_hex_char((bs[m] % 16) as int);
        if q % 2 == 0 {
            assert(q == 2 * m);
        } else {
            assert(q == 2 * m + 1);
        }
    }
    lemma_ascii_utf8_len(cs);
    lemma_hex_bytes_from(bs, 0);
    assert(bs.take(0) =~= Seq::<u8>::empty());
}

proof fn lemma_parse_words_ok<T>(
    ws: Seq<Seq<char>>,
    f: spec_fn(Seq<char>) -> Result<T, Seq<char>>,
    i: nat,
    acc: Seq<T>,
    xs: Seq<T>,
)
    requires
        i <= ws.len(),
        xs.len() == ws.len(),
        forall|k: int| i <= k < ws.len() ==> f(#[trigger] ws[k]) == Ok::<T, Seq<char>>(xs[k]),
    ensures
        parse_words(ws, f, i, acc) == Ok::<Seq<T>, Seq<char>>(
            acc + xs.subrange(i as int, ws.len() as int),
        ),
    decreases ws.len() - i,
{
    if i < ws.len() {
        lemma_parse_words_ok(ws, f, i + 1, acc.push(xs[i as int]), xs);
        assert(acc.push(xs[i as int]) + xs.subrange((i + 1) as int, ws.len() as int) =~= acc
            + xs.subrange(i as int, ws.len() as int));
    } else {
        assert(acc + xs.subrange(i as int, i as int) =~= acc);
    }
}

/// Integers of `[lo, hi]` written in decimal and joined by spaces read back as the
/// integers.
proof fn lemma_integers_read_back(xs: Seq<int>, lo: int, hi: int)
    requires
        lo <= 0,
        forall|k: int| 0 <= k < xs.len() ==> lo <= #[trigger] xs[k] <= hi,
    ensures
        integer_words(join_words(xs.map_values(|x: int| signed_decimal(x))), lo, hi) == Ok::<
            Seq<int>,
            Seq<char>,
        >(xs),
{
    let ws = xs.map_values(|x: int| signed_decimal(x));
    assert forall|k: int| 0 <= k < ws.len() implies is_plain_word(#[trigger] ws[k]) by {
        lemma_signed_decimal_word(xs[k]);
    }
    lemma_words_of_join(ws);
    let f = |w: Seq<char>| int_word(w, lo, hi);
    assert forall|k: int| 0 <= k < ws.len() implies f(#[trigger] ws[k]) == Ok::<int, Seq<char>>(
        xs[k],
    ) by {
        lemma_parse_signed_decimal(xs[k], lo, hi);
    }
    lemma_parse_words_ok(ws, f, 0, seq![], xs);
    assert(Seq::<int>::empty() + xs.subrange(0, xs.len() as int) =~= xs);
}

/// `v` holds values that a variable of type `t` takes and that its literal writes
/// as words of their own: integers and Booleans of their type (`Int64` values also
/// of an Enumeration, Boolean values also of a Clock), floating-point values kept
/// as floating-point literals without white space, strings that are not empty and
/// hold no white space, and binary values of at least one byte.
pub open spec fn holds_values(t: VariableType, v: VariableValue) -> bool {
    match v {
        VariableValue::Float32(xs) => t is Float32 && forall|k: int|
            0 <= k < xs.len() ==> is_float_literal(#[trigger] xs[k]@) && is_plain_word(xs[k]@),
        VariableValue::Float64(xs) => t is Float64 && forall|k: int|
            0 <= k < xs.len() ==> is_float_literal(#[trigger] xs[k]@) && is_plain_word(xs[k]@),
        VariableValue::Int8(_) => t is Int8,
        VariableValue::UInt8(_) => t is UInt8,
        VariableValue::Int16(_) => t is Int16,
        VariableValue::UInt16(_) => t is UInt16,
        VariableValue::Int32(_) => t is Int32,
        VariableValue::UInt32(_) => t is UInt32,
        VariableValue::Int64(_) => t is Int64 || t is Enumeration,
        VariableValue::UInt64(_) => t is UInt64,
        VariableValue::Boolean(_) => t is Boolean || t is Clock,
        VariableValue::String(xs) => t is String && forall|k: int|
            0 <= k < xs.len() ==> is_plain_word(#[trigger] xs[k]@),
        VariableValue::Binary(xs) => t is Binary && forall|k: int|
            0 <= k < xs.len() ==> (#[trigger] xs[k])@.len() > 0,
    }
}

/// Reading the literal that `to_literal` writes for a value, with the type of a
/// variable that holds it, gives the value back.
pub proof fn lemma_literal_reads_back(t: VariableType, v: VariableValue)
    requires
        holds_values(t, v),
    ensures
        value_error(t, join_words(v.value_words())) is None,
        value_of(t, join_words(v.value_words()), v),
{
    let ws = v.value_words();
    match v {
        VariableValue::Float32(xs) => {
            lemma_float_words_read_back(xs@);
        },
        VariableValue::Float64(xs) => {
            lemma_float_words_read_back(xs@);
        },
        VariableValue::Int8(xs) => {
            let ns = xs@.map_values(|x: i8| x as int);
            assert(ws =~= ns.map_values(|x: int| signed_decimal(x)));
            lemma_integers_read_back(ns, i8::MIN as int, i8::MAX as int);
        },
        VariableValue::UInt8(xs) => {
            let ns = xs@.map_values(|x: u8| x as int);
            assert(ws =~= ns.map_values(|x: int| signed_decimal(x)));
            lemma_integers_read_back(ns, 0, u8::MAX as int);
        },
        VariableValue::Int16(xs) => {
            let ns = xs@.map_values(|x: i16| x as int);
            assert(ws =~= ns.map_values(|x: int| signed_decimal(x)));
            lemma_integers_read_back(ns, i16::MIN as int, i16::MAX as int);
        },
        VariableValue::UInt16(xs) => {
            let ns = xs@.map_values(|x: u16| x as int);
            assert(ws =~= ns.map_values(|x: int| signed_decimal(x)));
            lemma_integers_read_back(ns, 0, u16::MAX as int);
        },
        VariableValue::Int32(xs) => {
            let ns = xs@.map_values(|x: i32| x as int);
            assert(ws =~= ns.map_values(|x: int| signed_decimal(x)));
            lemma_integers_read_back(ns, i32::MIN as int, i32::MAX as int);
        },
        VariableValue::UInt32(xs) => {
            let ns = xs@.map_values(|x: u32| x as int);
            assert(ws =~= ns.map_values(|x: int| signed_decimal(x)));
            lemma_integers_read_back(ns, 0, u32::MAX as int);
        },
        VariableValue::Int64(xs) => {
            let ns = xs@.map_values(|x: i64| x as int);
            assert(ws =~= ns.map_values(|x: int| signed_decimal(x)));
            lemma_integers_read_back(ns, i64::MIN as int, i64::MAX as int);
        },
        VariableValue::UInt64(xs) => {
            let ns = xs@.map_values(|x: u64| x as int);
            assert(ws =~= ns.map_values(|x: int| signed_decimal(x)));
            lemma_integers_read_back(ns, 0, u64::MAX as int);
        },
        VariableValue::Boolean(xs) => {
            reveal_strlit("true");
            reveal_strlit("false");
            assert forall|k: int| 0 <= k < ws.len() implies is_plain_word(#[trigger] ws[k]) by {
                assert(ws[k] == bool_text(xs@[k]));
            }
            lemma_words_of_join(ws);
            let f = |w: Seq<char>| bool_word(w);
            assert forall|k: int| 0 <= k < ws.len() implies f(#[trigger] ws[k]) == Ok::<
                bool,
                Seq<char>,
            >(xs@[k]) by {
                assert(ws[k] == bool_text(xs@[k]));
            }
            lemma_parse_words_ok(ws, f, 0, seq![], xs@);
            assert(Seq::<bool>::empty() + xs@.subrange(0, xs@.len() as int) =~= xs@);
        },
        VariableValue::String(xs) => {
            lemma_words_of_join(ws);
        },
        VariableValue::Binary(xs) => {
            let bs = xs@.map_values(|x: Vec<u8>| x@);
            assert forall|k: int| 0 <= k < ws.len() implies is_plain_word(#[trigger] ws[k]) by {
                lemma_hex_reads_back(xs@[k]@);
            }
            lemma_words_of_join(ws);
            let f = |w: Seq<char>| hex_bytes(w);
            assert forall|k: int| 0 <= k < ws.len() implies f(#[trigger] ws[k]) == Ok::<
                Seq<u8>,
                Seq<char>,
            >(bs[k]) by {
                lemma_hex_reads_back(xs@[k]@);
            }
            lemma_parse_words_ok(ws, f, 0, seq![], bs);
            assert(Seq::<Seq<u8>>::empty() + bs.subrange(0, bs.len() as int) =~= bs);
        },
    }
}

proof fn lemma_float_words_read_back(xs: Seq<String>)
    requires
        forall|k: int|
            0 <= k < xs.len() ==> is_float_literal(#[trigger] xs[k]@) && is_plain_word(xs[k]@),
    ensures
        literal_words(join_words(xs.map_values(|x: String| x@))) == Ok::<
            Seq<Seq<char>>,
            Seq<char>,
        >(xs.map_values(|x: String| x@)),
{
    let ws = xs.map_values(|x: String| x@);
    assert forall|k: int| 0 <= k < ws.len() implies is_plain_word(#[trigger] ws[k]) by {
        assert(ws[k] == xs[k]@);
    }
    lemma_words_of_join(ws);
    let f = |w: Seq<char>| float_word(w);
    assert forall|k: int| 0 <= k < ws.len() implies f(#[trigger] ws[k]) == Ok::<
        Seq<char>,
        Seq<char>,
    >(ws[k]) by {
        assert(ws[k] == xs[k]@);
    }
    lemma_parse_words_ok(ws, f, 0, seq![], ws);
    assert(Seq::<Seq<char>>::empty() + ws.subrange(0, ws.len() as int) =~= ws);
}

// ---------------------------------------------------------------------------
// Start values that name no variable
// ---------------------------------------------------------------------------
/// The names of the variables `vars`.
pub open spec fn variable_names(vars: Seq<ModelVariable>) -> Seq<Seq<char>> {
    vars.map_values(|v: ModelVariable| v.name@)
}

fn has_variable_named(vars: &Vec<ModelVariable>, name: &String) -> (res: bool)
    ensures
        res == variable_names(vars@).contains(name@),
{
    let mut k: usize = 0;
    while k < vars.len()
        invariant
            k <= vars@.len(),
            forall|j: int| 0 <= j < k ==> vars@[j].name@ != name@,
        decreases vars.len() - k,
    {
        if vars[k].name == *name {
            assert(variable_names(vars@)[k as int] == name@);
            return true;
        }
        k = k + 1;
    }
    proof {
        if variable_names(vars@).contains(name@) {
            let j = choose|j: int| 0 <= j < variable_names(vars@).len() && variable_names(vars@)[j] == name@;
            assert(vars@[j].name@ == name@);
        }
    }
    false
}

/// Checks that each start value (a variable name and a literal) names a variable
/// of the model: else the message that lists, quoted and in order, the names that
/// name none.
pub fn check_start_value_names(start_values: &Vec<(String, String)>, md: &ModelDescription) -> (res: Result<(), String>)
    ensures
        match res {
            Ok(_) => missing_names(start_values@, variable_names(md.modelVariables@)).len() == 0,
            Err(m) => missing_names(start_values@, variable_names(md.modelVariables@)).len() > 0
                && m@ == missing_start_values_message(
                missing_names(start_values@, variable_names(md.modelVariables@)),
            ),
        },
{
    let ghost names = variable_names(md.modelVariables@);
    let mut list = String::new();
    let mut any = false;
    let mut i: usize = 0;
    while i < start_values.len()
        invariant
            i <= start_values@.len(),
            names == variable_names(md.modelVariables@),
            any <==> missing_names(start_values@.take(i as int), names).len() > 0,
            list@ == quoted_names(missing_names(start_values@.take(i as int), names)),
        decreases start_values.len() - i,
    {
        proof {
            assert(start_values@.take(i + 1).drop_last() =~= start_values@.take(i as int));
        }
        if !has_variable_named(&md.modelVariables, &start_values[i].0) {
            push_quoted(
                &mut list,
                start_values[i].0.as_str(),
                !any,
                Ghost(missing_names(start_values@.take(i as int), names)),
            );
            any = true;
        }
        i = i + 1;
    }
    proof {
        assert(start_values@.take(start_values@.len() as int) =~= start_values@);
    }
    if any {
        Err(missing_message(list.as_str()))
    } else {
        Ok(())
    }
}

} // verus!
