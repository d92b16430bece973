//! Reading an FMI 3.0 model description from its XML tree.
#![allow(non_snake_case)]

use vstd::prelude::*;

use crate::model_description::as_i32;
use vstd::string::*;

use crate::model_description::fmi2::file::{
    as_u32, attribute_is_true, bool_error, bool_message, categories_error, categories_of, is_true,
    parse_index_list, read_categories,
    parse_index_words, required_u32, spec_required_u32, u32_attribute, u32_or_default, u32_or_zero,
};
use crate::model_description::fmi3::{
    Causality, CoSimulation, DefaultExperiment, DependencyKind, Dimension, Initial,
    IntervalVariability, Item, ModelDescription, ModelExchange, ModelVariable, ScheduledExecution,
    TypeDefinition, Unknown, Variability, VariableNamingConvention, VariableType,
};
use crate::model_description::{
    bool_or_default, bool_or_false, error_of, first_error, float_or, float_or_default,
    i32_or_zero, int_or_zero, unit_error, unit_of, Unit,
};
use crate::text::{
    chars_of, owned, parse_i64, parse_integer, parse_u32, parse_usize, push_str,
    split_white_space, string_from_chars, words,
};
use crate::xml::{
    first_descendant, illegal_value_message, missing_attribute_in_message, missing_attribute_message,
    missing_element_message, parse_xml, xml_document, XmlElement, XmlNode,
};

verus! {

// ---------------------------------------------------------------------------
// Typed attributes
// ---------------------------------------------------------------------------
/// The value of an optional integer attribute, `None` where it is absent or refused.
pub open spec fn opt_int(n: XmlElement, name: Seq<char>, min: int, max: int) -> Option<int> {
    match n.spec_integer_attribute(name, min, max) {
        Ok(v) => v,
        Err(_) => None,
    }
}

/// The literal of an optional floating-point attribute, `None` where it is absent or
/// refused.
pub open spec fn opt_float(n: XmlElement, name: Seq<char>) -> Option<String> {
    match n.spec_float_attribute(name) {
        Ok(v) => v,
        Err(_) => None,
    }
}

/// The value of an optional boolean attribute, `None` where it is absent or refused.
pub open spec fn opt_bool(n: XmlElement, name: Seq<char>) -> Option<bool> {
    match n.spec_bool_attribute(name) {
        Ok(v) => v,
        Err(_) => None,
    }
}

/// The error of an optional integer attribute, if any.
pub open spec fn int_message(n: XmlElement, name: Seq<char>, min: int, max: int) -> Option<Seq<char>> {
    error_of(n.spec_integer_attribute(name, min, max))
}

/// The error of an optional floating-point attribute, if any.
pub open spec fn float_message(n: XmlElement, name: Seq<char>) -> Option<Seq<char>> {
    error_of(n.spec_float_attribute(name))
}

/// An optional `i8` attribute read as an integer.
pub open spec fn as_i8(v: Option<int>) -> Option<i8> {
    match v {
        Some(x) => Some(x as i8),
        None => None,
    }
}

/// Reads an optional `i8` attribute.
pub fn i8_attribute(node: &XmlElement, name: &str) -> (res: Result<Option<i8>, String>)
    ensures
        match res {
            Ok(v) => node.spec_integer_attribute(name@, i8::MIN as int, i8::MAX as int) matches Ok(w) && v
                == as_i8(w),
            Err(m) => node.spec_integer_attribute(name@, i8::MIN as int, i8::MAX as int) == Err::<
                Option<int>,
                Seq<char>,
            >(m@),
        },
{
    match node.attribute_as_integer(name, i8::MIN as i64, i8::MAX as u64) {
        Ok(Some(v)) => Ok(Some(v as i8)),
        Ok(None) => Ok(None),
        Err(m) => Err(m),
    }
}

/// An optional `u8` attribute read as an integer.
pub open spec fn as_u8(v: Option<int>) -> Option<u8> {
    match v {
        Some(x) => Some(x as u8),
        None => None,
    }
}

/// Reads an optional `u8` attribute.
pub fn u8_attribute(node: &XmlElement, name: &str) -> (res: Result<Option<u8>, String>)
    ensures
        match res {
            Ok(v) => node.spec_integer_attribute(name@, 0, u8::MAX as int) matches Ok(w) && v
                == as_u8(w),
            Err(m) => node.spec_integer_attribute(name@, 0, u8::MAX as int) == Err::<
                Option<int>,
                Seq<char>,
            >(m@),
        },
{
    match node.attribute_as_integer(name, 0, u8::MAX as u64) {
        Ok(Some(v)) => Ok(Some(v as u8)),
        Ok(None) => Ok(None),
        Err(m) => Err(m),
    }
}

/// An optional `i16` attribute read as an integer.
pub open spec fn as_i16(v: Option<int>) -> Option<i16> {
    match v {
        Some(x) => Some(x as i16),
        None => None,
    }
}

/// Reads an optional `i16` attribute.
pub fn i16_attribute(node: &XmlElement, name: &str) -> (res: Result<Option<i16>, String>)
    ensures
        match res {
            Ok(v) => node.spec_integer_attribute(name@, i16::MIN as int, i16::MAX as int) matches Ok(w) && v
                == as_i16(w),
            Err(m) => node.spec_integer_attribute(name@, i16::MIN as int, i16::MAX as int) == Err::<
                Option<int>,
                Seq<char>,
            >(m@),
        },
{
    match node.attribute_as_integer(name, i16::MIN as i64, i16::MAX as u64) {
        Ok(Some(v)) => Ok(Some(v as i16)),
        Ok(None) => Ok(None),
        Err(m) => Err(m),
    }
}

/// An optional `u16` attribute read as an integer.
pub open spec fn as_u16(v: Option<int>) -> Option<u16> {
    match v {
        Some(x) => Some(x as u16),
        None => None,
    }
}

/// Reads an optional `u16` attribute.
pub fn u16_attribute(node: &XmlElement, name: &str) -> (res: Result<Option<u16>, String>)
    ensures
        match res {
            Ok(v) => node.spec_integer_attribute(name@, 0, u16::MAX as int) matches Ok(w) && v
                == as_u16(w),
            Err(m) => node.spec_integer_attribute(name@, 0, u16::MAX as int) == Err::<
                Option<int>,
                Seq<char>,
            >(m@),
        },
{
    match node.attribute_as_integer(name, 0, u16::MAX as u64) {
        Ok(Some(v)) => Ok(Some(v as u16)),
        Ok(None) => Ok(None),
        Err(m) => Err(m),
    }
}

/// Reads an optional `i32` attribute.
pub fn i32_attribute(node: &XmlElement, name: &str) -> (res: Result<Option<i32>, String>)
    ensures
        match res {
            Ok(v) => node.spec_integer_attribute(name@, i32::MIN as int, i32::MAX as int) matches Ok(w) && v
                == as_i32(w),
            Err(m) => node.spec_integer_attribute(name@, i32::MIN as int, i32::MAX as int) == Err::<
                Option<int>,
                Seq<char>,
            >(m@),
        },
{
    match node.attribute_as_integer(name, i32::MIN as i64, i32::MAX as u64) {
        Ok(Some(v)) => Ok(Some(v as i32)),
        Ok(None) => Ok(None),
        Err(m) => Err(m),
    }
}

/// An optional `i64` attribute read as an integer.
pub open spec fn as_i64(v: Option<int>) -> Option<i64> {
    match v {
        Some(x) => Some(x as i64),
        None => None,
    }
}

/// Reads an optional `i64` attribute.
pub fn i64_attribute(node: &XmlElement, name: &str) -> (res: Result<Option<i64>, String>)
    ensures
        match res {
            Ok(v) => node.spec_integer_attribute(name@, i64::MIN as int, i64::MAX as int) matches Ok(w) && v
                == as_i64(w),
            Err(m) => node.spec_integer_attribute(name@, i64::MIN as int, i64::MAX as int) == Err::<
                Option<int>,
                Seq<char>,
            >(m@),
        },
{
    match node.attribute_as_integer(name, i64::MIN, i64::MAX as u64) {
        Ok(Some(v)) => Ok(Some(v as i64)),
        Ok(None) => Ok(None),
        Err(m) => Err(m),
    }
}

/// An optional `u64` attribute read as an integer.
pub open spec fn as_u64(v: Option<int>) -> Option<u64> {
    match v {
        Some(x) => Some(x as u64),
        None => None,
    }
}

/// Reads an optional `u64` attribute.
pub fn u64_attribute(node: &XmlElement, name: &str) -> (res: Result<Option<u64>, String>)
    ensures
        match res {
            Ok(v) => node.spec_integer_attribute(name@, 0, u64::MAX as int) matches Ok(w) && v
                == as_u64(w),
            Err(m) => node.spec_integer_attribute(name@, 0, u64::MAX as int) == Err::<
                Option<int>,
                Seq<char>,
            >(m@),
        },
{
    match node.attribute_as_integer(name, 0, u64::MAX) {
        Ok(Some(v)) => Ok(Some(v as u64)),
        Ok(None) => Ok(None),
        Err(m) => Err(m),
    }
}

/// The value of an optional `u64` attribute, `0` where it is absent.
pub open spec fn u64_or_zero(n: XmlElement, name: Seq<char>) -> u64 {
    match n.spec_integer_attribute(name, 0, u64::MAX as int) {
        Ok(Some(v)) => v as u64,
        _ => 0,
    }
}

/// Reads an optional `u64` attribute, `0` where it is absent.
pub fn u64_or_default(node: &XmlElement, name: &str) -> (res: Result<u64, String>)
    ensures
        match res {
            Ok(v) => node.spec_integer_attribute(name@, 0, u64::MAX as int) is Ok && v == u64_or_zero(
                *node,
                name@,
            ),
            Err(m) => node.spec_integer_attribute(name@, 0, u64::MAX as int) == Err::<
                Option<int>,
                Seq<char>,
            >(m@),
        },
{
    match u64_attribute(node, name)? {
        Some(v) => Ok(v),
        None => Ok(0),
    }
}

/// Reads an optional boolean attribute.
pub fn bool_attribute(node: &XmlElement, name: &str) -> (res: Result<Option<bool>, String>)
    ensures
        match res {
            Ok(v) => node.spec_bool_attribute(name@) == Ok::<Option<bool>, Seq<char>>(v),
            Err(m) => node.spec_bool_attribute(name@) == Err::<Option<bool>, Seq<char>>(m@),
        },
{
    node.attribute_as_bool(name)
}

// ---------------------------------------------------------------------------
// Binary values
// ---------------------------------------------------------------------------
/// The value of a hexadecimal digit.
pub open spec fn hex_digit_value(c: char) -> Option<int> {
    if '0' <= c && c <= '9' {
        Some(c as int - '0' as int)
    } else if 'a' <= c && c <= 'f' {
        Some(c as int - 'a' as int + 10)
    } else if 'A' <= c && c <= 'F' {
        Some(c as int - 'A' as int + 10)
    } else {
        None
    }
}

/// The byte that two characters give as `u8::from_str_radix(.., 16)` reads them:
/// two hexadecimal digits, or `+` and one digit.
pub open spec fn hex_pair(c0: char, c1: char) -> Option<u8> {
    if c0 == '+' {
        match hex_digit_value(c1) {
            Some(v) => Some(v as u8),
            None => None,
        }
    } else {
        match (hex_digit_value(c0), hex_digit_value(c1)) {
            (Some(a), Some(b)) => Some((a * 16 + b) as u8),
            _ => None,
        }
    }
}

/// Whether a character is ASCII.
pub open spec fn is_ascii_char(c: char) -> bool {
    c <= '\u{7f}'
}

/// `"Invalid hex byte '{text}': invalid digit found in string"`
pub open spec fn invalid_hex_byte(text: Seq<char>) -> Seq<char> {
    "Invalid hex byte '"@ + text + "': invalid digit found in string"@
}

/// Reads the characters `cs[k..]` two at a time, after the bytes `acc`. The value is
/// cut at every second byte of its UTF-8 encoding: where all characters before are
/// ASCII, byte and character positions agree, and a non-ASCII character at such a
/// position is read alone (and refused).
pub open spec fn hex_bytes_from(cs: Seq<char>, k: nat, acc: Seq<u8>) -> Result<Seq<u8>, Seq<char>>
    decreases cs.len() - k,
{
    if k >= cs.len() {
        Ok(acc)
    } else if !is_ascii_char(cs[k as int]) || k + 1 >= cs.len() {
        Err(invalid_hex_byte(seq![cs[k as int]]))
    } else {
        match hex_pair(cs[k as int], cs[k + 1 as int]) {
            Some(b) => if is_ascii_char(cs[k + 1 as int]) {
                hex_bytes_from(cs, k + 2, acc.push(b))
            } else {
                Err(invalid_hex_byte(seq![cs[k as int], cs[k + 1 as int]]))
            },
            None => Err(invalid_hex_byte(seq![cs[k as int], cs[k + 1 as int]])),
        }
    }
}

/// The bytes that the hexadecimal text `s` gives: an odd number of bytes in its
/// UTF-8 encoding is refused, then the text is read two characters at a time.
pub open spec fn hex_bytes(s: Seq<char>) -> Result<Seq<u8>, Seq<char>> {
    if vstd::utf8::encode_utf8(s).len() % 2 != 0 {
        Err("Invalid hex string length: "@ + s)
    } else {
        hex_bytes_from(s, 0, seq![])
    }
}

fn hex_digit(c: char) -> (res: Option<u8>)
    ensures
        match res {
            Some(v) => hex_digit_value(c) == Some(v as int) && v < 16,
            None => hex_digit_value(c) is None,
        },
{
    if '0' <= c && c <= '9' {
        Some(((c as u32) - ('0' as u32)) as u8)
    } else if 'a' <= c && c <= 'f' {
        Some(((c as u32) - ('a' as u32) + 10) as u8)
    } else if 'A' <= c && c <= 'F' {
        Some(((c as u32) - ('A' as u32) + 10) as u8)
    } else {
        None
    }
}

fn hex_pair_of(c0: char, c1: char) -> (res: Option<u8>)
    ensures
        res == hex_pair(c0, c1),
{
    if c0 == '+' {
        hex_digit(c1)
    } else {
        match (hex_digit(c0), hex_digit(c1)) {
            (Some(a), Some(b)) => Some(a * 16 + b),
            _ => None,
        }
    }
}

/// The message for the characters `cs` that are no hexadecimal byte.
fn invalid_hex(cs: &[char]) -> (res: String)
    ensures
        res@ == invalid_hex_byte(cs@),
{
    let mut m = owned("Invalid hex byte '");
    let text = string_from_chars(cs);
    push_str(&mut m, text.as_str());
    push_str(&mut m, "': invalid digit found in string");
    m
}

/// Reads a binary value written as hexadecimal text.
pub fn parse_hex(s: &str) -> (res: Result<Vec<u8>, String>)
    ensures
        match res {
            Ok(v) => hex_bytes(s@) == Ok::<Seq<u8>, Seq<char>>(v@),
            Err(m) => hex_bytes(s@) == Err::<Seq<u8>, Seq<char>>(m@),
        },
{
    let bytes = s.as_bytes();
    if bytes.len() % 2 != 0 {
        let mut m = owned("Invalid hex string length: ");
        push_str(&mut m, s);
        return Err(m);
    }
    let cs = chars_of(s);
    let mut out: Vec<u8> = Vec::new();
    let mut k: usize = 0;
    while k < cs.len()
        invariant
            k <= cs@.len(),
            cs@ == s@,
            vstd::utf8::encode_utf8(s@).len() % 2 == 0,
            hex_bytes_from(cs@, k as nat, out@) == hex_bytes(s@),
        decreases cs.len() - k,
    {
        let c0 = cs[k];
        if !(c0 <= '\u{7f}') || k + 1 >= cs.len() {
            let one = vec![c0];
            assert(one@ =~= seq![cs@[k as int]]);
            assert(hex_bytes_from(cs@, k as nat, out@) == Err::<Seq<u8>, Seq<char>>(
                invalid_hex_byte(seq![cs@[k as int]]),
            ));
            return Err(invalid_hex(one.as_slice()));
        }
        let c1 = cs[k + 1];
        match hex_pair_of(c0, c1) {
            Some(b) => {
                if c1 <= '\u{7f}' {
                    out.push(b);
                    k = k + 2;
                } else {
                    let two = vec![c0, c1];
                    return Err(invalid_hex(two.as_slice()));
                }
            },
            None => {
                let two = vec![c0, c1];
                return Err(invalid_hex(two.as_slice()));
            },
        }
    }
    Ok(out)
}

// ---------------------------------------------------------------------------
// Variable types
// ---------------------------------------------------------------------------
/// The kind of variable that an element of `<ModelVariables>` declares by its tag.
#[derive(Debug, PartialEq, Eq, Structural, Clone, Copy)]
pub enum VariableKind {
    Float32,
    Float64,
    Int8,
    UInt8,
    Int16,
    UInt16,
    Int32,
    UInt32,
    Int64,
    UInt64,
    Boolean,
    String,
    Binary,
    Clock,
    Enumeration,
    Other,
}

/// The kind of variable that the tag `tag` declares.
pub open spec fn variable_kind(tag: Seq<char>) -> VariableKind {
    if tag == "Float32"@ {
        VariableKind::Float32
    } else if tag == "Float64"@ {
        VariableKind::Float64
    } else if tag == "Int8"@ {
        VariableKind::Int8
    } else if tag == "UInt8"@ {
        VariableKind::UInt8
    } else if tag == "Int16"@ {
        VariableKind::Int16
    } else if tag == "UInt16"@ {
        VariableKind::UInt16
    } else if tag == "Int32"@ {
        VariableKind::Int32
    } else if tag == "UInt32"@ {
        VariableKind::UInt32
    } else if tag == "Int64"@ {
        VariableKind::Int64
    } else if tag == "UInt64"@ {
        VariableKind::UInt64
    } else if tag == "Boolean"@ {
        VariableKind::Boolean
    } else if tag == "String"@ {
        VariableKind::String
    } else if tag == "Binary"@ {
        VariableKind::Binary
    } else if tag == "Clock"@ {
        VariableKind::Clock
    } else if tag == "Enumeration"@ {
        VariableKind::Enumeration
    } else {
        VariableKind::Other
    }
}

/// The first error among `intermediateUpdate` and `previous`.
pub open spec fn arrayable_error(n: XmlElement) -> Option<Seq<char>> {
    if bool_error(n, "intermediateUpdate"@) {
        bool_message(n, "intermediateUpdate"@)
    } else {
        int_message(n, "previous"@, 0, u32::MAX as int)
    }
}

/// The first error in reading a Float32 or Float64 variable.
pub open spec fn float_variable_error(n: XmlElement) -> Option<Seq<char>> {
    if bool_error(n, "intermediateUpdate"@) {
        bool_message(n, "intermediateUpdate"@)
    } else if int_message(n, "previous"@, 0, u32::MAX as int) is Some {
        int_message(n, "previous"@, 0, u32::MAX as int)
    } else if float_message(n, "min"@) is Some {
        float_message(n, "min"@)
    } else if float_message(n, "max"@) is Some {
        float_message(n, "max"@)
    } else if float_message(n, "nominal"@) is Some {
        float_message(n, "nominal"@)
    } else if float_message(n, "start"@) is Some {
        float_message(n, "start"@)
    } else {
        int_message(n, "derivative"@, 0, u32::MAX as int)
    }
}

/// The first error in reading an integer variable whose values are `[lo, hi]`.
pub open spec fn int_variable_error(n: XmlElement, lo: int, hi: int) -> Option<Seq<char>> {
    if int_message(n, "start"@, lo, hi) is Some {
        int_message(n, "start"@, lo, hi)
    } else if bool_error(n, "intermediateUpdate"@) {
        bool_message(n, "intermediateUpdate"@)
    } else if int_message(n, "previous"@, 0, u32::MAX as int) is Some {
        int_message(n, "previous"@, 0, u32::MAX as int)
    } else if int_message(n, "min"@, lo, hi) is Some {
        int_message(n, "min"@, lo, hi)
    } else {
        int_message(n, "max"@, lo, hi)
    }
}

/// The error of a `<Start>` element of a String variable, if any.
pub open spec fn string_start_error(s: XmlElement) -> Option<Seq<char>> {
    if s.spec_attribute("value"@) is None {
        Some(missing_attribute_in_message(s, "value"@))
    } else {
        None
    }
}

/// The error of a `<Start>` element of a Binary variable, if any.
pub open spec fn binary_start_error(s: XmlElement) -> Option<Seq<char>> {
    match s.spec_attribute("value"@) {
        None => Some(missing_attribute_message("value"@)),
        Some(v) => error_of(hex_bytes(v@)),
    }
}

/// `bytes` is the value of the `<Start>` element `s` of a Binary variable.
pub open spec fn binary_start_of(s: XmlElement, bytes: Seq<u8>) -> bool {
    s.spec_attribute("value"@) matches Some(v) && hex_bytes(v@) == Ok::<Seq<u8>, Seq<char>>(bytes)
}

/// The interval variability that a clock element names.
pub open spec fn spec_interval_variability(n: XmlElement) -> Result<IntervalVariability, Seq<char>> {
    match n.spec_attribute("intervalVariability"@) {
        None => Err(missing_attribute_message("intervalVariability"@)),
        Some(v) => match IntervalVariability::spec_from_name(v@) {
            Some(iv) => Ok(iv),
            None => Err("Unknown interval variability: "@ + v@),
        },
    }
}

/// The first error in reading a Clock variable.
pub open spec fn clock_variable_error(n: XmlElement) -> Option<Seq<char>> {
    if bool_error(n, "intermediateUpdate"@) {
        bool_message(n, "intermediateUpdate"@)
    } else if bool_error(n, "canBeDeactivated"@) {
        bool_message(n, "canBeDeactivated"@)
    } else if int_message(n, "priority"@, 0, u32::MAX as int) is Some {
        int_message(n, "priority"@, 0, u32::MAX as int)
    } else if spec_interval_variability(n) is Err {
        error_of(spec_interval_variability(n))
    } else if float_message(n, "intervalDecimal"@) is Some {
        float_message(n, "intervalDecimal"@)
    } else if float_message(n, "shiftDecimal"@) is Some {
        float_message(n, "shiftDecimal"@)
    } else if bool_error(n, "supportsFraction"@) {
        bool_message(n, "supportsFraction"@)
    } else if int_message(n, "resolution"@, 0, u64::MAX as int) is Some {
        int_message(n, "resolution"@, 0, u64::MAX as int)
    } else if int_message(n, "intervalCounter"@, 0, u64::MAX as int) is Some {
        int_message(n, "intervalCounter"@, 0, u64::MAX as int)
    } else {
        int_message(n, "shiftCounter"@, 0, u64::MAX as int)
    }
}

/// The first error in reading the variable type of the element `n`, which the tag
/// of `n` names.
pub open spec fn variable_type_error(n: XmlElement) -> Option<Seq<char>> {
    match variable_kind(n.name@) {
        VariableKind::Float32 | VariableKind::Float64 => float_variable_error(n),
        VariableKind::Int8 => int_variable_error(n, i8::MIN as int, i8::MAX as int),
        VariableKind::UInt8 => int_variable_error(n, 0, u8::MAX as int),
        VariableKind::Int16 => int_variable_error(n, i16::MIN as int, i16::MAX as int),
        VariableKind::UInt16 => int_variable_error(n, 0, u16::MAX as int),
        VariableKind::Int32 => int_variable_error(n, i32::MIN as int, i32::MAX as int),
        VariableKind::UInt32 => int_variable_error(n, 0, u32::MAX as int),
        VariableKind::Int64 => int_variable_error(n, i64::MIN as int, i64::MAX as int),
        VariableKind::UInt64 => int_variable_error(n, 0, u64::MAX as int),
        VariableKind::Boolean => if bool_error(n, "start"@) {
            bool_message(n, "start"@)
        } else {
            arrayable_error(n)
        },
        VariableKind::String => if first_error(
            n.spec_children("Start"@),
            |s: XmlElement| string_start_error(s),
            0,
        ) is Some {
            first_error(n.spec_children("Start"@), |s: XmlElement| string_start_error(s), 0)
        } else {
            arrayable_error(n)
        },
        VariableKind::Binary => if first_error(
            n.spec_children("Start"@),
            |s: XmlElement| binary_start_error(s),
            0,
        ) is Some {
            first_error(n.spec_children("Start"@), |s: XmlElement| binary_start_error(s), 0)
        } else {
            arrayable_error(n)
        },
        VariableKind::Clock => clock_variable_error(n),
        VariableKind::Enumeration => if int_message(
            n,
            "start"@,
            i64::MIN as int,
            i64::MAX as int,
        ) is Some {
            int_message(n, "start"@, i64::MIN as int, i64::MAX as int)
        } else if n.spec_attribute("declaredType"@) is None {
            Some(missing_attribute_message("declaredType"@))
        } else {
            arrayable_error(n)
        },
        VariableKind::Other => Some("Missing variable type element"@),
    }
}

/// The Float32 variable type that `n` describes.
pub open spec fn float32_type(n: XmlElement) -> VariableType {
    VariableType::Float32 {
        start: opt_float(n, "start"@),
        intermediateUpdate: bool_or_false(n, "intermediateUpdate"@),
        previous: as_u32(opt_int(n, "previous"@, 0, u32::MAX as int)),
        declaredType: n.spec_attribute("declaredType"@),
        quantity: n.spec_attribute("quantity"@),
        unit: n.spec_attribute("unit"@),
        displayUnit: n.spec_attribute("displayUnit"@),
        relativeQuantity: is_true(n, "relativeQuantity"@),
        unbounded: is_true(n, "unbounded"@),
        min: opt_float(n, "min"@),
        max: opt_float(n, "max"@),
        nominal: opt_float(n, "nominal"@),
        derivative: as_u32(opt_int(n, "derivative"@, 0, u32::MAX as int)),
        reinit: is_true(n, "reinit"@),
    }
}

/// The Float64 variable type that `n` describes.
pub open spec fn float64_type(n: XmlElement) -> VariableType {
    VariableType::Float64 {
        start: opt_float(n, "start"@),
        intermediateUpdate: bool_or_false(n, "intermediateUpdate"@),
        previous: as_u32(opt_int(n, "previous"@, 0, u32::MAX as int)),
        declaredType: n.spec_attribute("declaredType"@),
        quantity: n.spec_attribute("quantity"@),
        unit: n.spec_attribute("unit"@),
        displayUnit: n.spec_attribute("displayUnit"@),
        relativeQuantity: is_true(n, "relativeQuantity"@),
        unbounded: is_true(n, "unbounded"@),
        min: opt_float(n, "min"@),
        max: opt_float(n, "max"@),
        nominal: opt_float(n, "nominal"@),
        derivative: as_u32(opt_int(n, "derivative"@, 0, u32::MAX as int)),
        reinit: is_true(n, "reinit"@),
    }
}

/// The Int8 variable type that `n` describes.
pub open spec fn int8_type(n: XmlElement) -> VariableType {
    VariableType::Int8 {
        start: as_i8(opt_int(n, "start"@, i8::MIN as int, i8::MAX as int)),
        declaredType: n.spec_attribute("declaredType"@),
        intermediateUpdate: bool_or_false(n, "intermediateUpdate"@),
        previous: as_u32(opt_int(n, "previous"@, 0, u32::MAX as int)),
        quantity: n.spec_attribute("quantity"@),
        min: as_i8(opt_int(n, "min"@, i8::MIN as int, i8::MAX as int)),
        max: as_i8(opt_int(n, "max"@, i8::MIN as int, i8::MAX as int)),
    }
}

/// The UInt8 variable type that `n` describes.
pub open spec fn uint8_type(n: XmlElement) -> VariableType {
    VariableType::UInt8 {
        start: as_u8(opt_int(n, "start"@, 0, u8::MAX as int)),
        declaredType: n.spec_attribute("declaredType"@),
        intermediateUpdate: bool_or_false(n, "intermediateUpdate"@),
        previous: as_u32(opt_int(n, "previous"@, 0, u32::MAX as int)),
        quantity: n.spec_attribute("quantity"@),
        min: as_u8(opt_int(n, "min"@, 0, u8::MAX as int)),
        max: as_u8(opt_int(n, "max"@, 0, u8::MAX as int)),
    }
}

/// The Int16 variable type that `n` describes.
pub open spec fn int16_type(n: XmlElement) -> VariableType {
    VariableType::Int16 {
        start: as_i16(opt_int(n, "start"@, i16::MIN as int, i16::MAX as int)),
        declaredType: n.spec_attribute("declaredType"@),
        intermediateUpdate: bool_or_false(n, "intermediateUpdate"@),
        previous: as_u32(opt_int(n, "previous"@, 0, u32::MAX as int)),
        quantity: n.spec_attribute("quantity"@),
        min: as_i16(opt_int(n, "min"@, i16::MIN as int, i16::MAX as int)),
        max: as_i16(opt_int(n, "max"@, i16::MIN as int, i16::MAX as int)),
    }
}

/// The UInt16 variable type that `n` describes.
pub open spec fn uint16_type(n: XmlElement) -> VariableType {
    VariableType::UInt16 {
        start: as_u16(opt_int(n, "start"@, 0, u16::MAX as int)),
        declaredType: n.spec_attribute("declaredType"@),
        intermediateUpdate: bool_or_false(n, "intermediateUpdate"@),
        previous: as_u32(opt_int(n, "previous"@, 0, u32::MAX as int)),
        quantity: n.spec_attribute("quantity"@),
        min: as_u16(opt_int(n, "min"@, 0, u16::MAX as int)),
        max: as_u16(opt_int(n, "max"@, 0, u16::MAX as int)),
    }
}

/// The Int32 variable type that `n` describes.
pub open spec fn int32_type(n: XmlElement) -> VariableType {
    VariableType::Int32 {
        start: as_i32(opt_int(n, "start"@, i32::MIN as int, i32::MAX as int)),
        declaredType: n.spec_attribute("declaredType"@),
        intermediateUpdate: bool_or_false(n, "intermediateUpdate"@),
        previous: as_u32(opt_int(n, "previous"@, 0, u32::MAX as int)),
        quantity: n.spec_attribute("quantity"@),
        min: as_i32(opt_int(n, "min"@, i32::MIN as int, i32::MAX as int)),
        max: as_i32(opt_int(n, "max"@, i32::MIN as int, i32::MAX as int)),
    }
}

/// The UInt32 variable type that `n` describes.
pub open spec fn uint32_type(n: XmlElement) -> VariableType {
    VariableType::UInt32 {
        start: as_u32(opt_int(n, "start"@, 0, u32::MAX as int)),
        declaredType: n.spec_attribute("declaredType"@),
        intermediateUpdate: bool_or_false(n, "intermediateUpdate"@),
        previous: as_u32(opt_int(n, "previous"@, 0, u32::MAX as int)),
        quantity: n.spec_attribute("quantity"@),
        min: as_u32(opt_int(n, "min"@, 0, u32::MAX as int)),
        max: as_u32(opt_int(n, "max"@, 0, u32::MAX as int)),
    }
}

/// The Int64 variable type that `n` describes.
pub open spec fn int64_type(n: XmlElement) -> VariableType {
    VariableType::Int64 {
        start: as_i64(opt_int(n, "start"@, i64::MIN as int, i64::MAX as int)),
        declaredType: n.spec_attribute("declaredType"@),
        intermediateUpdate: bool_or_false(n, "intermediateUpdate"@),
        previous: as_u32(opt_int(n, "previous"@, 0, u32::MAX as int)),
        quantity: n.spec_attribute("quantity"@),
        min: as_i64(opt_int(n, "min"@, i64::MIN as int, i64::MAX as int)),
        max: as_i64(opt_int(n, "max"@, i64::MIN as int, i64::MAX as int)),
    }
}

/// The UInt64 variable type that `n` describes.
pub open spec fn uint64_type(n: XmlElement) -> VariableType {
    VariableType::UInt64 {
        start: as_u64(opt_int(n, "start"@, 0, u64::MAX as int)),
        declaredType: n.spec_attribute("declaredType"@),
        intermediateUpdate: bool_or_false(n, "intermediateUpdate"@),
        previous: as_u32(opt_int(n, "previous"@, 0, u32::MAX as int)),
        quantity: n.spec_attribute("quantity"@),
        min: as_u64(opt_int(n, "min"@, 0, u64::MAX as int)),
        max: as_u64(opt_int(n, "max"@, 0, u64::MAX as int)),
    }
}

/// `t` is the variable type that the element `n` describes.
pub open spec fn variable_type_of(n: XmlElement, t: VariableType) -> bool {
    match variable_kind(n.name@) {
        VariableKind::Float32 => t == float32_type(n),
        VariableKind::Float64 => t == float64_type(n),
        VariableKind::Int8 => t == int8_type(n),
        VariableKind::UInt8 => t == uint8_type(n),
        VariableKind::Int16 => t == int16_type(n),
        VariableKind::UInt16 => t == uint16_type(n),
        VariableKind::Int32 => t == int32_type(n),
        VariableKind::UInt32 => t == uint32_type(n),
        VariableKind::Int64 => t == int64_type(n),
        VariableKind::UInt64 => t == uint64_type(n),
        VariableKind::Boolean => t == VariableType::Boolean {
            start: opt_bool(n, "start"@),
            declaredType: n.spec_attribute("declaredType"@),
            intermediateUpdate: bool_or_false(n, "intermediateUpdate"@),
            previous: as_u32(opt_int(n, "previous"@, 0, u32::MAX as int)),
        },
        VariableKind::String => t matches VariableType::String {
            start,
            declaredType,
            intermediateUpdate,
            previous,
        } && start@.len() == n.spec_children("Start"@).len() && (forall|k: int|
            0 <= k < start@.len() ==> n.spec_children("Start"@)[k].spec_attribute("value"@)
                == Some(#[trigger] start@[k])) && declaredType == n.spec_attribute("declaredType"@)
            && intermediateUpdate == bool_or_false(n, "intermediateUpdate"@) && previous == as_u32(
            opt_int(n, "previous"@, 0, u32::MAX as int),
        ),
        VariableKind::Binary => t matches VariableType::Binary {
            start,
            declaredType,
            intermediateUpdate,
            previous,
        } && start@.len() == n.spec_children("Start"@).len() && (forall|k: int|
            0 <= k < start@.len() ==> binary_start_of(
                n.spec_children("Start"@)[k],
                (#[trigger] start@[k])@,
            ))
            && declaredType == n.spec_attribute("declaredType"@) && intermediateUpdate
            == bool_or_false(n, "intermediateUpdate"@) && previous == as_u32(
            opt_int(n, "previous"@, 0, u32::MAX as int),
        ),
        VariableKind::Clock => t matches VariableType::Clock {
            declaredType,
            intermediateUpdate,
            canBeDeactivated,
            priority,
            intervalVariability,
            intervalDecimal,
            shiftDecimal,
            supportsFraction,
            resolution,
            intervalCounter,
            shiftCounter,
        } && declaredType == n.spec_attribute("declaredType"@) && intermediateUpdate
            == bool_or_false(n, "intermediateUpdate"@) && canBeDeactivated == bool_or_false(
            n,
            "canBeDeactivated"@,
        ) && priority == as_u32(opt_int(n, "priority"@, 0, u32::MAX as int))
            && spec_interval_variability(n) == Ok::<IntervalVariability, Seq<char>>(
            intervalVariability,
        ) && intervalDecimal == opt_float(n, "intervalDecimal"@) && shiftDecimal@ == float_or(
            n,
            "shiftDecimal"@,
            "0.0"@,
        ) && supportsFraction == bool_or_false(n, "supportsFraction"@) && resolution == as_u64(
            opt_int(n, "resolution"@, 0, u64::MAX as int),
        ) && intervalCounter == as_u64(opt_int(n, "intervalCounter"@, 0, u64::MAX as int))
            && shiftCounter == u64_or_zero(n, "shiftCounter"@),
        VariableKind::Enumeration => t matches VariableType::Enumeration {
            start,
            declaredType,
            intermediateUpdate,
            previous,
        } && start == as_i64(opt_int(n, "start"@, i64::MIN as int, i64::MAX as int))
            && n.spec_attribute("declaredType"@) == Some(declaredType) && intermediateUpdate
            == bool_or_false(n, "intermediateUpdate"@) && previous == as_u32(
            opt_int(n, "previous"@, 0, u32::MAX as int),
        ),
        VariableKind::Other => false,
    }
}

/// The contract of the readers of the variable types.
pub open spec fn reads_variable_type(n: XmlElement, res: Result<VariableType, String>) -> bool {
    match res {
        Ok(t) => variable_type_error(n) is None && variable_type_of(n, t),
        Err(m) => variable_type_error(n) == Some(m@),
    }
}

fn read_float32(node: &XmlElement) -> (res: Result<VariableType, String>)
    requires
        variable_kind(node.name@) == VariableKind::Float32,
    ensures
        reads_variable_type(*node, res),
{
    let intermediateUpdate = bool_or_default(node, "intermediateUpdate")?;
    let previous = u32_attribute(node, "previous")?;
    let min = node.attribute_as_float("min")?;
    let max = node.attribute_as_float("max")?;
    let nominal = node.attribute_as_float("nominal")?;
    let start = node.attribute_as_float("start")?;
    let derivative = u32_attribute(node, "derivative")?;
    Ok(
        VariableType::Float32 {
            start,
            intermediateUpdate,
            previous,
            declaredType: node.attribute("declaredType"),
            quantity: node.attribute("quantity"),
            unit: node.attribute("unit"),
            displayUnit: node.attribute("displayUnit"),
            relativeQuantity: attribute_is_true(node, "relativeQuantity"),
            unbounded: attribute_is_true(node, "unbounded"),
            min,
            max,
            nominal,
            derivative,
            reinit: attribute_is_true(node, "reinit"),
        },
    )
}

fn read_float64(node: &XmlElement) -> (res: Result<VariableType, String>)
    requires
        variable_kind(node.name@) == VariableKind::Float64,
    ensures
        reads_variable_type(*node, res),
{
    let intermediateUpdate = bool_or_default(node, "intermediateUpdate")?;
    let previous = u32_attribute(node, "previous")?;
    let min = node.attribute_as_float("min")?;
    let max = node.attribute_as_float("max")?;
    let nominal = node.attribute_as_float("nominal")?;
    let start = node.attribute_as_float("start")?;
    let derivative = u32_attribute(node, "derivative")?;
    Ok(
        VariableType::Float64 {
            start,
            intermediateUpdate,
            previous,
            declaredType: node.attribute("declaredType"),
            quantity: node.attribute("quantity"),
            unit: node.attribute("unit"),
            displayUnit: node.attribute("displayUnit"),
            relativeQuantity: attribute_is_true(node, "relativeQuantity"),
            unbounded: attribute_is_true(node, "unbounded"),
            min,
            max,
            nominal,
            derivative,
            reinit: attribute_is_true(node, "reinit"),
        },
    )
}

fn read_int8(node: &XmlElement) -> (res: Result<VariableType, String>)
    requires
        variable_kind(node.name@) == VariableKind::Int8,
    ensures
        reads_variable_type(*node, res),
{
    let start = i8_attribute(node, "start")?;
    let intermediateUpdate = bool_or_default(node, "intermediateUpdate")?;
    let previous = u32_attribute(node, "previous")?;
    let min = i8_attribute(node, "min")?;
    let max = i8_attribute(node, "max")?;
    Ok(
        VariableType::Int8 {
            start,
            declaredType: node.attribute("declaredType"),
            intermediateUpdate,
            previous,
            quantity: node.attribute("quantity"),
            min,
            max,
        },
    )
}

fn read_uint8(node: &XmlElement) -> (res: Result<VariableType, String>)
    requires
        variable_kind(node.name@) == VariableKind::UInt8,
    ensures
        reads_variable_type(*node, res),
{
    let start = u8_attribute(node, "start")?;
    let intermediateUpdate = bool_or_default(node, "intermediateUpdate")?;
    let previous = u32_attribute(node, "previous")?;
    let min = u8_attribute(node, "min")?;
    let max = u8_attribute(node, "max")?;
    Ok(
        VariableType::UInt8 {
            start,
            declaredType: node.attribute("declaredType"),
            intermediateUpdate,
            previous,
            quantity: node.attribute("quantity"),
            min,
            max,
        },
    )
}

fn read_int16(node: &XmlElement) -> (res: Result<VariableType, String>)
    requires
        variable_kind(node.name@) == VariableKind::Int16,
    ensures
        reads_variable_type(*node, res),
{
    let start = i16_attribute(node, "start")?;
    let intermediateUpdate = bool_or_default(node, "intermediateUpdate")?;
    let previous = u32_attribute(node, "previous")?;
    let min = i16_attribute(node, "min")?;
    let max = i16_attribute(node, "max")?;
    Ok(
        VariableType::Int16 {
            start,
            declaredType: node.attribute("declaredType"),
            intermediateUpdate,
            previous,
            quantity: node.attribute("quantity"),
            min,
            max,
        },
    )
}

fn read_uint16(node: &XmlElement) -> (res: Result<VariableType, String>)
    requires
        variable_kind(node.name@) == VariableKind::UInt16,
    ensures
        reads_variable_type(*node, res),
{
    let start = u16_attribute(node, "start")?;
    let intermediateUpdate = bool_or_default(node, "intermediateUpdate")?;
    let previous = u32_attribute(node, "previous")?;
    let min = u16_attribute(node, "min")?;
    let max = u16_attribute(node, "max")?;
    Ok(
        VariableType::UInt16 {
            start,
            declaredType: node.attribute("declaredType"),
            intermediateUpdate,
            previous,
            quantity: node.attribute("quantity"),
            min,
            max,
        },
    )
}

fn read_int32(node: &XmlElement) -> (res: Result<VariableType, String>)
    requires
        variable_kind(node.name@) == VariableKind::Int32,
    ensures
        reads_variable_type(*node, res),
{
    let start = i32_attribute(node, "start")?;
    let intermediateUpdate = bool_or_default(node, "intermediateUpdate")?;
    let previous = u32_attribute(node, "previous")?;
    let min = i32_attribute(node, "min")?;
    let max = i32_attribute(node, "max")?;
    Ok(
        VariableType::Int32 {
            start,
            declaredType: node.attribute("declaredType"),
            intermediateUpdate,
            previous,
            quantity: node.attribute("quantity"),
            min,
            max,
        },
    )
}

fn read_uint32(node: &XmlElement) -> (res: Result<VariableType, String>)
    requires
        variable_kind(node.name@) == VariableKind::UInt32,
    ensures
        reads_variable_type(*node, res),
{
    let start = u32_attribute(node, "start")?;
    let intermediateUpdate = bool_or_default(node, "intermediateUpdate")?;
    let previous = u32_attribute(node, "previous")?;
    let min = u32_attribute(node, "min")?;
    let max = u32_attribute(node, "max")?;
    Ok(
        VariableType::UInt32 {
            start,
            declaredType: node.attribute("declaredType"),
            intermediateUpdate,
            previous,
            quantity: node.attribute("quantity"),
            min,
            max,
        },
    )
}

fn read_int64(node: &XmlElement) -> (res: Result<VariableType, String>)
    requires
        variable_kind(node.name@) == VariableKind::Int64,
    ensures
        reads_variable_type(*node, res),
{
    let start = i64_attribute(node, "start")?;
    let intermediateUpdate = bool_or_default(node, "intermediateUpdate")?;
    let previous = u32_attribute(node, "previous")?;
    let min = i64_attribute(node, "min")?;
    let max = i64_attribute(node, "max")?;
    Ok(
        VariableType::Int64 {
            start,
            declaredType: node.attribute("declaredType"),
            intermediateUpdate,
            previous,
            quantity: node.attribute("quantity"),
            min,
            max,
        },
    )
}

fn read_uint64(node: &XmlElement) -> (res: Result<VariableType, String>)
    requires
        variable_kind(node.name@) == VariableKind::UInt64,
    ensures
        reads_variable_type(*node, res),
{
    let start = u64_attribute(node, "start")?;
    let intermediateUpdate = bool_or_default(node, "intermediateUpdate")?;
    let previous = u32_attribute(node, "previous")?;
    let min = u64_attribute(node, "min")?;
    let max = u64_attribute(node, "max")?;
    Ok(
        VariableType::UInt64 {
            start,
            declaredType: node.attribute("declaredType"),
            intermediateUpdate,
            previous,
            quantity: node.attribute("quantity"),
            min,
            max,
        },
    )
}

fn read_boolean(node: &XmlElement) -> (res: Result<VariableType, String>)
    requires
        variable_kind(node.name@) == VariableKind::Boolean,
    ensures
        reads_variable_type(*node, res),
{
    let start = bool_attribute(node, "start")?;
    let intermediateUpdate = bool_or_default(node, "intermediateUpdate")?;
    let previous = u32_attribute(node, "previous")?;
    Ok(
        VariableType::Boolean {
            start,
            declaredType: node.attribute("declaredType"),
            intermediateUpdate,
            previous,
        },
    )
}

fn read_string(node: &XmlElement) -> (res: Result<VariableType, String>)
    requires
        variable_kind(node.name@) == VariableKind::String,
    ensures
        reads_variable_type(*node, res),
{
    let nodes = node.get_children("Start");
    let ghost spec_nodes = node.spec_children("Start"@);
    let mut start: Vec<String> = Vec::new();
    let mut i: usize = 0;
    while i < nodes.len()
        invariant
            i <= nodes@.len(),
            nodes@.len() == spec_nodes.len(),
            spec_nodes == node.spec_children("Start"@),
            variable_kind(node.name@) == VariableKind::String,
            forall|k: int| 0 <= k < nodes@.len() ==> *(#[trigger] nodes@[k]) == spec_nodes[k],
            start@.len() == i,
            forall|k: int|
                0 <= k < i ==> spec_nodes[k].spec_attribute("value"@) == Some(#[trigger] start@[k]),
            first_error(spec_nodes, |s: XmlElement| string_start_error(s), i as nat) == first_error(
                spec_nodes,
                |s: XmlElement| string_start_error(s),
                0,
            ),
        decreases nodes.len() - i,
    {
        let v = nodes[i].required_attribute_in("value")?;
        start.push(v);
        i = i + 1;
    }
    let intermediateUpdate = bool_or_default(node, "intermediateUpdate")?;
    let previous = u32_attribute(node, "previous")?;
    Ok(
        VariableType::String {
            start,
            declaredType: node.attribute("declaredType"),
            intermediateUpdate,
            previous,
        },
    )
}

fn read_binary(node: &XmlElement) -> (res: Result<VariableType, String>)
    requires
        variable_kind(node.name@) == VariableKind::Binary,
    ensures
        reads_variable_type(*node, res),
{
    let nodes = node.get_children("Start");
    let ghost spec_nodes = node.spec_children("Start"@);
    let mut start: Vec<Vec<u8>> = Vec::new();
    let mut i: usize = 0;
    while i < nodes.len()
        invariant
            i <= nodes@.len(),
            nodes@.len() == spec_nodes.len(),
            spec_nodes == node.spec_children("Start"@),
            variable_kind(node.name@) == VariableKind::Binary,
            forall|k: int| 0 <= k < nodes@.len() ==> *(#[trigger] nodes@[k]) == spec_nodes[k],
            start@.len() == i,
            forall|k: int|
                0 <= k < i ==> binary_start_of(spec_nodes[k], (#[trigger] start@[k])@),
            first_error(spec_nodes, |s: XmlElement| binary_start_error(s), i as nat) == first_error(
                spec_nodes,
                |s: XmlElement| binary_start_error(s),
                0,
            ),
        decreases nodes.len() - i,
    {
        let text = nodes[i].required_attribute("value")?;
        let bytes = parse_hex(text.as_str())?;
        start.push(bytes);
        i = i + 1;
    }
    let intermediateUpdate = bool_or_default(node, "intermediateUpdate")?;
    let previous = u32_attribute(node, "previous")?;
    Ok(
        VariableType::Binary {
            start,
            declaredType: node.attribute("declaredType"),
            intermediateUpdate,
            previous,
        },
    )
}

fn interval_variability_of(node: &XmlElement) -> (res: Result<IntervalVariability, String>)
    ensures
        match res {
            Ok(v) => spec_interval_variability(*node) == Ok::<IntervalVariability, Seq<char>>(v),
            Err(m) => spec_interval_variability(*node) == Err::<IntervalVariability, Seq<char>>(m@),
        },
{
    let text = node.required_attribute("intervalVariability")?;
    IntervalVariability::from_name(text.as_str())
}

fn read_clock(node: &XmlElement) -> (res: Result<VariableType, String>)
    requires
        variable_kind(node.name@) == VariableKind::Clock,
    ensures
        reads_variable_type(*node, res),
{
    let intermediateUpdate = bool_or_default(node, "intermediateUpdate")?;
    let canBeDeactivated = bool_or_default(node, "canBeDeactivated")?;
    let priority = u32_attribute(node, "priority")?;
    let intervalVariability = interval_variability_of(node)?;
    let intervalDecimal = node.attribute_as_float("intervalDecimal")?;
    let shiftDecimal = float_or_default(node, "shiftDecimal", "0.0")?;
    let supportsFraction = bool_or_default(node, "supportsFraction")?;
    let resolution = u64_attribute(node, "resolution")?;
    let intervalCounter = u64_attribute(node, "intervalCounter")?;
    let shiftCounter = u64_or_default(node, "shiftCounter")?;
    Ok(
        VariableType::Clock {
            declaredType: node.attribute("declaredType"),
            intermediateUpdate,
            canBeDeactivated,
            priority,
            intervalVariability,
            intervalDecimal,
            shiftDecimal,
            supportsFraction,
            resolution,
            intervalCounter,
            shiftCounter,
        },
    )
}

fn read_enumeration(node: &XmlElement) -> (res: Result<VariableType, String>)
    requires
        variable_kind(node.name@) == VariableKind::Enumeration,
    ensures
        reads_variable_type(*node, res),
{
    let start = i64_attribute(node, "start")?;
    let declaredType = node.required_attribute("declaredType")?;
    let intermediateUpdate = bool_or_default(node, "intermediateUpdate")?;
    let previous = u32_attribute(node, "previous")?;
    Ok(VariableType::Enumeration { start, declaredType, intermediateUpdate, previous })
}

/// Reads the variable type of an element of `<ModelVariables>` from its tag and its
/// attributes.
pub fn get_variable_type(node: &XmlElement) -> (res: Result<VariableType, String>)
    ensures
        reads_variable_type(*node, res),
{
    if node.has_tag_name("Float32") {
        read_float32(node)
    } else if node.has_tag_name("Float64") {
        read_float64(node)
    } else if node.has_tag_name("Int8") {
        read_int8(node)
    } else if node.has_tag_name("UInt8") {
        read_uint8(node)
    } else if node.has_tag_name("Int16") {
        read_int16(node)
    } else if node.has_tag_name("UInt16") {
        read_uint16(node)
    } else if node.has_tag_name("Int32") {
        read_int32(node)
    } else if node.has_tag_name("UInt32") {
        read_uint32(node)
    } else if node.has_tag_name("Int64") {
        read_int64(node)
    } else if node.has_tag_name("UInt64") {
        read_uint64(node)
    } else if node.has_tag_name("Boolean") {
        read_boolean(node)
    } else if node.has_tag_name("String") {
        read_string(node)
    } else if node.has_tag_name("Binary") {
        read_binary(node)
    } else if node.has_tag_name("Clock") {
        read_clock(node)
    } else if node.has_tag_name("Enumeration") {
        read_enumeration(node)
    } else {
        Err(owned("Missing variable type element"))
    }
}

// ---------------------------------------------------------------------------
// Model variables
// ---------------------------------------------------------------------------
/// The causality of a variable element (`local` where absent); a refused value
/// gives the message for an illegal attribute value.
pub open spec fn spec_causality(n: XmlElement) -> Result<Causality, Seq<char>> {
    match n.spec_attribute("causality"@) {
        None => Ok(Causality::Local),
        Some(s) => match Causality::spec_from_name(s@) {
            Some(c) => Ok(c),
            None => Err(illegal_value_message(n, "causality"@, s@)),
        },
    }
}

/// Whether the element `n` declares a Float32 or Float64 variable.
pub open spec fn declares_float(n: XmlElement) -> bool {
    variable_kind(n.name@) == VariableKind::Float32 || variable_kind(n.name@)
        == VariableKind::Float64
}

/// The variability that the standard gives a variable without the attribute.
pub open spec fn default_variability(c: Causality, is_float: bool) -> Variability {
    if c == Causality::Parameter || c == Causality::StructuralParameter || c
        == Causality::CalculatedParameter {
        Variability::Fixed
    } else if is_float {
        Variability::Continuous
    } else {
        Variability::Discrete
    }
}

/// The variability of a variable element, or the default for its causality and type.
pub open spec fn spec_variability(n: XmlElement, c: Causality) -> Result<Variability, Seq<char>> {
    match n.spec_attribute("variability"@) {
        None => Ok(default_variability(c, declares_float(n))),
        Some(s) => match Variability::spec_from_name(s@) {
            Some(v) => Ok(v),
            None => Err(illegal_value_message(n, "variability"@, s@)),
        },
    }
}

/// The `initial` attribute of a variable element, as written.
pub open spec fn spec_initial_attribute(n: XmlElement) -> Result<Option<Initial>, Seq<char>> {
    match n.spec_attribute("initial"@) {
        None => Ok(None),
        Some(s) => match Initial::spec_from_name(s@) {
            Some(i) => Ok(Some(i)),
            None => Err(illegal_value_message(n, "initial"@, s@)),
        },
    }
}

/// The `initial` that the standard gives a variable of this variability and
/// causality when the attribute is absent (`None` where the combination is illegal).
pub open spec fn default_initial(variability: Variability, causality: Causality) -> Option<Initial> {
    match (variability, causality) {
        (Variability::Constant, Causality::Output) => Some(Initial::Exact),
        (Variability::Constant, Causality::Local) => Some(Initial::Exact),
        (Variability::Fixed, Causality::StructuralParameter) => Some(Initial::Exact),
        (Variability::Fixed, Causality::Parameter) => Some(Initial::Exact),
        (Variability::Fixed, Causality::CalculatedParameter) => Some(Initial::Calculated),
        (Variability::Fixed, Causality::Local) => Some(Initial::Calculated),
        (Variability::Tunable, Causality::StructuralParameter) => Some(Initial::Exact),
        (Variability::Tunable, Causality::Parameter) => Some(Initial::Exact),
        (Variability::Tunable, Causality::CalculatedParameter) => Some(Initial::Calculated),
        (Variability::Tunable, Causality::Local) => Some(Initial::Calculated),
        (Variability::Discrete, Causality::Input) => Some(Initial::Exact),
        (Variability::Discrete, Causality::Output) => Some(Initial::Calculated),
        (Variability::Discrete, Causality::Local) => Some(Initial::Calculated),
        (Variability::Continuous, Causality::Input) => Some(Initial::Exact),
        (Variability::Continuous, Causality::Output) => Some(Initial::Calculated),
        (Variability::Continuous, Causality::Local) => Some(Initial::Calculated),
        _ => None,
    }
}

/// The initial that the standard gives a variable without the attribute: exact
/// for parameters (structural or not), inputs and constants; calculated for
/// calculated parameters and for outputs and locals that are not constant; none
/// where the combination of causality and variability is illegal (and for the
/// independent variable).
pub proof fn lemma_default_initial(variability: Variability, causality: Causality)
    ensures
        default_initial(variability, causality) == match causality {
            Causality::Parameter | Causality::StructuralParameter => if variability
                == Variability::Fixed || variability == Variability::Tunable {
                Some(Initial::Exact)
            } else {
                None
            },
            Causality::CalculatedParameter => if variability == Variability::Fixed || variability
                == Variability::Tunable {
                Some(Initial::Calculated)
            } else {
                None
            },
            Causality::Input => if variability == Variability::Discrete || variability
                == Variability::Continuous {
                Some(Initial::Exact)
            } else {
                None
            },
            Causality::Output => if variability == Variability::Constant {
                Some(Initial::Exact)
            } else if variability == Variability::Discrete || variability
                == Variability::Continuous {
                Some(Initial::Calculated)
            } else {
                None
            },
            Causality::Local => if variability == Variability::Constant {
                Some(Initial::Exact)
            } else {
                Some(Initial::Calculated)
            },
            Causality::Independent => None,
        },
{
}

/// A variable read from an element without an `initial` attribute has the
/// standard's default initial: none for the independent variable, exact for
/// parameters, inputs and constants, calculated for the others.
pub proof fn lemma_read_default_initial(n: XmlElement, v: ModelVariable)
    requires
        model_variable_of(n, v),
        n.spec_attribute("initial"@) is None,
    ensures
        v.causality == Causality::Independent ==> v.initial is None,
        v.causality != Causality::Independent ==> v.initial == default_initial(
            v.variability,
            v.causality,
        ) && v.initial is Some,
        (v.causality == Causality::Output || v.causality == Causality::Local) && v.variability
            != Variability::Constant ==> v.initial == Some(Initial::Calculated),
        (v.causality == Causality::Parameter || v.causality == Causality::StructuralParameter
            || v.causality == Causality::Input || v.variability == Variability::Constant)
            && v.causality != Causality::Independent ==> v.initial == Some(Initial::Exact),
{
    lemma_default_initial(v.variability, v.causality);
}

/// A variable read from an element without a `variability` attribute is fixed
/// if it is a parameter (structural, calculated or not), else continuous if it is
/// a Float32 or Float64 variable, else discrete.
pub proof fn lemma_read_default_variability(n: XmlElement, v: ModelVariable)
    requires
        model_variable_of(n, v),
        n.spec_attribute("variability"@) is None,
    ensures
        v.variability == if v.causality == Causality::Parameter || v.causality
            == Causality::StructuralParameter || v.causality == Causality::CalculatedParameter {
            Variability::Fixed
        } else if v.variableType is Float32 || v.variableType is Float64 {
            Variability::Continuous
        } else {
            Variability::Discrete
        },
{
    assert(declares_float(n) <==> (v.variableType is Float32 || v.variableType is Float64));
}

/// A variable read from an element has the causality and the variability that
/// its attributes name (local where the causality is absent; see
/// `lemma_read_default_variability` for an absent variability), and the initial
/// that its `initial` attribute names, where there is one.
pub proof fn lemma_read_attributes(n: XmlElement, v: ModelVariable)
    requires
        model_variable_of(n, v),
    ensures
        n.spec_attribute("causality"@) is None ==> v.causality == Causality::Local,
        n.spec_attribute("causality"@) matches Some(s) ==> s@ == v.causality.attribute_name(),
        n.spec_attribute("variability"@) matches Some(s) ==> s@
            == v.variability.attribute_name(),
        n.spec_attribute("initial"@) matches Some(s) ==> v.initial matches Some(i) && s@
            == i.attribute_name(),
{
    if let Some(s) = n.spec_attribute("causality"@) {
        crate::model_description::fmi3::lemma_causality_names(s@);
    }
    if let Some(s) = n.spec_attribute("variability"@) {
        crate::model_description::fmi3::lemma_variability_names(s@);
    }
    if let Some(s) = n.spec_attribute("initial"@) {
        crate::model_description::fmi3::lemma_initial_names(s@);
    }
}

/// A variable read from an element has the type that the element's tag names:
/// a `<Float32>` element gives a Float32 variable, and so on for every type.
pub proof fn lemma_read_type_name(n: XmlElement, v: ModelVariable)
    requires
        model_variable_of(n, v),
    ensures
        v.variableType.spec_name() == n.name@,
{
}

fn default_initial_of(variability: Variability, causality: Causality) -> (res: Option<Initial>)
    ensures
        res == default_initial(variability, causality),
{
    match (variability, causality) {
        (Variability::Constant, Causality::Output) => Some(Initial::Exact),
        (Variability::Constant, Causality::Local) => Some(Initial::Exact),
        (Variability::Fixed, Causality::StructuralParameter) => Some(Initial::Exact),
        (Variability::Fixed, Causality::Parameter) => Some(Initial::Exact),
        (Variability::Fixed, Causality::CalculatedParameter) => Some(Initial::Calculated),
        (Variability::Fixed, Causality::Local) => Some(Initial::Calculated),
        (Variability::Tunable, Causality::StructuralParameter) => Some(Initial::Exact),
        (Variability::Tunable, Causality::Parameter) => Some(Initial::Exact),
        (Variability::Tunable, Causality::CalculatedParameter) => Some(Initial::Calculated),
        (Variability::Tunable, Causality::Local) => Some(Initial::Calculated),
        (Variability::Discrete, Causality::Input) => Some(Initial::Exact),
        (Variability::Discrete, Causality::Output) => Some(Initial::Calculated),
        (Variability::Discrete, Causality::Local) => Some(Initial::Calculated),
        (Variability::Continuous, Causality::Input) => Some(Initial::Exact),
        (Variability::Continuous, Causality::Output) => Some(Initial::Calculated),
        (Variability::Continuous, Causality::Local) => Some(Initial::Calculated),
        _ => None,
    }
}

/// The `initial` of a variable: as written, or the default for its variability and
/// causality (none for the independent variable).
pub open spec fn spec_initial(
    written: Option<Initial>,
    variability: Variability,
    causality: Causality,
) -> Result<Option<Initial>, Seq<char>> {
    if written is None && causality != Causality::Independent {
        match default_initial(variability, causality) {
            Some(i) => Ok(Some(i)),
            None => Err(
                "Illegal combination of variability and causality: "@
                    + variability.spec_debug_name() + " "@ + causality.spec_debug_name(),
            ),
        }
    } else {
        Ok(written)
    }
}

/// The dimension that a `<Dimension>` element gives: a fixed size (`start`) or the
/// value reference of the variable that holds it.
pub open spec fn spec_dimension(d: XmlElement) -> Result<Dimension, Seq<char>> {
    match d.spec_attribute("start"@) {
        Some(s) => match parse_integer(s@, 0, usize::MAX as int) {
            Ok(v) => Ok(Dimension::Fixed { start: v as usize }),
            Err(k) => Err(k.spec_message()),
        },
        None => match d.spec_attribute("valueReference"@) {
            Some(s) => match parse_integer(s@, 0, u32::MAX as int) {
                Ok(v) => Ok(Dimension::Variable { valueReference: v as u32 }),
                Err(k) => Err(k.spec_message()),
            },
            None => Err("Dimension must have either size or valueReference attribute"@),
        },
    }
}

/// The first error among the dimensions of a variable element.
pub open spec fn dimensions_error(n: XmlElement) -> Option<Seq<char>> {
    first_error(n.spec_children("Dimension"@), |d: XmlElement| error_of(spec_dimension(d)), 0)
}

/// `ds` are the dimensions of a variable element, in order.
pub open spec fn dimensions_of(n: XmlElement, ds: Seq<Dimension>) -> bool {
    &&& ds.len() == n.spec_children("Dimension"@).len()
    &&& forall|k: int|
        0 <= k < ds.len() ==> spec_dimension(n.spec_children("Dimension"@)[k]) == Ok::<
            Dimension,
            Seq<char>,
        >(#[trigger] ds[k])
}

fn dimension_of(d: &XmlElement) -> (res: Result<Dimension, String>)
    ensures
        match res {
            Ok(v) => spec_dimension(*d) == Ok::<Dimension, Seq<char>>(v),
            Err(m) => spec_dimension(*d) == Err::<Dimension, Seq<char>>(m@),
        },
{
    match d.attribute("start") {
        Some(s) => {
            let cs = chars_of(s.as_str());
            match parse_usize(cs.as_slice()) {
                Ok(v) => Ok(Dimension::Fixed { start: v }),
                Err(k) => Err(k.message()),
            }
        },
        None => match d.attribute("valueReference") {
            Some(s) => {
                let cs = chars_of(s.as_str());
                match parse_u32(cs.as_slice()) {
                    Ok(v) => Ok(Dimension::Variable { valueReference: v }),
                    Err(k) => Err(k.message()),
                }
            },
            None => Err(owned("Dimension must have either size or valueReference attribute")),
        },
    }
}

/// Reads the dimensions of a variable element.
pub fn get_dimensions(node: &XmlElement) -> (res: Result<Vec<Dimension>, String>)
    ensures
        match res {
            Ok(v) => dimensions_error(*node) is None && dimensions_of(*node, v@),
            Err(m) => dimensions_error(*node) == Some(m@),
        },
{
    let nodes = node.get_children("Dimension");
    let ghost spec_nodes = node.spec_children("Dimension"@);
    let mut out: Vec<Dimension> = Vec::new();
    let mut i: usize = 0;
    while i < nodes.len()
        invariant
            i <= nodes@.len(),
            nodes@.len() == spec_nodes.len(),
            spec_nodes == node.spec_children("Dimension"@),
            forall|k: int| 0 <= k < nodes@.len() ==> *(#[trigger] nodes@[k]) == spec_nodes[k],
            out@.len() == i,
            forall|k: int|
                0 <= k < i ==> spec_dimension(spec_nodes[k]) == Ok::<Dimension, Seq<char>>(
                    #[trigger] out@[k],
                ),
            first_error(spec_nodes, |d: XmlElement| error_of(spec_dimension(d)), i as nat)
                == first_error(spec_nodes, |d: XmlElement| error_of(spec_dimension(d)), 0),
        decreases nodes.len() - i,
    {
        let d = dimension_of(nodes[i])?;
        out.push(d);
        i = i + 1;
    }
    Ok(out)
}

/// The first error in reading a model variable: its type, causality, variability,
/// initial, `canHandleMultipleSetPerTimeInstant`, name, value reference, then its
/// dimensions.
pub open spec fn model_variable_error(n: XmlElement) -> Option<Seq<char>> {
    if variable_type_error(n) is Some {
        variable_type_error(n)
    } else if spec_causality(n) is Err {
        error_of(spec_causality(n))
    } else {
        let c = spec_causality(n)->Ok_0;
        if spec_variability(n, c) is Err {
            error_of(spec_variability(n, c))
        } else if spec_initial_attribute(n) is Err {
            error_of(spec_initial_attribute(n))
        } else if spec_initial(spec_initial_attribute(n)->Ok_0, spec_variability(n, c)->Ok_0, c) is Err {
            error_of(spec_initial(spec_initial_attribute(n)->Ok_0, spec_variability(n, c)->Ok_0, c))
        } else if bool_error(n, "canHandleMultipleSetPerTimeInstant"@) {
            bool_message(n, "canHandleMultipleSetPerTimeInstant"@)
        } else if n.spec_attribute("name"@) is None {
            Some(missing_attribute_message("name"@))
        } else if spec_required_u32(n, "valueReference"@) is Err {
            error_of(spec_required_u32(n, "valueReference"@))
        } else {
            dimensions_error(n)
        }
    }
}

/// `v` is the model variable that the element `n` describes.
pub open spec fn model_variable_of(n: XmlElement, v: ModelVariable) -> bool {
    &&& variable_type_of(n, v.variableType)
    &&& spec_causality(n) == Ok::<Causality, Seq<char>>(v.causality)
    &&& spec_variability(n, v.causality) == Ok::<Variability, Seq<char>>(
        v.variability,
    )
    &&& spec_initial_attribute(n) matches Ok(written) && spec_initial(
        written,
        v.variability,
        v.causality,
    ) == Ok::<Option<Initial>, Seq<char>>(v.initial)
    &&& v.canHandleMultipleSetPerTimeInstant == bool_or_false(
        n,
        "canHandleMultipleSetPerTimeInstant"@,
    )
    &&& n.spec_attribute("name"@) == Some(v.name)
    &&& spec_required_u32(n, "valueReference"@) == Ok::<u32, Seq<char>>(v.valueReference)
    &&& v.description == n.spec_attribute("description"@)
    &&& dimensions_of(n, v.dimensions@)
    &&& v.range == n.range
}

fn causality_of(node: &XmlElement) -> (res: Result<Causality, String>)
    ensures
        match res {
            Ok(c) => spec_causality(*node) == Ok::<Causality, Seq<char>>(c),
            Err(m) => spec_causality(*node) == Err::<Causality, Seq<char>>(m@),
        },
{
    match node.attribute("causality") {
        None => Ok(Causality::Local),
        Some(s) => match Causality::from_name(s.as_str()) {
            Ok(c) => Ok(c),
            Err(_) => Err(node.illegal_value("causality", s.as_str())),
        },
    }
}

fn variability_of(node: &XmlElement, c: Causality, t: &VariableType) -> (res: Result<
    Variability,
    String,
>)
    requires
        variable_type_of(*node, *t),
    ensures
        match res {
            Ok(v) => spec_variability(*node, c) == Ok::<Variability, Seq<char>>(v),
            Err(m) => spec_variability(*node, c) == Err::<Variability, Seq<char>>(m@),
        },
{
    match node.attribute("variability") {
        None => {
            if c == Causality::Parameter || c == Causality::StructuralParameter || c
                == Causality::CalculatedParameter {
                Ok(Variability::Fixed)
            } else {
                match t {
                    VariableType::Float32 { .. } => Ok(Variability::Continuous),
                    VariableType::Float64 { .. } => Ok(Variability::Continuous),
                    _ => Ok(Variability::Discrete),
                }
            }
        },
        Some(s) => match Variability::from_name(s.as_str()) {
            Ok(v) => Ok(v),
            Err(_) => Err(node.illegal_value("variability", s.as_str())),
        },
    }
}

fn initial_attribute_of(node: &XmlElement) -> (res: Result<Option<Initial>, String>)
    ensures
        match res {
            Ok(i) => spec_initial_attribute(*node) == Ok::<Option<Initial>, Seq<char>>(i),
            Err(m) => spec_initial_attribute(*node) == Err::<Option<Initial>, Seq<char>>(m@),
        },
{
    match node.attribute("initial") {
        None => Ok(None),
        Some(s) => match Initial::from_name(s.as_str()) {
            Ok(i) => Ok(Some(i)),
            Err(_) => Err(node.illegal_value("initial", s.as_str())),
        },
    }
}

fn initial_of(written: Option<Initial>, variability: Variability, causality: Causality) -> (res:
    Result<Option<Initial>, String>)
    ensures
        match res {
            Ok(i) => spec_initial(written, variability, causality) == Ok::<
                Option<Initial>,
                Seq<char>,
            >(i),
            Err(m) => spec_initial(written, variability, causality) == Err::<
                Option<Initial>,
                Seq<char>,
            >(m@),
        },
{
    if written.is_none() && causality != Causality::Independent {
        match default_initial_of(variability, causality) {
            Some(i) => Ok(Some(i)),
            None => {
                let mut m = owned("Illegal combination of variability and causality: ");
                let v = variability.debug_name();
                let c = causality.debug_name();
                push_str(&mut m, v.as_str());
                push_str(&mut m, " ");
                push_str(&mut m, c.as_str());
                Err(m)
            },
        }
    } else {
        Ok(written)
    }
}

impl ModelVariable {
    /// Reads an element of `<ModelVariables>`.
    pub fn from_node(node: &XmlElement) -> (res: Result<ModelVariable, String>)
        ensures
            match res {
                Ok(v) => model_variable_error(*node) is None && model_variable_of(*node, v),
                Err(m) => model_variable_error(*node) == Some(m@),
            },
    {
        let variableType = get_variable_type(node)?;
        let causality = causality_of(node)?;
        let variability = variability_of(node, causality, &variableType)?;
        let written = initial_attribute_of(node)?;
        let initial = initial_of(written, variability, causality)?;
        let canHandleMultipleSetPerTimeInstant = bool_or_default(
            node,
            "canHandleMultipleSetPerTimeInstant",
        )?;
        let name = node.required_attribute("name")?;
        let valueReference = required_u32(node, "valueReference")?;
        let description = node.attribute("description");
        let dimensions = get_dimensions(node)?;
        Ok(
            ModelVariable {
                variableType,
                name,
                valueReference,
                description,
                causality,
                variability,
                initial,
                canHandleMultipleSetPerTimeInstant,
                dimensions,
                range: node.range.start..node.range.end,
            },
        )
    }
}

// ---------------------------------------------------------------------------
// Unknowns
// ---------------------------------------------------------------------------
/// The dependency kinds of a `dependenciesKind` attribute, read word by word.
pub open spec fn parse_kind_words(ws: Seq<Seq<char>>, i: nat, acc: Seq<DependencyKind>) -> Result<
    Seq<DependencyKind>,
    Seq<char>,
>
    decreases ws.len() - i,
{
    if i >= ws.len() {
        Ok(acc)
    } else {
        match DependencyKind::spec_from_name(ws[i as int]) {
            Some(k) => parse_kind_words(ws, i + 1, acc.push(k)),
            None => Err("Unknown dependency kind: "@ + ws[i as int]),
        }
    }
}

/// The words of `s` read as dependency kinds.
pub fn parse_kind_list(s: &str) -> (res: Result<Vec<DependencyKind>, String>)
    ensures
        match res {
            Ok(v) => parse_kind_words(words(s@), 0, seq![]) == Ok::<
                Seq<DependencyKind>,
                Seq<char>,
            >(v@),
            Err(m) => parse_kind_words(words(s@), 0, seq![]) == Err::<
                Seq<DependencyKind>,
                Seq<char>,
            >(m@),
        },
{
    let cs = chars_of(s);
    let ws = split_white_space(cs.as_slice());
    let mut out: Vec<DependencyKind> = Vec::new();
    let mut i: usize = 0;
    while i < ws.len()
        invariant
            i <= ws@.len(),
            ws@.len() == words(s@).len(),
            forall|k: int| 0 <= k < ws@.len() ==> (#[trigger] ws@[k])@ == words(s@)[k],
            parse_kind_words(words(s@), i as nat, out@) == parse_kind_words(
                words(s@),
                0,
                seq![],
            ),
        decreases ws.len() - i,
    {
        let word = string_from_chars(ws[i].as_slice());
        let k = DependencyKind::from_name(word.as_str())?;
        out.push(k);
        i = i + 1;
    }
    Ok(out)
}

/// The value reference of an unknown of the list `name`.
pub open spec fn unknown_value_reference(c: XmlElement, name: Seq<char>) -> Result<u32, Seq<char>> {
    match c.spec_attribute("valueReference"@) {
        None => Err("Missing valueReference attribute in "@ + name),
        Some(s) => match parse_integer(s@, 0, u32::MAX as int) {
            Ok(v) => Ok(v as u32),
            Err(k) => Err(k.spec_message()),
        },
    }
}

/// The first error in reading an unknown of the list `name`: its value reference,
/// then its dependencies and their kinds.
pub open spec fn unknown_error(c: XmlElement, name: Seq<char>) -> Option<Seq<char>> {
    if unknown_value_reference(c, name) is Err {
        error_of(unknown_value_reference(c, name))
    } else if c.spec_attribute("dependencies"@) matches Some(d) && parse_index_words(
        words(d@),
        0,
        seq![],
    ) is Err {
        error_of(parse_index_words(words(c.spec_attribute("dependencies"@).unwrap()@), 0, seq![]))
    } else if c.spec_attribute("dependenciesKind"@) matches Some(d) && parse_kind_words(
        words(d@),
        0,
        seq![],
    ) is Err {
        error_of(
            parse_kind_words(words(c.spec_attribute("dependenciesKind"@).unwrap()@), 0, seq![]),
        )
    } else {
        None
    }
}

/// `u` is the unknown that `c` describes.
pub open spec fn unknown_of(c: XmlElement, name: Seq<char>, u: Unknown) -> bool {
    &&& unknown_value_reference(c, name) == Ok::<u32, Seq<char>>(u.valueReference)
    &&& match c.spec_attribute("dependencies"@) {
        Some(d) => u.dependencies matches Some(v) && parse_index_words(words(d@), 0, seq![])
            == Ok::<Seq<u32>, Seq<char>>(v@),
        None => u.dependencies is None,
    }
    &&& match c.spec_attribute("dependenciesKind"@) {
        Some(d) => u.dependenciesKind matches Some(v) && parse_kind_words(words(d@), 0, seq![])
            == Ok::<Seq<DependencyKind>, Seq<char>>(v@),
        None => u.dependenciesKind is None,
    }
    &&& u.range == c.range
}

fn read_unknown(c: &XmlElement, name: &str) -> (res: Result<Unknown, String>)
    ensures
        match res {
            Ok(u) => unknown_error(*c, name@) is None && unknown_of(*c, name@, u),
            Err(m) => unknown_error(*c, name@) == Some(m@),
        },
{
    let valueReference = match c.attribute("valueReference") {
        None => {
            let mut m = owned("Missing valueReference attribute in ");
            push_str(&mut m, name);
            return Err(m);
        },
        Some(s) => {
            let cs = chars_of(s.as_str());
            match parse_u32(cs.as_slice()) {
                Ok(v) => v,
                Err(k) => {
                    return Err(k.message());
                },
            }
        },
    };
    let dependencies = match c.attribute("dependencies") {
        Some(d) => Some(parse_index_list(d.as_str())?),
        None => None,
    };
    let dependenciesKind = match c.attribute("dependenciesKind") {
        Some(d) => Some(parse_kind_list(d.as_str())?),
        None => None,
    };
    Ok(Unknown { valueReference, dependencies, dependenciesKind, range: c.range.start..c.range.end })
}

/// The first element among the root and the elements below it named `ModelStructure`.
pub open spec fn model_structure(root: XmlElement) -> Option<XmlElement> {
    first_descendant(root, "ModelStructure"@)
}

/// The first error in reading the unknowns `name` of the model structure.
pub open spec fn unknowns_error(root: XmlElement, name: Seq<char>) -> Option<Seq<char>> {
    match model_structure(root) {
        None => Some("Missing <ModelStructure> element."@),
        Some(ms) => first_error(ms.spec_children(name), |c: XmlElement| unknown_error(c, name), 0),
    }
}

/// `us` are the unknowns `name` of the model structure.
pub open spec fn unknowns_of(root: XmlElement, name: Seq<char>, us: Seq<Unknown>) -> bool {
    model_structure(root) matches Some(ms) && us.len() == ms.spec_children(name).len() && forall|
        k: int,
    | 0 <= k < us.len() ==> unknown_of(ms.spec_children(name)[k], name, #[trigger] us[k])
}

/// Reads the unknowns `name` (`Output`, `ContinuousStateDerivative`, ...) of the
/// model structure.
pub fn get_unknowns(root: &XmlElement, name: &str) -> (res: Result<Vec<Unknown>, String>)
    ensures
        match res {
            Ok(us) => unknowns_error(*root, name@) is None && unknowns_of(*root, name@, us@),
            Err(m) => unknowns_error(*root, name@) == Some(m@),
        },
{
    let ms = match root.find_descendant("ModelStructure") {
        Some(ms) => ms,
        None => {
            return Err(owned("Missing <ModelStructure> element."));
        },
    };
    let nodes = ms.get_children(name);
    let ghost spec_nodes = ms.spec_children(name@);
    let mut out: Vec<Unknown> = Vec::new();
    let mut i: usize = 0;
    while i < nodes.len()
        invariant
            i <= nodes@.len(),
            nodes@.len() == spec_nodes.len(),
            model_structure(*root) == Some(*ms),
            spec_nodes == ms.spec_children(name@),
            forall|k: int| 0 <= k < nodes@.len() ==> *(#[trigger] nodes@[k]) == spec_nodes[k],
            out@.len() == i,
            forall|k: int| 0 <= k < i ==> unknown_of(spec_nodes[k], name@, #[trigger] out@[k]),
            first_error(spec_nodes, |c: XmlElement| unknown_error(c, name@), i as nat)
                == first_error(spec_nodes, |c: XmlElement| unknown_error(c, name@), 0),
        decreases nodes.len() - i,
    {
        let u = read_unknown(nodes[i], name)?;
        out.push(u);
        i = i + 1;
    }
    Ok(out)
}

// ---------------------------------------------------------------------------
// Interfaces and the default experiment
// ---------------------------------------------------------------------------

/// The first error in reading a `<ModelExchange>` element, in the order of the fields.
pub open spec fn model_exchange_error(n: XmlElement) -> Option<Seq<char>> {
    if n.spec_attribute("modelIdentifier"@) is None {
        Some(missing_attribute_in_message(n, "modelIdentifier"@))
    } else if bool_error(n, "needsExecutionTool"@) {
        bool_message(n, "needsExecutionTool"@)
    } else if bool_error(n, "canBeInstantiatedOnlyOncePerProcess"@) {
        bool_message(n, "canBeInstantiatedOnlyOncePerProcess"@)
    } else if bool_error(n, "canGetAndSetFMUState"@) {
        bool_message(n, "canGetAndSetFMUState"@)
    } else if bool_error(n, "canSerializeFMUState"@) {
        bool_message(n, "canSerializeFMUState"@)
    } else if bool_error(n, "providesDirectionalDerivatives"@) {
        bool_message(n, "providesDirectionalDerivatives"@)
    } else if bool_error(n, "providesAdjointDerivatives"@) {
        bool_message(n, "providesAdjointDerivatives"@)
    } else if bool_error(n, "providesPerElementDependencies"@) {
        bool_message(n, "providesPerElementDependencies"@)
    } else if bool_error(n, "needsCompletedIntegratorStep"@) {
        bool_message(n, "needsCompletedIntegratorStep"@)
    } else if bool_error(n, "providesEvaluateDiscreteStates"@) {
        bool_message(n, "providesEvaluateDiscreteStates"@)
    } else {
        None
    }
}
/// `v` is the Model Exchange interface that `n` describes.
pub open spec fn model_exchange_of(n: XmlElement, v: ModelExchange) -> bool {
    &&& n.spec_attribute("modelIdentifier"@) == Some(v.modelIdentifier)
    &&& v.needsExecutionTool == bool_or_false(n, "needsExecutionTool"@)
    &&& v.canBeInstantiatedOnlyOncePerProcess == bool_or_false(n, "canBeInstantiatedOnlyOncePerProcess"@)
    &&& v.canGetAndSetFMUState == bool_or_false(n, "canGetAndSetFMUState"@)
    &&& v.canSerializeFMUState == bool_or_false(n, "canSerializeFMUState"@)
    &&& v.providesDirectionalDerivatives == bool_or_false(n, "providesDirectionalDerivatives"@)
    &&& v.providesAdjointDerivatives == bool_or_false(n, "providesAdjointDerivatives"@)
    &&& v.providesPerElementDependencies == bool_or_false(n, "providesPerElementDependencies"@)
    &&& v.needsCompletedIntegratorStep == bool_or_false(n, "needsCompletedIntegratorStep"@)
    &&& v.providesEvaluateDiscreteStates == bool_or_false(n, "providesEvaluateDiscreteStates"@)
    &&& v.range == n.range
}

impl ModelExchange {
    /// Reads a `<ModelExchange>` element.
    pub fn from_node(node: &XmlElement) -> (res: Result<ModelExchange, String>)
        ensures
            match res {
                Ok(v) => model_exchange_error(*node) is None && model_exchange_of(*node, v),
                Err(m) => model_exchange_error(*node) == Some(m@),
            },
    {
        let modelIdentifier = node.required_attribute_in("modelIdentifier")?;
        let needsExecutionTool = bool_or_default(node, "needsExecutionTool")?;
        let canBeInstantiatedOnlyOncePerProcess = bool_or_default(node, "canBeInstantiatedOnlyOncePerProcess")?;
        let canGetAndSetFMUState = bool_or_default(node, "canGetAndSetFMUState")?;
        let canSerializeFMUState = bool_or_default(node, "canSerializeFMUState")?;
        let providesDirectionalDerivatives = bool_or_default(node, "providesDirectionalDerivatives")?;
        let providesAdjointDerivatives = bool_or_default(node, "providesAdjointDerivatives")?;
        let providesPerElementDependencies = bool_or_default(node, "providesPerElementDependencies")?;
        let needsCompletedIntegratorStep = bool_or_default(node, "needsCompletedIntegratorStep")?;
        let providesEvaluateDiscreteStates = bool_or_default(node, "providesEvaluateDiscreteStates")?;
        Ok(ModelExchange { modelIdentifier, needsExecutionTool, canBeInstantiatedOnlyOncePerProcess, canGetAndSetFMUState, canSerializeFMUState, providesDirectionalDerivatives, providesAdjointDerivatives, providesPerElementDependencies, needsCompletedIntegratorStep, providesEvaluateDiscreteStates, range: node.range.start..node.range.end })
    }
}

/// The first error in reading a `<CoSimulation>` element, in the order of the fields.
pub open spec fn co_simulation_error(n: XmlElement) -> Option<Seq<char>> {
    if n.spec_attribute("modelIdentifier"@) is None {
        Some(missing_attribute_in_message(n, "modelIdentifier"@))
    } else if bool_error(n, "needsExecutionTool"@) {
        bool_message(n, "needsExecutionTool"@)
    } else if bool_error(n, "canBeInstantiatedOnlyOncePerProcess"@) {
        bool_message(n, "canBeInstantiatedOnlyOncePerProcess"@)
    } else if bool_error(n, "canGetAndSetFMUState"@) {
        bool_message(n, "canGetAndSetFMUState"@)
    } else if bool_error(n, "canSerializeFMUState"@) {
        bool_message(n, "canSerializeFMUState"@)
    } else if bool_error(n, "providesDirectionalDerivatives"@) {
        bool_message(n, "providesDirectionalDerivatives"@)
    } else if bool_error(n, "providesAdjointDerivatives"@) {
        bool_message(n, "providesAdjointDerivatives"@)
    } else if bool_error(n, "providesPerElementDependencies"@) {
        bool_message(n, "providesPerElementDependencies"@)
    } else if bool_error(n, "canHandleVariableCommunicationStepSize"@) {
        bool_message(n, "canHandleVariableCommunicationStepSize"@)
    } else if float_message(n, "fixedInternalStepSize"@) is Some {
        float_message(n, "fixedInternalStepSize"@)
    } else if int_message(n, "maxOutputDerivativeOrder"@, 0, u32::MAX as int) is Some {
        int_message(n, "maxOutputDerivativeOrder"@, 0, u32::MAX as int)
    } else if int_message(n, "recommendedIntermediateInputSmoothness"@, i32::MIN as int, i32::MAX as int) is Some {
        int_message(n, "recommendedIntermediateInputSmoothness"@, i32::MIN as int, i32::MAX as int)
    } else if bool_error(n, "providesIntermediateUpdate"@) {
        bool_message(n, "providesIntermediateUpdate"@)
    } else if bool_error(n, "mightReturnEarlyFromDoStep"@) {
        bool_message(n, "mightReturnEarlyFromDoStep"@)
    } else if bool_error(n, "canReturnEarlyAfterIntermediateUpdate"@) {
        bool_message(n, "canReturnEarlyAfterIntermediateUpdate"@)
    } else if bool_error(n, "hasEventMode"@) {
        bool_message(n, "hasEventMode"@)
    } else if bool_error(n, "providesEvaluateDiscreteStates"@) {
        bool_message(n, "providesEvaluateDiscreteStates"@)
    } else {
        None
    }
}
/// `v` is the Co-Simulation interface that `n` describes.
pub open spec fn co_simulation_of(n: XmlElement, v: CoSimulation) -> bool {
    &&& n.spec_attribute("modelIdentifier"@) == Some(v.modelIdentifier)
    &&& v.needsExecutionTool == bool_or_false(n, "needsExecutionTool"@)
    &&& v.canBeInstantiatedOnlyOncePerProcess == bool_or_false(n, "canBeInstantiatedOnlyOncePerProcess"@)
    &&& v.canGetAndSetFMUState == bool_or_false(n, "canGetAndSetFMUState"@)
    &&& v.canSerializeFMUState == bool_or_false(n, "canSerializeFMUState"@)
    &&& v.providesDirectionalDerivatives == bool_or_false(n, "providesDirectionalDerivatives"@)
    &&& v.providesAdjointDerivatives == bool_or_false(n, "providesAdjointDerivatives"@)
    &&& v.providesPerElementDependencies == bool_or_false(n, "providesPerElementDependencies"@)
    &&& v.canHandleVariableCommunicationStepSize == bool_or_false(n, "canHandleVariableCommunicationStepSize"@)
    &&& v.fixedInternalStepSize == opt_float(n, "fixedInternalStepSize"@)
    &&& v.maxOutputDerivativeOrder == u32_or_zero(n, "maxOutputDerivativeOrder"@)
    &&& v.recommendedIntermediateInputSmoothness == int_or_zero(n, "recommendedIntermediateInputSmoothness"@, i32::MIN as int, i32::MAX as int)
    &&& v.providesIntermediateUpdate == bool_or_false(n, "providesIntermediateUpdate"@)
    &&& v.mightReturnEarlyFromDoStep == bool_or_false(n, "mightReturnEarlyFromDoStep"@)
    &&& v.canReturnEarlyAfterIntermediateUpdate == bool_or_false(n, "canReturnEarlyAfterIntermediateUpdate"@)
    &&& v.hasEventMode == bool_or_false(n, "hasEventMode"@)
    &&& v.providesEvaluateDiscreteStates == bool_or_false(n, "providesEvaluateDiscreteStates"@)
    &&& v.range == n.range
}

impl CoSimulation {
    /// Reads a `<CoSimulation>` element.
    pub fn from_node(node: &XmlElement) -> (res: Result<CoSimulation, String>)
        ensures
            match res {
                Ok(v) => co_simulation_error(*node) is None && co_simulation_of(*node, v),
                Err(m) => co_simulation_error(*node) == Some(m@),
            },
    {
        let modelIdentifier = node.required_attribute_in("modelIdentifier")?;
        let needsExecutionTool = bool_or_default(node, "needsExecutionTool")?;
        let canBeInstantiatedOnlyOncePerProcess = bool_or_default(node, "canBeInstantiatedOnlyOncePerProcess")?;
        let canGetAndSetFMUState = bool_or_default(node, "canGetAndSetFMUState")?;
        let canSerializeFMUState = bool_or_default(node, "canSerializeFMUState")?;
        let providesDirectionalDerivatives = bool_or_default(node, "providesDirectionalDerivatives")?;
        let providesAdjointDerivatives = bool_or_default(node, "providesAdjointDerivatives")?;
        let providesPerElementDependencies = bool_or_default(node, "providesPerElementDependencies")?;
        let canHandleVariableCommunicationStepSize = bool_or_default(node, "canHandleVariableCommunicationStepSize")?;
        let fixedInternalStepSize = node.attribute_as_float("fixedInternalStepSize")?;
        let maxOutputDerivativeOrder = u32_or_default(node, "maxOutputDerivativeOrder")?;
        let recommendedIntermediateInputSmoothness = i32_or_zero(node, "recommendedIntermediateInputSmoothness")?;
        let providesIntermediateUpdate = bool_or_default(node, "providesIntermediateUpdate")?;
        let mightReturnEarlyFromDoStep = bool_or_default(node, "mightReturnEarlyFromDoStep")?;
        let canReturnEarlyAfterIntermediateUpdate = bool_or_default(node, "canReturnEarlyAfterIntermediateUpdate")?;
        let hasEventMode = bool_or_default(node, "hasEventMode")?;
        let providesEvaluateDiscreteStates = bool_or_default(node, "providesEvaluateDiscreteStates")?;
        Ok(CoSimulation { modelIdentifier, needsExecutionTool, canBeInstantiatedOnlyOncePerProcess, canGetAndSetFMUState, canSerializeFMUState, providesDirectionalDerivatives, providesAdjointDerivatives, providesPerElementDependencies, canHandleVariableCommunicationStepSize, fixedInternalStepSize, maxOutputDerivativeOrder, recommendedIntermediateInputSmoothness, providesIntermediateUpdate, mightReturnEarlyFromDoStep, canReturnEarlyAfterIntermediateUpdate, hasEventMode, providesEvaluateDiscreteStates, range: node.range.start..node.range.end })
    }
}

/// The first error in reading a `<ScheduledExecution>` element, in the order of the fields.
pub open spec fn scheduled_execution_error(n: XmlElement) -> Option<Seq<char>> {
    if n.spec_attribute("modelIdentifier"@) is None {
        Some(missing_attribute_in_message(n, "modelIdentifier"@))
    } else if bool_error(n, "needsExecutionTool"@) {
        bool_message(n, "needsExecutionTool"@)
    } else if bool_error(n, "canBeInstantiatedOnlyOncePerProcess"@) {
        bool_message(n, "canBeInstantiatedOnlyOncePerProcess"@)
    } else if bool_error(n, "canGetAndSetFMUState"@) {
        bool_message(n, "canGetAndSetFMUState"@)
    } else if bool_error(n, "canSerializeFMUState"@) {
        bool_message(n, "canSerializeFMUState"@)
    } else if bool_error(n, "providesDirectionalDerivatives"@) {
        bool_message(n, "providesDirectionalDerivatives"@)
    } else if bool_error(n, "providesAdjointDerivatives"@) {
        bool_message(n, "providesAdjointDerivatives"@)
    } else if bool_error(n, "providesPerElementDependencies"@) {
        bool_message(n, "providesPerElementDependencies"@)
    } else {
        None
    }
}
/// `v` is the Scheduled Execution interface that `n` describes.
pub open spec fn scheduled_execution_of(n: XmlElement, v: ScheduledExecution) -> bool {
    &&& n.spec_attribute("modelIdentifier"@) == Some(v.modelIdentifier)
    &&& v.needsExecutionTool == bool_or_false(n, "needsExecutionTool"@)
    &&& v.canBeInstantiatedOnlyOncePerProcess == bool_or_false(n, "canBeInstantiatedOnlyOncePerProcess"@)
    &&& v.canGetAndSetFMUState == bool_or_false(n, "canGetAndSetFMUState"@)
    &&& v.canSerializeFMUState == bool_or_false(n, "canSerializeFMUState"@)
    &&& v.providesDirectionalDerivatives == bool_or_false(n, "providesDirectionalDerivatives"@)
    &&& v.providesAdjointDerivatives == bool_or_false(n, "providesAdjointDerivatives"@)
    &&& v.providesPerElementDependencies == bool_or_false(n, "providesPerElementDependencies"@)
    &&& v.range == n.range
}

impl ScheduledExecution {
    /// Reads a `<ScheduledExecution>` element.
    pub fn from_node(node: &XmlElement) -> (res: Result<ScheduledExecution, String>)
        ensures
            match res {
                Ok(v) => scheduled_execution_error(*node) is None && scheduled_execution_of(*node, v),
                Err(m) => scheduled_execution_error(*node) == Some(m@),
            },
    {
        let modelIdentifier = node.required_attribute_in("modelIdentifier")?;
        let needsExecutionTool = bool_or_default(node, "needsExecutionTool")?;
        let canBeInstantiatedOnlyOncePerProcess = bool_or_default(node, "canBeInstantiatedOnlyOncePerProcess")?;
        let canGetAndSetFMUState = bool_or_default(node, "canGetAndSetFMUState")?;
        let canSerializeFMUState = bool_or_default(node, "canSerializeFMUState")?;
        let providesDirectionalDerivatives = bool_or_default(node, "providesDirectionalDerivatives")?;
        let providesAdjointDerivatives = bool_or_default(node, "providesAdjointDerivatives")?;
        let providesPerElementDependencies = bool_or_default(node, "providesPerElementDependencies")?;
        Ok(ScheduledExecution { modelIdentifier, needsExecutionTool, canBeInstantiatedOnlyOncePerProcess, canGetAndSetFMUState, canSerializeFMUState, providesDirectionalDerivatives, providesAdjointDerivatives, providesPerElementDependencies, range: node.range.start..node.range.end })
    }
}

/// The default experiment that `n` describes.
pub open spec fn default_experiment_of(n: XmlElement, d: DefaultExperiment) -> bool {
    &&& d.startTime == n.spec_attribute("startTime"@)
    &&& d.stopTime == n.spec_attribute("stopTime"@)
    &&& d.tolerance == n.spec_attribute("tolerance"@)
    &&& d.stepSize == n.spec_attribute("stepSize"@)
    &&& d.range == n.range
}

impl DefaultExperiment {
    /// Reads a `<DefaultExperiment>` element.
    pub fn from_node(node: &XmlElement) -> (res: DefaultExperiment)
        ensures
            default_experiment_of(*node, res),
    {
        DefaultExperiment {
            startTime: node.attribute("startTime"),
            stopTime: node.attribute("stopTime"),
            tolerance: node.attribute("tolerance"),
            stepSize: node.attribute("stepSize"),
            range: node.range.start..node.range.end,
        }
    }
}

// ---------------------------------------------------------------------------
// Type definitions
// ---------------------------------------------------------------------------
/// The item that an `<Item>` element describes: its name, then its `value` as an
/// `i64`.
pub open spec fn spec_item(n: XmlElement) -> Result<Item, Seq<char>> {
    match n.spec_attribute("name"@) {
        None => Err(missing_attribute_message("name"@)),
        Some(name) => match n.spec_attribute("value"@) {
            None => Err(missing_attribute_message("value"@)),
            Some(v) => match parse_integer(v@, i64::MIN as int, i64::MAX as int) {
                Err(k) => Err(k.spec_message()),
                Ok(x) => Ok(
                    Item {
                        name,
                        value: x as i64,
                        description: n.spec_attribute("description"@),
                        range: n.range,
                    },
                ),
            },
        },
    }
}

impl Item {
    /// Reads an `<Item>` element of an enumeration type.
    pub fn from_node(node: &XmlElement) -> (res: Result<Item, String>)
        ensures
            match res {
                Ok(it) => spec_item(*node) == Ok::<Item, Seq<char>>(it),
                Err(m) => spec_item(*node) == Err::<Item, Seq<char>>(m@),
            },
    {
        let name = node.required_attribute("name")?;
        let description = node.attribute("description");
        let text = node.required_attribute("value")?;
        let cs = chars_of(text.as_str());
        let value = match parse_i64(cs.as_slice()) {
            Ok(v) => v,
            Err(k) => {
                return Err(k.message());
            },
        };
        Ok(Item { name, value, description, range: node.range.start..node.range.end })
    }
}

/// The first error among the items of an enumeration type.
pub open spec fn items_error(n: XmlElement) -> Option<Seq<char>> {
    first_error(n.spec_children("Item"@), |x: XmlElement| error_of(spec_item(x)), 0)
}

/// `items` are the items of an enumeration type, in order.
pub open spec fn items_of(n: XmlElement, items: Seq<Item>) -> bool {
    &&& items.len() == n.spec_children("Item"@).len()
    &&& forall|k: int|
        0 <= k < items.len() ==> spec_item(n.spec_children("Item"@)[k]) == Ok::<Item, Seq<char>>(
            #[trigger] items[k],
        )
}

fn read_items(n: &XmlElement) -> (res: Result<Vec<Item>, String>)
    ensures
        match res {
            Ok(v) => items_error(*n) is None && items_of(*n, v@),
            Err(m) => items_error(*n) == Some(m@),
        },
{
    let nodes = n.get_children("Item");
    let ghost spec_nodes = n.spec_children("Item"@);
    let mut out: Vec<Item> = Vec::new();
    let mut i: usize = 0;
    while i < nodes.len()
        invariant
            i <= nodes@.len(),
            nodes@.len() == spec_nodes.len(),
            spec_nodes == n.spec_children("Item"@),
            forall|k: int| 0 <= k < nodes@.len() ==> *(#[trigger] nodes@[k]) == spec_nodes[k],
            out@.len() == i,
            forall|k: int|
                0 <= k < i ==> spec_item(spec_nodes[k]) == Ok::<Item, Seq<char>>(#[trigger] out@[k]),
            first_error(spec_nodes, |x: XmlElement| error_of(spec_item(x)), i as nat)
                == first_error(spec_nodes, |x: XmlElement| error_of(spec_item(x)), 0),
        decreases nodes.len() - i,
    {
        let it = Item::from_node(nodes[i])?;
        out.push(it);
        i = i + 1;
    }
    Ok(out)
}

/// The kind of type definition that an element of `<TypeDefinitions>` declares by its
/// tag.
#[derive(Debug, PartialEq, Eq, Structural, Clone, Copy)]
pub enum TypeKind {
    Float32,
    Float64,
    Int8,
    UInt8,
    Int16,
    UInt16,
    Int32,
    UInt32,
    Int64,
    UInt64,
    Boolean,
    String,
    Binary,
    Enumeration,
    Other,
}

/// The kind of type definition that the tag `tag` declares.
pub open spec fn type_kind(tag: Seq<char>) -> TypeKind {
    if tag == "Float32Type"@ {
        TypeKind::Float32
    } else if tag == "Float64Type"@ {
        TypeKind::Float64
    } else if tag == "Int8Type"@ {
        TypeKind::Int8
    } else if tag == "UInt8Type"@ {
        TypeKind::UInt8
    } else if tag == "Int16Type"@ {
        TypeKind::Int16
    } else if tag == "UInt16Type"@ {
        TypeKind::UInt16
    } else if tag == "Int32Type"@ {
        TypeKind::Int32
    } else if tag == "UInt32Type"@ {
        TypeKind::UInt32
    } else if tag == "Int64Type"@ {
        TypeKind::Int64
    } else if tag == "UInt64Type"@ {
        TypeKind::UInt64
    } else if tag == "BooleanType"@ {
        TypeKind::Boolean
    } else if tag == "StringType"@ {
        TypeKind::String
    } else if tag == "BinaryType"@ {
        TypeKind::Binary
    } else if tag == "EnumerationType"@ {
        TypeKind::Enumeration
    } else {
        TypeKind::Other
    }
}

/// The first error in reading a type definition: its name, then the attributes of
/// its kind in the order of the fields.
pub open spec fn type_definition_error(n: XmlElement) -> Option<Seq<char>> {
    if n.spec_attribute("name"@) is None {
        Some(missing_attribute_message("name"@))
    } else {
        match type_kind(n.name@) {
            TypeKind::Float32 | TypeKind::Float64 => if bool_error(n, "relativeQuantity"@) {
                bool_message(n, "relativeQuantity"@)
            } else if bool_error(n, "unbounded"@) {
                bool_message(n, "unbounded"@)
            } else if float_message(n, "min"@) is Some {
                float_message(n, "min"@)
            } else if float_message(n, "max"@) is Some {
                float_message(n, "max"@)
            } else {
                float_message(n, "nominal"@)
            },
            TypeKind::Int8 => if int_message(n, "min"@, i8::MIN as int, i8::MAX as int) is Some {
                int_message(n, "min"@, i8::MIN as int, i8::MAX as int)
            } else {
                int_message(n, "max"@, i8::MIN as int, i8::MAX as int)
            },
            TypeKind::UInt8 => if int_message(n, "min"@, 0, u8::MAX as int) is Some {
                int_message(n, "min"@, 0, u8::MAX as int)
            } else {
                int_message(n, "max"@, 0, u8::MAX as int)
            },
            TypeKind::Int16 => if int_message(n, "min"@, i16::MIN as int, i16::MAX as int) is Some {
                int_message(n, "min"@, i16::MIN as int, i16::MAX as int)
            } else {
                int_message(n, "max"@, i16::MIN as int, i16::MAX as int)
            },
            TypeKind::UInt16 => if int_message(n, "min"@, 0, u16::MAX as int) is Some {
                int_message(n, "min"@, 0, u16::MAX as int)
            } else {
                int_message(n, "max"@, 0, u16::MAX as int)
            },
            TypeKind::Int32 => if int_message(n, "min"@, i32::MIN as int, i32::MAX as int) is Some {
                int_message(n, "min"@, i32::MIN as int, i32::MAX as int)
            } else {
                int_message(n, "max"@, i32::MIN as int, i32::MAX as int)
            },
            TypeKind::UInt32 => if int_message(n, "min"@, 0, u32::MAX as int) is Some {
                int_message(n, "min"@, 0, u32::MAX as int)
            } else {
                int_message(n, "max"@, 0, u32::MAX as int)
            },
            TypeKind::Int64 => if int_message(n, "min"@, i64::MIN as int, i64::MAX as int) is Some {
                int_message(n, "min"@, i64::MIN as int, i64::MAX as int)
            } else {
                int_message(n, "max"@, i64::MIN as int, i64::MAX as int)
            },
            TypeKind::UInt64 => if int_message(n, "min"@, 0, u64::MAX as int) is Some {
                int_message(n, "min"@, 0, u64::MAX as int)
            } else {
                int_message(n, "max"@, 0, u64::MAX as int)
            },
            TypeKind::Boolean | TypeKind::String => None,
            TypeKind::Binary => int_message(n, "maxSize"@, 0, u64::MAX as int),
            TypeKind::Enumeration => if items_error(n) is Some {
                items_error(n)
            } else if int_message(n, "min"@, i64::MIN as int, i64::MAX as int) is Some {
                int_message(n, "min"@, i64::MIN as int, i64::MAX as int)
            } else {
                int_message(n, "max"@, i64::MIN as int, i64::MAX as int)
            },
            TypeKind::Other => Some("Unknown type definition: "@ + n.name@),
        }
    }
}

/// `t` is the type definition that `n` describes.
pub open spec fn type_definition_of(n: XmlElement, t: TypeDefinition) -> bool {
    n.spec_attribute("name"@) matches Some(name) && match type_kind(n.name@) {
        TypeKind::Float32 => t == TypeDefinition::Float32 {
            name,
            description: n.spec_attribute("description"@),
            quantity: n.spec_attribute("quantity"@),
            unit: n.spec_attribute("unit"@),
            displayUnit: n.spec_attribute("displayUnit"@),
            relativeQuantity: bool_or_false(n, "relativeQuantity"@),
            unbounded: bool_or_false(n, "unbounded"@),
            min: opt_float(n, "min"@),
            max: opt_float(n, "max"@),
            nominal: opt_float(n, "nominal"@),
            range: n.range,
        },
        TypeKind::Float64 => t == TypeDefinition::Float64 {
            name,
            description: n.spec_attribute("description"@),
            quantity: n.spec_attribute("quantity"@),
            unit: n.spec_attribute("unit"@),
            displayUnit: n.spec_attribute("displayUnit"@),
            relativeQuantity: bool_or_false(n, "relativeQuantity"@),
            unbounded: bool_or_false(n, "unbounded"@),
            min: opt_float(n, "min"@),
            max: opt_float(n, "max"@),
            nominal: opt_float(n, "nominal"@),
            range: n.range,
        },
        TypeKind::Int8 => t == TypeDefinition::Int8 {
            name,
            description: n.spec_attribute("description"@),
            quantity: n.spec_attribute("quantity"@),
            min: as_i8(opt_int(n, "min"@, i8::MIN as int, i8::MAX as int)),
            max: as_i8(opt_int(n, "max"@, i8::MIN as int, i8::MAX as int)),
            range: n.range,
        },
        TypeKind::UInt8 => t == TypeDefinition::UInt8 {
            name,
            description: n.spec_attribute("description"@),
            quantity: n.spec_attribute("quantity"@),
            min: as_u8(opt_int(n, "min"@, 0, u8::MAX as int)),
            max: as_u8(opt_int(n, "max"@, 0, u8::MAX as int)),
            range: n.range,
        },
        TypeKind::Int16 => t == TypeDefinition::Int16 {
            name,
            description: n.spec_attribute("description"@),
            quantity: n.spec_attribute("quantity"@),
            min: as_i16(opt_int(n, "min"@, i16::MIN as int, i16::MAX as int)),
            max: as_i16(opt_int(n, "max"@, i16::MIN as int, i16::MAX as int)),
            range: n.range,
        },
        TypeKind::UInt16 => t == TypeDefinition::UInt16 {
            name,
            description: n.spec_attribute("description"@),
            quantity: n.spec_attribute("quantity"@),
            min: as_u16(opt_int(n, "min"@, 0, u16::MAX as int)),
            max: as_u16(opt_int(n, "max"@, 0, u16::MAX as int)),
            range: n.range,
        },
        TypeKind::Int32 => t == TypeDefinition::Int32 {
            name,
            description: n.spec_attribute("description"@),
            quantity: n.spec_attribute("quantity"@),
            min: as_i32(opt_int(n, "min"@, i32::MIN as int, i32::MAX as int)),
            max: as_i32(opt_int(n, "max"@, i32::MIN as int, i32::MAX as int)),
            range: n.range,
        },
        TypeKind::UInt32 => t == TypeDefinition::UInt32 {
            name,
            description: n.spec_attribute("description"@),
            quantity: n.spec_attribute("quantity"@),
            min: as_u32(opt_int(n, "min"@, 0, u32::MAX as int)),
            max: as_u32(opt_int(n, "max"@, 0, u32::MAX as int)),
            range: n.range,
        },
        TypeKind::Int64 => t == TypeDefinition::Int64 {
            name,
            description: n.spec_attribute("description"@),
            quantity: n.spec_attribute("quantity"@),
            min: as_i64(opt_int(n, "min"@, i64::MIN as int, i64::MAX as int)),
            max: as_i64(opt_int(n, "max"@, i64::MIN as int, i64::MAX as int)),
            range: n.range,
        },
        TypeKind::UInt64 => t == TypeDefinition::UInt64 {
            name,
            description: n.spec_attribute("description"@),
            quantity: n.spec_attribute("quantity"@),
            min: as_u64(opt_int(n, "min"@, 0, u64::MAX as int)),
            max: as_u64(opt_int(n, "max"@, 0, u64::MAX as int)),
            range: n.range,
        },
        TypeKind::Boolean => t == TypeDefinition::Boolean {
            name,
            description: n.spec_attribute("description"@),
            range: n.range,
        },
        TypeKind::String => t == TypeDefinition::String {
            name,
            description: n.spec_attribute("description"@),
            range: n.range,
        },
        TypeKind::Binary => t matches TypeDefinition::Binary {
            name: tn,
            description,
            mimeType,
            maxSize,
            range,
        } && tn == name && description == n.spec_attribute("description"@) && mimeType@ == (
        match n.spec_attribute("mimeType"@) {
            Some(m) => m@,
            None => "application/octet-stream"@,
        }) && maxSize == as_u64(opt_int(n, "maxSize"@, 0, u64::MAX as int)) && range == n.range,
        TypeKind::Enumeration => t matches TypeDefinition::Enumeration {
            name: tn,
            description,
            items,
            quantity,
            min,
            max,
            range,
        } && tn == name && description == n.spec_attribute("description"@) && items_of(n, items@)
            && quantity == n.spec_attribute("quantity"@) && min == as_i64(
            opt_int(n, "min"@, i64::MIN as int, i64::MAX as int),
        ) && max == as_i64(opt_int(n, "max"@, i64::MIN as int, i64::MAX as int)) && range
            == n.range,
        TypeKind::Other => false,
    }
}

/// The contract of the readers of type definitions.
pub open spec fn reads_type_definition(n: XmlElement, res: Result<TypeDefinition, String>) -> bool {
    match res {
        Ok(t) => type_definition_error(n) is None && type_definition_of(n, t),
        Err(m) => type_definition_error(n) == Some(m@),
    }
}

fn read_float32_type(node: &XmlElement, name: String, description: Option<String>) -> (res:
    Result<TypeDefinition, String>)
    requires
        type_kind(node.name@) == TypeKind::Float32,
        node.spec_attribute("name"@) == Some(name),
        description == node.spec_attribute("description"@),
    ensures
        reads_type_definition(*node, res),
{
    let relativeQuantity = bool_or_default(node, "relativeQuantity")?;
    let unbounded = bool_or_default(node, "unbounded")?;
    let min = node.attribute_as_float("min")?;
    let max = node.attribute_as_float("max")?;
    let nominal = node.attribute_as_float("nominal")?;
    Ok(
        TypeDefinition::Float32 {
            name,
            description,
            quantity: node.attribute("quantity"),
            unit: node.attribute("unit"),
            displayUnit: node.attribute("displayUnit"),
            relativeQuantity,
            unbounded,
            min,
            max,
            nominal,
            range: node.range.start..node.range.end,
        },
    )
}

fn read_float64_type(node: &XmlElement, name: String, description: Option<String>) -> (res:
    Result<TypeDefinition, String>)
    requires
        type_kind(node.name@) == TypeKind::Float64,
        node.spec_attribute("name"@) == Some(name),
        description == node.spec_attribute("description"@),
    ensures
        reads_type_definition(*node, res),
{
    let relativeQuantity = bool_or_default(node, "relativeQuantity")?;
    let unbounded = bool_or_default(node, "unbounded")?;
    let min = node.attribute_as_float("min")?;
    let max = node.attribute_as_float("max")?;
    let nominal = node.attribute_as_float("nominal")?;
    Ok(
        TypeDefinition::Float64 {
            name,
            description,
            quantity: node.attribute("quantity"),
            unit: node.attribute("unit"),
            displayUnit: node.attribute("displayUnit"),
            relativeQuantity,
            unbounded,
            min,
            max,
            nominal,
            range: node.range.start..node.range.end,
        },
    )
}

fn read_int8_type(node: &XmlElement, name: String, description: Option<String>) -> (res:
    Result<TypeDefinition, String>)
    requires
        type_kind(node.name@) == TypeKind::Int8,
        node.spec_attribute("name"@) == Some(name),
        description == node.spec_attribute("description"@),
    ensures
        reads_type_definition(*node, res),
{
    let min = i8_attribute(node, "min")?;
    let max = i8_attribute(node, "max")?;
    Ok(
        TypeDefinition::Int8 {
            name,
            description,
            quantity: node.attribute("quantity"),
            min,
            max,
            range: node.range.start..node.range.end,
        },
    )
}

fn read_uint8_type(node: &XmlElement, name: String, description: Option<String>) -> (res:
    Result<TypeDefinition, String>)
    requires
        type_kind(node.name@) == TypeKind::UInt8,
        node.spec_attribute("name"@) == Some(name),
        description == node.spec_attribute("description"@),
    ensures
        reads_type_definition(*node, res),
{
    let min = u8_attribute(node, "min")?;
    let max = u8_attribute(node, "max")?;
    Ok(
        TypeDefinition::UInt8 {
            name,
            description,
            quantity: node.attribute("quantity"),
            min,
            max,
            range: node.range.start..node.range.end,
        },
    )
}

fn read_int16_type(node: &XmlElement, name: String, description: Option<String>) -> (res:
    Result<TypeDefinition, String>)
    requires
        type_kind(node.name@) == TypeKind::Int16,
        node.spec_attribute("name"@) == Some(name),
        description == node.spec_attribute("description"@),
    ensures
        reads_type_definition(*node, res),
{
    let min = i16_attribute(node, "min")?;
    let max = i16_attribute(node, "max")?;
    Ok(
        TypeDefinition::Int16 {
            name,
            description,
            quantity: node.attribute("quantity"),
            min,
            max,
            range: node.range.start..node.range.end,
        },
    )
}

fn read_uint16_type(node: &XmlElement, name: String, description: Option<String>) -> (res:
    Result<TypeDefinition, String>)
    requires
        type_kind(node.name@) == TypeKind::UInt16,
        node.spec_attribute("name"@) == Some(name),
        description == node.spec_attribute("description"@),
    ensures
        reads_type_definition(*node, res),
{
    let min = u16_attribute(node, "min")?;
    let max = u16_attribute(node, "max")?;
    Ok(
        TypeDefinition::UInt16 {
            name,
            description,
            quantity: node.attribute("quantity"),
            min,
            max,
            range: node.range.start..node.range.end,
        },
    )
}

fn read_int32_type(node: &XmlElement, name: String, description: Option<String>) -> (res:
    Result<TypeDefinition, String>)
    requires
        type_kind(node.name@) == TypeKind::Int32,
        node.spec_attribute("name"@) == Some(name),
        description == node.spec_attribute("description"@),
    ensures
        reads_type_definition(*node, res),
{
    let min = i32_attribute(node, "min")?;
    let max = i32_attribute(node, "max")?;
    Ok(
        TypeDefinition::Int32 {
            name,
            description,
            quantity: node.attribute("quantity"),
            min,
            max,
            range: node.range.start..node.range.end,
        },
    )
}

fn read_uint32_type(node: &XmlElement, name: String, description: Option<String>) -> (res:
    Result<TypeDefinition, String>)
    requires
        type_kind(node.name@) == TypeKind::UInt32,
        node.spec_attribute("name"@) == Some(name),
        description == node.spec_attribute("description"@),
    ensures
        reads_type_definition(*node, res),
{
    let min = u32_attribute(node, "min")?;
    let max = u32_attribute(node, "max")?;
    Ok(
        TypeDefinition::UInt32 {
            name,
            description,
            quantity: node.attribute("quantity"),
            min,
            max,
            range: node.range.start..node.range.end,
        },
    )
}

fn read_int64_type(node: &XmlElement, name: String, description: Option<String>) -> (res:
    Result<TypeDefinition, String>)
    requires
        type_kind(node.name@) == TypeKind::Int64,
        node.spec_attribute("name"@) == Some(name),
        description == node.spec_attribute("description"@),
    ensures
        reads_type_definition(*node, res),
{
    let min = i64_attribute(node, "min")?;
    let max = i64_attribute(node, "max")?;
    Ok(
        TypeDefinition::Int64 {
            name,
            description,
            quantity: node.attribute("quantity"),
            min,
            max,
            range: node.range.start..node.range.end,
        },
    )
}

fn read_uint64_type(node: &XmlElement, name: String, description: Option<String>) -> (res:
    Result<TypeDefinition, String>)
    requires
        type_kind(node.name@) == TypeKind::UInt64,
        node.spec_attribute("name"@) == Some(name),
        description == node.spec_attribute("description"@),
    ensures
        reads_type_definition(*node, res),
{
    let min = u64_attribute(node, "min")?;
    let max = u64_attribute(node, "max")?;
    Ok(
        TypeDefinition::UInt64 {
            name,
            description,
            quantity: node.attribute("quantity"),
            min,
            max,
            range: node.range.start..node.range.end,
        },
    )
}

fn read_binary_type(node: &XmlElement, name: String, description: Option<String>) -> (res: Result<
    TypeDefinition,
    String,
>)
    requires
        type_kind(node.name@) == TypeKind::Binary,
        node.spec_attribute("name"@) == Some(name),
        description == node.spec_attribute("description"@),
    ensures
        reads_type_definition(*node, res),
{
    let mimeType = match node.attribute("mimeType") {
        Some(m) => m,
        None => owned("application/octet-stream"),
    };
    let maxSize = u64_attribute(node, "maxSize")?;
    Ok(
        TypeDefinition::Binary {
            name,
            description,
            mimeType,
            maxSize,
            range: node.range.start..node.range.end,
        },
    )
}

fn read_enumeration_type(node: &XmlElement, name: String, description: Option<String>) -> (res:
    Result<TypeDefinition, String>)
    requires
        type_kind(node.name@) == TypeKind::Enumeration,
        node.spec_attribute("name"@) == Some(name),
        description == node.spec_attribute("description"@),
    ensures
        reads_type_definition(*node, res),
{
    let items = read_items(node)?;
    let quantity = node.attribute("quantity");
    let min = i64_attribute(node, "min")?;
    let max = i64_attribute(node, "max")?;
    Ok(
        TypeDefinition::Enumeration {
            name,
            description,
            items,
            quantity,
            min,
            max,
            range: node.range.start..node.range.end,
        },
    )
}

impl TypeDefinition {
    /// Reads an element of `<TypeDefinitions>` from its tag and its attributes.
    pub fn from_node(node: &XmlElement) -> (res: Result<TypeDefinition, String>)
        ensures
            reads_type_definition(*node, res),
    {
        let name = node.required_attribute("name")?;
        let description = node.attribute("description");
        if node.has_tag_name("Float32Type") {
            read_float32_type(node, name, description)
        } else if node.has_tag_name("Float64Type") {
            read_float64_type(node, name, description)
        } else if node.has_tag_name("Int8Type") {
            read_int8_type(node, name, description)
        } else if node.has_tag_name("UInt8Type") {
            read_uint8_type(node, name, description)
        } else if node.has_tag_name("Int16Type") {
            read_int16_type(node, name, description)
        } else if node.has_tag_name("UInt16Type") {
            read_uint16_type(node, name, description)
        } else if node.has_tag_name("Int32Type") {
            read_int32_type(node, name, description)
        } else if node.has_tag_name("UInt32Type") {
            read_uint32_type(node, name, description)
        } else if node.has_tag_name("Int64Type") {
            read_int64_type(node, name, description)
        } else if node.has_tag_name("UInt64Type") {
            read_uint64_type(node, name, description)
        } else if node.has_tag_name("BooleanType") {
            Ok(
                TypeDefinition::Boolean {
                    name,
                    description,
                    range: node.range.start..node.range.end,
                },
            )
        } else if node.has_tag_name("StringType") {
            Ok(
                TypeDefinition::String {
                    name,
                    description,
                    range: node.range.start..node.range.end,
                },
            )
        } else if node.has_tag_name("BinaryType") {
            read_binary_type(node, name, description)
        } else if node.has_tag_name("EnumerationType") {
            read_enumeration_type(node, name, description)
        } else {
            let mut m = owned("Unknown type definition: ");
            push_str(&mut m, node.name.as_str());
            Err(m)
        }
    }
}

// ---------------------------------------------------------------------------
// The model description
// ---------------------------------------------------------------------------
/// The element children of `<ModelVariables>`.
pub open spec fn variable_nodes(root: XmlElement) -> Seq<XmlElement> {
    match root.spec_child("ModelVariables"@) {
        Some(mv) => mv.spec_elements(),
        None => seq![],
    }
}

/// The first error among the model variables.
pub open spec fn variables_error(root: XmlElement) -> Option<Seq<char>> {
    first_error(variable_nodes(root), |n: XmlElement| model_variable_error(n), 0)
}

/// `vs` are the model variables of `root`, in order.
pub open spec fn variables_of(root: XmlElement, vs: Seq<ModelVariable>) -> bool {
    &&& vs.len() == variable_nodes(root).len()
    &&& forall|k: int| 0 <= k < vs.len() ==> model_variable_of(variable_nodes(root)[k], #[trigger] vs[k])
}

fn read_variables(root: &XmlElement, mv: &XmlElement) -> (res: Result<Vec<ModelVariable>, String>)
    requires
        root.spec_child("ModelVariables"@) == Some(*mv),
    ensures
        match res {
            Ok(v) => variables_error(*root) is None && variables_of(*root, v@),
            Err(m) => variables_error(*root) == Some(m@),
        },
{
    let nodes = mv.elements();
    let ghost spec_nodes = variable_nodes(*root);
    let mut out: Vec<ModelVariable> = Vec::new();
    let mut i: usize = 0;
    while i < nodes.len()
        invariant
            i <= nodes@.len(),
            nodes@.len() == spec_nodes.len(),
            spec_nodes == variable_nodes(*root),
            forall|k: int| 0 <= k < nodes@.len() ==> *(#[trigger] nodes@[k]) == spec_nodes[k],
            out@.len() == i,
            forall|k: int| 0 <= k < i ==> model_variable_of(spec_nodes[k], #[trigger] out@[k]),
            first_error(spec_nodes, |n: XmlElement| model_variable_error(n), i as nat)
                == first_error(spec_nodes, |n: XmlElement| model_variable_error(n), 0),
        decreases nodes.len() - i,
    {
        let v = ModelVariable::from_node(nodes[i])?;
        out.push(v);
        i = i + 1;
    }
    Ok(out)
}

/// The `<Unit>` elements of `<UnitDefinitions>`.
pub open spec fn unit_nodes(root: XmlElement) -> Seq<XmlElement> {
    match root.spec_child("UnitDefinitions"@) {
        Some(c) => c.spec_children("Unit"@),
        None => seq![],
    }
}

/// The first error among the unit definitions.
pub open spec fn units_error(root: XmlElement) -> Option<Seq<char>> {
    first_error(unit_nodes(root), |n: XmlElement| unit_error(n), 0)
}

/// `us` are the unit definitions of `root`, in order.
pub open spec fn units_of(root: XmlElement, us: Seq<Unit>) -> bool {
    &&& us.len() == unit_nodes(root).len()
    &&& forall|k: int| 0 <= k < us.len() ==> unit_of(unit_nodes(root)[k], #[trigger] us[k])
}

fn read_units(root: &XmlElement) -> (res: Result<Vec<Unit>, String>)
    ensures
        match res {
            Ok(v) => units_error(*root) is None && units_of(*root, v@),
            Err(m) => units_error(*root) == Some(m@),
        },
{
    let nodes: Vec<&XmlElement> = match root.get_child("UnitDefinitions") {
        Some(c) => c.get_children("Unit"),
        None => Vec::new(),
    };
    let ghost spec_nodes = unit_nodes(*root);
    let mut out: Vec<Unit> = Vec::new();
    let mut i: usize = 0;
    while i < nodes.len()
        invariant
            i <= nodes@.len(),
            nodes@.len() == spec_nodes.len(),
            spec_nodes == unit_nodes(*root),
            forall|k: int| 0 <= k < nodes@.len() ==> *(#[trigger] nodes@[k]) == spec_nodes[k],
            out@.len() == i,
            forall|k: int| 0 <= k < i ==> unit_of(spec_nodes[k], #[trigger] out@[k]),
            first_error(spec_nodes, |n: XmlElement| unit_error(n), i as nat) == first_error(
                spec_nodes,
                |n: XmlElement| unit_error(n),
                0,
            ),
        decreases nodes.len() - i,
    {
        let u = Unit::from_node(nodes[i])?;
        out.push(u);
        i = i + 1;
    }
    Ok(out)
}

/// Whether a tag name ends with `Type`.
pub open spec fn ends_with_type(name: Seq<char>) -> bool {
    name.len() >= 4 && name.subrange(name.len() - 4, name.len() as int) == "Type"@
}

/// The child elements among `nodes[..n]` whose tag ends with `Type`, in order.
pub open spec fn type_nodes_in(nodes: Seq<XmlNode>, n: nat) -> Seq<XmlElement>
    decreases n,
{
    if n == 0 || n > nodes.len() {
        seq![]
    } else {
        let before = type_nodes_in(nodes, (n - 1) as nat);
        match nodes[n - 1] {
            XmlNode::Element(c) => if ends_with_type(c.name@) {
                before.push(c)
            } else {
                before
            },
            XmlNode::Other(_) => before,
        }
    }
}

/// The type definition elements: the children of `<TypeDefinitions>` whose tag ends
/// with `Type`.
pub open spec fn type_nodes(root: XmlElement) -> Seq<XmlElement> {
    match root.spec_child("TypeDefinitions"@) {
        Some(t) => type_nodes_in(t.children@, t.children@.len()),
        None => seq![],
    }
}

/// The first error among the type definitions.
pub open spec fn types_error(root: XmlElement) -> Option<Seq<char>> {
    first_error(type_nodes(root), |n: XmlElement| type_definition_error(n), 0)
}

/// `ts` are the type definitions of `root`, in order.
pub open spec fn types_of(root: XmlElement, ts: Seq<TypeDefinition>) -> bool {
    &&& ts.len() == type_nodes(root).len()
    &&& forall|k: int| 0 <= k < ts.len() ==> type_definition_of(type_nodes(root)[k], #[trigger] ts[k])
}

fn tag_ends_with_type(e: &XmlElement) -> (res: bool)
    ensures
        res == ends_with_type(e.name@),
{
    let cs = chars_of(e.name.as_str());
    let n = cs.len();
    proof {
        reveal_strlit("Type");
    }
    if n >= 4 && cs[n - 4] == 'T' && cs[n - 3] == 'y' && cs[n - 2] == 'p' && cs[n - 1] == 'e' {
        assert(e.name@.subrange(n - 4, n as int) =~= "Type"@);
        true
    } else {
        proof {
            if e.name@.len() >= 4 && e.name@.subrange(n - 4, n as int) == "Type"@ {
                assert(e.name@.subrange(n - 4, n as int)[0] == 'T');
                assert(e.name@.subrange(n - 4, n as int)[1] == 'y');
                assert(e.name@.subrange(n - 4, n as int)[2] == 'p');
                assert(e.name@.subrange(n - 4, n as int)[3] == 'e');
            }
        }
        false
    }
}

fn type_node_list(root: &XmlElement) -> (res: Vec<&XmlElement>)
    ensures
        res@.len() == type_nodes(*root).len(),
        forall|k: int| 0 <= k < res@.len() ==> *(#[trigger] res@[k]) == type_nodes(*root)[k],
{
    let mut found: Vec<&XmlElement> = Vec::new();
    match root.get_child("TypeDefinitions") {
        None => {},
        Some(t) => {
            let mut i: usize = 0;
            while i < t.children.len()
                invariant
                    i <= t.children@.len(),
                    root.spec_child("TypeDefinitions"@) == Some(*t),
                    found@.len() == type_nodes_in(t.children@, i as nat).len(),
                    forall|k: int|
                        0 <= k < found@.len() ==> *(#[trigger] found@[k]) == type_nodes_in(
                            t.children@,
                            i as nat,
                        )[k],
                decreases t.children.len() - i,
            {
                match &t.children[i] {
                    XmlNode::Element(c) => {
                        if tag_ends_with_type(c) {
                            found.push(c);
                        }
                    },
                    XmlNode::Other(_) => {},
                }
                i = i + 1;
            }
        },
    }
    found
}

fn read_types(root: &XmlElement) -> (res: Result<Vec<TypeDefinition>, String>)
    ensures
        match res {
            Ok(v) => types_error(*root) is None && types_of(*root, v@),
            Err(m) => types_error(*root) == Some(m@),
        },
{
    let nodes = type_node_list(root);
    let ghost spec_nodes = type_nodes(*root);
    let mut out: Vec<TypeDefinition> = Vec::new();
    let mut i: usize = 0;
    while i < nodes.len()
        invariant
            i <= nodes@.len(),
            nodes@.len() == spec_nodes.len(),
            spec_nodes == type_nodes(*root),
            forall|k: int| 0 <= k < nodes@.len() ==> *(#[trigger] nodes@[k]) == spec_nodes[k],
            out@.len() == i,
            forall|k: int| 0 <= k < i ==> type_definition_of(spec_nodes[k], #[trigger] out@[k]),
            first_error(spec_nodes, |n: XmlElement| type_definition_error(n), i as nat)
                == first_error(spec_nodes, |n: XmlElement| type_definition_error(n), 0),
        decreases nodes.len() - i,
    {
        let t = TypeDefinition::from_node(nodes[i])?;
        out.push(t);
        i = i + 1;
    }
    Ok(out)
}

/// The error in reading the optional child `name` of `root` with `error`, if any.
pub open spec fn child_error(
    root: XmlElement,
    name: Seq<char>,
    error: spec_fn(XmlElement) -> Option<Seq<char>>,
) -> Option<Seq<char>> {
    match root.spec_child(name) {
        Some(n) => error(n),
        None => None,
    }
}

/// The naming convention that `root` gives, `flat` where it gives none.
pub open spec fn spec_naming_convention(root: XmlElement) -> Result<
    VariableNamingConvention,
    Seq<char>,
> {
    match root.spec_attribute("variableNamingConvention"@) {
        None => Ok(VariableNamingConvention::Flat),
        Some(s) => match VariableNamingConvention::spec_from_name(s@) {
            Some(c) => Ok(c),
            None => Err(illegal_value_message(root, "variableNamingConvention"@, s@)),
        },
    }
}

/// Whether an `fmiVersion` is a 3.x version.
pub open spec fn is_version_3(v: Seq<char>) -> bool {
    v.len() >= 2 && v.take(2) == "3."@
}

/// The first error in reading an FMI 3.0 model description from its root element,
/// in the order in which the reader meets them.
pub open spec fn model_description_error(root: XmlElement) -> Option<Seq<char>> {
    match root.spec_attribute("fmiVersion"@) {
        None => Some("Missing attribute 'fmiVersion'"@),
        Some(v) => if !is_version_3(v@) {
            Some("Expected FMI version 3.*, but was "@ + v@)
        } else if root.spec_child("ModelVariables"@) is None {
            Some(missing_element_message(root, "ModelVariables"@))
        } else if variables_error(root) is Some {
            variables_error(root)
        } else if categories_error(root) is Some {
            categories_error(root)
        } else if child_error(root, "ModelExchange"@, |n: XmlElement| model_exchange_error(n)) is Some {
            child_error(root, "ModelExchange"@, |n: XmlElement| model_exchange_error(n))
        } else if child_error(root, "CoSimulation"@, |n: XmlElement| co_simulation_error(n)) is Some {
            child_error(root, "CoSimulation"@, |n: XmlElement| co_simulation_error(n))
        } else if child_error(
            root,
            "ScheduledExecution"@,
            |n: XmlElement| scheduled_execution_error(n),
        ) is Some {
            child_error(root, "ScheduledExecution"@, |n: XmlElement| scheduled_execution_error(n))
        } else if units_error(root) is Some {
            units_error(root)
        } else if types_error(root) is Some {
            types_error(root)
        } else if unknowns_error(root, "Output"@) is Some {
            unknowns_error(root, "Output"@)
        } else if unknowns_error(root, "ContinuousStateDerivative"@) is Some {
            unknowns_error(root, "ContinuousStateDerivative"@)
        } else if unknowns_error(root, "ClockedState"@) is Some {
            unknowns_error(root, "ClockedState"@)
        } else if unknowns_error(root, "InitialUnknown"@) is Some {
            unknowns_error(root, "InitialUnknown"@)
        } else if unknowns_error(root, "EventIndicator"@) is Some {
            unknowns_error(root, "EventIndicator"@)
        } else if root.spec_attribute("modelName"@) is None {
            Some(missing_attribute_message("modelName"@))
        } else if root.spec_attribute("instantiationToken"@) is None {
            Some(missing_attribute_message("instantiationToken"@))
        } else {
            error_of(spec_naming_convention(root))
        },
    }
}

/// `md` is the model description that `root` describes.
pub open spec fn model_description_of(root: XmlElement, md: ModelDescription) -> bool {
    &&& root.spec_attribute("fmiVersion"@) == Some(md.fmiVersion)
    &&& root.spec_attribute("modelName"@) == Some(md.modelName)
    &&& root.spec_attribute("instantiationToken"@) == Some(md.instantiationToken)
    &&& md.description == root.spec_attribute("description"@)
    &&& md.author == root.spec_attribute("author"@)
    &&& md.version == root.spec_attribute("version"@)
    &&& md.copyright == root.spec_attribute("copyright"@)
    &&& md.license == root.spec_attribute("license"@)
    &&& md.generationTool == root.spec_attribute("generationTool"@)
    &&& md.generationDateAndTime == root.spec_attribute("generationDateAndTime"@)
    &&& spec_naming_convention(root) == Ok::<VariableNamingConvention, Seq<char>>(
        md.variableNamingConvention,
    )
    &&& categories_of(root, md.logCategories@)
    &&& match root.spec_child("DefaultExperiment"@) {
        Some(n) => md.defaultExperiment matches Some(d) && default_experiment_of(n, d),
        None => md.defaultExperiment is None,
    }
    &&& match root.spec_child("ModelExchange"@) {
        Some(n) => md.modelExchange matches Some(me) && model_exchange_of(n, me),
        None => md.modelExchange is None,
    }
    &&& match root.spec_child("CoSimulation"@) {
        Some(n) => md.coSimulation matches Some(cs) && co_simulation_of(n, cs),
        None => md.coSimulation is None,
    }
    &&& match root.spec_child("ScheduledExecution"@) {
        Some(n) => md.scheduledExecution matches Some(se) && scheduled_execution_of(n, se),
        None => md.scheduledExecution is None,
    }
    &&& units_of(root, md.unitDefinitions@)
    &&& types_of(root, md.typeDefinitions@)
    &&& variables_of(root, md.modelVariables@)
    &&& unknowns_of(root, "Output"@, md.outputs@)
    &&& unknowns_of(root, "ContinuousStateDerivative"@, md.derivatives@)
    &&& unknowns_of(root, "ClockedState"@, md.clockedStates@)
    &&& unknowns_of(root, "InitialUnknown"@, md.initialUnknowns@)
    &&& unknowns_of(root, "EventIndicator"@, md.eventIndicators@)
}

fn naming_convention_of(root: &XmlElement) -> (res: Result<VariableNamingConvention, String>)
    ensures
        match res {
            Ok(c) => spec_naming_convention(*root) == Ok::<VariableNamingConvention, Seq<char>>(c),
            Err(m) => spec_naming_convention(*root) == Err::<VariableNamingConvention, Seq<char>>(
                m@,
            ),
        },
{
    match root.attribute("variableNamingConvention") {
        None => Ok(VariableNamingConvention::Flat),
        Some(s) => match VariableNamingConvention::from_name(s.as_str()) {
            Ok(c) => Ok(c),
            Err(_) => Err(root.illegal_value("variableNamingConvention", s.as_str())),
        },
    }
}

fn version_is_3(v: &String) -> (res: bool)
    ensures
        res == is_version_3(v@),
{
    let cs = chars_of(v.as_str());
    proof {
        reveal_strlit("3.");
    }
    if cs.len() >= 2 && cs[0] == '3' && cs[1] == '.' {
        assert(v@.take(2) =~= "3."@);
        true
    } else {
        proof {
            if v@.len() >= 2 && v@.take(2) == "3."@ {
                assert(v@.take(2)[0] == '3');
                assert(v@.take(2)[1] == '.');
            }
        }
        false
    }
}

impl ModelDescription {
    /// Reads an FMI 3.0 model description from the root element of its document.
    pub fn from_node(root: &XmlElement) -> (res: Result<ModelDescription, String>)
        ensures
            match res {
                Ok(md) => model_description_error(*root) is None && model_description_of(*root, md),
                Err(m) => model_description_error(*root) == Some(m@),
            },
    {
        let fmiVersion = match root.attribute("fmiVersion") {
            Some(v) => {
                if !version_is_3(&v) {
                    let mut m = owned("Expected FMI version 3.*, but was ");
                    push_str(&mut m, v.as_str());
                    return Err(m);
                }
                v
            },
            None => {
                return Err(owned("Missing attribute 'fmiVersion'"));
            },
        };
        let mv = root.get_required_child("ModelVariables")?;
        let modelVariables = read_variables(root, mv)?;
        let logCategories = read_categories(root)?;
        let defaultExperiment = match root.get_child("DefaultExperiment") {
            Some(n) => Some(DefaultExperiment::from_node(n)),
            None => None,
        };
        let modelExchange = match root.get_child("ModelExchange") {
            Some(n) => Some(ModelExchange::from_node(n)?),
            None => None,
        };
        let coSimulation = match root.get_child("CoSimulation") {
            Some(n) => Some(CoSimulation::from_node(n)?),
            None => None,
        };
        let scheduledExecution = match root.get_child("ScheduledExecution") {
            Some(n) => Some(ScheduledExecution::from_node(n)?),
            None => None,
        };
        let unitDefinitions = read_units(root)?;
        let typeDefinitions = read_types(root)?;
        let outputs = get_unknowns(root, "Output")?;
        let derivatives = get_unknowns(root, "ContinuousStateDerivative")?;
        let clockedStates = get_unknowns(root, "ClockedState")?;
        let initialUnknowns = get_unknowns(root, "InitialUnknown")?;
        let eventIndicators = get_unknowns(root, "EventIndicator")?;
        let modelName = root.required_attribute("modelName")?;
        let instantiationToken = root.required_attribute("instantiationToken")?;
        let variableNamingConvention = naming_convention_of(root)?;
        Ok(
            ModelDescription {
                fmiVersion,
                modelName,
                instantiationToken,
                description: root.attribute("description"),
                author: root.attribute("author"),
                version: root.attribute("version"),
                copyright: root.attribute("copyright"),
                license: root.attribute("license"),
                generationTool: root.attribute("generationTool"),
                generationDateAndTime: root.attribute("generationDateAndTime"),
                variableNamingConvention,
                logCategories,
                defaultExperiment,
                modelExchange,
                coSimulation,
                scheduledExecution,
                unitDefinitions,
                typeDefinitions,
                modelVariables,
                outputs,
                derivatives,
                clockedStates,
                eventIndicators,
                initialUnknowns,
            },
        )
    }

    /// Reads an FMI 3.0 model description from the text of its document.
    pub fn from_string(text: &str) -> (res: Result<ModelDescription, String>)
        ensures
            match xml_document(text@) {
                Err(e) => res matches Err(m) && m@ == e,
                Ok(root) => match res {
                    Ok(md) => model_description_error(root) is None && model_description_of(
                        root,
                        md,
                    ),
                    Err(m) => model_description_error(root) == Some(m@),
                },
            },
    {
        let root = parse_xml(text)?;
        ModelDescription::from_node(&root)
    }
}

} // verus!
