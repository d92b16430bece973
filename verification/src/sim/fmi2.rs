//! Calls of an FMI 2.0 FMU and the values of its variables.
use vstd::prelude::*;
use vstd::string::*;

use crate::fmi2::types::{fmi2Boolean, fmi2False, fmi2Integer, fmi2Status, fmi2True};
use crate::model_description::fmi2::{ModelDescription, ScalarVariable, VariableType};
use crate::text::{
    chars_of, i64_to_decimal, is_float_literal, is_float_literal_chars, owned, parse_i32,
    parse_integer, push_str, signed_decimal, decimal, lemma_parse_signed_decimal,
};

verus! {

/// The message for a call that failed with `status`.
pub open spec fn call_failed_message(status: Seq<char>) -> Seq<char> {
    "FMI call failed with status: "@ + status
}

/// Passes on the status of a call that succeeded (`fmi2OK` or `fmi2Warning`); any
/// other status is an error.
pub fn call(status: fmi2Status) -> (res: Result<fmi2Status, String>)
    ensures
        match res {
            Ok(s) => s == status && (status == fmi2Status::fmi2OK || status
                == fmi2Status::fmi2Warning),
            Err(m) => status != fmi2Status::fmi2OK && status != fmi2Status::fmi2Warning && m@
                == call_failed_message(status.spec_debug_name()),
        },
{
    if status == fmi2Status::fmi2OK || status == fmi2Status::fmi2Warning {
        Ok(status)
    } else {
        let mut m = owned("FMI call failed with status: ");
        let name = status.debug_name();
        push_str(&mut m, name.as_str());
        Err(m)
    }
}

/// The FMI 2 Boolean that a literal names: `true` or `1`, `false` or `0`.
pub open spec fn spec_parse_boolean(literal: Seq<char>) -> Result<fmi2Boolean, Seq<char>> {
    if literal == "true"@ || literal == "1"@ {
        Ok(fmi2True)
    } else if literal == "false"@ || literal == "0"@ {
        Ok(fmi2False)
    } else {
        Err("Invalid boolean literal: "@ + literal)
    }
}

/// Reads an FMI 2 Boolean: `true` or `1`, `false` or `0`.
pub fn parse_boolean(literal: &str) -> (res: Result<fmi2Boolean, String>)
    ensures
        match res {
            Ok(b) => spec_parse_boolean(literal@) == Ok::<fmi2Boolean, Seq<char>>(b),
            Err(m) => spec_parse_boolean(literal@) == Err::<fmi2Boolean, Seq<char>>(m@),
        },
{
    let key = owned(literal);
    if key == owned("true") || key == owned("1") {
        Ok(fmi2True)
    } else if key == owned("false") || key == owned("0") {
        Ok(fmi2False)
    } else {
        let mut m = owned("Invalid boolean literal: ");
        push_str(&mut m, literal);
        Err(m)
    }
}

/// The value of a variable. A Real value is kept as its literal, which
/// `str::parse::<f64>` accepts.
#[derive(Debug, PartialEq)]
pub enum VariableValue {
    Real(String),
    Integer(fmi2Integer),
    Boolean(fmi2Boolean),
    String(String),
}

impl VariableValue {
    /// The literal of the value: a Real as its literal, an Integer or a Boolean in
    /// decimal, a String as it is.
    pub open spec fn spec_literal(&self) -> Seq<char> {
        match self {
            VariableValue::Real(v) => v@,
            VariableValue::Integer(v) => signed_decimal(*v as int),
            VariableValue::Boolean(v) => signed_decimal(*v as int),
            VariableValue::String(v) => v@,
        }
    }

    /// The literal of the value.
    pub fn to_literal(&self) -> (res: String)
        ensures
            res@ == self.spec_literal(),
    {
        match self {
            VariableValue::Real(v) => owned(v.as_str()),
            VariableValue::Integer(v) => i64_to_decimal(*v as i64),
            VariableValue::Boolean(v) => i64_to_decimal(*v as i64),
            VariableValue::String(v) => owned(v.as_str()),
        }
    }
}

/// Why a floating-point literal is refused, as `ParseFloatError` says it.
pub open spec fn float_error(literal: Seq<char>) -> Option<Seq<char>> {
    if literal.len() == 0 {
        Some("cannot parse float from empty string"@)
    } else if !is_float_literal(literal) {
        Some("invalid float literal"@)
    } else {
        None
    }
}

/// The error in reading `literal` as a value of a variable of type `t`, if any.
pub open spec fn value_error(t: VariableType, literal: Seq<char>) -> Option<Seq<char>> {
    match t {
        VariableType::Real { .. } => float_error(literal),
        VariableType::Integer { .. } | VariableType::Enumeration { .. } => match parse_integer(
            literal,
            i32::MIN as int,
            i32::MAX as int,
        ) {
            Ok(_) => None,
            Err(k) => Some(k.spec_message()),
        },
        VariableType::Boolean { .. } => match spec_parse_boolean(literal) {
            Ok(_) => None,
            Err(m) => Some(m),
        },
        VariableType::String { .. } => None,
    }
}

/// `v` is the value that `literal` gives a variable of type `t`.
pub open spec fn value_of(t: VariableType, literal: Seq<char>, v: VariableValue) -> bool {
    match t {
        VariableType::Real { .. } => v matches VariableValue::Real(x) && x@ == literal,
        VariableType::Integer { .. } | VariableType::Enumeration { .. } => v matches VariableValue::Integer(
            x,
        ) && parse_integer(literal, i32::MIN as int, i32::MAX as int) == Ok::<int, crate::text::IntErrorKind>(x as int),
        VariableType::Boolean { .. } => v matches VariableValue::Boolean(x) && spec_parse_boolean(
            literal,
        ) == Ok::<fmi2Boolean, Seq<char>>(x),
        VariableType::String { .. } => v matches VariableValue::String(x) && x@ == literal,
    }
}

/// Reads the value of a variable of the given type from its literal.
pub fn parse_variable_value(variable_type: &VariableType, literal: &str) -> (res: Result<
    VariableValue,
    String,
>)
    ensures
        match res {
            Ok(v) => value_error(*variable_type, literal@) is None && value_of(
                *variable_type,
                literal@,
                v,
            ),
            Err(m) => value_error(*variable_type, literal@) == Some(m@),
        },
{
    match variable_type {
        VariableType::Real { .. } => {
            let cs = chars_of(literal);
            if cs.len() == 0 {
                Err(owned("cannot parse float from empty string"))
            } else if !is_float_literal_chars(cs.as_slice()) {
                Err(owned("invalid float literal"))
            } else {
                Ok(VariableValue::Real(owned(literal)))
            }
        },
        VariableType::Integer { .. } | VariableType::Enumeration { .. } => {
            let cs = chars_of(literal);
            match parse_i32(cs.as_slice()) {
                Ok(v) => Ok(VariableValue::Integer(v)),
                Err(k) => Err(k.message()),
            }
        },
        VariableType::Boolean { .. } => {
            let b = parse_boolean(literal)?;
            Ok(VariableValue::Boolean(b))
        },
        VariableType::String { .. } => Ok(VariableValue::String(owned(literal))),
    }
}

/// `v` is a value that a variable of type `t` can hold and that its literal writes
/// exactly: an Integer of an Integer or Enumeration variable, `fmi2True` or
/// `fmi2False` of a Boolean variable, a Real kept as a floating-point literal of a
/// Real variable, a String of a String variable.
pub open spec fn holds_value(t: VariableType, v: VariableValue) -> bool {
    match v {
        VariableValue::Real(x) => t is Real && float_error(x@) is None,
        VariableValue::Integer(_) => t is Integer || t is Enumeration,
        VariableValue::Boolean(b) => t is Boolean && (b == fmi2True || b == fmi2False),
        VariableValue::String(_) => t is String,
    }
}

/// Reading the literal that `to_literal` writes for a value, with the type of a
/// variable that holds it, gives the value back.
pub proof fn lemma_literal_reads_back(t: VariableType, v: VariableValue)
    requires
        holds_value(t, v),
    ensures
        value_error(t, v.spec_literal()) is None,
        value_of(t, v.spec_literal(), v),
{
    match v {
        VariableValue::Integer(x) => {
            lemma_parse_signed_decimal(x as int, i32::MIN as int, i32::MAX as int);
        },
        VariableValue::Boolean(b) => {
            reveal_strlit("1");
            reveal_strlit("0");
            reveal_strlit("true");
            reveal_strlit("false");
            assert(decimal(1) =~= "1"@);
            assert(decimal(0) =~= "0"@);
        },
        _ => {},
    }
}

// ---------------------------------------------------------------------------
// Start values that name no variable
// ---------------------------------------------------------------------------
/// The names of the start values `svs`, in order, that are not among `names`.
pub open spec fn missing_names(svs: Seq<(String, String)>, names: Seq<Seq<char>>) -> Seq<Seq<char>>
    decreases svs.len(),
{
    if svs.len() == 0 {
        seq![]
    } else {
        let rest = missing_names(svs.drop_last(), names);
        if names.contains(svs.last().0@) {
            rest
        } else {
            rest.push(svs.last().0@)
        }
    }
}

/// The names `ns`, each in single quotes, separated by `, `.
pub open spec fn quoted_names(ns: Seq<Seq<char>>) -> Seq<char>
    decreases ns.len(),
{
    if ns.len() == 0 {
        seq![]
    } else if ns.len() == 1 {
        seq!['\''] + ns[0] + seq!['\'']
    } else {
        quoted_names(ns.drop_last()) + seq![',', ' ', '\''] + ns.last() + seq!['\'']
    }
}

/// The message for start values whose names `ns` name no variable.
pub open spec fn missing_start_values_message(ns: Seq<Seq<char>>) -> Seq<char> {
    "The start values for the following variables could not be set because they don't exist in the model description: "@
        + quoted_names(ns) + "."@
}

/// Appends `name`, quoted, to the names `done` quoted so far in `list`.
pub(crate) fn push_quoted(list: &mut String, name: &str, first: bool, Ghost(done): Ghost<Seq<Seq<char>>>)
    requires
        old(list)@ == quoted_names(done),
        first <==> done.len() == 0,
    ensures
        final(list)@ == quoted_names(done.push(name@)),
{
    proof {
        reveal_strlit(", '");
        reveal_strlit("'");
    }
    if first {
        push_str(list, "'");
    } else {
        push_str(list, ", '");
    }
    push_str(list, name);
    push_str(list, "'");
    proof {
        assert(done.push(name@).drop_last() =~= done);
        if done.len() == 0 {
            assert(final(list)@ =~= seq!['\''] + name@ + seq!['\'']);
        } else {
            assert(final(list)@ =~= quoted_names(done) + seq![',', ' ', '\''] + name@ + seq!['\'']);
        }
    }
}

/// The message for start values whose quoted names are `list`.
pub(crate) fn missing_message(list: &str) -> (res: String)
    ensures
        res@ == "The start values for the following variables could not be set because they don't exist in the model description: "@
            + list@ + "."@,
{
    let mut m = owned(
        "The start values for the following variables could not be set because they don't exist in the model description: ",
    );
    push_str(&mut m, list);
    push_str(&mut m, ".");
    m
}

/// The names of the variables `vars`.
pub open spec fn variable_names(vars: Seq<ScalarVariable>) -> Seq<Seq<char>> {
    vars.map_values(|v: ScalarVariable| v.name@)
}

fn has_variable_named(vars: &Vec<ScalarVariable>, name: &String) -> (res: bool)
    ensures
        res == variable_names(vars@).contains(name@),
{
    let mut k: usize = 0;
    while k < vars.len()
        invariant
            k <= vars@.len(),
            forall|j: int| 0 <= j < k ==> vars@[j].name@ != name@,
        decreases vars.len() - k,
    {
        if vars[k].name == *name {
            assert(variable_names(vars@)[k as int] == name@);
            return true;
        }
        k = k + 1;
    }
    proof {
        if variable_names(vars@).contains(name@) {
            let j = choose|j: int| 0 <= j < variable_names(vars@).len() && variable_names(vars@)[j] == name@;
            assert(vars@[j].name@ == name@);
        }
    }
    false
}

/// Checks that each start value (a variable name and a literal) names a variable
/// of the model: else the message that lists, quoted and in order, the names that
/// name none.
pub fn check_start_value_names(start_values: &Vec<(String, String)>, md: &ModelDescription) -> (res: Result<(), String>)
    ensures
        match res {
            Ok(_) => missing_names(start_values@, variable_names(md.modelVariables@)).len() == 0,
            Err(m) => missing_names(start_values@, variable_names(md.modelVariables@)).len() > 0
                && m@ == missing_start_values_message(
                missing_names(start_values@, variable_names(md.modelVariables@)),
            ),
        },
{
    let ghost names = variable_names(md.modelVariables@);
    let mut list = String::new();
    let mut any = false;
    let mut i: usize = 0;
    while i < start_values.len()
        invariant
            i <= start_values@.len(),
            names == variable_names(md.modelVariables@),
            any <==> missing_names(start_values@.take(i as int), names).len() > 0,
            list@ == quoted_names(missing_names(start_values@.take(i as int), names)),
        decreases start_values.len() - i,
    {
        proof {
            assert(start_values@.take(i + 1).drop_last() =~= start_values@.take(i as int));
        }
        if !has_variable_named(&md.modelVariables, &start_values[i].0) {
            push_quoted(
                &mut list,
                start_values[i].0.as_str(),
                !any,
                Ghost(missing_names(start_values@.take(i as int), names)),
            );
            any = true;
        }
        i = i + 1;
    }
    proof {
        assert(start_values@.take(start_values@.len() as int) =~= start_values@);
    }
    if any {
        Err(missing_message(list.as_str()))
    } else {
        Ok(())
    }
}

} // verus!
