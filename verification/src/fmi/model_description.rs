//! A reader of model descriptions for FMUs of either major version that keeps the
//! variables, the interfaces and the default experiment. Some documents make this
//! reader give up altogether (an unreadable document, a missing element or
//! attribute that it takes for granted): `read_model_description` answers `None`
//! for them.
#![allow(non_snake_case)]

use std::str::FromStr;
use vstd::prelude::*;

use crate::fmi::types::fmiValueReference;
use crate::model_description::fmi2::file::type_child_from;
use crate::text::{chars_of, owned, parse_bool, parse_bool_chars, parse_integer, parse_u32, parse_usize, push_str};
use crate::xml::{first_descendant, missing_attribute_message, parse_xml, xml_document, XmlElement, XmlNode};

verus! {

/// The major version of the FMI standard of a model description.
#[derive(Debug, PartialEq, Eq, Structural, Clone, Copy)]
pub enum MajorVersion {
    V2,
    V3,
}

/// The type of a variable.
#[derive(Debug, PartialEq, Eq, Structural, Clone, Copy, Hash)]
pub enum VariableType {
    Float32,
    Float64,
    Int8,
    UInt8,
    Int16,
    UInt16,
    Int32,
    UInt32,
    Int64,
    UInt64,
    Boolean,
    String,
    Binary,
    Clock,
    Enumeration,
}

impl VariableType {
    /// The value that the attribute text `s` names.
    pub open spec fn spec_from_name(s: Seq<char>) -> Option<VariableType> {
        if s == "Float32"@ {
            Some(VariableType::Float32)
        } else if s == "Float64"@ {
            Some(VariableType::Float64)
        } else if s == "Int8"@ {
            Some(VariableType::Int8)
        } else if s == "UInt8"@ {
            Some(VariableType::UInt8)
        } else if s == "Int16"@ {
            Some(VariableType::Int16)
        } else if s == "UInt16"@ {
            Some(VariableType::UInt16)
        } else if s == "Int32"@ {
            Some(VariableType::Int32)
        } else if s == "UInt32"@ {
            Some(VariableType::UInt32)
        } else if s == "Int64"@ {
            Some(VariableType::Int64)
        } else if s == "UInt64"@ {
            Some(VariableType::UInt64)
        } else if s == "Boolean"@ {
            Some(VariableType::Boolean)
        } else if s == "String"@ {
            Some(VariableType::String)
        } else if s == "Binary"@ {
            Some(VariableType::Binary)
        } else if s == "Clock"@ {
            Some(VariableType::Clock)
        } else if s == "Enumeration"@ {
            Some(VariableType::Enumeration)
        } else {
            None
        }
    }

    /// Reads a variable type from the tag that declares it.
    pub fn from_name(s: &str) -> (res: Result<VariableType, String>)
        ensures
            match res {
                Ok(c) => Self::spec_from_name(s@) == Some(c),
                Err(m) => Self::spec_from_name(s@) is None && m@ == "Unknown variable type: "@ + s@,
            },
    {
        let key = owned(s);
        if key == owned("Float32") {
            Ok(VariableType::Float32)
        } else if key == owned("Float64") {
            Ok(VariableType::Float64)
        } else if key == owned("Int8") {
            Ok(VariableType::Int8)
        } else if key == owned("UInt8") {
            Ok(VariableType::UInt8)
        } else if key == owned("Int16") {
            Ok(VariableType::Int16)
        } else if key == owned("UInt16") {
            Ok(VariableType::UInt16)
        } else if key == owned("Int32") {
            Ok(VariableType::Int32)
        } else if key == owned("UInt32") {
            Ok(VariableType::UInt32)
        } else if key == owned("Int64") {
            Ok(VariableType::Int64)
        } else if key == owned("UInt64") {
            Ok(VariableType::UInt64)
        } else if key == owned("Boolean") {
            Ok(VariableType::Boolean)
        } else if key == owned("String") {
            Ok(VariableType::String)
        } else if key == owned("Binary") {
            Ok(VariableType::Binary)
        } else if key == owned("Clock") {
            Ok(VariableType::Clock)
        } else if key == owned("Enumeration") {
            Ok(VariableType::Enumeration)
        } else {
            let mut m = owned("Unknown variable type: ");
            push_str(&mut m, s);
            Err(m)
        }
    }
}

impl VariableType {
    /// The attribute value that names each value.
    pub open spec fn attribute_name(self) -> Seq<char> {
        match self {
            VariableType::Float32 => "Float32"@,
            VariableType::Float64 => "Float64"@,
            VariableType::Int8 => "Int8"@,
            VariableType::UInt8 => "UInt8"@,
            VariableType::Int16 => "Int16"@,
            VariableType::UInt16 => "UInt16"@,
            VariableType::Int32 => "Int32"@,
            VariableType::UInt32 => "UInt32"@,
            VariableType::Int64 => "Int64"@,
            VariableType::UInt64 => "UInt64"@,
            VariableType::Boolean => "Boolean"@,
            VariableType::String => "String"@,
            VariableType::Binary => "Binary"@,
            VariableType::Clock => "Clock"@,
            VariableType::Enumeration => "Enumeration"@,
        }
    }
}

/// A text names a value exactly when it is that value's attribute name, and
/// distinct values have distinct names.
pub proof fn lemma_variable_type_names(s: Seq<char>)
    ensures
        forall|c: VariableType| #[trigger] c.attribute_name() == s <==> VariableType::spec_from_name(s) == Some(c),
        forall|c1: VariableType, c2: VariableType|
            #![trigger c1.attribute_name(), c2.attribute_name()]
            c1.attribute_name() == c2.attribute_name() ==> c1 == c2,
{
    reveal_strlit("Float32");
    reveal_strlit("Float64");
    reveal_strlit("Int8");
    reveal_strlit("UInt8");
    reveal_strlit("Int16");
    reveal_strlit("UInt16");
    reveal_strlit("Int32");
    reveal_strlit("UInt32");
    reveal_strlit("Int64");
    reveal_strlit("UInt64");
    reveal_strlit("Boolean");
    reveal_strlit("String");
    reveal_strlit("Binary");
    reveal_strlit("Clock");
    reveal_strlit("Enumeration");
    assert("Float32"@ != "Float64"@) by { assert("Float32"@[5] != "Float64"@[5]); }
    assert("Float32"@ != "Int8"@) by { assert("Float32"@.len() != "Int8"@.len()); }
    assert("Float32"@ != "UInt8"@) by { assert("Float32"@.len() != "UInt8"@.len()); }
    assert("Float32"@ != "Int16"@) by { assert("Float32"@.len() != "Int16"@.len()); }
    assert("Float32"@ != "UInt16"@) by { assert("Float32"@.len() != "UInt16"@.len()); }
    assert("Float32"@ != "Int32"@) by { assert("Float32"@.len() != "Int32"@.len()); }
    assert("Float32"@ != "UInt32"@) by { assert("Float32"@.len() != "UInt32"@.len()); }
    assert("Float32"@ != "Int64"@) by { assert("Float32"@.len() != "Int64"@.len()); }
    assert("Float32"@ != "UInt64"@) by { assert("Float32"@.len() != "UInt64"@.len()); }
    assert("Float32"@ != "Boolean"@) by { assert("Float32"@[0] != "Boolean"@[0]); }
    assert("Float32"@ != "String"@) by { assert("Float32"@.len() != "String"@.len()); }
    assert("Float32"@ != "Binary"@) by { assert("Float32"@.len() != "Binary"@.len()); }
    assert("Float32"@ != "Clock"@) by { assert("Float32"@.len() != "Clock"@.len()); }
    assert("Float32"@ != "Enumeration"@) by { assert("Float32"@.len() != "Enumeration"@.len()); }
    assert("Float64"@ != "Int8"@) by { assert("Float64"@.len() != "Int8"@.len()); }
    assert("Float64"@ != "UInt8"@) by { assert("Float64"@.len() != "UInt8"@.len()); }
    assert("Float64"@ != "Int16"@) by { assert("Float64"@.len() != "Int16"@.len()); }
    assert("Float64"@ != "UInt16"@) by { assert("Float64"@.len() != "UInt16"@.len()); }
    assert("Float64"@ != "Int32"@) by { assert("Float64"@.len() != "Int32"@.len()); }
    assert("Float64"@ != "UInt32"@) by { assert("Float64"@.len() != "UInt32"@.len()); }
    assert("Float64"@ != "Int64"@) by { assert("Float64"@.len() != "Int64"@.len()); }
    assert("Float64"@ != "UInt64"@) by { assert("Float64"@.len() != "UInt64"@.len()); }
    assert("Float64"@ != "Boolean"@) by { assert("Float64"@[0] != "Boolean"@[0]); }
    assert("Float64"@ != "String"@) by { assert("Float64"@.len() != "String"@.len()); }
    assert("Float64"@ != "Binary"@) by { assert("Float64"@.len() != "Binary"@.len()); }
    assert("Float64"@ != "Clock"@) by { assert("Float64"@.len() != "Clock"@.len()); }
    assert("Float64"@ != "Enumeration"@) by { assert("Float64"@.len() != "Enumeration"@.len()); }
    assert("Int8"@ != "UInt8"@) by { assert("Int8"@.len() != "UInt8"@.len()); }
    assert("Int8"@ != "Int16"@) by { assert("Int8"@.len() != "Int16"@.len()); }
    assert("Int8"@ != "UInt16"@) by { assert("Int8"@.len() != "UInt16"@.len()); }
    assert("Int8"@ != "Int32"@) by { assert("Int8"@.len() != "Int32"@.len()); }
    assert("Int8"@ != "UInt32"@) by { assert("Int8"@.len() != "UInt32"@.len()); }
    assert("Int8"@ != "Int64"@) by { assert("Int8"@.len() != "Int64"@.len()); }
    assert("Int8"@ != "UInt64"@) by { assert("Int8"@.len() != "UInt64"@.len()); }
    assert("Int8"@ != "Boolean"@) by { assert("Int8"@.len() != "Boolean"@.len()); }
    assert("Int8"@ != "String"@) by { assert("Int8"@.len() != "String"@.len()); }
    assert("Int8"@ != "Binary"@) by { assert("Int8"@.len() != "Binary"@.len()); }
    assert("Int8"@ != "Clock"@) by { assert("Int8"@.len() != "Clock"@.len()); }
    assert("Int8"@ != "Enumeration"@) by { assert("Int8"@.len() != "Enumeration"@.len()); }
    assert("UInt8"@ != "Int16"@) by { assert("UInt8"@[0] != "Int16"@[0]); }
    assert("UInt8"@ != "UInt16"@) by { assert("UInt8"@.len() != "UInt16"@.len()); }
    assert("UInt8"@ != "Int32"@) by { assert("UInt8"@[0] != "Int32"@[0]); }
    assert("UInt8"@ != "UInt32"@) by { assert("UInt8"@.len() != "UInt32"@.len()); }
    assert("UInt8"@ != "Int64"@) by { assert("UInt8"@[0] != "Int64"@[0]); }
    assert("UInt8"@ != "UInt64"@) by { assert("UInt8"@.len() != "UInt64"@.len()); }
    assert("UInt8"@ != "Boolean"@) by { assert("UInt8"@.len() != "Boolean"@.len()); }
    assert("UInt8"@ != "String"@) by { assert("UInt8"@.len() != "String"@.len()); }
    assert("UInt8"@ != "Binary"@) by { assert("UInt8"@.len() != "Binary"@.len()); }
    assert("UInt8"@ != "Clock"@) by { assert("UInt8"@[0] != "Clock"@[0]); }
    assert("UInt8"@ != "Enumeration"@) by { assert("UInt8"@.len() != "Enumeration"@.len()); }
    assert("Int16"@ != "UInt16"@) by { assert("Int16"@.len() != "UInt16"@.len()); }
    assert("Int16"@ != "Int32"@) by { assert("Int16"@[3] != "Int32"@[3]); }
    assert("Int16"@ != "UInt32"@) by { assert("Int16"@.len() != "UInt32"@.len()); }
    assert("Int16"@ != "Int64"@) by { assert("Int16"@[3] != "Int64"@[3]); }
    assert("Int16"@ != "UInt64"@) by { assert("Int16"@.len() != "UInt64"@.len()); }
    assert("Int16"@ != "Boolean"@) by { assert("Int16"@.len() != "Boolean"@.len()); }
    assert("Int16"@ != "String"@) by { assert("Int16"@.len() != "String"@.len()); }
    assert("Int16"@ != "Binary"@) by { assert("Int16"@.len() != "Binary"@.len()); }
    assert("Int16"@ != "Clock"@) by { assert("Int16"@[0] != "Clock"@[0]); }
    assert("Int16"@ != "Enumeration"@) by { assert("Int16"@.len() != "Enumeration"@.len()); }
    assert("UInt16"@ != "Int32"@) by { assert("UInt16"@.len() != "Int32"@.len()); }
    assert("UInt16"@ != "UInt32"@) by { assert("UInt16"@[4] != "UInt32"@[4]); }
    assert("UInt16"@ != "Int64"@) by { assert("UInt16"@.len() != "Int64"@.len()); }
    assert("UInt16"@ != "UInt64"@) by { assert("UInt16"@[4] != "UInt64"@[4]); }
    assert("UInt16"@ != "Boolean"@) by { assert("UInt16"@.len() != "Boolean"@.len()); }
    assert("UInt16"@ != "String"@) by { assert("UInt16"@[0] != "String"@[0]); }
    assert("UInt16"@ != "Binary"@) by { assert("UInt16"@[0] != "Binary"@[0]); }
    assert("UInt16"@ != "Clock"@) by { assert("UInt16"@.len() != "Clock"@.len()); }
    assert("UInt16"@ != "Enumeration"@) by { assert("UInt16"@.len() != "Enumeration"@.len()); }
    assert("Int32"@ != "UInt32"@) by { assert("Int32"@.len() != "UInt32"@.len()); }
    assert("Int32"@ != "Int64"@) by { assert("Int32"@[3] != "Int64"@[3]); }
    assert("Int32"@ != "UInt64"@) by { assert("Int32"@.len() != "UInt64"@.len()); }
    assert("Int32"@ != "Boolean"@) by { assert("Int32"@.len() != "Boolean"@.len()); }
    assert("Int32"@ != "String"@) by { assert("Int32"@.len() != "String"@.len()); }
    assert("Int32"@ != "Binary"@) by { assert("Int32"@.len() != "Binary"@.len()); }
    assert("Int32"@ != "Clock"@) by { assert("Int32"@[0] != "Clock"@[0]); }
    assert("Int32"@ != "Enumeration"@) by { assert("Int32"@.len() != "Enumeration"@.len()); }
    assert("UInt32"@ != "Int64"@) by { assert("UInt32"@.len() != "Int64"@.len()); }
    assert("UInt32"@ != "UInt64"@) by { assert("UInt32"@[4] != "UInt64"@[4]); }
    assert("UInt32"@ != "Boolean"@) by { assert("UInt32"@.len() != "Boolean"@.len()); }
    assert("UInt32"@ != "String"@) by { assert("UInt32"@[0] != "String"@[0]); }
    assert("UInt32"@ != "Binary"@) by { assert("UInt32"@[0] != "Binary"@[0]); }
    assert("UInt32"@ != "Clock"@) by { assert("UInt32"@.len() != "Clock"@.len()); }
    assert("UInt32"@ != "Enumeration"@) by { assert("UInt32"@.len() != "Enumeration"@.len()); }
    assert("Int64"@ != "UInt64"@) by { assert("Int64"@.len() != "UInt64"@.len()); }
    assert("Int64"@ != "Boolean"@) by { assert("Int64"@.len() != "Boolean"@.len()); }
    assert("Int64"@ != "String"@) by { assert("Int64"@.len() != "String"@.len()); }
    assert("Int64"@ != "Binary"@) by { assert("Int64"@.len() != "Binary"@.len()); }
    assert("Int64"@ != "Clock"@) by { assert("Int64"@[0] != "Clock"@[0]); }
    assert("Int64"@ != "Enumeration"@) by { assert("Int64"@.len() != "Enumeration"@.len()); }
    assert("UInt64"@ != "Boolean"@) by { assert("UInt64"@.len() != "Boolean"@.len()); }
    assert("UInt64"@ != "String"@) by { assert("UInt64"@[0] != "String"@[0]); }
    assert("UInt64"@ != "Binary"@) by { assert("UInt64"@[0] != "Binary"@[0]); }
    assert("UInt64"@ != "Clock"@) by { assert("UInt64"@.len() != "Clock"@.len()); }
    assert("UInt64"@ != "Enumeration"@) by { assert("UInt64"@.len() != "Enumeration"@.len()); }
    assert("Boolean"@ != "String"@) by { assert("Boolean"@.len() != "String"@.len()); }
    assert("Boolean"@ != "Binary"@) by { assert("Boolean"@.len() != "Binary"@.len()); }
    assert("Boolean"@ != "Clock"@) by { assert("Boolean"@.len() != "Clock"@.len()); }
    assert("Boolean"@ != "Enumeration"@) by { assert("Boolean"@.len() != "Enumeration"@.len()); }
    assert("String"@ != "Binary"@) by { assert("String"@[0] != "Binary"@[0]); }
    assert("String"@ != "Clock"@) by { assert("String"@.len() != "Clock"@.len()); }
    assert("String"@ != "Enumeration"@) by { assert("String"@.len() != "Enumeration"@.len()); }
    assert("Binary"@ != "Clock"@) by { assert("Binary"@.len() != "Clock"@.len()); }
    assert("Binary"@ != "Enumeration"@) by { assert("Binary"@.len() != "Enumeration"@.len()); }
    assert("Clock"@ != "Enumeration"@) by { assert("Clock"@.len() != "Enumeration"@.len()); }
}

impl FromStr for VariableType {
    type Err = String;

    fn from_str(s: &str) -> (res: Result<VariableType, String>)
        ensures
            match res {
                Ok(c) => VariableType::spec_from_name(s@) == Some(c),
                Err(m) => VariableType::spec_from_name(s@) is None && m@ == "Unknown variable type: "@ + s@,
            },
    {
        VariableType::from_name(s)
    }
}

/// The causality of a variable.
#[derive(Debug, PartialEq, Eq, Structural, Clone, Copy, Hash)]
pub enum Causality {
    Parameter,
    CalculatedParameter,
    StructuralParameter,
    Input,
    Output,
    Local,
    Independent,
}

/// The variability of a variable.
#[derive(Debug, PartialEq, Eq, Structural, Clone, Copy, Hash)]
pub enum Variability {
    Constant,
    Fixed,
    Tunable,
    Discrete,
    Continuous,
}

/// The default experiment, its values kept as written.
#[derive(Debug)]
pub struct DefaultExperiment {
    pub startTime: Option<String>,
    pub stopTime: Option<String>,
    pub tolerance: Option<String>,
    pub stepSize: Option<String>,
}

/// The Co-Simulation interface.
#[derive(Debug)]
pub struct CoSimulation {
    pub modelIdentifier: String,
    pub fixedInternalStepSize: Option<String>,
    pub canHandleVariableCommunicationStepSize: bool,
}

/// The Model Exchange interface.
#[derive(Debug)]
pub struct ModelExchange {
    pub modelIdentifier: String,
    pub needsCompletedIntegratorStep: bool,
}

/// A dimension of an array variable: a fixed size, or the variable that holds it.
#[derive(Debug)]
pub enum Dimension {
    Fixed(usize),
    Variable(fmiValueReference),
}

/// A model variable.
#[derive(Debug)]
pub struct ModelVariable {
    pub variableType: VariableType,
    pub name: String,
    pub valueReference: fmiValueReference,
    pub causality: Causality,
    pub variability: Variability,
    pub dimensions: Vec<Dimension>,
}

/// An unknown of the model structure.
#[derive(Debug)]
pub struct Unknown {
    pub valueReference: fmiValueReference,
    pub dependencies: Option<Vec<fmiValueReference>>,
    pub dependenciesKind: Option<Vec<fmiValueReference>>,
}

/// A model description.
#[derive(Debug)]
pub struct ModelDescription {
    pub majorVersion: MajorVersion,
    pub modelName: String,
    pub instantiationToken: String,
    pub defaultExperiment: Option<DefaultExperiment>,
    pub modelExchange: Option<ModelExchange>,
    pub coSimulation: Option<CoSimulation>,
    pub modelVariables: Vec<ModelVariable>,
    pub numberOfEventIndicators: usize,
    pub outputs: Vec<Unknown>,
    pub derivatives: Vec<Unknown>,
    pub clockedStates: Vec<Unknown>,
    pub eventIndicators: Vec<Unknown>,
    pub initialUnknowns: Vec<Unknown>,
}

// ---------------------------------------------------------------------------
// How reading ends
// ---------------------------------------------------------------------------
/// Why reading ends without a model description: an error with its message, or a
/// document that the reader gives up on.
pub enum Failure {
    Error(Seq<char>),
    GiveUp,
}

/// The executable counterpart of `Failure`.
#[derive(Debug)]
pub enum ReadFailure {
    Error(String),
    GiveUp,
}

impl ReadFailure {
    /// The failure that this value stands for.
    pub open spec fn view_failure(self) -> Failure {
        match self {
            ReadFailure::Error(m) => Failure::Error(m@),
            ReadFailure::GiveUp => Failure::GiveUp,
        }
    }
}

// ---------------------------------------------------------------------------
// Attributes
// ---------------------------------------------------------------------------
/// The causality that an attribute names; anything else (or nothing) is `Local`.
pub open spec fn spec_causality(n: XmlElement) -> Causality {
    match n.spec_attribute("causality"@) {
        Some(s) => if s@ == "parameter"@ {
            Causality::Parameter
        } else if s@ == "calculatedParameter"@ {
            Causality::CalculatedParameter
        } else if s@ == "structuralParameter"@ {
            Causality::StructuralParameter
        } else if s@ == "input"@ {
            Causality::Input
        } else if s@ == "output"@ {
            Causality::Output
        } else if s@ == "independent"@ {
            Causality::Independent
        } else {
            Causality::Local
        },
        None => Causality::Local,
    }
}

/// The value of the `causality` attribute that names each causality.
pub open spec fn causality_attribute(c: Causality) -> Seq<char> {
    match c {
        Causality::Parameter => "parameter"@,
        Causality::CalculatedParameter => "calculatedParameter"@,
        Causality::StructuralParameter => "structuralParameter"@,
        Causality::Input => "input"@,
        Causality::Output => "output"@,
        Causality::Local => "local"@,
        Causality::Independent => "independent"@,
    }
}

/// The causality read from an element is the one whose name its `causality`
/// attribute holds; an element without the attribute, or with a value that names
/// no causality, is local. Distinct names give distinct causalities.
pub proof fn lemma_causality_names(n: XmlElement)
    ensures
        forall|c: Causality|
            #![trigger causality_attribute(c)]
            (n.spec_attribute("causality"@) matches Some(s) && s@ == causality_attribute(c))
                ==> spec_causality(n) == c,
        spec_causality(n) != Causality::Local ==> (n.spec_attribute("causality"@) matches Some(s)
            && s@ == causality_attribute(spec_causality(n))),
        forall|c1: Causality, c2: Causality|
            #![trigger causality_attribute(c1), causality_attribute(c2)]
            causality_attribute(c1) == causality_attribute(c2) ==> c1 == c2,
{
    reveal_strlit("parameter");
    reveal_strlit("calculatedParameter");
    reveal_strlit("structuralParameter");
    reveal_strlit("input");
    reveal_strlit("output");
    reveal_strlit("local");
    reveal_strlit("independent");
    assert forall|c1: Causality, c2: Causality| causality_attribute(c1) == causality_attribute(c2)
        implies c1 == c2 by {
        if c1 != c2 {
            let a = causality_attribute(c1);
            let b = causality_attribute(c2);
            if a.len() == b.len() {
                assert(a[0] != b[0] || a[1] != b[1]);
            }
        }
    }
    assert forall|c: Causality|
        (n.spec_attribute("causality"@) matches Some(s) && s@ == #[trigger] causality_attribute(c))
            implies spec_causality(n) == c by {
        assert(causality_attribute(c) == causality_attribute(Causality::Parameter) ==> c
            == Causality::Parameter);
        assert(causality_attribute(c) == causality_attribute(Causality::CalculatedParameter) ==> c
            == Causality::CalculatedParameter);
        assert(causality_attribute(c) == causality_attribute(Causality::StructuralParameter) ==> c
            == Causality::StructuralParameter);
        assert(causality_attribute(c) == causality_attribute(Causality::Input) ==> c
            == Causality::Input);
        assert(causality_attribute(c) == causality_attribute(Causality::Output) ==> c
            == Causality::Output);
        assert(causality_attribute(c) == causality_attribute(Causality::Independent) ==> c
            == Causality::Independent);
    }
}

/// The variability that an attribute names; without one, floating-point variables
/// that are no parameters are continuous and all others discrete.
pub open spec fn spec_variability(n: XmlElement, c: Causality, t: VariableType) -> Variability {
    let default = if (t == VariableType::Float32 || t == VariableType::Float64) && !(c
        == Causality::Parameter || c == Causality::StructuralParameter || c
        == Causality::CalculatedParameter) {
        Variability::Continuous
    } else {
        Variability::Discrete
    };
    match n.spec_attribute("variability"@) {
        Some(s) => if s@ == "constant"@ {
            Variability::Constant
        } else if s@ == "fixed"@ {
            Variability::Fixed
        } else if s@ == "tunable"@ {
            Variability::Tunable
        } else if s@ == "discrete"@ {
            Variability::Discrete
        } else if s@ == "continuous"@ {
            Variability::Continuous
        } else {
            default
        },
        None => default,
    }
}

/// The value of the `variability` attribute that names each variability.
pub open spec fn variability_attribute(v: Variability) -> Seq<char> {
    match v {
        Variability::Constant => "constant"@,
        Variability::Fixed => "fixed"@,
        Variability::Tunable => "tunable"@,
        Variability::Discrete => "discrete"@,
        Variability::Continuous => "continuous"@,
    }
}

/// The variability read from an element is the one whose name its
/// `variability` attribute holds; without such a name, a Float32 or Float64
/// variable that is no parameter (structural, calculated or not) is continuous and
/// any other variable discrete. Distinct names give distinct variabilities.
pub proof fn lemma_variability_names(n: XmlElement, c: Causality, t: VariableType)
    ensures
        forall|v: Variability|
            (n.spec_attribute("variability"@) matches Some(s) && s@ == #[trigger] variability_attribute(v))
                ==> spec_variability(n, c, t) == v,
        !(exists|v: Variability|
            n.spec_attribute("variability"@) matches Some(s) && s@ == #[trigger] variability_attribute(v))
            ==> spec_variability(n, c, t) == if (t == VariableType::Float32 || t
            == VariableType::Float64) && c != Causality::Parameter && c
            != Causality::StructuralParameter && c != Causality::CalculatedParameter {
            Variability::Continuous
        } else {
            Variability::Discrete
        },
        forall|v1: Variability, v2: Variability|
            #![trigger variability_attribute(v1), variability_attribute(v2)]
            variability_attribute(v1) == variability_attribute(v2) ==> v1 == v2,
{
    reveal_strlit("constant");
    reveal_strlit("fixed");
    reveal_strlit("tunable");
    reveal_strlit("discrete");
    reveal_strlit("continuous");
    assert("constant"@ != "discrete"@) by { assert("constant"@[0] != "discrete"@[0]); }
    assert("fixed"@ != "constant"@) by { assert("fixed"@.len() != "constant"@.len()); }
    assert("tunable"@ != "constant"@) by { assert("tunable"@.len() != "constant"@.len()); }
    assert("tunable"@ != "fixed"@) by { assert("tunable"@.len() != "fixed"@.len()); }
    assert("discrete"@ != "fixed"@) by { assert("discrete"@.len() != "fixed"@.len()); }
    assert("discrete"@ != "tunable"@) by { assert("discrete"@.len() != "tunable"@.len()); }
    assert("continuous"@ != "constant"@) by { assert("continuous"@.len() != "constant"@.len()); }
    assert("continuous"@ != "fixed"@) by { assert("continuous"@.len() != "fixed"@.len()); }
    assert("continuous"@ != "tunable"@) by { assert("continuous"@.len() != "tunable"@.len()); }
    assert("continuous"@ != "discrete"@) by { assert("continuous"@.len() != "discrete"@.len()); }
    if n.spec_attribute("variability"@) is Some {
        let s = n.spec_attribute("variability"@)->Some_0;
        assert(variability_attribute(Variability::Constant) == "constant"@);
        assert(variability_attribute(Variability::Fixed) == "fixed"@);
        assert(variability_attribute(Variability::Tunable) == "tunable"@);
        assert(variability_attribute(Variability::Discrete) == "discrete"@);
        assert(variability_attribute(Variability::Continuous) == "continuous"@);
    }
}

fn causality_of(n: &XmlElement) -> (res: Causality)
    ensures
        res == spec_causality(*n),
{
    match n.attribute("causality") {
        Some(s) => if s == owned("parameter") {
            Causality::Parameter
        } else if s == owned("calculatedParameter") {
            Causality::CalculatedParameter
        } else if s == owned("structuralParameter") {
            Causality::StructuralParameter
        } else if s == owned("input") {
            Causality::Input
        } else if s == owned("output") {
            Causality::Output
        } else if s == owned("independent") {
            Causality::Independent
        } else {
            Causality::Local
        },
        None => Causality::Local,
    }
}

fn variability_of(n: &XmlElement, c: Causality, t: VariableType) -> (res: Variability)
    ensures
        res == spec_variability(*n, c, t),
{
    let default = if (t == VariableType::Float32 || t == VariableType::Float64) && !(c
        == Causality::Parameter || c == Causality::StructuralParameter || c
        == Causality::CalculatedParameter) {
        Variability::Continuous
    } else {
        Variability::Discrete
    };
    match n.attribute("variability") {
        Some(s) => if s == owned("constant") {
            Variability::Constant
        } else if s == owned("fixed") {
            Variability::Fixed
        } else if s == owned("tunable") {
            Variability::Tunable
        } else if s == owned("discrete") {
            Variability::Discrete
        } else if s == owned("continuous") {
            Variability::Continuous
        } else {
            default
        },
        None => default,
    }
}

/// A boolean attribute as `str::parse::<bool>` reads it, `default` where it is absent
/// or refused.
pub open spec fn spec_bool_attribute(n: XmlElement, name: Seq<char>, default: bool) -> bool {
    match n.spec_attribute(name) {
        Some(v) => match parse_bool(v@) {
            Some(b) => b,
            None => default,
        },
        None => default,
    }
}

fn bool_attribute(n: &XmlElement, name: &str, default: bool) -> (res: bool)
    ensures
        res == spec_bool_attribute(*n, name@, default),
{
    match n.attribute(name) {
        Some(v) => {
            let cs = chars_of(v.as_str());
            match parse_bool_chars(cs.as_slice()) {
                Some(b) => b,
                None => default,
            }
        },
        None => default,
    }
}

/// The default experiment that the element `e` describes.
pub open spec fn default_experiment_of(e: XmlElement, d: DefaultExperiment) -> bool {
    &&& d.startTime == e.spec_attribute("startTime"@)
    &&& d.stopTime == e.spec_attribute("stopTime"@)
    &&& d.tolerance == e.spec_attribute("tolerance"@)
    &&& d.stepSize == e.spec_attribute("stepSize"@)
}

fn default_experiment(root: &XmlElement) -> (res: Option<DefaultExperiment>)
    ensures
        match first_descendant(*root, "DefaultExperiment"@) {
            Some(e) => res matches Some(d) && default_experiment_of(e, d),
            None => res is None,
        },
{
    match root.find_descendant("DefaultExperiment") {
        Some(e) => Some(
            DefaultExperiment {
                startTime: e.attribute("startTime"),
                stopTime: e.attribute("stopTime"),
                tolerance: e.attribute("tolerance"),
                stepSize: e.attribute("stepSize"),
            },
        ),
        None => None,
    }
}

// ---------------------------------------------------------------------------
// Counting elements
// ---------------------------------------------------------------------------
/// The number of elements named `name` among `e` and the elements below it.
pub open spec fn count_named(e: XmlElement, name: Seq<char>) -> nat
    decreases e,
{
    (if e.name@ == name {
        1nat
    } else {
        0nat
    }) + count_named_in(e.children@, name, 0)
}

/// The number of elements named `name` among `nodes[i..]` and the elements below
/// them.
pub open spec fn count_named_in(nodes: Seq<XmlNode>, name: Seq<char>, i: nat) -> nat
    decreases nodes, nodes.len() - i,
{
    if i >= nodes.len() {
        0
    } else {
        match nodes[i as int] {
            XmlNode::Element(c) => count_named(c, name) + count_named_in(nodes, name, i + 1),
            XmlNode::Other(_) => count_named_in(nodes, name, i + 1),
        }
    }
}

/// An unknown that knows nothing: value reference 0 and no dependencies.
pub open spec fn is_blank_unknown(u: Unknown) -> bool {
    u.valueReference == 0 && u.dependencies is None && u.dependenciesKind is None
}

/// Appends a blank unknown for every element named `Unknown` among `e` and the
/// elements below it.
fn push_unknowns(e: &XmlElement, out: &mut Vec<Unknown>)
    ensures
        final(out)@.len() == old(out)@.len() + count_named(*e, "Unknown"@),
        forall|k: int| 0 <= k < old(out)@.len() ==> final(out)@[k] == old(out)@[k],
        forall|k: int|
            old(out)@.len() <= k < final(out)@.len() ==> is_blank_unknown(#[trigger] final(out)@[k]),
    decreases e,
{
    let ghost start = out@;
    if e.has_tag_name("Unknown") {
        out.push(Unknown { valueReference: 0, dependencies: None, dependenciesKind: None });
    }
    let ghost before_children = out@.len();
    let mut i: usize = 0;
    while i < e.children.len()
        invariant
            i <= e.children@.len(),
            before_children == start.len() + (if e.name@ == "Unknown"@ {
                1nat
            } else {
                0nat
            }),
            out@.len() + count_named_in(e.children@, "Unknown"@, i as nat) == before_children
                + count_named_in(e.children@, "Unknown"@, 0),
            start.len() <= out@.len(),
            forall|k: int| 0 <= k < start.len() ==> out@[k] == start[k],
            forall|k: int| start.len() <= k < out@.len() ==> is_blank_unknown(#[trigger] out@[k]),
        decreases e.children.len() - i,
    {
        match &e.children[i] {
            XmlNode::Element(c) => {
                assert(decreases_to!(*e => e.children));
                push_unknowns(c, out);
            },
            XmlNode::Other(_) => {},
        }
        i = i + 1;
    }
}

// ---------------------------------------------------------------------------
// FMI 2.0
// ---------------------------------------------------------------------------
/// The variable type that the first type child of a `<ScalarVariable>` names.
pub open spec fn fmi2_type(c: XmlElement) -> VariableType {
    if c.name@ == "Real"@ {
        VariableType::Float64
    } else if c.name@ == "Integer"@ {
        VariableType::Int32
    } else if c.name@ == "Boolean"@ {
        VariableType::Boolean
    } else if c.name@ == "String"@ {
        VariableType::String
    } else {
        VariableType::Enumeration
    }
}

/// The FMI 2.0 type elements map onto the unified types: `<Real>` to Float64,
/// `<Integer>` to Int32, `<Boolean>` and `<String>` to themselves, and any other
/// type element to Enumeration.
pub proof fn lemma_fmi2_type_names(c: XmlElement)
    ensures
        fmi2_type(c) == VariableType::Float64 <==> c.name@ == "Real"@,
        fmi2_type(c) == VariableType::Int32 <==> c.name@ == "Integer"@,
        fmi2_type(c) == VariableType::Boolean <==> c.name@ == "Boolean"@,
        fmi2_type(c) == VariableType::String <==> c.name@ == "String"@,
        fmi2_type(c) == VariableType::Enumeration <==> c.name@ != "Real"@ && c.name@
            != "Integer"@ && c.name@ != "Boolean"@ && c.name@ != "String"@,
{
    reveal_strlit("Real");
    reveal_strlit("Integer");
    reveal_strlit("Boolean");
    reveal_strlit("String");
    assert("Integer"@ != "Boolean"@) by {
        assert("Integer"@[0] != "Boolean"@[0]);
    }
    assert("Real"@ != "Integer"@) by {
        assert("Real"@.len() != "Integer"@.len());
    }
    assert("Real"@ != "String"@) by {
        assert("Real"@.len() != "String"@.len());
    }
    assert("Integer"@ != "String"@) by {
        assert("Integer"@.len() != "String"@.len());
    }
    assert("Boolean"@ != "String"@) by {
        assert("Boolean"@.len() != "String"@.len());
    }
}

/// How reading a `<ScalarVariable>` fails, if it does.
pub open spec fn fmi2_variable_failure(n: XmlElement) -> Option<Failure> {
    match n.spec_attribute("name"@) {
        None => Some(Failure::Error(missing_attribute_message("name"@))),
        Some(_) => match n.spec_attribute("valueReference"@) {
            None => Some(Failure::Error(missing_attribute_message("valueReference"@))),
            Some(vr) => if parse_integer(vr@, 0, u32::MAX as int) is Err {
                Some(Failure::GiveUp)
            } else if type_child_from(n.children@, 0) is None {
                Some(Failure::Error("Missing variable type element"@))
            } else {
                None
            },
        },
    }
}

/// `v` is the variable that the `<ScalarVariable>` `n` describes.
pub open spec fn fmi2_variable_of(n: XmlElement, v: ModelVariable) -> bool {
    &&& n.spec_attribute("name"@) == Some(v.name)
    &&& n.spec_attribute("valueReference"@) matches Some(vr) && parse_integer(
        vr@,
        0,
        u32::MAX as int,
    ) == Ok::<int, crate::text::IntErrorKind>(v.valueReference as int)
    &&& type_child_from(n.children@, 0) matches Some(c) && v.variableType == fmi2_type(c)
    &&& v.causality == spec_causality(n)
    &&& v.variability == spec_variability(n, v.causality, v.variableType)
    &&& v.dimensions@.len() == 0
}

fn fmi2_type_of(n: &XmlElement) -> (res: Option<VariableType>)
    ensures
        match type_child_from(n.children@, 0) {
            Some(c) => res == Some(fmi2_type(c)),
            None => res is None,
        },
{
    let mut i: usize = 0;
    while i < n.children.len()
        invariant
            i <= n.children@.len(),
            type_child_from(n.children@, i as nat) == type_child_from(n.children@, 0),
        decreases n.children.len() - i,
    {
        match &n.children[i] {
            XmlNode::Element(c) => {
                if c.has_tag_name("Real") {
                    return Some(VariableType::Float64);
                } else if c.has_tag_name("Integer") {
                    return Some(VariableType::Int32);
                } else if c.has_tag_name("Boolean") {
                    return Some(VariableType::Boolean);
                } else if c.has_tag_name("String") {
                    return Some(VariableType::String);
                } else if c.has_tag_name("Enumeration") {
                    return Some(VariableType::Enumeration);
                }
            },
            XmlNode::Other(_) => {},
        }
        i = i + 1;
    }
    None
}

fn fmi2_variable(n: &XmlElement) -> (res: Result<ModelVariable, ReadFailure>)
    ensures
        match res {
            Ok(v) => fmi2_variable_failure(*n) is None && fmi2_variable_of(*n, v),
            Err(f) => fmi2_variable_failure(*n) == Some(f.view_failure()),
        },
{
    let name = match n.required_attribute("name") {
        Ok(v) => v,
        Err(m) => {
            return Err(ReadFailure::Error(m));
        },
    };
    let text = match n.required_attribute("valueReference") {
        Ok(v) => v,
        Err(m) => {
            return Err(ReadFailure::Error(m));
        },
    };
    let cs = chars_of(text.as_str());
    let valueReference = match parse_u32(cs.as_slice()) {
        Ok(v) => v,
        Err(_) => {
            return Err(ReadFailure::GiveUp);
        },
    };
    let variableType = match fmi2_type_of(n) {
        Some(t) => t,
        None => {
            return Err(ReadFailure::Error(owned("Missing variable type element")));
        },
    };
    let causality = causality_of(n);
    let variability = variability_of(n, causality, variableType);
    Ok(ModelVariable { variableType, name, valueReference, causality, variability, dimensions: Vec::new() })
}

/// The first failure among `f(items[i..])`.
pub open spec fn first_failure<T>(items: Seq<T>, f: spec_fn(T) -> Option<Failure>, i: nat) -> Option<
    Failure,
>
    decreases items.len() - i,
{
    if i >= items.len() {
        None
    } else if f(items[i as int]) is Some {
        f(items[i as int])
    } else {
        first_failure(items, f, i + 1)
    }
}

/// The `<ScalarVariable>` children of the first `<ModelVariables>` element.
pub open spec fn fmi2_variable_nodes(root: XmlElement) -> Seq<XmlElement> {
    match first_descendant(root, "ModelVariables"@) {
        Some(mv) => mv.spec_children("ScalarVariable"@),
        None => seq![],
    }
}

/// The number of `<Unknown>` elements in the container `name` of the model
/// structure, or why there is no such container.
pub open spec fn fmi2_unknowns(root: XmlElement, name: Seq<char>) -> Result<nat, Seq<char>> {
    match first_descendant(root, "ModelStructure"@) {
        None => Err("Missing ModelStructure element."@),
        Some(ms) => match first_descendant(ms, name) {
            None => Err("Missing container element '"@ + name + "'."@),
            Some(c) => Ok(count_named(c, "Unknown"@)),
        },
    }
}

/// The number of event indicators that the root gives, 0 where it gives none or an
/// unreadable one.
pub open spec fn number_of_event_indicators(root: XmlElement) -> usize {
    match root.spec_attribute("numberOfEventIndicators"@) {
        Some(v) => match parse_integer(v@, 0, usize::MAX as int) {
            Ok(x) => x as usize,
            Err(_) => 0,
        },
        None => 0,
    }
}

/// How reading an FMI 2.0 model description fails, if it does.
pub open spec fn fmi2_failure(root: XmlElement) -> Option<Failure> {
    if first_descendant(root, "ModelVariables"@) is None {
        Some(Failure::GiveUp)
    } else if first_failure(fmi2_variable_nodes(root), |n: XmlElement| fmi2_variable_failure(n), 0) is Some {
        first_failure(fmi2_variable_nodes(root), |n: XmlElement| fmi2_variable_failure(n), 0)
    } else if first_descendant(root, "CoSimulation"@) matches Some(cs) && cs.spec_attribute(
        "modelIdentifier"@,
    ) is None {
        Some(Failure::Error(missing_attribute_message("modelIdentifier"@)))
    } else if first_descendant(root, "ModelExchange"@) matches Some(me) && me.spec_attribute(
        "modelIdentifier"@,
    ) is None {
        Some(Failure::Error(missing_attribute_message("modelIdentifier"@)))
    } else if fmi2_unknowns(root, "Outputs"@) is Err {
        Some(Failure::Error(fmi2_unknowns(root, "Outputs"@)->Err_0))
    } else if fmi2_unknowns(root, "InitialUnknowns"@) is Err {
        Some(Failure::Error(fmi2_unknowns(root, "InitialUnknowns"@)->Err_0))
    } else if root.spec_attribute("modelName"@) is None {
        Some(Failure::Error(missing_attribute_message("modelName"@)))
    } else if root.spec_attribute("guid"@) is None {
        Some(Failure::Error(missing_attribute_message("guid"@)))
    } else {
        None
    }
}

/// `us` are `n` blank unknowns.
pub open spec fn blank_unknowns(us: Seq<Unknown>, n: nat) -> bool {
    us.len() == n && forall|k: int| 0 <= k < us.len() ==> is_blank_unknown(#[trigger] us[k])
}

/// `md` is the FMI 2.0 model description that `root` describes.
pub open spec fn fmi2_model_of(root: XmlElement, md: ModelDescription) -> bool {
    &&& md.majorVersion == MajorVersion::V2
    &&& root.spec_attribute("modelName"@) == Some(md.modelName)
    &&& root.spec_attribute("guid"@) == Some(md.instantiationToken)
    &&& match first_descendant(root, "DefaultExperiment"@) {
        Some(e) => md.defaultExperiment matches Some(d) && default_experiment_of(e, d),
        None => md.defaultExperiment is None,
    }
    &&& match first_descendant(root, "CoSimulation"@) {
        Some(e) => md.coSimulation matches Some(cs) && e.spec_attribute("modelIdentifier"@) == Some(
            cs.modelIdentifier,
        ) && cs.fixedInternalStepSize == e.spec_attribute("fixedInternalStepSize"@)
            && cs.canHandleVariableCommunicationStepSize == spec_bool_attribute(
            e,
            "canHandleVariableCommunicationStepSize"@,
            false,
        ),
        None => md.coSimulation is None,
    }
    &&& match first_descendant(root, "ModelExchange"@) {
        Some(e) => md.modelExchange matches Some(me) && e.spec_attribute("modelIdentifier"@) == Some(
            me.modelIdentifier,
        ) && me.needsCompletedIntegratorStep == !spec_bool_attribute(
            e,
            "completedIntegratorStepNotNeeded"@,
            false,
        ),
        None => md.modelExchange is None,
    }
    &&& md.modelVariables@.len() == fmi2_variable_nodes(root).len()
    &&& forall|k: int|
        0 <= k < md.modelVariables@.len() ==> fmi2_variable_of(
            fmi2_variable_nodes(root)[k],
            #[trigger] md.modelVariables@[k],
        )
    &&& md.numberOfEventIndicators == number_of_event_indicators(root)
    &&& blank_unknowns(md.outputs@, fmi2_unknowns(root, "Outputs"@)->Ok_0)
    &&& blank_unknowns(
        md.derivatives@,
        match fmi2_unknowns(root, "Derivatives"@) {
            Ok(n) => n,
            Err(_) => 0,
        },
    )
    &&& md.clockedStates@.len() == 0
    &&& md.eventIndicators@.len() == 0
    &&& blank_unknowns(md.initialUnknowns@, fmi2_unknowns(root, "InitialUnknowns"@)->Ok_0)
}

fn fmi2_unknowns_of(root: &XmlElement, name: &str) -> (res: Result<Vec<Unknown>, String>)
    ensures
        match res {
            Ok(us) => fmi2_unknowns(*root, name@) matches Ok(n) && blank_unknowns(us@, n),
            Err(m) => fmi2_unknowns(*root, name@) == Err::<nat, Seq<char>>(m@),
        },
{
    let ms = match root.find_descendant("ModelStructure") {
        Some(ms) => ms,
        None => {
            return Err(owned("Missing ModelStructure element."));
        },
    };
    let container = match ms.find_descendant(name) {
        Some(c) => c,
        None => {
            let mut m = owned("Missing container element '");
            push_str(&mut m, name);
            push_str(&mut m, "'.");
            return Err(m);
        },
    };
    let mut out: Vec<Unknown> = Vec::new();
    push_unknowns(container, &mut out);
    Ok(out)
}

fn number_of_event_indicators_of(root: &XmlElement) -> (res: usize)
    ensures
        res == number_of_event_indicators(*root),
{
    match root.attribute("numberOfEventIndicators") {
        Some(v) => {
            let cs = chars_of(v.as_str());
            match parse_usize(cs.as_slice()) {
                Ok(x) => x,
                Err(_) => 0,
            }
        },
        None => 0,
    }
}

fn read_fmi2_model_description(root: &XmlElement) -> (res: Result<ModelDescription, ReadFailure>)
    ensures
        match res {
            Ok(md) => fmi2_failure(*root) is None && fmi2_model_of(*root, md),
            Err(f) => fmi2_failure(*root) == Some(f.view_failure()),
        },
{
    let mv = match root.find_descendant("ModelVariables") {
        Some(mv) => mv,
        None => {
            return Err(ReadFailure::GiveUp);
        },
    };
    let nodes = mv.get_children("ScalarVariable");
    let ghost spec_nodes = fmi2_variable_nodes(*root);
    let mut modelVariables: Vec<ModelVariable> = Vec::new();
    let mut i: usize = 0;
    while i < nodes.len()
        invariant
            i <= nodes@.len(),
            nodes@.len() == spec_nodes.len(),
            spec_nodes == fmi2_variable_nodes(*root),
            first_descendant(*root, "ModelVariables"@) is Some,
            forall|k: int| 0 <= k < nodes@.len() ==> *(#[trigger] nodes@[k]) == spec_nodes[k],
            modelVariables@.len() == i,
            forall|k: int|
                0 <= k < i ==> fmi2_variable_of(spec_nodes[k], #[trigger] modelVariables@[k]),
            first_failure(spec_nodes, |n: XmlElement| fmi2_variable_failure(n), i as nat)
                == first_failure(spec_nodes, |n: XmlElement| fmi2_variable_failure(n), 0),
        decreases nodes.len() - i,
    {
        let v = fmi2_variable(nodes[i])?;
        modelVariables.push(v);
        i = i + 1;
    }
    let defaultExperiment = default_experiment(root);
    let coSimulation = match root.find_descendant("CoSimulation") {
        Some(cs) => {
            let modelIdentifier = match cs.required_attribute("modelIdentifier") {
                Ok(v) => v,
                Err(m) => {
                    return Err(ReadFailure::Error(m));
                },
            };
            Some(
                CoSimulation {
                    modelIdentifier,
                    fixedInternalStepSize: cs.attribute("fixedInternalStepSize"),
                    canHandleVariableCommunicationStepSize: bool_attribute(
                        cs,
                        "canHandleVariableCommunicationStepSize",
                        false,
                    ),
                },
            )
        },
        None => None,
    };
    let modelExchange = match root.find_descendant("ModelExchange") {
        Some(me) => {
            let modelIdentifier = match me.required_attribute("modelIdentifier") {
                Ok(v) => v,
                Err(m) => {
                    return Err(ReadFailure::Error(m));
                },
            };
            Some(
                ModelExchange {
                    modelIdentifier,
                    needsCompletedIntegratorStep: !bool_attribute(
                        me,
                        "completedIntegratorStepNotNeeded",
                        false,
                    ),
                },
            )
        },
        None => None,
    };
    let numberOfEventIndicators = number_of_event_indicators_of(root);
    let outputs = match fmi2_unknowns_of(root, "Outputs") {
        Ok(us) => us,
        Err(m) => {
            return Err(ReadFailure::Error(m));
        },
    };
    let derivatives = match fmi2_unknowns_of(root, "Derivatives") {
        Ok(us) => us,
        Err(_) => Vec::new(),
    };
    let initialUnknowns = match fmi2_unknowns_of(root, "InitialUnknowns") {
        Ok(us) => us,
        Err(m) => {
            return Err(ReadFailure::Error(m));
        },
    };
    let modelName = match root.required_attribute("modelName") {
        Ok(v) => v,
        Err(m) => {
            return Err(ReadFailure::Error(m));
        },
    };
    let instantiationToken = match root.required_attribute("guid") {
        Ok(v) => v,
        Err(m) => {
            return Err(ReadFailure::Error(m));
        },
    };
    Ok(
        ModelDescription {
            majorVersion: MajorVersion::V2,
            modelName,
            instantiationToken,
            defaultExperiment,
            coSimulation,
            modelExchange,
            modelVariables,
            numberOfEventIndicators,
            outputs,
            derivatives,
            clockedStates: Vec::new(),
            eventIndicators: Vec::new(),
            initialUnknowns,
        },
    )
}

// ---------------------------------------------------------------------------
// FMI 3.0
// ---------------------------------------------------------------------------
/// The dimension that a `<Dimension>` element gives; `None` where its `start` (or,
/// without one, its `valueReference`) is missing or unreadable, on which the reader
/// gives up.
pub open spec fn fmi3_dimension(d: XmlElement) -> Option<Dimension> {
    match d.spec_attribute("start"@) {
        Some(s) => match parse_integer(s@, 0, usize::MAX as int) {
            Ok(v) => Some(Dimension::Fixed(v as usize)),
            Err(_) => None,
        },
        None => match d.spec_attribute("valueReference"@) {
            Some(s) => match parse_integer(s@, 0, u32::MAX as int) {
                Ok(v) => Some(Dimension::Variable(v as u32)),
                Err(_) => None,
            },
            None => None,
        },
    }
}

/// How reading an element of `<ModelVariables>` fails, if it does.
pub open spec fn fmi3_variable_failure(n: XmlElement) -> Option<Failure> {
    match n.spec_attribute("name"@) {
        None => Some(Failure::GiveUp),
        Some(_) => match n.spec_attribute("valueReference"@) {
            None => Some(Failure::GiveUp),
            Some(vr) => if parse_integer(vr@, 0, u32::MAX as int) is Err {
                Some(Failure::GiveUp)
            } else if VariableType::spec_from_name(n.name@) is None {
                Some(Failure::Error("Unknown variable type: "@ + n.name@))
            } else if exists|k: int|
                0 <= k < n.spec_children("Dimension"@).len() && fmi3_dimension(
                    #[trigger] n.spec_children("Dimension"@)[k],
                ) is None {
                Some(Failure::GiveUp)
            } else {
                None
            },
        },
    }
}

/// `v` is the variable that the element `n` of `<ModelVariables>` describes.
pub open spec fn fmi3_variable_of(n: XmlElement, v: ModelVariable) -> bool {
    &&& n.spec_attribute("name"@) == Some(v.name)
    &&& n.spec_attribute("valueReference"@) matches Some(vr) && parse_integer(
        vr@,
        0,
        u32::MAX as int,
    ) == Ok::<int, crate::text::IntErrorKind>(v.valueReference as int)
    &&& VariableType::spec_from_name(n.name@) == Some(v.variableType)
    &&& v.causality == spec_causality(n)
    &&& v.variability == spec_variability(n, v.causality, v.variableType)
    &&& v.dimensions@.len() == n.spec_children("Dimension"@).len()
    &&& forall|k: int|
        0 <= k < v.dimensions@.len() ==> fmi3_dimension(n.spec_children("Dimension"@)[k]) == Some(
            #[trigger] v.dimensions@[k],
        )
}

fn fmi3_dimension_of(d: &XmlElement) -> (res: Option<Dimension>)
    ensures
        res == fmi3_dimension(*d),
{
    match d.attribute("start") {
        Some(s) => {
            let cs = chars_of(s.as_str());
            match parse_usize(cs.as_slice()) {
                Ok(v) => Some(Dimension::Fixed(v)),
                Err(_) => None,
            }
        },
        None => match d.attribute("valueReference") {
            Some(s) => {
                let cs = chars_of(s.as_str());
                match parse_u32(cs.as_slice()) {
                    Ok(v) => Some(Dimension::Variable(v)),
                    Err(_) => None,
                }
            },
            None => None,
        },
    }
}

fn fmi3_variable(n: &XmlElement) -> (res: Result<ModelVariable, ReadFailure>)
    ensures
        match res {
            Ok(v) => fmi3_variable_failure(*n) is None && fmi3_variable_of(*n, v),
            Err(f) => fmi3_variable_failure(*n) == Some(f.view_failure()),
        },
{
    let name = match n.attribute("name") {
        Some(v) => v,
        None => {
            return Err(ReadFailure::GiveUp);
        },
    };
    let text = match n.attribute("valueReference") {
        Some(v) => v,
        None => {
            return Err(ReadFailure::GiveUp);
        },
    };
    let cs = chars_of(text.as_str());
    let valueReference = match parse_u32(cs.as_slice()) {
        Ok(v) => v,
        Err(_) => {
            return Err(ReadFailure::GiveUp);
        },
    };
    let variableType = match VariableType::from_name(n.name.as_str()) {
        Ok(t) => t,
        Err(m) => {
            return Err(ReadFailure::Error(m));
        },
    };
    let causality = causality_of(n);
    let variability = variability_of(n, causality, variableType);
    let nodes = n.get_children("Dimension");
    let ghost spec_nodes = n.spec_children("Dimension"@);
    let mut dimensions: Vec<Dimension> = Vec::new();
    let mut i: usize = 0;
    while i < nodes.len()
        invariant
            i <= nodes@.len(),
            nodes@.len() == spec_nodes.len(),
            spec_nodes == n.spec_children("Dimension"@),
            forall|k: int| 0 <= k < nodes@.len() ==> *(#[trigger] nodes@[k]) == spec_nodes[k],
            dimensions@.len() == i,
            forall|k: int|
                0 <= k < i ==> fmi3_dimension(spec_nodes[k]) == Some(#[trigger] dimensions@[k]),
            n.spec_attribute("name"@) is Some,
            n.spec_attribute("valueReference"@) matches Some(vr) && parse_integer(
                vr@,
                0,
                u32::MAX as int,
            ) is Ok,
            VariableType::spec_from_name(n.name@) is Some,
        decreases nodes.len() - i,
    {
        match fmi3_dimension_of(nodes[i]) {
            Some(d) => {
                dimensions.push(d);
            },
            None => {
                proof {
                    assert(fmi3_dimension(spec_nodes[i as int]) is None);
                }
                return Err(ReadFailure::GiveUp);
            },
        }
        i = i + 1;
    }
    proof {
        assert forall|k: int| 0 <= k < spec_nodes.len() implies fmi3_dimension(
            #[trigger] spec_nodes[k],
        ) is Some by {
            assert(fmi3_dimension(spec_nodes[k]) == Some(dimensions@[k]));
        }
    }
    Ok(ModelVariable { variableType, name, valueReference, causality, variability, dimensions })
}

/// The element children of the first `<ModelVariables>` element.
pub open spec fn fmi3_variable_nodes(root: XmlElement) -> Seq<XmlElement> {
    match first_descendant(root, "ModelVariables"@) {
        Some(mv) => mv.spec_elements(),
        None => seq![],
    }
}

/// How reading an FMI 3.0 model description fails, if it does.
pub open spec fn fmi3_failure(root: XmlElement) -> Option<Failure> {
    if first_descendant(root, "ModelVariables"@) is None {
        Some(Failure::GiveUp)
    } else if first_failure(fmi3_variable_nodes(root), |n: XmlElement| fmi3_variable_failure(n), 0) is Some {
        first_failure(fmi3_variable_nodes(root), |n: XmlElement| fmi3_variable_failure(n), 0)
    } else if first_descendant(root, "CoSimulation"@) matches Some(cs) && cs.spec_attribute(
        "modelIdentifier"@,
    ) is None {
        Some(Failure::GiveUp)
    } else if first_descendant(root, "ModelExchange"@) matches Some(me) && me.spec_attribute(
        "modelIdentifier"@,
    ) is None {
        Some(Failure::GiveUp)
    } else if first_descendant(root, "ModelStructure"@) is None {
        Some(Failure::Error("Missing ModelStructure element."@))
    } else if root.spec_attribute("modelName"@) is None {
        Some(Failure::GiveUp)
    } else if root.spec_attribute("instantiationToken"@) is None {
        Some(Failure::GiveUp)
    } else {
        None
    }
}

/// `md` is the FMI 3.0 model description that `root` describes. The lists of
/// unknowns stay empty.
pub open spec fn fmi3_model_of(root: XmlElement, md: ModelDescription) -> bool {
    &&& md.majorVersion == MajorVersion::V3
    &&& root.spec_attribute("modelName"@) == Some(md.modelName)
    &&& root.spec_attribute("instantiationToken"@) == Some(md.instantiationToken)
    &&& match first_descendant(root, "DefaultExperiment"@) {
        Some(e) => md.defaultExperiment matches Some(d) && default_experiment_of(e, d),
        None => md.defaultExperiment is None,
    }
    &&& match first_descendant(root, "CoSimulation"@) {
        Some(e) => md.coSimulation matches Some(cs) && e.spec_attribute("modelIdentifier"@) == Some(
            cs.modelIdentifier,
        ) && cs.fixedInternalStepSize == e.spec_attribute("fixedInternalStepSize"@)
            && cs.canHandleVariableCommunicationStepSize == spec_bool_attribute(
            e,
            "canHandleVariableCommunicationStepSize"@,
            false,
        ),
        None => md.coSimulation is None,
    }
    &&& match first_descendant(root, "ModelExchange"@) {
        Some(e) => md.modelExchange matches Some(me) && e.spec_attribute("modelIdentifier"@) == Some(
            me.modelIdentifier,
        ) && me.needsCompletedIntegratorStep == spec_bool_attribute(
            e,
            "needsCompletedIntegratorStep"@,
            false,
        ),
        None => md.modelExchange is None,
    }
    &&& md.modelVariables@.len() == fmi3_variable_nodes(root).len()
    &&& forall|k: int|
        0 <= k < md.modelVariables@.len() ==> fmi3_variable_of(
            fmi3_variable_nodes(root)[k],
            #[trigger] md.modelVariables@[k],
        )
    &&& md.numberOfEventIndicators == 0
    &&& md.outputs@.len() == 0
    &&& md.derivatives@.len() == 0
    &&& md.clockedStates@.len() == 0
    &&& md.eventIndicators@.len() == 0
    &&& md.initialUnknowns@.len() == 0
}

fn read_fmi3_model_description(root: &XmlElement) -> (res: Result<ModelDescription, ReadFailure>)
    ensures
        match res {
            Ok(md) => fmi3_failure(*root) is None && fmi3_model_of(*root, md),
            Err(f) => fmi3_failure(*root) == Some(f.view_failure()),
        },
{
    let mv = match root.find_descendant("ModelVariables") {
        Some(mv) => mv,
        None => {
            return Err(ReadFailure::GiveUp);
        },
    };
    let nodes = mv.elements();
    let ghost spec_nodes = fmi3_variable_nodes(*root);
    let mut modelVariables: Vec<ModelVariable> = Vec::new();
    let mut i: usize = 0;
    while i < nodes.len()
        invariant
            i <= nodes@.len(),
            nodes@.len() == spec_nodes.len(),
            spec_nodes == fmi3_variable_nodes(*root),
            first_descendant(*root, "ModelVariables"@) is Some,
            forall|k: int| 0 <= k < nodes@.len() ==> *(#[trigger] nodes@[k]) == spec_nodes[k],
            modelVariables@.len() == i,
            forall|k: int|
                0 <= k < i ==> fmi3_variable_of(spec_nodes[k], #[trigger] modelVariables@[k]),
            first_failure(spec_nodes, |n: XmlElement| fmi3_variable_failure(n), i as nat)
                == first_failure(spec_nodes, |n: XmlElement| fmi3_variable_failure(n), 0),
        decreases nodes.len() - i,
    {
        let v = fmi3_variable(nodes[i])?;
        modelVariables.push(v);
        i = i + 1;
    }
    let defaultExperiment = default_experiment(root);
    let coSimulation = match root.find_descendant("CoSimulation") {
        Some(cs) => {
            let modelIdentifier = match cs.attribute("modelIdentifier") {
                Some(v) => v,
                None => {
                    return Err(ReadFailure::GiveUp);
                },
            };
            Some(
                CoSimulation {
                    modelIdentifier,
                    fixedInternalStepSize: cs.attribute("fixedInternalStepSize"),
                    canHandleVariableCommunicationStepSize: bool_attribute(
                        cs,
                        "canHandleVariableCommunicationStepSize",
                        false,
                    ),
                },
            )
        },
        None => None,
    };
    let modelExchange = match root.find_descendant("ModelExchange") {
        Some(me) => {
            let modelIdentifier = match me.attribute("modelIdentifier") {
                Some(v) => v,
                None => {
                    return Err(ReadFailure::GiveUp);
                },
            };
            Some(
                ModelExchange {
                    modelIdentifier,
                    needsCompletedIntegratorStep: bool_attribute(
                        me,
                        "needsCompletedIntegratorStep",
                        false,
                    ),
                },
            )
        },
        None => None,
    };
    if root.find_descendant("ModelStructure").is_none() {
        return Err(ReadFailure::Error(owned("Missing ModelStructure element.")));
    }
    let modelName = match root.attribute("modelName") {
        Some(v) => v,
        None => {
            return Err(ReadFailure::GiveUp);
        },
    };
    let instantiationToken = match root.attribute("instantiationToken") {
        Some(v) => v,
        None => {
            return Err(ReadFailure::GiveUp);
        },
    };
    Ok(
        ModelDescription {
            majorVersion: MajorVersion::V3,
            modelName,
            instantiationToken,
            defaultExperiment,
            modelExchange,
            coSimulation,
            modelVariables,
            numberOfEventIndicators: 0,
            outputs: Vec::new(),
            derivatives: Vec::new(),
            clockedStates: Vec::new(),
            eventIndicators: Vec::new(),
            initialUnknowns: Vec::new(),
        },
    )
}

// ---------------------------------------------------------------------------
// Either version
// ---------------------------------------------------------------------------
/// The answer of `read_model_description` for a document whose reading by the
/// reader of its version ends with `failure` (or `None`) and, without failure,
/// gives the model descriptions `is_model`.
pub open spec fn outcome_is(
    res: Option<Result<ModelDescription, String>>,
    failure: Option<Failure>,
    is_model: spec_fn(ModelDescription) -> bool,
) -> bool {
    match failure {
        Some(Failure::GiveUp) => res is None,
        Some(Failure::Error(m)) => res matches Some(Err(e)) && e@ == m,
        None => res matches Some(Ok(md)) && is_model(md),
    }
}

fn settle(res: Result<ModelDescription, ReadFailure>) -> (out: Option<Result<ModelDescription, String>>)
    ensures
        match res {
            Ok(md) => out matches Some(Ok(m)) && m == md,
            Err(ReadFailure::GiveUp) => out is None,
            Err(ReadFailure::Error(e)) => out matches Some(Err(m)) && m == e,
        },
{
    match res {
        Ok(md) => Some(Ok(md)),
        Err(ReadFailure::GiveUp) => None,
        Err(ReadFailure::Error(e)) => Some(Err(e)),
    }
}

/// The answer of `read_model_description` for a document whose root element is
/// `root`.
pub open spec fn read_outcome(root: XmlElement, res: Option<Result<ModelDescription, String>>) -> bool {
    match root.spec_attribute("fmiVersion"@) {
        None => res matches Some(Err(e)) && e@ == "Attribute fmiVersion is missing."@,
        Some(v) => if v@ == "2.0"@ {
            outcome_is(res, fmi2_failure(root), |md: ModelDescription| fmi2_model_of(root, md))
        } else if v@ == "3.0"@ {
            outcome_is(res, fmi3_failure(root), |md: ModelDescription| fmi3_model_of(root, md))
        } else {
            res matches Some(Err(e)) && e@ == "Unsupported FMI version: "@ + v@
        },
    }
}

/// Reads a model description of FMI 2.0 or 3.0 from the root element of its
/// document, by the reader of the version that its `fmiVersion` attribute names.
/// `None` where that reader gives up (see `fmi2_failure` and `fmi3_failure`).
pub fn read_model_description_from(root: &XmlElement) -> (res: Option<
    Result<ModelDescription, String>,
>)
    ensures
        read_outcome(*root, res),
{
    match root.attribute("fmiVersion") {
        Some(v) => {
            if v == owned("2.0") {
                settle(read_fmi2_model_description(root))
            } else if v == owned("3.0") {
                settle(read_fmi3_model_description(root))
            } else {
                let mut m = owned("Unsupported FMI version: ");
                push_str(&mut m, v.as_str());
                Some(Err(m))
            }
        },
        None => Some(Err(owned("Attribute fmiVersion is missing."))),
    }
}

/// Reads a model description of FMI 2.0 or 3.0 from the text of its document.
/// `None` where the reader gives up: an unreadable document, and the documents on
/// which `fmi2_failure` or `fmi3_failure` says so.
pub fn read_model_description(text: &str) -> (res: Option<Result<ModelDescription, String>>)
    ensures
        match xml_document(text@) {
            Err(_) => res is None,
            Ok(root) => read_outcome(root, res),
        },
{
    match parse_xml(text) {
        Ok(root) => read_model_description_from(&root),
        Err(_) => None,
    }
}

} // verus!
