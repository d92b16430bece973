//! The FMI 2.0 model description: its data, how it is read from the XML tree, and
//! the lookups on it.
#![allow(non_snake_case)]

use std::ops::Range;
use std::str::FromStr;
use vstd::prelude::*;

pub mod file;
pub mod validation;

use crate::model_description::{find_first, Category, DefaultExperiment, Unit};
use crate::text::{owned, push_str};

verus! {

/// The value reference of an FMI 2 variable.
pub type fmi2ValueReference = u32;

/// The 1-based index of a variable in `<ModelVariables>`.
pub type VariableIndex = u32;

// ---------------------------------------------------------------------------
// Enumerations read from attribute values
// ---------------------------------------------------------------------------
/// The causality of a variable.
#[derive(Debug, PartialEq, Eq, Structural, Clone, Copy, Hash)]
pub enum Causality {
    Parameter,
    CalculatedParameter,
    Input,
    Output,
    Local,
    Independent,
}

impl Causality {
    /// The causality that the attribute value `s` names.
    pub open spec fn spec_from_name(s: Seq<char>) -> Option<Causality> {
        if s == "parameter"@ {
            Some(Causality::Parameter)
        } else if s == "calculatedParameter"@ {
            Some(Causality::CalculatedParameter)
        } else if s == "input"@ {
            Some(Causality::Input)
        } else if s == "output"@ {
            Some(Causality::Output)
        } else if s == "local"@ {
            Some(Causality::Local)
        } else if s == "independent"@ {
            Some(Causality::Independent)
        } else {
            None
        }
    }

    /// Reads an attribute value.
    pub fn from_name(s: &str) -> (res: Result<Causality, String>)
        ensures
            match res {
                Ok(c) => Self::spec_from_name(s@) == Some(c),
                Err(m) => Self::spec_from_name(s@) is None && m@ == "Unknown causality: "@ + s@,
            },
    {
        let key = owned(s);
        if key == owned("parameter") {
            Ok(Causality::Parameter)
        } else if key == owned("calculatedParameter") {
            Ok(Causality::CalculatedParameter)
        } else if key == owned("input") {
            Ok(Causality::Input)
        } else if key == owned("output") {
            Ok(Causality::Output)
        } else if key == owned("local") {
            Ok(Causality::Local)
        } else if key == owned("independent") {
            Ok(Causality::Independent)
        } else {
            let mut m = owned("Unknown causality: ");
            push_str(&mut m, s);
            Err(m)
        }
    }

    /// The name of the variant, as `{:?}` writes it.
    pub open spec fn spec_debug_name(self) -> Seq<char> {
        match self {
            Causality::Parameter => "Parameter"@,
            Causality::CalculatedParameter => "CalculatedParameter"@,
            Causality::Input => "Input"@,
            Causality::Output => "Output"@,
            Causality::Local => "Local"@,
            Causality::Independent => "Independent"@,
        }
    }

    /// The name of the variant, as `{:?}` writes it.
    pub fn debug_name(&self) -> (res: String)
        ensures
            res@ == self.spec_debug_name(),
    {
        match self {
            Causality::Parameter => owned("Parameter"),
            Causality::CalculatedParameter => owned("CalculatedParameter"),
            Causality::Input => owned("Input"),
            Causality::Output => owned("Output"),
            Causality::Local => owned("Local"),
            Causality::Independent => owned("Independent"),
        }
    }
}

impl Causality {
    /// The attribute value that names each value.
    pub open spec fn attribute_name(self) -> Seq<char> {
        match self {
            Causality::Parameter => "parameter"@,
            Causality::CalculatedParameter => "calculatedParameter"@,
            Causality::Input => "input"@,
            Causality::Output => "output"@,
            Causality::Local => "local"@,
            Causality::Independent => "independent"@,
        }
    }
}

/// A text names a value exactly when it is that value's attribute name, and
/// distinct values have distinct names.
pub proof fn lemma_causality_names(s: Seq<char>)
    ensures
        forall|c: Causality| #[trigger] c.attribute_name() == s <==> Causality::spec_from_name(s) == Some(c),
        forall|c1: Causality, c2: Causality|
            #![trigger c1.attribute_name(), c2.attribute_name()]
            c1.attribute_name() == c2.attribute_name() ==> c1 == c2,
{
    reveal_strlit("parameter");
    reveal_strlit("calculatedParameter");
    reveal_strlit("input");
    reveal_strlit("output");
    reveal_strlit("local");
    reveal_strlit("independent");
    assert("parameter"@ != "calculatedParameter"@) by { assert("parameter"@.len() != "calculatedParameter"@.len()); }
    assert("parameter"@ != "input"@) by { assert("parameter"@.len() != "input"@.len()); }
    assert("parameter"@ != "output"@) by { assert("parameter"@.len() != "output"@.len()); }
    assert("parameter"@ != "local"@) by { assert("parameter"@.len() != "local"@.len()); }
    assert("parameter"@ != "independent"@) by { assert("parameter"@.len() != "independent"@.len()); }
    assert("calculatedParameter"@ != "input"@) by { assert("calculatedParameter"@.len() != "input"@.len()); }
    assert("calculatedParameter"@ != "output"@) by { assert("calculatedParameter"@.len() != "output"@.len()); }
    assert("calculatedParameter"@ != "local"@) by { assert("calculatedParameter"@.len() != "local"@.len()); }
    assert("calculatedParameter"@ != "independent"@) by { assert("calculatedParameter"@.len() != "independent"@.len()); }
    assert("input"@ != "output"@) by { assert("input"@.len() != "output"@.len()); }
    assert("input"@ != "local"@) by { assert("input"@[0] != "local"@[0]); }
    assert("input"@ != "independent"@) by { assert("input"@.len() != "independent"@.len()); }
    assert("output"@ != "local"@) by { assert("output"@.len() != "local"@.len()); }
    assert("output"@ != "independent"@) by { assert("output"@.len() != "independent"@.len()); }
    assert("local"@ != "independent"@) by { assert("local"@.len() != "independent"@.len()); }
}

impl FromStr for Causality {
    type Err = String;

    fn from_str(s: &str) -> (res: Result<Causality, String>)
        ensures
            match res {
                Ok(c) => Causality::spec_from_name(s@) == Some(c),
                Err(m) => Causality::spec_from_name(s@) is None && m@ == "Unknown causality: "@ + s@,
            },
    {
        Causality::from_name(s)
    }
}

/// The variability of a variable.
#[derive(Debug, PartialEq, Eq, Structural, Clone, Copy, Hash)]
pub enum Variability {
    Constant,
    Fixed,
    Tunable,
    Discrete,
    Continuous,
}

impl Variability {
    /// The variability that the attribute value `s` names.
    pub open spec fn spec_from_name(s: Seq<char>) -> Option<Variability> {
        if s == "constant"@ {
            Some(Variability::Constant)
        } else if s == "fixed"@ {
            Some(Variability::Fixed)
        } else if s == "tunable"@ {
            Some(Variability::Tunable)
        } else if s == "discrete"@ {
            Some(Variability::Discrete)
        } else if s == "continuous"@ {
            Some(Variability::Continuous)
        } else {
            None
        }
    }

    /// Reads an attribute value.
    pub fn from_name(s: &str) -> (res: Result<Variability, String>)
        ensures
            match res {
                Ok(c) => Self::spec_from_name(s@) == Some(c),
                Err(m) => Self::spec_from_name(s@) is None && m@ == "Unknown variability: "@ + s@,
            },
    {
        let key = owned(s);
        if key == owned("constant") {
            Ok(Variability::Constant)
        } else if key == owned("fixed") {
            Ok(Variability::Fixed)
        } else if key == owned("tunable") {
            Ok(Variability::Tunable)
        } else if key == owned("discrete") {
            Ok(Variability::Discrete)
        } else if key == owned("continuous") {
            Ok(Variability::Continuous)
        } else {
            let mut m = owned("Unknown variability: ");
            push_str(&mut m, s);
            Err(m)
        }
    }

    /// The name of the variant, as `{:?}` writes it.
    pub open spec fn spec_debug_name(self) -> Seq<char> {
        match self {
            Variability::Constant => "Constant"@,
            Variability::Fixed => "Fixed"@,
            Variability::Tunable => "Tunable"@,
            Variability::Discrete => "Discrete"@,
            Variability::Continuous => "Continuous"@,
        }
    }

    /// The name of the variant, as `{:?}` writes it.
    pub fn debug_name(&self) -> (res: String)
        ensures
            res@ == self.spec_debug_name(),
    {
        match self {
            Variability::Constant => owned("Constant"),
            Variability::Fixed => owned("Fixed"),
            Variability::Tunable => owned("Tunable"),
            Variability::Discrete => owned("Discrete"),
            Variability::Continuous => owned("Continuous"),
        }
    }
}

impl Variability {
    /// The attribute value that names each value.
    pub open spec fn attribute_name(self) -> Seq<char> {
        match self {
            Variability::Constant => "constant"@,
            Variability::Fixed => "fixed"@,
            Variability::Tunable => "tunable"@,
            Variability::Discrete => "discrete"@,
            Variability::Continuous => "continuous"@,
        }
    }
}

/// A text names a value exactly when it is that value's attribute name, and
/// distinct values have distinct names.
pub proof fn lemma_variability_names(s: Seq<char>)
    ensures
        forall|c: Variability| #[trigger] c.attribute_name() == s <==> Variability::spec_from_name(s) == Some(c),
        forall|c1: Variability, c2: Variability|
            #![trigger c1.attribute_name(), c2.attribute_name()]
            c1.attribute_name() == c2.attribute_name() ==> c1 == c2,
{
    reveal_strlit("constant");
    reveal_strlit("fixed");
    reveal_strlit("tunable");
    reveal_strlit("discrete");
    reveal_strlit("continuous");
    assert("constant"@ != "fixed"@) by { assert("constant"@.len() != "fixed"@.len()); }
    assert("constant"@ != "tunable"@) by { assert("constant"@.len() != "tunable"@.len()); }
    assert("constant"@ != "discrete"@) by { assert("constant"@[0] != "discrete"@[0]); }
    assert("constant"@ != "continuous"@) by { assert("constant"@.len() != "continuous"@.len()); }
    assert("fixed"@ != "tunable"@) by { assert("fixed"@.len() != "tunable"@.len()); }
    assert("fixed"@ != "discrete"@) by { assert("fixed"@.len() != "discrete"@.len()); }
    assert("fixed"@ != "continuous"@) by { assert("fixed"@.len() != "continuous"@.len()); }
    assert("tunable"@ != "discrete"@) by { assert("tunable"@.len() != "discrete"@.len()); }
    assert("tunable"@ != "continuous"@) by { assert("tunable"@.len() != "continuous"@.len()); }
    assert("discrete"@ != "continuous"@) by { assert("discrete"@.len() != "continuous"@.len()); }
}

impl FromStr for Variability {
    type Err = String;

    fn from_str(s: &str) -> (res: Result<Variability, String>)
        ensures
            match res {
                Ok(c) => Variability::spec_from_name(s@) == Some(c),
                Err(m) => Variability::spec_from_name(s@) is None && m@ == "Unknown variability: "@ + s@,
            },
    {
        Variability::from_name(s)
    }
}

/// How the initial value of a variable is determined.
#[derive(Debug, PartialEq, Eq, Structural, Clone, Copy, Hash)]
pub enum Initial {
    Exact,
    Approx,
    Calculated,
}

impl Initial {
    /// The kind of initial value that the attribute value `s` names.
    pub open spec fn spec_from_name(s: Seq<char>) -> Option<Initial> {
        if s == "exact"@ {
            Some(Initial::Exact)
        } else if s == "approx"@ {
            Some(Initial::Approx)
        } else if s == "calculated"@ {
            Some(Initial::Calculated)
        } else {
            None
        }
    }

    /// Reads an attribute value.
    pub fn from_name(s: &str) -> (res: Result<Initial, String>)
        ensures
            match res {
                Ok(c) => Self::spec_from_name(s@) == Some(c),
                Err(m) => Self::spec_from_name(s@) is None && m@ == "Unknown intial: "@ + s@,
            },
    {
        let key = owned(s);
        if key == owned("exact") {
            Ok(Initial::Exact)
        } else if key == owned("approx") {
            Ok(Initial::Approx)
        } else if key == owned("calculated") {
            Ok(Initial::Calculated)
        } else {
            let mut m = owned("Unknown intial: ");
            push_str(&mut m, s);
            Err(m)
        }
    }

    /// The name of the variant, as `{:?}` writes it.
    pub open spec fn spec_debug_name(self) -> Seq<char> {
        match self {
            Initial::Exact => "Exact"@,
            Initial::Approx => "Approx"@,
            Initial::Calculated => "Calculated"@,
        }
    }

    /// The name of the variant, as `{:?}` writes it.
    pub fn debug_name(&self) -> (res: String)
        ensures
            res@ == self.spec_debug_name(),
    {
        match self {
            Initial::Exact => owned("Exact"),
            Initial::Approx => owned("Approx"),
            Initial::Calculated => owned("Calculated"),
        }
    }
}

impl Initial {
    /// The attribute value that names each value.
    pub open spec fn attribute_name(self) -> Seq<char> {
        match self {
            Initial::Exact => "exact"@,
            Initial::Approx => "approx"@,
            Initial::Calculated => "calculated"@,
        }
    }
}

/// A text names a value exactly when it is that value's attribute name, and
/// distinct values have distinct names.
pub proof fn lemma_initial_names(s: Seq<char>)
    ensures
        forall|c: Initial| #[trigger] c.attribute_name() == s <==> Initial::spec_from_name(s) == Some(c),
        forall|c1: Initial, c2: Initial|
            #![trigger c1.attribute_name(), c2.attribute_name()]
            c1.attribute_name() == c2.attribute_name() ==> c1 == c2,
{
    reveal_strlit("exact");
    reveal_strlit("approx");
    reveal_strlit("calculated");
    assert("exact"@ != "approx"@) by { assert("exact"@.len() != "approx"@.len()); }
    assert("exact"@ != "calculated"@) by { assert("exact"@.len() != "calculated"@.len()); }
    assert("approx"@ != "calculated"@) by { assert("approx"@.len() != "calculated"@.len()); }
}

impl FromStr for Initial {
    type Err = String;

    fn from_str(s: &str) -> (res: Result<Initial, String>)
        ensures
            match res {
                Ok(c) => Initial::spec_from_name(s@) == Some(c),
                Err(m) => Initial::spec_from_name(s@) is None && m@ == "Unknown intial: "@ + s@,
            },
    {
        Initial::from_name(s)
    }
}

/// How an unknown depends on a known.
#[derive(Debug, PartialEq, Eq, Structural, Clone, Copy, Hash)]
pub enum DependencyKind {
    Dependent,
    Constant,
    Fixed,
    Tunable,
    Discrete,
}

impl DependencyKind {
    /// The dependency kind that `s` names.
    pub open spec fn spec_from_name(s: Seq<char>) -> Option<DependencyKind> {
        if s == "dependent"@ {
            Some(DependencyKind::Dependent)
        } else if s == "constant"@ {
            Some(DependencyKind::Constant)
        } else if s == "fixed"@ {
            Some(DependencyKind::Fixed)
        } else if s == "tunable"@ {
            Some(DependencyKind::Tunable)
        } else if s == "discrete"@ {
            Some(DependencyKind::Discrete)
        } else {
            None
        }
    }

    /// Reads a dependency kind.
    pub fn from_name(s: &str) -> (res: Result<DependencyKind, String>)
        ensures
            match res {
                Ok(c) => Self::spec_from_name(s@) == Some(c),
                Err(m) => Self::spec_from_name(s@) is None && m@ == "Unknown dependency kind: "@
                    + s@,
            },
    {
        let key = owned(s);
        if key == owned("dependent") {
            Ok(DependencyKind::Dependent)
        } else if key == owned("constant") {
            Ok(DependencyKind::Constant)
        } else if key == owned("fixed") {
            Ok(DependencyKind::Fixed)
        } else if key == owned("tunable") {
            Ok(DependencyKind::Tunable)
        } else if key == owned("discrete") {
            Ok(DependencyKind::Discrete)
        } else {
            let mut m = owned("Unknown dependency kind: ");
            push_str(&mut m, s);
            Err(m)
        }
    }
}

impl DependencyKind {
    /// The attribute value that names each value.
    pub open spec fn attribute_name(self) -> Seq<char> {
        match self {
            DependencyKind::Dependent => "dependent"@,
            DependencyKind::Constant => "constant"@,
            DependencyKind::Fixed => "fixed"@,
            DependencyKind::Tunable => "tunable"@,
            DependencyKind::Discrete => "discrete"@,
        }
    }
}

/// A text names a value exactly when it is that value's attribute name, and
/// distinct values have distinct names.
pub proof fn lemma_dependency_kind_names(s: Seq<char>)
    ensures
        forall|c: DependencyKind| #[trigger] c.attribute_name() == s <==> DependencyKind::spec_from_name(s) == Some(c),
        forall|c1: DependencyKind, c2: DependencyKind|
            #![trigger c1.attribute_name(), c2.attribute_name()]
            c1.attribute_name() == c2.attribute_name() ==> c1 == c2,
{
    reveal_strlit("dependent");
    reveal_strlit("constant");
    reveal_strlit("fixed");
    reveal_strlit("tunable");
    reveal_strlit("discrete");
    assert("dependent"@ != "constant"@) by { assert("dependent"@.len() != "constant"@.len()); }
    assert("dependent"@ != "fixed"@) by { assert("dependent"@.len() != "fixed"@.len()); }
    assert("dependent"@ != "tunable"@) by { assert("dependent"@.len() != "tunable"@.len()); }
    assert("dependent"@ != "discrete"@) by { assert("dependent"@.len() != "discrete"@.len()); }
    assert("constant"@ != "fixed"@) by { assert("constant"@.len() != "fixed"@.len()); }
    assert("constant"@ != "tunable"@) by { assert("constant"@.len() != "tunable"@.len()); }
    assert("constant"@ != "discrete"@) by { assert("constant"@[0] != "discrete"@[0]); }
    assert("fixed"@ != "tunable"@) by { assert("fixed"@.len() != "tunable"@.len()); }
    assert("fixed"@ != "discrete"@) by { assert("fixed"@.len() != "discrete"@.len()); }
    assert("tunable"@ != "discrete"@) by { assert("tunable"@.len() != "discrete"@.len()); }
}

impl FromStr for DependencyKind {
    type Err = String;

    fn from_str(s: &str) -> (res: Result<DependencyKind, String>)
        ensures
            match res {
                Ok(c) => DependencyKind::spec_from_name(s@) == Some(c),
                Err(m) => DependencyKind::spec_from_name(s@) is None && m@ == "Unknown dependency kind: "@
                    + s@,
            },
    {
        DependencyKind::from_name(s)
    }
}

/// Whether variable names are flat or structured.
#[derive(Debug, PartialEq, Eq, Structural, Clone, Copy, Hash)]
pub enum VariableNamingConvention {
    Flat,
    Structured,
}

impl VariableNamingConvention {
    /// The convention that `s` names.
    pub open spec fn spec_from_name(s: Seq<char>) -> Option<VariableNamingConvention> {
        if s == "flat"@ {
            Some(VariableNamingConvention::Flat)
        } else if s == "structured"@ {
            Some(VariableNamingConvention::Structured)
        } else {
            None
        }
    }

    /// Reads a naming convention.
    pub fn from_name(s: &str) -> (res: Result<VariableNamingConvention, String>)
        ensures
            match res {
                Ok(c) => Self::spec_from_name(s@) == Some(c),
                Err(m) => Self::spec_from_name(s@) is None && m@
                    == "Unknown variable naming convention: "@ + s@,
            },
    {
        let key = owned(s);
        if key == owned("flat") {
            Ok(VariableNamingConvention::Flat)
        } else if key == owned("structured") {
            Ok(VariableNamingConvention::Structured)
        } else {
            let mut m = owned("Unknown variable naming convention: ");
            push_str(&mut m, s);
            Err(m)
        }
    }
}

impl VariableNamingConvention {
    /// The attribute value that names each value.
    pub open spec fn attribute_name(self) -> Seq<char> {
        match self {
            VariableNamingConvention::Flat => "flat"@,
            VariableNamingConvention::Structured => "structured"@,
        }
    }
}

/// A text names a value exactly when it is that value's attribute name, and
/// distinct values have distinct names.
pub proof fn lemma_variable_naming_convention_names(s: Seq<char>)
    ensures
        forall|c: VariableNamingConvention| #[trigger] c.attribute_name() == s <==> VariableNamingConvention::spec_from_name(s) == Some(c),
        forall|c1: VariableNamingConvention, c2: VariableNamingConvention|
            #![trigger c1.attribute_name(), c2.attribute_name()]
            c1.attribute_name() == c2.attribute_name() ==> c1 == c2,
{
    reveal_strlit("flat");
    reveal_strlit("structured");
    assert("flat"@ != "structured"@) by { assert("flat"@.len() != "structured"@.len()); }
}

impl FromStr for VariableNamingConvention {
    type Err = String;

    fn from_str(s: &str) -> (res: Result<VariableNamingConvention, String>)
        ensures
            match res {
                Ok(c) => VariableNamingConvention::spec_from_name(s@) == Some(c),
                Err(m) => VariableNamingConvention::spec_from_name(s@) is None && m@
                    == "Unknown variable naming convention: "@ + s@,
            },
    {
        VariableNamingConvention::from_name(s)
    }
}

// ---------------------------------------------------------------------------
// The data
// ---------------------------------------------------------------------------
/// The type of a scalar variable and its type-specific attributes, as written.
#[derive(Debug, PartialEq)]
pub enum VariableType {
    Real {
        declaredType: Option<String>,
        quantity: Option<String>,
        unit: Option<String>,
        displayUnit: Option<String>,
        relativeQuantity: bool,
        min: Option<String>,
        max: Option<String>,
        nominal: Option<String>,
        unbounded: bool,
        start: Option<String>,
        derivative: Option<VariableIndex>,
        reinit: bool,
    },
    Integer {
        declaredType: Option<String>,
        quantity: Option<String>,
        min: Option<String>,
        max: Option<String>,
        start: Option<String>,
    },
    Boolean { declaredType: Option<String>, start: Option<String> },
    String { declaredType: Option<String>, start: Option<String> },
    Enumeration {
        declaredType: String,
        quantity: Option<String>,
        min: Option<String>,
        max: Option<String>,
        start: Option<String>,
    },
}

impl VariableType {
    /// The name of the variable type regardless of the variant.
    pub open spec fn spec_name(self) -> Seq<char> {
        match self {
            VariableType::Real { .. } => "Real"@,
            VariableType::Integer { .. } => "Integer"@,
            VariableType::Boolean { .. } => "Boolean"@,
            VariableType::String { .. } => "String"@,
            VariableType::Enumeration { .. } => "Enumeration"@,
        }
    }

    /// Returns the name of the variable type regardless of the variant.
    pub fn name(&self) -> (res: &'static str)
        ensures
            res@ == self.spec_name(),
    {
        match self {
            VariableType::Real { .. } => "Real",
            VariableType::Integer { .. } => "Integer",
            VariableType::Boolean { .. } => "Boolean",
            VariableType::String { .. } => "String",
            VariableType::Enumeration { .. } => "Enumeration",
        }
    }

    /// Whether the start attribute is set.
    pub open spec fn spec_has_start(self) -> bool {
        match self {
            VariableType::Real { start, .. } => start is Some,
            VariableType::Integer { start, .. } => start is Some,
            VariableType::Boolean { start, .. } => start is Some,
            VariableType::String { start, .. } => start is Some,
            VariableType::Enumeration { start, .. } => start is Some,
        }
    }

    /// Returns true if the start attribute is set.
    pub fn has_start(&self) -> (res: bool)
        ensures
            res == self.spec_has_start(),
    {
        match self {
            VariableType::Real { start, .. } => start.is_some(),
            VariableType::Integer { start, .. } => start.is_some(),
            VariableType::Boolean { start, .. } => start.is_some(),
            VariableType::String { start, .. } => start.is_some(),
            VariableType::Enumeration { start, .. } => start.is_some(),
        }
    }
}

/// An item of an enumeration type.
#[derive(Debug)]
pub struct Item {
    pub name: String,
    pub value: i32,
    pub description: Option<String>,
    pub range: Range<usize>,
}

/// A type definition. The bounds and the nominal value of a Real type are kept as
/// floating-point literals.
#[derive(Debug)]
pub enum SimpleType {
    Real {
        name: String,
        description: Option<String>,
        quantity: Option<String>,
        unit: Option<String>,
        displayUnit: Option<String>,
        relativeQuantity: bool,
        min: Option<String>,
        max: Option<String>,
        nominal: Option<String>,
        unbounded: bool,
        range: Range<usize>,
    },
    Integer {
        name: String,
        description: Option<String>,
        quantity: Option<String>,
        min: Option<i32>,
        max: Option<i32>,
        range: Range<usize>,
    },
    Boolean { name: String, description: Option<String>, range: Range<usize> },
    String { name: String, description: Option<String>, range: Range<usize> },
    Enumeration {
        name: String,
        description: Option<String>,
        items: Vec<Item>,
        quantity: Option<String>,
        range: Range<usize>,
    },
}

impl SimpleType {
    /// The name of the type definition regardless of the variant.
    pub open spec fn spec_name(self) -> String {
        match self {
            SimpleType::Real { name, .. } => name,
            SimpleType::Integer { name, .. } => name,
            SimpleType::Boolean { name, .. } => name,
            SimpleType::String { name, .. } => name,
            SimpleType::Enumeration { name, .. } => name,
        }
    }

    /// Returns the name of the type definition regardless of the variant.
    pub fn name(&self) -> (res: &String)
        ensures
            *res == self.spec_name(),
    {
        match self {
            SimpleType::Real { name, .. } => name,
            SimpleType::Integer { name, .. } => name,
            SimpleType::Boolean { name, .. } => name,
            SimpleType::String { name, .. } => name,
            SimpleType::Enumeration { name, .. } => name,
        }
    }
}

/// The Co-Simulation interface.
#[derive(Debug)]
pub struct CoSimulation {
    pub sourceFiles: Vec<String>,
    pub modelIdentifier: String,
    pub needsExecutionTool: bool,
    pub canHandleVariableCommunicationStepSize: bool,
    pub canInterpolateInputs: bool,
    pub maxOutputDerivativeOrder: u32,
    pub canRunAsynchronuously: bool,
    pub canBeInstantiatedOnlyOncePerProcess: bool,
    pub canNotUseMemoryManagementFunctions: bool,
    pub canGetAndSetFMUstate: bool,
    pub canSerializeFMUstate: bool,
    pub providesDirectionalDerivative: bool,
    pub range: Range<usize>,
}

/// The Model Exchange interface.
#[derive(Debug)]
pub struct ModelExchange {
    pub sourceFiles: Vec<String>,
    pub modelIdentifier: String,
    pub needsExecutionTool: bool,
    pub completedIntegratorStepNotNeeded: bool,
    pub canBeInstantiatedOnlyOncePerProcess: bool,
    pub canNotUseMemoryManagementFunctions: bool,
    pub canGetAndSetFMUstate: bool,
    pub canSerializeFMUstate: bool,
    pub providesDirectionalDerivative: bool,
    pub range: Range<usize>,
}

/// A scalar variable.
#[derive(Debug)]
pub struct ScalarVariable {
    pub variableType: VariableType,
    pub name: String,
    pub valueReference: fmi2ValueReference,
    pub description: Option<String>,
    pub causality: Causality,
    pub variability: Variability,
    pub initial: Option<Initial>,
    pub canHandleMultipleSetPerTimeInstant: bool,
    pub range: Range<usize>,
}

/// An unknown of the model structure.
#[derive(Debug)]
pub struct Unknown {
    pub index: VariableIndex,
    pub dependencies: Option<Vec<VariableIndex>>,
    pub dependenciesKind: Option<Vec<DependencyKind>>,
    pub range: Range<usize>,
}

/// An FMI 2.0 model description.
#[derive(Debug)]
pub struct ModelDescription {
    pub modelName: String,
    pub guid: String,
    pub description: Option<String>,
    pub author: Option<String>,
    pub version: Option<String>,
    pub copyright: Option<String>,
    pub license: Option<String>,
    pub generationTool: Option<String>,
    pub generationDateAndTime: Option<String>,
    pub variableNamingConvention: VariableNamingConvention,
    pub logCategories: Vec<Category>,
    pub defaultExperiment: Option<DefaultExperiment>,
    pub modelExchange: Option<ModelExchange>,
    pub coSimulation: Option<CoSimulation>,
    pub unitDefintions: Vec<Unit>,
    pub typeDefinitions: Vec<SimpleType>,
    pub modelVariables: Vec<ScalarVariable>,
    pub numberOfEventIndicators: u32,
    pub outputs: Vec<Unknown>,
    pub derivatives: Vec<Unknown>,
    pub initialUnknowns: Vec<Unknown>,
}

// ---------------------------------------------------------------------------
// Lookups
// ---------------------------------------------------------------------------
/// The unit of a variable: its own `unit`, else that of the first Real type
/// definition named by its `declaredType`; only Real variables have one.
pub open spec fn spec_unit(types: Seq<SimpleType>, variable: ScalarVariable) -> Option<Seq<char>> {
    match variable.variableType {
        VariableType::Real { unit, declaredType, .. } => match unit {
            Some(u) => Some(u@),
            None => match declaredType {
                Some(d) => match find_first(
                    types,
                    |t: SimpleType| t is Real && t->Real_name@ == d@,
                    0,
                ) {
                    Some(t) => match t->Real_unit {
                        Some(u) => Some(u@),
                        None => None,
                    },
                    None => None,
                },
                None => None,
            },
        },
        _ => None,
    }
}

impl ModelDescription {
    /// Returns the first variable found with the given value reference.
    pub fn get_variable_by_value_reference(&self, vr: fmi2ValueReference) -> (res: Option<
        &ScalarVariable,
    >)
        ensures
            match res {
                Some(v) => find_first(
                    self.modelVariables@,
                    |v: ScalarVariable| v.valueReference == vr,
                    0,
                ) == Some(*v),
                None => find_first(
                    self.modelVariables@,
                    |v: ScalarVariable| v.valueReference == vr,
                    0,
                ) is None,
            },
    {
        let mut i: usize = 0;
        while i < self.modelVariables.len()
            invariant
                i <= self.modelVariables@.len(),
                find_first(self.modelVariables@, |v: ScalarVariable| v.valueReference == vr, i as nat)
                    == find_first(
                    self.modelVariables@,
                    |v: ScalarVariable| v.valueReference == vr,
                    0,
                ),
            decreases self.modelVariables.len() - i,
        {
            if self.modelVariables[i].valueReference == vr {
                return Some(&self.modelVariables[i]);
            }
            i = i + 1;
        }
        None
    }

    /// Returns the first variable found with the given name.
    pub fn get_variable_by_name(&self, name: &str) -> (res: Option<&ScalarVariable>)
        ensures
            match res {
                Some(v) => find_first(self.modelVariables@, |v: ScalarVariable| v.name@ == name@, 0)
                    == Some(*v),
                None => find_first(
                    self.modelVariables@,
                    |v: ScalarVariable| v.name@ == name@,
                    0,
                ) is None,
            },
    {
        let key = owned(name);
        let mut i: usize = 0;
        while i < self.modelVariables.len()
            invariant
                i <= self.modelVariables@.len(),
                key@ == name@,
                find_first(self.modelVariables@, |v: ScalarVariable| v.name@ == name@, i as nat)
                    == find_first(self.modelVariables@, |v: ScalarVariable| v.name@ == name@, 0),
            decreases self.modelVariables.len() - i,
        {
            if self.modelVariables[i].name == key {
                return Some(&self.modelVariables[i]);
            }
            i = i + 1;
        }
        None
    }

    /// Returns the variable with the given 1-based index (none for index 0).
    pub fn get_variable_by_index(&self, index: VariableIndex) -> (res: Option<&ScalarVariable>)
        ensures
            match res {
                Some(v) => 1 <= index <= self.modelVariables@.len() && *v
                    == self.modelVariables@[index - 1],
                None => !(1 <= index <= self.modelVariables@.len()),
            },
    {
        if index == 0 {
            return None;
        }
        let i = (index - 1) as usize;
        if i < self.modelVariables.len() {
            Some(&self.modelVariables[i])
        } else {
            None
        }
    }

    /// The unit of a Real variable: its own, else that of its declared type.
    pub fn get_unit<'a>(&'a self, variable: &'a ScalarVariable) -> (res: Option<&'a str>)
        ensures
            match res {
                Some(u) => spec_unit(self.typeDefinitions@, *variable) == Some(u@),
                None => spec_unit(self.typeDefinitions@, *variable) is None,
            },
    {
        match &variable.variableType {
            VariableType::Real { unit, declaredType, .. } => match unit {
                Some(u) => Some(u.as_str()),
                None => match declaredType {
                    Some(d) => {
                        let ghost p = |t: SimpleType| t is Real && t->Real_name@ == d@;
                        let mut i: usize = 0;
                        while i < self.typeDefinitions.len()
                            invariant
                                i <= self.typeDefinitions@.len(),
                                p == (|t: SimpleType| t is Real && t->Real_name@ == d@),
                                spec_unit(self.typeDefinitions@, *variable) == match find_first(
                                    self.typeDefinitions@,
                                    p,
                                    0,
                                ) {
                                    Some(t) => match t->Real_unit {
                                        Some(u) => Some(u@),
                                        None => None,
                                    },
                                    None => None,
                                },
                                find_first(self.typeDefinitions@, p, i as nat) == find_first(
                                    self.typeDefinitions@,
                                    p,
                                    0,
                                ),
                            decreases self.typeDefinitions.len() - i,
                        {
                            match &self.typeDefinitions[i] {
                                SimpleType::Real { name, unit, .. } => {
                                    if *name == *d {
                                        return match unit {
                                            Some(u) => Some(u.as_str()),
                                            None => None,
                                        };
                                    }
                                },
                                _ => {},
                            }
                            i = i + 1;
                        }
                        None
                    },
                    None => None,
                },
            },
            _ => None,
        }
    }

    /// Returns the first type definition with the given name.
    pub fn get_type_definition(&self, name: &str) -> (res: Option<&SimpleType>)
        ensures
            match res {
                Some(t) => find_first(
                    self.typeDefinitions@,
                    |t: SimpleType| t.spec_name()@ == name@,
                    0,
                ) == Some(*t),
                None => find_first(
                    self.typeDefinitions@,
                    |t: SimpleType| t.spec_name()@ == name@,
                    0,
                ) is None,
            },
    {
        let key = owned(name);
        let mut i: usize = 0;
        while i < self.typeDefinitions.len()
            invariant
                i <= self.typeDefinitions@.len(),
                key@ == name@,
                find_first(self.typeDefinitions@, |t: SimpleType| t.spec_name()@ == name@, i as nat)
                    == find_first(self.typeDefinitions@, |t: SimpleType| t.spec_name()@ == name@, 0),
            decreases self.typeDefinitions.len() - i,
        {
            if *self.typeDefinitions[i].name() == key {
                return Some(&self.typeDefinitions[i]);
            }
            i = i + 1;
        }
        None
    }
}

} // verus!
