//! The FMI 3.0 model description: its data, how it is read from the XML tree,
//! its validation, and the lookups on it.
#![allow(non_snake_case, non_camel_case_types)]

use std::ops::Range;
use std::str::FromStr;
use vstd::prelude::*;

pub mod file;
pub mod validation;

use crate::model_description::{find_first, Category, Unit};
use crate::text::{owned, push_str};

verus! {

/// The value reference of an FMI 3 variable.
pub type fmiValueReference = u32;

// ---------------------------------------------------------------------------
// Enumerations read from attribute values
// ---------------------------------------------------------------------------

/// Whether variable names are flat or structured.
#[derive(Debug, PartialEq, Eq, Structural, Clone, Copy, Hash)]
pub enum VariableNamingConvention {
    Flat,
    Structured,
}

impl VariableNamingConvention {
    /// The value that the attribute text `s` names.
    pub open spec fn spec_from_name(s: Seq<char>) -> Option<VariableNamingConvention> {
        if s == "flat"@ {
            Some(VariableNamingConvention::Flat)
        } else if s == "structured"@ {
            Some(VariableNamingConvention::Structured)
        } else {
            None
        }
    }

    /// Reads an attribute value.
    pub fn from_name(s: &str) -> (res: Result<VariableNamingConvention, String>)
        ensures
            match res {
                Ok(c) => Self::spec_from_name(s@) == Some(c),
                Err(m) => Self::spec_from_name(s@) is None && m@ == "Unknown variable naming convention: "@ + s@,
            },
    {
        let key = owned(s);
        if key == owned("flat") {
            Ok(VariableNamingConvention::Flat)
        } else if key == owned("structured") {
            Ok(VariableNamingConvention::Structured)
        } else {
            let mut m = owned("Unknown variable naming convention: ");
            push_str(&mut m, s);
            Err(m)
        }
    }
}

impl VariableNamingConvention {
    /// The attribute value that names each value.
    pub open spec fn attribute_name(self) -> Seq<char> {
        match self {
            VariableNamingConvention::Flat => "flat"@,
            VariableNamingConvention::Structured => "structured"@,
        }
    }
}

/// A text names a value exactly when it is that value's attribute name, and
/// distinct values have distinct names.
pub proof fn lemma_variable_naming_convention_names(s: Seq<char>)
    ensures
        forall|c: VariableNamingConvention| #[trigger] c.attribute_name() == s <==> VariableNamingConvention::spec_from_name(s) == Some(c),
        forall|c1: VariableNamingConvention, c2: VariableNamingConvention|
            #![trigger c1.attribute_name(), c2.attribute_name()]
            c1.attribute_name() == c2.attribute_name() ==> c1 == c2,
{
    reveal_strlit("flat");
    reveal_strlit("structured");
    assert("flat"@ != "structured"@) by { assert("flat"@.len() != "structured"@.len()); }
}

impl FromStr for VariableNamingConvention {
    type Err = String;

    fn from_str(s: &str) -> (res: Result<VariableNamingConvention, String>)
        ensures
            match res {
                Ok(c) => VariableNamingConvention::spec_from_name(s@) == Some(c),
                Err(m) => VariableNamingConvention::spec_from_name(s@) is None && m@ == "Unknown variable naming convention: "@ + s@,
            },
    {
        VariableNamingConvention::from_name(s)
    }
}

/// How the interval of a clock is determined.
#[derive(Debug, PartialEq, Eq, Structural, Clone, Copy, Hash)]
pub enum IntervalVariability {
    Constant,
    Fixed,
    Tunable,
    Changing,
    Countdown,
    Triggered,
}

impl IntervalVariability {
    /// The value that the attribute text `s` names.
    pub open spec fn spec_from_name(s: Seq<char>) -> Option<IntervalVariability> {
        if s == "constant"@ {
            Some(IntervalVariability::Constant)
        } else if s == "fixed"@ {
            Some(IntervalVariability::Fixed)
        } else if s == "tunable"@ {
            Some(IntervalVariability::Tunable)
        } else if s == "changing"@ {
            Some(IntervalVariability::Changing)
        } else if s == "countdown"@ {
            Some(IntervalVariability::Countdown)
        } else if s == "triggered"@ {
            Some(IntervalVariability::Triggered)
        } else {
            None
        }
    }

    /// Reads an attribute value.
    pub fn from_name(s: &str) -> (res: Result<IntervalVariability, String>)
        ensures
            match res {
                Ok(c) => Self::spec_from_name(s@) == Some(c),
                Err(m) => Self::spec_from_name(s@) is None && m@ == "Unknown interval variability: "@ + s@,
            },
    {
        let key = owned(s);
        if key == owned("constant") {
            Ok(IntervalVariability::Constant)
        } else if key == owned("fixed") {
            Ok(IntervalVariability::Fixed)
        } else if key == owned("tunable") {
            Ok(IntervalVariability::Tunable)
        } else if key == owned("changing") {
            Ok(IntervalVariability::Changing)
        } else if key == owned("countdown") {
            Ok(IntervalVariability::Countdown)
        } else if key == owned("triggered") {
            Ok(IntervalVariability::Triggered)
        } else {
            let mut m = owned("Unknown interval variability: ");
            push_str(&mut m, s);
            Err(m)
        }
    }
}

impl IntervalVariability {
    /// The attribute value that names each value.
    pub open spec fn attribute_name(self) -> Seq<char> {
        match self {
            IntervalVariability::Constant => "constant"@,
            IntervalVariability::Fixed => "fixed"@,
            IntervalVariability::Tunable => "tunable"@,
            IntervalVariability::Changing => "changing"@,
            IntervalVariability::Countdown => "countdown"@,
            IntervalVariability::Triggered => "triggered"@,
        }
    }
}

/// A text names a value exactly when it is that value's attribute name, and
/// distinct values have distinct names.
pub proof fn lemma_interval_variability_names(s: Seq<char>)
    ensures
        forall|c: IntervalVariability| #[trigger] c.attribute_name() == s <==> IntervalVariability::spec_from_name(s) == Some(c),
        forall|c1: IntervalVariability, c2: IntervalVariability|
            #![trigger c1.attribute_name(), c2.attribute_name()]
            c1.attribute_name() == c2.attribute_name() ==> c1 == c2,
{
    reveal_strlit("constant");
    reveal_strlit("fixed");
    reveal_strlit("tunable");
    reveal_strlit("changing");
    reveal_strlit("countdown");
    reveal_strlit("triggered");
    assert("constant"@ != "fixed"@) by { assert("constant"@.len() != "fixed"@.len()); }
    assert("constant"@ != "tunable"@) by { assert("constant"@.len() != "tunable"@.len()); }
    assert("constant"@ != "changing"@) by { assert("constant"@[1] != "changing"@[1]); }
    assert("constant"@ != "countdown"@) by { assert("constant"@.len() != "countdown"@.len()); }
    assert("constant"@ != "triggered"@) by { assert("constant"@.len() != "triggered"@.len()); }
    assert("fixed"@ != "tunable"@) by { assert("fixed"@.len() != "tunable"@.len()); }
    assert("fixed"@ != "changing"@) by { assert("fixed"@.len() != "changing"@.len()); }
    assert("fixed"@ != "countdown"@) by { assert("fixed"@.len() != "countdown"@.len()); }
    assert("fixed"@ != "triggered"@) by { assert("fixed"@.len() != "triggered"@.len()); }
    assert("tunable"@ != "changing"@) by { assert("tunable"@.len() != "changing"@.len()); }
    assert("tunable"@ != "countdown"@) by { assert("tunable"@.len() != "countdown"@.len()); }
    assert("tunable"@ != "triggered"@) by { assert("tunable"@.len() != "triggered"@.len()); }
    assert("changing"@ != "countdown"@) by { assert("changing"@.len() != "countdown"@.len()); }
    assert("changing"@ != "triggered"@) by { assert("changing"@.len() != "triggered"@.len()); }
    assert("countdown"@ != "triggered"@) by { assert("countdown"@[0] != "triggered"@[0]); }
}

impl FromStr for IntervalVariability {
    type Err = String;

    fn from_str(s: &str) -> (res: Result<IntervalVariability, String>)
        ensures
            match res {
                Ok(c) => IntervalVariability::spec_from_name(s@) == Some(c),
                Err(m) => IntervalVariability::spec_from_name(s@) is None && m@ == "Unknown interval variability: "@ + s@,
            },
    {
        IntervalVariability::from_name(s)
    }
}

/// The causality of a variable.
#[derive(Debug, PartialEq, Eq, Structural, Clone, Copy, Hash)]
pub enum Causality {
    Parameter,
    CalculatedParameter,
    StructuralParameter,
    Input,
    Output,
    Local,
    Independent,
}

impl Causality {
    /// The value that the attribute text `s` names.
    pub open spec fn spec_from_name(s: Seq<char>) -> Option<Causality> {
        if s == "parameter"@ {
            Some(Causality::Parameter)
        } else if s == "calculatedParameter"@ {
            Some(Causality::CalculatedParameter)
        } else if s == "structuralParameter"@ {
            Some(Causality::StructuralParameter)
        } else if s == "input"@ {
            Some(Causality::Input)
        } else if s == "output"@ {
            Some(Causality::Output)
        } else if s == "local"@ {
            Some(Causality::Local)
        } else if s == "independent"@ {
            Some(Causality::Independent)
        } else {
            None
        }
    }

    /// Reads an attribute value.
    pub fn from_name(s: &str) -> (res: Result<Causality, String>)
        ensures
            match res {
                Ok(c) => Self::spec_from_name(s@) == Some(c),
                Err(m) => Self::spec_from_name(s@) is None && m@ == "Unknown causality: "@ + s@,
            },
    {
        let key = owned(s);
        if key == owned("parameter") {
            Ok(Causality::Parameter)
        } else if key == owned("calculatedParameter") {
            Ok(Causality::CalculatedParameter)
        } else if key == owned("structuralParameter") {
            Ok(Causality::StructuralParameter)
        } else if key == owned("input") {
            Ok(Causality::Input)
        } else if key == owned("output") {
            Ok(Causality::Output)
        } else if key == owned("local") {
            Ok(Causality::Local)
        } else if key == owned("independent") {
            Ok(Causality::Independent)
        } else {
            let mut m = owned("Unknown causality: ");
            push_str(&mut m, s);
            Err(m)
        }
    }

    /// The name of the variant, as `{:?}` writes it.
    pub open spec fn spec_debug_name(self) -> Seq<char> {
        match self {
            Causality::Parameter => "Parameter"@,
            Causality::CalculatedParameter => "CalculatedParameter"@,
            Causality::StructuralParameter => "StructuralParameter"@,
            Causality::Input => "Input"@,
            Causality::Output => "Output"@,
            Causality::Local => "Local"@,
            Causality::Independent => "Independent"@,
        }
    }

    /// The name of the variant, as `{:?}` writes it.
    pub fn debug_name(&self) -> (res: String)
        ensures
            res@ == self.spec_debug_name(),
    {
        match self {
            Causality::Parameter => owned("Parameter"),
            Causality::CalculatedParameter => owned("CalculatedParameter"),
            Causality::StructuralParameter => owned("StructuralParameter"),
            Causality::Input => owned("Input"),
            Causality::Output => owned("Output"),
            Causality::Local => owned("Local"),
            Causality::Independent => owned("Independent"),
        }
    }
}

impl Causality {
    /// The attribute value that names each value.
    pub open spec fn attribute_name(self) -> Seq<char> {
        match self {
            Causality::Parameter => "parameter"@,
            Causality::CalculatedParameter => "calculatedParameter"@,
            Causality::StructuralParameter => "structuralParameter"@,
            Causality::Input => "input"@,
            Causality::Output => "output"@,
            Causality::Local => "local"@,
            Causality::Independent => "independent"@,
        }
    }
}

/// A text names a value exactly when it is that value's attribute name, and
/// distinct values have distinct names.
pub proof fn lemma_causality_names(s: Seq<char>)
    ensures
        forall|c: Causality| #[trigger] c.attribute_name() == s <==> Causality::spec_from_name(s) == Some(c),
        forall|c1: Causality, c2: Causality|
            #![trigger c1.attribute_name(), c2.attribute_name()]
            c1.attribute_name() == c2.attribute_name() ==> c1 == c2,
{
    reveal_strlit("parameter");
    reveal_strlit("calculatedParameter");
    reveal_strlit("structuralParameter");
    reveal_strlit("input");
    reveal_strlit("output");
    reveal_strlit("local");
    reveal_strlit("independent");
    assert("parameter"@ != "calculatedParameter"@) by { assert("parameter"@.len() != "calculatedParameter"@.len()); }
    assert("parameter"@ != "structuralParameter"@) by { assert("parameter"@.len() != "structuralParameter"@.len()); }
    assert("parameter"@ != "input"@) by { assert("parameter"@.len() != "input"@.len()); }
    assert("parameter"@ != "output"@) by { assert("parameter"@.len() != "output"@.len()); }
    assert("parameter"@ != "local"@) by { assert("parameter"@.len() != "local"@.len()); }
    assert("parameter"@ != "independent"@) by { assert("parameter"@.len() != "independent"@.len()); }
    assert("calculatedParameter"@ != "structuralParameter"@) by { assert("calculatedParameter"@[0] != "structuralParameter"@[0]); }
    assert("calculatedParameter"@ != "input"@) by { assert("calculatedParameter"@.len() != "input"@.len()); }
    assert("calculatedParameter"@ != "output"@) by { assert("calculatedParameter"@.len() != "output"@.len()); }
    assert("calculatedParameter"@ != "local"@) by { assert("calculatedParameter"@.len() != "local"@.len()); }
    assert("calculatedParameter"@ != "independent"@) by { assert("calculatedParameter"@.len() != "independent"@.len()); }
    assert("structuralParameter"@ != "input"@) by { assert("structuralParameter"@.len() != "input"@.len()); }
    assert("structuralParameter"@ != "output"@) by { assert("structuralParameter"@.len() != "output"@.len()); }
    assert("structuralParameter"@ != "local"@) by { assert("structuralParameter"@.len() != "local"@.len()); }
    assert("structuralParameter"@ != "independent"@) by { assert("structuralParameter"@.len() != "independent"@.len()); }
    assert("input"@ != "output"@) by { assert("input"@.len() != "output"@.len()); }
    assert("input"@ != "local"@) by { assert("input"@[0] != "local"@[0]); }
    assert("input"@ != "independent"@) by { assert("input"@.len() != "independent"@.len()); }
    assert("output"@ != "local"@) by { assert("output"@.len() != "local"@.len()); }
    assert("output"@ != "independent"@) by { assert("output"@.len() != "independent"@.len()); }
    assert("local"@ != "independent"@) by { assert("local"@.len() != "independent"@.len()); }
}

impl FromStr for Causality {
    type Err = String;

    fn from_str(s: &str) -> (res: Result<Causality, String>)
        ensures
            match res {
                Ok(c) => Causality::spec_from_name(s@) == Some(c),
                Err(m) => Causality::spec_from_name(s@) is None && m@ == "Unknown causality: "@ + s@,
            },
    {
        Causality::from_name(s)
    }
}

/// The variability of a variable.
#[derive(Debug, PartialEq, Eq, Structural, Clone, Copy, Hash)]
pub enum Variability {
    Constant,
    Fixed,
    Tunable,
    Discrete,
    Continuous,
}

impl Variability {
    /// The value that the attribute text `s` names.
    pub open spec fn spec_from_name(s: Seq<char>) -> Option<Variability> {
        if s == "constant"@ {
            Some(Variability::Constant)
        } else if s == "fixed"@ {
            Some(Variability::Fixed)
        } else if s == "tunable"@ {
            Some(Variability::Tunable)
        } else if s == "discrete"@ {
            Some(Variability::Discrete)
        } else if s == "continuous"@ {
            Some(Variability::Continuous)
        } else {
            None
        }
    }

    /// Reads an attribute value.
    pub fn from_name(s: &str) -> (res: Result<Variability, String>)
        ensures
            match res {
                Ok(c) => Self::spec_from_name(s@) == Some(c),
                Err(m) => Self::spec_from_name(s@) is None && m@ == "Unknown variability: "@ + s@,
            },
    {
        let key = owned(s);
        if key == owned("constant") {
            Ok(Variability::Constant)
        } else if key == owned("fixed") {
            Ok(Variability::Fixed)
        } else if key == owned("tunable") {
            Ok(Variability::Tunable)
        } else if key == owned("discrete") {
            Ok(Variability::Discrete)
        } else if key == owned("continuous") {
            Ok(Variability::Continuous)
        } else {
            let mut m = owned("Unknown variability: ");
            push_str(&mut m, s);
            Err(m)
        }
    }

    /// The name of the variant, as `{:?}` writes it.
    pub open spec fn spec_debug_name(self) -> Seq<char> {
        match self {
            Variability::Constant => "Constant"@,
            Variability::Fixed => "Fixed"@,
            Variability::Tunable => "Tunable"@,
            Variability::Discrete => "Discrete"@,
            Variability::Continuous => "Continuous"@,
        }
    }

    /// The name of the variant, as `{:?}` writes it.
    pub fn debug_name(&self) -> (res: String)
        ensures
            res@ == self.spec_debug_name(),
    {
        match self {
            Variability::Constant => owned("Constant"),
            Variability::Fixed => owned("Fixed"),
            Variability::Tunable => owned("Tunable"),
            Variability::Discrete => owned("Discrete"),
            Variability::Continuous => owned("Continuous"),
        }
    }
}

impl Variability {
    /// The attribute value that names each value.
    pub open spec fn attribute_name(self) -> Seq<char> {
        match self {
            Variability::Constant => "constant"@,
            Variability::Fixed => "fixed"@,
            Variability::Tunable => "tunable"@,
            Variability::Discrete => "discrete"@,
            Variability::Continuous => "continuous"@,
        }
    }
}

/// A text names a value exactly when it is that value's attribute name, and
/// distinct values have distinct names.
pub proof fn lemma_variability_names(s: Seq<char>)
    ensures
        forall|c: Variability| #[trigger] c.attribute_name() == s <==> Variability::spec_from_name(s) == Some(c),
        forall|c1: Variability, c2: Variability|
            #![trigger c1.attribute_name(), c2.attribute_name()]
            c1.attribute_name() == c2.attribute_name() ==> c1 == c2,
{
    reveal_strlit("constant");
    reveal_strlit("fixed");
    reveal_strlit("tunable");
    reveal_strlit("discrete");
    reveal_strlit("continuous");
    assert("constant"@ != "fixed"@) by { assert("constant"@.len() != "fixed"@.len()); }
    assert("constant"@ != "tunable"@) by { assert("constant"@.len() != "tunable"@.len()); }
    assert("constant"@ != "discrete"@) by { assert("constant"@[0] != "discrete"@[0]); }
    assert("constant"@ != "continuous"@) by { assert("constant"@.len() != "continuous"@.len()); }
    assert("fixed"@ != "tunable"@) by { assert("fixed"@.len() != "tunable"@.len()); }
    assert("fixed"@ != "discrete"@) by { assert("fixed"@.len() != "discrete"@.len()); }
    assert("fixed"@ != "continuous"@) by { assert("fixed"@.len() != "continuous"@.len()); }
    assert("tunable"@ != "discrete"@) by { assert("tunable"@.len() != "discrete"@.len()); }
    assert("tunable"@ != "continuous"@) by { assert("tunable"@.len() != "continuous"@.len()); }
    assert("discrete"@ != "continuous"@) by { assert("discrete"@.len() != "continuous"@.len()); }
}

impl FromStr for Variability {
    type Err = String;

    fn from_str(s: &str) -> (res: Result<Variability, String>)
        ensures
            match res {
                Ok(c) => Variability::spec_from_name(s@) == Some(c),
                Err(m) => Variability::spec_from_name(s@) is None && m@ == "Unknown variability: "@ + s@,
            },
    {
        Variability::from_name(s)
    }
}

/// How the initial value of a variable is determined.
#[derive(Debug, PartialEq, Eq, Structural, Clone, Copy, Hash)]
pub enum Initial {
    Exact,
    Approx,
    Calculated,
}

impl Initial {
    /// The value that the attribute text `s` names.
    pub open spec fn spec_from_name(s: Seq<char>) -> Option<Initial> {
        if s == "exact"@ {
            Some(Initial::Exact)
        } else if s == "approx"@ {
            Some(Initial::Approx)
        } else if s == "calculated"@ {
            Some(Initial::Calculated)
        } else {
            None
        }
    }

    /// Reads an attribute value.
    pub fn from_name(s: &str) -> (res: Result<Initial, String>)
        ensures
            match res {
                Ok(c) => Self::spec_from_name(s@) == Some(c),
                Err(m) => Self::spec_from_name(s@) is None && m@ == "Unknown initial value: "@ + s@,
            },
    {
        let key = owned(s);
        if key == owned("exact") {
            Ok(Initial::Exact)
        } else if key == owned("approx") {
            Ok(Initial::Approx)
        } else if key == owned("calculated") {
            Ok(Initial::Calculated)
        } else {
            let mut m = owned("Unknown initial value: ");
            push_str(&mut m, s);
            Err(m)
        }
    }

    /// The name of the variant, as `{:?}` writes it.
    pub open spec fn spec_debug_name(self) -> Seq<char> {
        match self {
            Initial::Exact => "Exact"@,
            Initial::Approx => "Approx"@,
            Initial::Calculated => "Calculated"@,
        }
    }

    /// The name of the variant, as `{:?}` writes it.
    pub fn debug_name(&self) -> (res: String)
        ensures
            res@ == self.spec_debug_name(),
    {
        match self {
            Initial::Exact => owned("Exact"),
            Initial::Approx => owned("Approx"),
            Initial::Calculated => owned("Calculated"),
        }
    }
}

impl Initial {
    /// The attribute value that names each value.
    pub open spec fn attribute_name(self) -> Seq<char> {
        match self {
            Initial::Exact => "exact"@,
            Initial::Approx => "approx"@,
            Initial::Calculated => "calculated"@,
        }
    }
}

/// A text names a value exactly when it is that value's attribute name, and
/// distinct values have distinct names.
pub proof fn lemma_initial_names(s: Seq<char>)
    ensures
        forall|c: Initial| #[trigger] c.attribute_name() == s <==> Initial::spec_from_name(s) == Some(c),
        forall|c1: Initial, c2: Initial|
            #![trigger c1.attribute_name(), c2.attribute_name()]
            c1.attribute_name() == c2.attribute_name() ==> c1 == c2,
{
    reveal_strlit("exact");
    reveal_strlit("approx");
    reveal_strlit("calculated");
    assert("exact"@ != "approx"@) by { assert("exact"@.len() != "approx"@.len()); }
    assert("exact"@ != "calculated"@) by { assert("exact"@.len() != "calculated"@.len()); }
    assert("approx"@ != "calculated"@) by { assert("approx"@.len() != "calculated"@.len()); }
}

impl FromStr for Initial {
    type Err = String;

    fn from_str(s: &str) -> (res: Result<Initial, String>)
        ensures
            match res {
                Ok(c) => Initial::spec_from_name(s@) == Some(c),
                Err(m) => Initial::spec_from_name(s@) is None && m@ == "Unknown initial value: "@ + s@,
            },
    {
        Initial::from_name(s)
    }
}

/// How an unknown depends on a known.
#[derive(Debug, PartialEq, Eq, Structural, Clone, Copy, Hash)]
pub enum DependencyKind {
    Dependent,
    Constant,
    Fixed,
    Tunable,
    Discrete,
}

impl DependencyKind {
    /// The value that the attribute text `s` names.
    pub open spec fn spec_from_name(s: Seq<char>) -> Option<DependencyKind> {
        if s == "dependent"@ {
            Some(DependencyKind::Dependent)
        } else if s == "constant"@ {
            Some(DependencyKind::Constant)
        } else if s == "fixed"@ {
            Some(DependencyKind::Fixed)
        } else if s == "tunable"@ {
            Some(DependencyKind::Tunable)
        } else if s == "discrete"@ {
            Some(DependencyKind::Discrete)
        } else {
            None
        }
    }

    /// Reads an attribute value.
    pub fn from_name(s: &str) -> (res: Result<DependencyKind, String>)
        ensures
            match res {
                Ok(c) => Self::spec_from_name(s@) == Some(c),
                Err(m) => Self::spec_from_name(s@) is None && m@ == "Unknown dependency kind: "@ + s@,
            },
    {
        let key = owned(s);
        if key == owned("dependent") {
            Ok(DependencyKind::Dependent)
        } else if key == owned("constant") {
            Ok(DependencyKind::Constant)
        } else if key == owned("fixed") {
            Ok(DependencyKind::Fixed)
        } else if key == owned("tunable") {
            Ok(DependencyKind::Tunable)
        } else if key == owned("discrete") {
            Ok(DependencyKind::Discrete)
        } else {
            let mut m = owned("Unknown dependency kind: ");
            push_str(&mut m, s);
            Err(m)
        }
    }
}

impl DependencyKind {
    /// The attribute value that names each value.
    pub open spec fn attribute_name(self) -> Seq<char> {
        match self {
            DependencyKind::Dependent => "dependent"@,
            DependencyKind::Constant => "constant"@,
            DependencyKind::Fixed => "fixed"@,
            DependencyKind::Tunable => "tunable"@,
            DependencyKind::Discrete => "discrete"@,
        }
    }
}

/// A text names a value exactly when it is that value's attribute name, and
/// distinct values have distinct names.
pub proof fn lemma_dependency_kind_names(s: Seq<char>)
    ensures
        forall|c: DependencyKind| #[trigger] c.attribute_name() == s <==> DependencyKind::spec_from_name(s) == Some(c),
        forall|c1: DependencyKind, c2: DependencyKind|
            #![trigger c1.attribute_name(), c2.attribute_name()]
            c1.attribute_name() == c2.attribute_name() ==> c1 == c2,
{
    reveal_strlit("dependent");
    reveal_strlit("constant");
    reveal_strlit("fixed");
    reveal_strlit("tunable");
    reveal_strlit("discrete");
    assert("dependent"@ != "constant"@) by { assert("dependent"@.len() != "constant"@.len()); }
    assert("dependent"@ != "fixed"@) by { assert("dependent"@.len() != "fixed"@.len()); }
    assert("dependent"@ != "tunable"@) by { assert("dependent"@.len() != "tunable"@.len()); }
    assert("dependent"@ != "discrete"@) by { assert("dependent"@.len() != "discrete"@.len()); }
    assert("constant"@ != "fixed"@) by { assert("constant"@.len() != "fixed"@.len()); }
    assert("constant"@ != "tunable"@) by { assert("constant"@.len() != "tunable"@.len()); }
    assert("constant"@ != "discrete"@) by { assert("constant"@[0] != "discrete"@[0]); }
    assert("fixed"@ != "tunable"@) by { assert("fixed"@.len() != "tunable"@.len()); }
    assert("fixed"@ != "discrete"@) by { assert("fixed"@.len() != "discrete"@.len()); }
    assert("tunable"@ != "discrete"@) by { assert("tunable"@.len() != "discrete"@.len()); }
}

impl FromStr for DependencyKind {
    type Err = String;

    fn from_str(s: &str) -> (res: Result<DependencyKind, String>)
        ensures
            match res {
                Ok(c) => DependencyKind::spec_from_name(s@) == Some(c),
                Err(m) => DependencyKind::spec_from_name(s@) is None && m@ == "Unknown dependency kind: "@ + s@,
            },
    {
        DependencyKind::from_name(s)
    }
}
// ---------------------------------------------------------------------------
// The data
// ---------------------------------------------------------------------------
/// An item of an enumeration type.
#[derive(Debug)]
pub struct Item {
    pub name: String,
    pub value: i64,
    pub description: Option<String>,
    pub range: Range<usize>,
}

/// A type definition. Floating-point bounds, nominal values and decimals are
/// kept as their literals.
#[derive(Debug)]
pub enum TypeDefinition {
    Float32 {
        name: String,
        description: Option<String>,
        quantity: Option<String>,
        unit: Option<String>,
        displayUnit: Option<String>,
        relativeQuantity: bool,
        unbounded: bool,
        min: Option<String>,
        max: Option<String>,
        nominal: Option<String>,
        range: Range<usize>,
    },
    Float64 {
        name: String,
        description: Option<String>,
        quantity: Option<String>,
        unit: Option<String>,
        displayUnit: Option<String>,
        relativeQuantity: bool,
        unbounded: bool,
        min: Option<String>,
        max: Option<String>,
        nominal: Option<String>,
        range: Range<usize>,
    },
    Int8 {
        name: String,
        description: Option<String>,
        quantity: Option<String>,
        min: Option<i8>,
        max: Option<i8>,
        range: Range<usize>,
    },
    UInt8 {
        name: String,
        description: Option<String>,
        quantity: Option<String>,
        min: Option<u8>,
        max: Option<u8>,
        range: Range<usize>,
    },
    Int16 {
        name: String,
        description: Option<String>,
        quantity: Option<String>,
        min: Option<i16>,
        max: Option<i16>,
        range: Range<usize>,
    },
    UInt16 {
        name: String,
        description: Option<String>,
        quantity: Option<String>,
        min: Option<u16>,
        max: Option<u16>,
        range: Range<usize>,
    },
    Int32 {
        name: String,
        description: Option<String>,
        quantity: Option<String>,
        min: Option<i32>,
        max: Option<i32>,
        range: Range<usize>,
    },
    UInt32 {
        name: String,
        description: Option<String>,
        quantity: Option<String>,
        min: Option<u32>,
        max: Option<u32>,
        range: Range<usize>,
    },
    Int64 {
        name: String,
        description: Option<String>,
        quantity: Option<String>,
        min: Option<i64>,
        max: Option<i64>,
        range: Range<usize>,
    },
    UInt64 {
        name: String,
        description: Option<String>,
        quantity: Option<String>,
        min: Option<u64>,
        max: Option<u64>,
        range: Range<usize>,
    },
    Boolean { name: String, description: Option<String>, range: Range<usize> },
    String { name: String, description: Option<String>, range: Range<usize> },
    Binary {
        name: String,
        description: Option<String>,
        mimeType: String,
        maxSize: Option<u64>,
        range: Range<usize>,
    },
    Enumeration {
        name: String,
        description: Option<String>,
        items: Vec<Item>,
        quantity: Option<String>,
        min: Option<i64>,
        max: Option<i64>,
        range: Range<usize>,
    },
    Clock {
        name: String,
        description: Option<String>,
        canBeDeactivated: bool,
        priority: Option<u32>,
        intervalVariability: IntervalVariability,
        intervalDecimal: Option<String>,
        shiftDecimal: String,
        supportsFraction: bool,
        resolution: Option<u64>,
        intervalCounter: Option<u64>,
        shiftCounter: u64,
        range: Range<usize>,
    },
}

impl TypeDefinition {
    /// The name of the type definition regardless of the variant.
    pub open spec fn spec_name(self) -> String {
        match self {
            TypeDefinition::Float32 { name, .. } => name,
            TypeDefinition::Float64 { name, .. } => name,
            TypeDefinition::Int8 { name, .. } => name,
            TypeDefinition::UInt8 { name, .. } => name,
            TypeDefinition::Int16 { name, .. } => name,
            TypeDefinition::UInt16 { name, .. } => name,
            TypeDefinition::Int32 { name, .. } => name,
            TypeDefinition::UInt32 { name, .. } => name,
            TypeDefinition::Int64 { name, .. } => name,
            TypeDefinition::UInt64 { name, .. } => name,
            TypeDefinition::Boolean { name, .. } => name,
            TypeDefinition::String { name, .. } => name,
            TypeDefinition::Binary { name, .. } => name,
            TypeDefinition::Enumeration { name, .. } => name,
            TypeDefinition::Clock { name, .. } => name,
        }
    }

    /// Returns the name of the type definition regardless of the variant.
    pub fn name(&self) -> (res: &String)
        ensures
            *res == self.spec_name(),
    {
        match self {
            TypeDefinition::Float32 { name, .. } => name,
            TypeDefinition::Float64 { name, .. } => name,
            TypeDefinition::Int8 { name, .. } => name,
            TypeDefinition::UInt8 { name, .. } => name,
            TypeDefinition::Int16 { name, .. } => name,
            TypeDefinition::UInt16 { name, .. } => name,
            TypeDefinition::Int32 { name, .. } => name,
            TypeDefinition::UInt32 { name, .. } => name,
            TypeDefinition::Int64 { name, .. } => name,
            TypeDefinition::UInt64 { name, .. } => name,
            TypeDefinition::Boolean { name, .. } => name,
            TypeDefinition::String { name, .. } => name,
            TypeDefinition::Binary { name, .. } => name,
            TypeDefinition::Enumeration { name, .. } => name,
            TypeDefinition::Clock { name, .. } => name,
        }
    }
}

/// The type of a model variable and its type-specific attributes.
#[derive(Debug)]
pub enum VariableType {
    Float32 {
        start: Option<String>,
        intermediateUpdate: bool,
        previous: Option<u32>,
        declaredType: Option<String>,
        quantity: Option<String>,
        unit: Option<String>,
        displayUnit: Option<String>,
        relativeQuantity: bool,
        unbounded: bool,
        min: Option<String>,
        max: Option<String>,
        nominal: Option<String>,
        derivative: Option<fmiValueReference>,
        reinit: bool,
    },
    Float64 {
        start: Option<String>,
        intermediateUpdate: bool,
        previous: Option<u32>,
        declaredType: Option<String>,
        quantity: Option<String>,
        unit: Option<String>,
        displayUnit: Option<String>,
        relativeQuantity: bool,
        unbounded: bool,
        min: Option<String>,
        max: Option<String>,
        nominal: Option<String>,
        derivative: Option<fmiValueReference>,
        reinit: bool,
    },
    Int8 {
        start: Option<i8>,
        declaredType: Option<String>,
        intermediateUpdate: bool,
        previous: Option<u32>,
        quantity: Option<String>,
        min: Option<i8>,
        max: Option<i8>,
    },
    UInt8 {
        start: Option<u8>,
        declaredType: Option<String>,
        intermediateUpdate: bool,
        previous: Option<u32>,
        quantity: Option<String>,
        min: Option<u8>,
        max: Option<u8>,
    },
    Int16 {
        start: Option<i16>,
        declaredType: Option<String>,
        intermediateUpdate: bool,
        previous: Option<u32>,
        quantity: Option<String>,
        min: Option<i16>,
        max: Option<i16>,
    },
    UInt16 {
        start: Option<u16>,
        declaredType: Option<String>,
        intermediateUpdate: bool,
        previous: Option<u32>,
        quantity: Option<String>,
        min: Option<u16>,
        max: Option<u16>,
    },
    Int32 {
        start: Option<i32>,
        declaredType: Option<String>,
        intermediateUpdate: bool,
        previous: Option<u32>,
        quantity: Option<String>,
        min: Option<i32>,
        max: Option<i32>,
    },
    UInt32 {
        start: Option<u32>,
        declaredType: Option<String>,
        intermediateUpdate: bool,
        previous: Option<u32>,
        quantity: Option<String>,
        min: Option<u32>,
        max: Option<u32>,
    },
    Int64 {
        start: Option<i64>,
        declaredType: Option<String>,
        intermediateUpdate: bool,
        previous: Option<u32>,
        quantity: Option<String>,
        min: Option<i64>,
        max: Option<i64>,
    },
    UInt64 {
        start: Option<u64>,
        declaredType: Option<String>,
        intermediateUpdate: bool,
        previous: Option<u32>,
        quantity: Option<String>,
        min: Option<u64>,
        max: Option<u64>,
    },
    Boolean {
        start: Option<bool>,
        declaredType: Option<String>,
        intermediateUpdate: bool,
        previous: Option<u32>,
    },
    String {
        start: Vec<String>,
        declaredType: Option<String>,
        intermediateUpdate: bool,
        previous: Option<u32>,
    },
    Binary {
        start: Vec<Vec<u8>>,
        declaredType: Option<String>,
        intermediateUpdate: bool,
        previous: Option<u32>,
    },
    Clock {
        declaredType: Option<String>,
        intermediateUpdate: bool,
        canBeDeactivated: bool,
        priority: Option<u32>,
        intervalVariability: IntervalVariability,
        intervalDecimal: Option<String>,
        shiftDecimal: String,
        supportsFraction: bool,
        resolution: Option<u64>,
        intervalCounter: Option<u64>,
        shiftCounter: u64,
    },
    Enumeration {
        start: Option<i64>,
        declaredType: String,
        intermediateUpdate: bool,
        previous: Option<u32>,
    },
}

impl VariableType {
    /// The name of the variable type regardless of the variant.
    pub open spec fn spec_name(self) -> Seq<char> {
        match self {
            VariableType::Float32 { .. } => "Float32"@,
            VariableType::Float64 { .. } => "Float64"@,
            VariableType::Int8 { .. } => "Int8"@,
            VariableType::UInt8 { .. } => "UInt8"@,
            VariableType::Int16 { .. } => "Int16"@,
            VariableType::UInt16 { .. } => "UInt16"@,
            VariableType::Int32 { .. } => "Int32"@,
            VariableType::UInt32 { .. } => "UInt32"@,
            VariableType::Int64 { .. } => "Int64"@,
            VariableType::UInt64 { .. } => "UInt64"@,
            VariableType::Boolean { .. } => "Boolean"@,
            VariableType::String { .. } => "String"@,
            VariableType::Binary { .. } => "Binary"@,
            VariableType::Enumeration { .. } => "Enumeration"@,
            VariableType::Clock { .. } => "Clock"@,
        }
    }

    /// Returns the name of the variable type regardless of the variant.
    pub fn name(&self) -> (res: &'static str)
        ensures
            res@ == self.spec_name(),
    {
        match self {
            VariableType::Float32 { .. } => "Float32",
            VariableType::Float64 { .. } => "Float64",
            VariableType::Int8 { .. } => "Int8",
            VariableType::UInt8 { .. } => "UInt8",
            VariableType::Int16 { .. } => "Int16",
            VariableType::UInt16 { .. } => "UInt16",
            VariableType::Int32 { .. } => "Int32",
            VariableType::UInt32 { .. } => "UInt32",
            VariableType::Int64 { .. } => "Int64",
            VariableType::UInt64 { .. } => "UInt64",
            VariableType::Boolean { .. } => "Boolean",
            VariableType::String { .. } => "String",
            VariableType::Binary { .. } => "Binary",
            VariableType::Enumeration { .. } => "Enumeration",
            VariableType::Clock { .. } => "Clock",
        }
    }

    /// Whether a start value is given: a `start` attribute, or for String and Binary
    /// variables at least one `<Start>` element. A clock has none.
    pub open spec fn spec_has_start(self) -> bool {
        match self {
            VariableType::Float32 { start, .. } => start is Some,
            VariableType::Float64 { start, .. } => start is Some,
            VariableType::Int8 { start, .. } => start is Some,
            VariableType::UInt8 { start, .. } => start is Some,
            VariableType::Int16 { start, .. } => start is Some,
            VariableType::UInt16 { start, .. } => start is Some,
            VariableType::Int32 { start, .. } => start is Some,
            VariableType::UInt32 { start, .. } => start is Some,
            VariableType::Int64 { start, .. } => start is Some,
            VariableType::UInt64 { start, .. } => start is Some,
            VariableType::Boolean { start, .. } => start is Some,
            VariableType::Enumeration { start, .. } => start is Some,
            VariableType::String { start, .. } => start@.len() > 0,
            VariableType::Binary { start, .. } => start@.len() > 0,
            VariableType::Clock { .. } => false,
        }
    }

    /// Returns true if a start value is given.
    pub fn has_start(&self) -> (res: bool)
        ensures
            res == self.spec_has_start(),
    {
        match self {
            VariableType::Float32 { start, .. } => start.is_some(),
            VariableType::Float64 { start, .. } => start.is_some(),
            VariableType::Int8 { start, .. } => start.is_some(),
            VariableType::UInt8 { start, .. } => start.is_some(),
            VariableType::Int16 { start, .. } => start.is_some(),
            VariableType::UInt16 { start, .. } => start.is_some(),
            VariableType::Int32 { start, .. } => start.is_some(),
            VariableType::UInt32 { start, .. } => start.is_some(),
            VariableType::Int64 { start, .. } => start.is_some(),
            VariableType::UInt64 { start, .. } => start.is_some(),
            VariableType::Boolean { start, .. } => start.is_some(),
            VariableType::Enumeration { start, .. } => start.is_some(),
            VariableType::String { start, .. } => start.len() > 0,
            VariableType::Binary { start, .. } => start.len() > 0,
            VariableType::Clock { .. } => false,
        }
    }

    /// Whether this is a Float32 or Float64 variable.
    pub open spec fn spec_is_float(self) -> bool {
        self is Float32 || self is Float64
    }
}

/// The default experiment. Its values are kept as their literals.
#[derive(Debug)]
pub struct DefaultExperiment {
    pub startTime: Option<String>,
    pub stopTime: Option<String>,
    pub tolerance: Option<String>,
    pub stepSize: Option<String>,
    pub range: Range<usize>,
}

/// The Model Exchange interface.
#[derive(Debug)]
pub struct ModelExchange {
    pub modelIdentifier: String,
    pub needsExecutionTool: bool,
    pub canBeInstantiatedOnlyOncePerProcess: bool,
    pub canGetAndSetFMUState: bool,
    pub canSerializeFMUState: bool,
    pub providesDirectionalDerivatives: bool,
    pub providesAdjointDerivatives: bool,
    pub providesPerElementDependencies: bool,
    pub needsCompletedIntegratorStep: bool,
    pub providesEvaluateDiscreteStates: bool,
    pub range: Range<usize>,
}

/// The Co-Simulation interface. The fixed internal step size is kept as its literal.
#[derive(Debug)]
pub struct CoSimulation {
    pub modelIdentifier: String,
    pub needsExecutionTool: bool,
    pub canBeInstantiatedOnlyOncePerProcess: bool,
    pub canGetAndSetFMUState: bool,
    pub canSerializeFMUState: bool,
    pub providesDirectionalDerivatives: bool,
    pub providesAdjointDerivatives: bool,
    pub providesPerElementDependencies: bool,
    pub canHandleVariableCommunicationStepSize: bool,
    pub fixedInternalStepSize: Option<String>,
    pub maxOutputDerivativeOrder: u32,
    pub recommendedIntermediateInputSmoothness: i32,
    pub providesIntermediateUpdate: bool,
    pub mightReturnEarlyFromDoStep: bool,
    pub canReturnEarlyAfterIntermediateUpdate: bool,
    pub hasEventMode: bool,
    pub providesEvaluateDiscreteStates: bool,
    pub range: Range<usize>,
}

/// The Scheduled Execution interface.
#[derive(Debug)]
pub struct ScheduledExecution {
    pub modelIdentifier: String,
    pub needsExecutionTool: bool,
    pub canBeInstantiatedOnlyOncePerProcess: bool,
    pub canGetAndSetFMUState: bool,
    pub canSerializeFMUState: bool,
    pub providesDirectionalDerivatives: bool,
    pub providesAdjointDerivatives: bool,
    pub providesPerElementDependencies: bool,
    pub range: Range<usize>,
}

/// A dimension of an array variable: a fixed size, or the variable that holds it.
#[derive(Debug)]
pub enum Dimension {
    Fixed { start: usize },
    Variable { valueReference: fmiValueReference },
}

/// A model variable.
#[derive(Debug)]
pub struct ModelVariable {
    pub variableType: VariableType,
    pub name: String,
    pub valueReference: fmiValueReference,
    pub description: Option<String>,
    pub causality: Causality,
    pub variability: Variability,
    pub initial: Option<Initial>,
    pub canHandleMultipleSetPerTimeInstant: bool,
    pub dimensions: Vec<Dimension>,
    pub range: Range<usize>,
}

/// An unknown of the model structure.
#[derive(Debug)]
pub struct Unknown {
    pub valueReference: fmiValueReference,
    pub dependencies: Option<Vec<fmiValueReference>>,
    pub dependenciesKind: Option<Vec<DependencyKind>>,
    pub range: Range<usize>,
}

/// An FMI 3.0 model description.
#[derive(Debug)]
pub struct ModelDescription {
    pub fmiVersion: String,
    pub modelName: String,
    pub instantiationToken: String,
    pub description: Option<String>,
    pub author: Option<String>,
    pub version: Option<String>,
    pub copyright: Option<String>,
    pub license: Option<String>,
    pub generationTool: Option<String>,
    pub generationDateAndTime: Option<String>,
    pub variableNamingConvention: VariableNamingConvention,
    pub logCategories: Vec<Category>,
    pub defaultExperiment: Option<DefaultExperiment>,
    pub modelExchange: Option<ModelExchange>,
    pub coSimulation: Option<CoSimulation>,
    pub scheduledExecution: Option<ScheduledExecution>,
    pub unitDefinitions: Vec<Unit>,
    pub typeDefinitions: Vec<TypeDefinition>,
    pub modelVariables: Vec<ModelVariable>,
    pub outputs: Vec<Unknown>,
    pub derivatives: Vec<Unknown>,
    pub clockedStates: Vec<Unknown>,
    pub eventIndicators: Vec<Unknown>,
    pub initialUnknowns: Vec<Unknown>,
}

// ---------------------------------------------------------------------------
// Lookups
// ---------------------------------------------------------------------------
/// Whether a type definition is a floating-point type named `name`.
pub open spec fn is_float_type_named(t: TypeDefinition, name: Seq<char>) -> bool {
    match t {
        TypeDefinition::Float32 { name: n, .. } => n@ == name,
        TypeDefinition::Float64 { name: n, .. } => n@ == name,
        _ => false,
    }
}

/// The unit of a floating-point type definition.
pub open spec fn float_type_unit(t: TypeDefinition) -> Option<String> {
    match t {
        TypeDefinition::Float32 { unit, .. } => unit,
        TypeDefinition::Float64 { unit, .. } => unit,
        _ => None,
    }
}

/// The unit of a variable: its own `unit`, else that of the first floating-point
/// type definition named by its `declaredType`; only Float32 and Float64 variables
/// have one.
pub open spec fn spec_unit(types: Seq<TypeDefinition>, variable: ModelVariable) -> Option<Seq<char>> {
    let (unit, declaredType) = match variable.variableType {
        VariableType::Float32 { unit, declaredType, .. } => (unit, declaredType),
        VariableType::Float64 { unit, declaredType, .. } => (unit, declaredType),
        _ => (None, None),
    };
    match unit {
        Some(u) => Some(u@),
        None => match declaredType {
            Some(d) => match find_first(types, |t: TypeDefinition| is_float_type_named(t, d@), 0) {
                Some(t) => match float_type_unit(t) {
                    Some(u) => Some(u@),
                    None => None,
                },
                None => None,
            },
            None => None,
        },
    }
}

impl ModelDescription {
    /// Returns the first variable with the given value reference.
    pub fn get_variable(&self, vr: fmiValueReference) -> (res: Option<&ModelVariable>)
        ensures
            match res {
                Some(v) => find_first(
                    self.modelVariables@,
                    |v: ModelVariable| v.valueReference == vr,
                    0,
                ) == Some(*v),
                None => find_first(
                    self.modelVariables@,
                    |v: ModelVariable| v.valueReference == vr,
                    0,
                ) is None,
            },
    {
        let mut i: usize = 0;
        while i < self.modelVariables.len()
            invariant
                i <= self.modelVariables@.len(),
                find_first(self.modelVariables@, |v: ModelVariable| v.valueReference == vr, i as nat)
                    == find_first(
                    self.modelVariables@,
                    |v: ModelVariable| v.valueReference == vr,
                    0,
                ),
            decreases self.modelVariables.len() - i,
        {
            if self.modelVariables[i].valueReference == vr {
                return Some(&self.modelVariables[i]);
            }
            i = i + 1;
        }
        None
    }

    /// The unit of a Float32 or Float64 variable: its own, else that of its
    /// declared type.
    pub fn get_unit<'a>(&'a self, variable: &'a ModelVariable) -> (res: Option<&'a str>)
        ensures
            match res {
                Some(u) => spec_unit(self.typeDefinitions@, *variable) == Some(u@),
                None => spec_unit(self.typeDefinitions@, *variable) is None,
            },
    {
        let (unit, declaredType) = match &variable.variableType {
            VariableType::Float32 { unit, declaredType, .. } => (unit, declaredType),
            VariableType::Float64 { unit, declaredType, .. } => (unit, declaredType),
            _ => {
                return None;
            },
        };
        match unit {
            Some(u) => Some(u.as_str()),
            None => match declaredType {
                Some(d) => {
                    let ghost p = |t: TypeDefinition| is_float_type_named(t, d@);
                    let mut i: usize = 0;
                    while i < self.typeDefinitions.len()
                        invariant
                            i <= self.typeDefinitions@.len(),
                            p == (|t: TypeDefinition| is_float_type_named(t, d@)),
                            spec_unit(self.typeDefinitions@, *variable) == match find_first(
                                self.typeDefinitions@,
                                p,
                                0,
                            ) {
                                Some(t) => match float_type_unit(t) {
                                    Some(u) => Some(u@),
                                    None => None,
                                },
                                None => None,
                            },
                            find_first(self.typeDefinitions@, p, i as nat) == find_first(
                                self.typeDefinitions@,
                                p,
                                0,
                            ),
                        decreases self.typeDefinitions.len() - i,
                    {
                        match &self.typeDefinitions[i] {
                            TypeDefinition::Float32 { name, unit, .. } => {
                                if *name == *d {
                                    return match unit {
                                        Some(u) => Some(u.as_str()),
                                        None => None,
                                    };
                                }
                            },
                            TypeDefinition::Float64 { name, unit, .. } => {
                                if *name == *d {
                                    return match unit {
                                        Some(u) => Some(u.as_str()),
                                        None => None,
                                    };
                                }
                            },
                            _ => {},
                        }
                        i = i + 1;
                    }
                    None
                },
                None => None,
            },
        }
    }

    /// Returns the first type definition with the given name.
    pub fn get_type_definition(&self, name: &str) -> (res: Option<&TypeDefinition>)
        ensures
            match res {
                Some(t) => find_first(
                    self.typeDefinitions@,
                    |t: TypeDefinition| t.spec_name()@ == name@,
                    0,
                ) == Some(*t),
                None => find_first(
                    self.typeDefinitions@,
                    |t: TypeDefinition| t.spec_name()@ == name@,
                    0,
                ) is None,
            },
    {
        let key = owned(name);
        let mut i: usize = 0;
        while i < self.typeDefinitions.len()
            invariant
                i <= self.typeDefinitions@.len(),
                key@ == name@,
                find_first(
                    self.typeDefinitions@,
                    |t: TypeDefinition| t.spec_name()@ == name@,
                    i as nat,
                ) == find_first(
                    self.typeDefinitions@,
                    |t: TypeDefinition| t.spec_name()@ == name@,
                    0,
                ),
            decreases self.typeDefinitions.len() - i,
        {
            if *self.typeDefinitions[i].name() == key {
                return Some(&self.typeDefinitions[i]);
            }
            i = i + 1;
        }
        None
    }
}

} // verus!
