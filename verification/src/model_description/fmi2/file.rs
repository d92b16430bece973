//! Reading an FMI 2.0 model description from its XML tree.
#![allow(non_snake_case)]

use vstd::prelude::*;

use crate::model_description::as_i32;

use crate::model_description::fmi2::{
    Causality, CoSimulation, DependencyKind, Initial, Item, ModelDescription, ModelExchange,
    ScalarVariable, SimpleType, Unknown, Variability, VariableNamingConvention, VariableType,
};
use crate::model_description::{
    bool_or_default, bool_or_false, category_error, category_of, default_experiment_of, error_of,
    first_error, unit_error, unit_of, Category, DefaultExperiment, Unit,
};
use crate::text::{
    chars_of, owned, parse_integer, parse_u32, push_str, split_white_space, string_from_chars,
    words,
};
use crate::xml::{
    missing_attribute_in_message, missing_attribute_message, missing_element_message, parse_xml,
    xml_document, XmlElement, XmlNode,
};

verus! {

/// `Some(value)` of an optional `u32` attribute read as an integer.
pub open spec fn as_u32(v: Option<int>) -> Option<u32> {
    match v {
        Some(x) => Some(x as u32),
        None => None,
    }
}

/// The value of an optional `u32` attribute, `0` where it is absent.
pub open spec fn u32_or_zero(n: XmlElement, name: Seq<char>) -> u32 {
    match n.spec_integer_attribute(name, 0, u32::MAX as int) {
        Ok(Some(v)) => v as u32,
        _ => 0,
    }
}

/// Whether an attribute is present and reads exactly `true`.
pub open spec fn is_true(n: XmlElement, name: Seq<char>) -> bool {
    match n.spec_attribute(name) {
        Some(v) => v@ == "true"@,
        None => false,
    }
}

/// Whether an attribute is present and reads exactly `true`.
pub fn attribute_is_true(node: &XmlElement, name: &str) -> (res: bool)
    ensures
        res == is_true(*node, name@),
{
    match node.attribute(name) {
        Some(v) => v == owned("true"),
        None => false,
    }
}

/// Reads an optional `u32` attribute.
pub fn u32_attribute(node: &XmlElement, name: &str) -> (res: Result<Option<u32>, String>)
    ensures
        match res {
            Ok(v) => node.spec_integer_attribute(name@, 0, u32::MAX as int) matches Ok(w) && v
                == as_u32(w),
            Err(m) => node.spec_integer_attribute(name@, 0, u32::MAX as int) == Err::<
                Option<int>,
                Seq<char>,
            >(m@),
        },
{
    match node.attribute_as_integer(name, 0, u32::MAX as u64) {
        Ok(Some(v)) => Ok(Some(v as u32)),
        Ok(None) => Ok(None),
        Err(m) => Err(m),
    }
}

/// Reads an optional `u32` attribute, `0` where it is absent.
pub fn u32_or_default(node: &XmlElement, name: &str) -> (res: Result<u32, String>)
    ensures
        match res {
            Ok(v) => node.spec_integer_attribute(name@, 0, u32::MAX as int) is Ok && v
                == u32_or_zero(*node, name@),
            Err(m) => node.spec_integer_attribute(name@, 0, u32::MAX as int) == Err::<
                Option<int>,
                Seq<char>,
            >(m@),
        },
{
    match u32_attribute(node, name)? {
        Some(v) => Ok(v),
        None => Ok(0),
    }
}

/// Reads the value of a required attribute as a `u32`, with the messages of
/// `ParseIntError`.
pub open spec fn spec_required_u32(n: XmlElement, name: Seq<char>) -> Result<u32, Seq<char>> {
    match n.spec_attribute(name) {
        None => Err(missing_attribute_message(name)),
        Some(v) => match parse_integer(v@, 0, u32::MAX as int) {
            Ok(x) => Ok(x as u32),
            Err(k) => Err(k.spec_message()),
        },
    }
}

pub fn required_u32(node: &XmlElement, name: &str) -> (res: Result<u32, String>)
    ensures
        match res {
            Ok(v) => spec_required_u32(*node, name@) == Ok::<u32, Seq<char>>(v),
            Err(m) => spec_required_u32(*node, name@) == Err::<u32, Seq<char>>(m@),
        },
{
    let literal = node.required_attribute(name)?;
    let cs = chars_of(literal.as_str());
    match parse_u32(cs.as_slice()) {
        Ok(v) => Ok(v),
        Err(k) => Err(k.message()),
    }
}

// ---------------------------------------------------------------------------
// Variable types
// ---------------------------------------------------------------------------
pub open spec fn is_variable_type_tag(name: Seq<char>) -> bool {
    name == "Real"@ || name == "Integer"@ || name == "Boolean"@ || name == "String"@ || name
        == "Enumeration"@
}

/// The first child element in `nodes[i..]` that gives a variable type.
pub open spec fn type_child_from(nodes: Seq<XmlNode>, i: nat) -> Option<XmlElement>
    decreases nodes.len() - i,
{
    if i >= nodes.len() {
        None
    } else {
        match nodes[i as int] {
            XmlNode::Element(c) => if is_variable_type_tag(c.name@) {
                Some(c)
            } else {
                type_child_from(nodes, i + 1)
            },
            XmlNode::Other(_) => type_child_from(nodes, i + 1),
        }
    }
}

/// The variable type that the element `c` (a `<Real>`, `<Integer>`, ... child of a
/// `<ScalarVariable>`) describes.
pub open spec fn spec_type_of(c: XmlElement) -> Result<VariableType, Seq<char>> {
    if c.name@ == "Real"@ {
        match c.spec_integer_attribute("derivative"@, 0, u32::MAX as int) {
            Err(e) => Err(e),
            Ok(d) => match c.spec_bool_attribute("reinit"@) {
                Err(e) => Err(e),
                Ok(r) => Ok(
                    VariableType::Real {
                        declaredType: c.spec_attribute("declaredType"@),
                        quantity: c.spec_attribute("quantity"@),
                        unit: c.spec_attribute("unit"@),
                        displayUnit: c.spec_attribute("displayUnit"@),
                        relativeQuantity: is_true(c, "relativeQuantity"@),
                        min: c.spec_attribute("min"@),
                        max: c.spec_attribute("max"@),
                        nominal: c.spec_attribute("nominal"@),
                        unbounded: is_true(c, "unbounded"@),
                        start: c.spec_attribute("start"@),
                        derivative: as_u32(d),
                        reinit: match r {
                            Some(b) => b,
                            None => false,
                        },
                    },
                ),
            },
        }
    } else if c.name@ == "Integer"@ {
        Ok(
            VariableType::Integer {
                declaredType: c.spec_attribute("declaredType"@),
                quantity: c.spec_attribute("quantity"@),
                min: c.spec_attribute("min"@),
                max: c.spec_attribute("max"@),
                start: c.spec_attribute("start"@),
            },
        )
    } else if c.name@ == "Boolean"@ {
        Ok(
            VariableType::Boolean {
                declaredType: c.spec_attribute("declaredType"@),
                start: c.spec_attribute("start"@),
            },
        )
    } else if c.name@ == "String"@ {
        Ok(
            VariableType::String {
                declaredType: c.spec_attribute("declaredType"@),
                start: c.spec_attribute("start"@),
            },
        )
    } else {
        match c.spec_attribute("declaredType"@) {
            None => Err(missing_attribute_message("declaredType"@)),
            Some(d) => Ok(
                VariableType::Enumeration {
                    declaredType: d,
                    quantity: c.spec_attribute("quantity"@),
                    min: c.spec_attribute("min"@),
                    max: c.spec_attribute("max"@),
                    start: c.spec_attribute("start"@),
                },
            ),
        }
    }
}

/// The variable type of the `<ScalarVariable>` element `n`: that of its first child
/// element that names a type.
pub open spec fn spec_variable_type(n: XmlElement) -> Result<VariableType, Seq<char>> {
    match type_child_from(n.children@, 0) {
        None => Err("Missing variable type element"@),
        Some(c) => spec_type_of(c),
    }
}

fn type_of(c: &XmlElement) -> (res: Result<VariableType, String>)
    requires
        is_variable_type_tag(c.name@),
    ensures
        match res {
            Ok(t) => spec_type_of(*c) == Ok::<VariableType, Seq<char>>(t),
            Err(m) => spec_type_of(*c) == Err::<VariableType, Seq<char>>(m@),
        },
{
    if c.has_tag_name("Real") {
        let derivative = u32_attribute(c, "derivative")?;
        let reinit = bool_or_default(c, "reinit")?;
        Ok(
            VariableType::Real {
                declaredType: c.attribute("declaredType"),
                quantity: c.attribute("quantity"),
                unit: c.attribute("unit"),
                displayUnit: c.attribute("displayUnit"),
                relativeQuantity: attribute_is_true(c, "relativeQuantity"),
                min: c.attribute("min"),
                max: c.attribute("max"),
                nominal: c.attribute("nominal"),
                unbounded: attribute_is_true(c, "unbounded"),
                start: c.attribute("start"),
                derivative,
                reinit,
            },
        )
    } else if c.has_tag_name("Integer") {
        Ok(
            VariableType::Integer {
                declaredType: c.attribute("declaredType"),
                quantity: c.attribute("quantity"),
                min: c.attribute("min"),
                max: c.attribute("max"),
                start: c.attribute("start"),
            },
        )
    } else if c.has_tag_name("Boolean") {
        Ok(
            VariableType::Boolean {
                declaredType: c.attribute("declaredType"),
                start: c.attribute("start"),
            },
        )
    } else if c.has_tag_name("String") {
        Ok(
            VariableType::String {
                declaredType: c.attribute("declaredType"),
                start: c.attribute("start"),
            },
        )
    } else {
        let declaredType = c.required_attribute("declaredType")?;
        Ok(
            VariableType::Enumeration {
                declaredType,
                quantity: c.attribute("quantity"),
                min: c.attribute("min"),
                max: c.attribute("max"),
                start: c.attribute("start"),
            },
        )
    }
}

/// The variable type of a `<ScalarVariable>` element.
pub fn get_variable_type(node: &XmlElement) -> (res: Result<VariableType, String>)
    ensures
        match res {
            Ok(t) => spec_variable_type(*node) == Ok::<VariableType, Seq<char>>(t),
            Err(m) => spec_variable_type(*node) == Err::<VariableType, Seq<char>>(m@),
        },
{
    let mut i: usize = 0;
    while i < node.children.len()
        invariant
            i <= node.children@.len(),
            type_child_from(node.children@, i as nat) == type_child_from(node.children@, 0),
        decreases node.children.len() - i,
    {
        match &node.children[i] {
            XmlNode::Element(c) => {
                if c.has_tag_name("Real") || c.has_tag_name("Integer") || c.has_tag_name("Boolean")
                    || c.has_tag_name("String") || c.has_tag_name("Enumeration") {
                    return type_of(c);
                }
            },
            XmlNode::Other(_) => {},
        }
        i = i + 1;
    }
    Err(owned("Missing variable type element"))
}

// ---------------------------------------------------------------------------
// Scalar variables
// ---------------------------------------------------------------------------
/// The `initial` that the standard gives a variable of this variability and
/// causality when the attribute is absent (`None` where the combination is illegal).
pub open spec fn default_initial(variability: Variability, causality: Causality) -> Option<Initial> {
    match (variability, causality) {
        (Variability::Constant, Causality::Output) => Some(Initial::Exact),
        (Variability::Constant, Causality::Local) => Some(Initial::Exact),
        (Variability::Fixed, Causality::Parameter) => Some(Initial::Exact),
        (Variability::Fixed, Causality::CalculatedParameter) => Some(Initial::Calculated),
        (Variability::Fixed, Causality::Local) => Some(Initial::Calculated),
        (Variability::Tunable, Causality::Parameter) => Some(Initial::Exact),
        (Variability::Tunable, Causality::CalculatedParameter) => Some(Initial::Calculated),
        (Variability::Tunable, Causality::Local) => Some(Initial::Calculated),
        (Variability::Discrete, Causality::Input) => Some(Initial::Exact),
        (Variability::Discrete, Causality::Output) => Some(Initial::Calculated),
        (Variability::Discrete, Causality::Local) => Some(Initial::Calculated),
        (Variability::Continuous, Causality::Input) => Some(Initial::Exact),
        (Variability::Continuous, Causality::Output) => Some(Initial::Calculated),
        (Variability::Continuous, Causality::Local) => Some(Initial::Calculated),
        _ => None,
    }
}

/// The initial that the standard gives a variable without the attribute: exact
/// for parameters, inputs and constants; calculated for calculated parameters and
/// for outputs and locals that are not constant; none where the combination of
/// causality and variability is illegal (and for the independent variable).
pub proof fn lemma_default_initial(variability: Variability, causality: Causality)
    ensures
        default_initial(variability, causality) == match causality {
            Causality::Parameter => if variability == Variability::Fixed || variability
                == Variability::Tunable {
                Some(Initial::Exact)
            } else {
                None
            },
            Causality::CalculatedParameter => if variability == Variability::Fixed || variability
                == Variability::Tunable {
                Some(Initial::Calculated)
            } else {
                None
            },
            Causality::Input => if variability == Variability::Discrete || variability
                == Variability::Continuous {
                Some(Initial::Exact)
            } else {
                None
            },
            Causality::Output => if variability == Variability::Constant {
                Some(Initial::Exact)
            } else if variability == Variability::Discrete || variability
                == Variability::Continuous {
                Some(Initial::Calculated)
            } else {
                None
            },
            Causality::Local => if variability == Variability::Constant {
                Some(Initial::Exact)
            } else {
                Some(Initial::Calculated)
            },
            Causality::Independent => None,
        },
{
}

/// A variable read from an element without an `initial` attribute has the
/// standard's default initial: none for the independent variable, exact for
/// parameters, inputs and constants, calculated for the others; so an output or a
/// local that is not constant needs no start value.
pub proof fn lemma_read_default_initial(n: XmlElement)
    requires
        spec_scalar_variable(n) is Ok,
        n.spec_attribute("initial"@) is None,
    ensures
        ({
            let v = spec_scalar_variable(n)->Ok_0;
            &&& v.causality == Causality::Independent ==> v.initial is None
            &&& v.causality != Causality::Independent ==> v.initial == default_initial(
                v.variability,
                v.causality,
            ) && v.initial is Some
            &&& (v.causality == Causality::Output || v.causality == Causality::Local)
                && v.variability != Variability::Constant ==> v.initial == Some(Initial::Calculated)
            &&& (v.causality == Causality::Parameter || v.causality == Causality::Input
                || v.variability == Variability::Constant) && v.causality
                != Causality::Independent ==> v.initial == Some(Initial::Exact)
        }),
{
    let v = spec_scalar_variable(n)->Ok_0;
    lemma_default_initial(v.variability, v.causality);
}

/// A variable read from an element has the causality and the variability that
/// its attributes name (local and continuous where they are absent), and the
/// initial that its `initial` attribute names, where there is one.
pub proof fn lemma_read_attributes(n: XmlElement)
    requires
        spec_scalar_variable(n) is Ok,
    ensures
        ({
            let v = spec_scalar_variable(n)->Ok_0;
            &&& n.spec_attribute("causality"@) is None ==> v.causality == Causality::Local
            &&& n.spec_attribute("causality"@) matches Some(s) ==> s@
                == v.causality.attribute_name()
            &&& n.spec_attribute("variability"@) is None ==> v.variability
                == Variability::Continuous
            &&& n.spec_attribute("variability"@) matches Some(s) ==> s@
                == v.variability.attribute_name()
            &&& n.spec_attribute("initial"@) matches Some(s) ==> v.initial matches Some(i) && s@
                == i.attribute_name()
        }),
{
    let v = spec_scalar_variable(n)->Ok_0;
    if let Some(s) = n.spec_attribute("causality"@) {
        crate::model_description::fmi2::lemma_causality_names(s@);
    }
    if let Some(s) = n.spec_attribute("variability"@) {
        crate::model_description::fmi2::lemma_variability_names(s@);
    }
    if let Some(s) = n.spec_attribute("initial"@) {
        crate::model_description::fmi2::lemma_initial_names(s@);
    }
}

proof fn lemma_type_child_tag(nodes: Seq<XmlNode>, i: nat)
    ensures
        type_child_from(nodes, i) matches Some(c) ==> is_variable_type_tag(c.name@),
    decreases nodes.len() - i,
{
    if i < nodes.len() {
        lemma_type_child_tag(nodes, i + 1);
    }
}

/// A variable read from an element has the type that its first type child names:
/// a `<Real>` child gives a Real variable, and so on for every type.
pub proof fn lemma_read_type_name(n: XmlElement)
    requires
        spec_scalar_variable(n) is Ok,
    ensures
        type_child_from(n.children@, 0) matches Some(c) && spec_scalar_variable(
            n,
        )->Ok_0.variableType.spec_name() == c.name@,
{
    lemma_type_child_tag(n.children@, 0);
}

fn default_initial_of(variability: Variability, causality: Causality) -> (res: Option<Initial>)
    ensures
        res == default_initial(variability, causality),
{
    match (variability, causality) {
        (Variability::Constant, Causality::Output) => Some(Initial::Exact),
        (Variability::Constant, Causality::Local) => Some(Initial::Exact),
        (Variability::Fixed, Causality::Parameter) => Some(Initial::Exact),
        (Variability::Fixed, Causality::CalculatedParameter) => Some(Initial::Calculated),
        (Variability::Fixed, Causality::Local) => Some(Initial::Calculated),
        (Variability::Tunable, Causality::Parameter) => Some(Initial::Exact),
        (Variability::Tunable, Causality::CalculatedParameter) => Some(Initial::Calculated),
        (Variability::Tunable, Causality::Local) => Some(Initial::Calculated),
        (Variability::Discrete, Causality::Input) => Some(Initial::Exact),
        (Variability::Discrete, Causality::Output) => Some(Initial::Calculated),
        (Variability::Discrete, Causality::Local) => Some(Initial::Calculated),
        (Variability::Continuous, Causality::Input) => Some(Initial::Exact),
        (Variability::Continuous, Causality::Output) => Some(Initial::Calculated),
        (Variability::Continuous, Causality::Local) => Some(Initial::Calculated),
        _ => None,
    }
}

/// The causality of a variable element (`local` where absent).
pub open spec fn spec_causality(n: XmlElement) -> Result<Causality, Seq<char>> {
    match n.spec_attribute("causality"@) {
        None => Ok(Causality::Local),
        Some(s) => match Causality::spec_from_name(s@) {
            Some(c) => Ok(c),
            None => Err("Unknown causality: "@ + s@),
        },
    }
}

/// The variability of a variable element (`continuous` where absent).
pub open spec fn spec_variability(n: XmlElement) -> Result<Variability, Seq<char>> {
    match n.spec_attribute("variability"@) {
        None => Ok(Variability::Continuous),
        Some(s) => match Variability::spec_from_name(s@) {
            Some(c) => Ok(c),
            None => Err("Unknown variability: "@ + s@),
        },
    }
}

/// The `initial` attribute of a variable element, as written.
pub open spec fn spec_initial_attribute(n: XmlElement) -> Result<Option<Initial>, Seq<char>> {
    match n.spec_attribute("initial"@) {
        None => Ok(None),
        Some(s) => match Initial::spec_from_name(s@) {
            Some(c) => Ok(Some(c)),
            None => Err("Unknown intial: "@ + s@),
        },
    }
}

/// The `initial` of a variable: as written, or the default for its variability and
/// causality (none for the independent variable).
pub open spec fn spec_initial(
    written: Option<Initial>,
    variability: Variability,
    causality: Causality,
) -> Result<Option<Initial>, Seq<char>> {
    if written is None && causality != Causality::Independent {
        match default_initial(variability, causality) {
            Some(i) => Ok(Some(i)),
            None => Err(
                "Illegal combination of variability and causality: "@
                    + variability.spec_debug_name() + " "@ + causality.spec_debug_name(),
            ),
        }
    } else {
        Ok(written)
    }
}

/// The scalar variable that a `<ScalarVariable>` element describes.
pub open spec fn spec_scalar_variable(n: XmlElement) -> Result<ScalarVariable, Seq<char>> {
    match n.spec_attribute("name"@) {
        None => Err(missing_attribute_message("name"@)),
        Some(name) => match spec_required_u32(n, "valueReference"@) {
            Err(e) => Err(e),
            Ok(vr) => match n.spec_bool_attribute("canHandleMultipleSetPerTimeInstant"@) {
                Err(e) => Err(e),
                Ok(multiple) => match spec_variable_type(n) {
                    Err(e) => Err(e),
                    Ok(vt) => match spec_causality(n) {
                        Err(e) => Err(e),
                        Ok(c) => match spec_variability(n) {
                            Err(e) => Err(e),
                            Ok(v) => match spec_initial_attribute(n) {
                                Err(e) => Err(e),
                                Ok(written) => match spec_initial(written, v, c) {
                                    Err(e) => Err(e),
                                    Ok(initial) => Ok(
                                        ScalarVariable {
                                            variableType: vt,
                                            name,
                                            valueReference: vr,
                                            description: n.spec_attribute("description"@),
                                            causality: c,
                                            variability: v,
                                            initial,
                                            canHandleMultipleSetPerTimeInstant: match multiple {
                                                Some(b) => b,
                                                None => false,
                                            },
                                            range: n.range,
                                        },
                                    ),
                                },
                            },
                        },
                    },
                },
            },
        },
    }
}

fn causality_of(node: &XmlElement) -> (res: Result<Causality, String>)
    ensures
        match res {
            Ok(c) => spec_causality(*node) == Ok::<Causality, Seq<char>>(c),
            Err(m) => spec_causality(*node) == Err::<Causality, Seq<char>>(m@),
        },
{
    match node.attribute("causality") {
        None => Ok(Causality::Local),
        Some(s) => Causality::from_name(s.as_str()),
    }
}

fn variability_of(node: &XmlElement) -> (res: Result<Variability, String>)
    ensures
        match res {
            Ok(c) => spec_variability(*node) == Ok::<Variability, Seq<char>>(c),
            Err(m) => spec_variability(*node) == Err::<Variability, Seq<char>>(m@),
        },
{
    match node.attribute("variability") {
        None => Ok(Variability::Continuous),
        Some(s) => Variability::from_name(s.as_str()),
    }
}

fn initial_attribute_of(node: &XmlElement) -> (res: Result<Option<Initial>, String>)
    ensures
        match res {
            Ok(c) => spec_initial_attribute(*node) == Ok::<Option<Initial>, Seq<char>>(c),
            Err(m) => spec_initial_attribute(*node) == Err::<Option<Initial>, Seq<char>>(m@),
        },
{
    match node.attribute("initial") {
        None => Ok(None),
        Some(s) => {
            let i = Initial::from_name(s.as_str())?;
            Ok(Some(i))
        },
    }
}

fn initial_of(written: Option<Initial>, variability: Variability, causality: Causality) -> (res:
    Result<Option<Initial>, String>)
    ensures
        match res {
            Ok(c) => spec_initial(written, variability, causality) == Ok::<
                Option<Initial>,
                Seq<char>,
            >(c),
            Err(m) => spec_initial(written, variability, causality) == Err::<
                Option<Initial>,
                Seq<char>,
            >(m@),
        },
{
    if written.is_none() && causality != Causality::Independent {
        match default_initial_of(variability, causality) {
            Some(i) => Ok(Some(i)),
            None => {
                let mut m = owned("Illegal combination of variability and causality: ");
                let v = variability.debug_name();
                let c = causality.debug_name();
                push_str(&mut m, v.as_str());
                push_str(&mut m, " ");
                push_str(&mut m, c.as_str());
                Err(m)
            },
        }
    } else {
        Ok(written)
    }
}

impl ScalarVariable {
    /// Reads a `<ScalarVariable>` element.
    pub fn from_node(node: &XmlElement) -> (res: Result<ScalarVariable, String>)
        ensures
            match res {
                Ok(v) => spec_scalar_variable(*node) == Ok::<ScalarVariable, Seq<char>>(v),
                Err(m) => spec_scalar_variable(*node) == Err::<ScalarVariable, Seq<char>>(m@),
            },
    {
        let name = node.required_attribute("name")?;
        let valueReference = required_u32(node, "valueReference")?;
        let description = node.attribute("description");
        let canHandleMultipleSetPerTimeInstant = bool_or_default(
            node,
            "canHandleMultipleSetPerTimeInstant",
        )?;
        let variableType = get_variable_type(node)?;
        let causality = causality_of(node)?;
        let variability = variability_of(node)?;
        let written = initial_attribute_of(node)?;
        let initial = initial_of(written, variability, causality)?;
        Ok(
            ScalarVariable {
                variableType,
                name,
                valueReference,
                description,
                causality,
                variability,
                initial,
                canHandleMultipleSetPerTimeInstant,
                range: node.range.start..node.range.end,
            },
        )
    }
}

// ---------------------------------------------------------------------------
// Unknowns
// ---------------------------------------------------------------------------
/// The variable indices of a `dependencies` attribute, read word by word.
pub open spec fn parse_index_words(ws: Seq<Seq<char>>, i: nat, acc: Seq<u32>) -> Result<
    Seq<u32>,
    Seq<char>,
>
    decreases ws.len() - i,
{
    if i >= ws.len() {
        Ok(acc)
    } else {
        match parse_integer(ws[i as int], 0, u32::MAX as int) {
            Ok(v) => parse_index_words(ws, i + 1, acc.push(v as u32)),
            Err(k) => Err(k.spec_message()),
        }
    }
}

/// The dependency kinds of a `dependenciesKind` attribute, read word by word.
pub open spec fn parse_kind_words(ws: Seq<Seq<char>>, i: nat, acc: Seq<DependencyKind>) -> Result<
    Seq<DependencyKind>,
    Seq<char>,
>
    decreases ws.len() - i,
{
    if i >= ws.len() {
        Ok(acc)
    } else {
        match DependencyKind::spec_from_name(ws[i as int]) {
            Some(k) => parse_kind_words(ws, i + 1, acc.push(k)),
            None => Err("Unknown dependency kind: "@ + ws[i as int]),
        }
    }
}

/// The words of `s` read as `u32` values.
pub fn parse_index_list(s: &str) -> (res: Result<Vec<u32>, String>)
    ensures
        match res {
            Ok(v) => parse_index_words(words(s@), 0, seq![]) == Ok::<Seq<u32>, Seq<char>>(v@),
            Err(m) => parse_index_words(words(s@), 0, seq![]) == Err::<Seq<u32>, Seq<char>>(m@),
        },
{
    let cs = chars_of(s);
    let ws = split_white_space(cs.as_slice());
    let mut out: Vec<u32> = Vec::new();
    let mut i: usize = 0;
    while i < ws.len()
        invariant
            i <= ws@.len(),
            ws@.len() == words(s@).len(),
            forall|k: int| 0 <= k < ws@.len() ==> (#[trigger] ws@[k])@ == words(s@)[k],
            parse_index_words(words(s@), i as nat, out@) == parse_index_words(
                words(s@),
                0,
                seq![],
            ),
        decreases ws.len() - i,
    {
        match parse_u32(ws[i].as_slice()) {
            Ok(v) => {
                out.push(v);
            },
            Err(k) => {
                return Err(k.message());
            },
        }
        i = i + 1;
    }
    Ok(out)
}

/// The words of `s` read as dependency kinds.
pub fn parse_kind_list(s: &str) -> (res: Result<Vec<DependencyKind>, String>)
    ensures
        match res {
            Ok(v) => parse_kind_words(words(s@), 0, seq![]) == Ok::<
                Seq<DependencyKind>,
                Seq<char>,
            >(v@),
            Err(m) => parse_kind_words(words(s@), 0, seq![]) == Err::<
                Seq<DependencyKind>,
                Seq<char>,
            >(m@),
        },
{
    let cs = chars_of(s);
    let ws = split_white_space(cs.as_slice());
    let mut out: Vec<DependencyKind> = Vec::new();
    let mut i: usize = 0;
    while i < ws.len()
        invariant
            i <= ws@.len(),
            ws@.len() == words(s@).len(),
            forall|k: int| 0 <= k < ws@.len() ==> (#[trigger] ws@[k])@ == words(s@)[k],
            parse_kind_words(words(s@), i as nat, out@) == parse_kind_words(
                words(s@),
                0,
                seq![],
            ),
        decreases ws.len() - i,
    {
        let word = string_from_chars(ws[i].as_slice());
        let k = DependencyKind::from_name(word.as_str())?;
        out.push(k);
        i = i + 1;
    }
    Ok(out)
}

/// The first error in reading an `<Unknown>`: its index, then its dependencies and
/// their kinds.
pub open spec fn unknown_error(n: XmlElement) -> Option<Seq<char>> {
    if spec_required_u32(n, "index"@) is Err {
        error_of(spec_required_u32(n, "index"@))
    } else if n.spec_attribute("dependencies"@) matches Some(d) && parse_index_words(
        words(d@),
        0,
        seq![],
    ) is Err {
        error_of(parse_index_words(words(n.spec_attribute("dependencies"@).unwrap()@), 0, seq![]))
    } else if n.spec_attribute("dependenciesKind"@) matches Some(d) && parse_kind_words(
        words(d@),
        0,
        seq![],
    ) is Err {
        error_of(
            parse_kind_words(words(n.spec_attribute("dependenciesKind"@).unwrap()@), 0, seq![]),
        )
    } else {
        None
    }
}

/// `u` is the unknown that `n` describes.
pub open spec fn unknown_of(n: XmlElement, u: Unknown) -> bool {
    &&& spec_required_u32(n, "index"@) == Ok::<u32, Seq<char>>(u.index)
    &&& match n.spec_attribute("dependencies"@) {
        Some(d) => u.dependencies matches Some(v) && parse_index_words(words(d@), 0, seq![])
            == Ok::<Seq<u32>, Seq<char>>(v@),
        None => u.dependencies is None,
    }
    &&& match n.spec_attribute("dependenciesKind"@) {
        Some(d) => u.dependenciesKind matches Some(v) && parse_kind_words(words(d@), 0, seq![])
            == Ok::<Seq<DependencyKind>, Seq<char>>(v@),
        None => u.dependenciesKind is None,
    }
    &&& u.range == n.range
}

impl Unknown {
    /// Reads an `<Unknown>` element.
    pub fn from_node(node: &XmlElement) -> (res: Result<Unknown, String>)
        ensures
            match res {
                Ok(u) => unknown_error(*node) is None && unknown_of(*node, u),
                Err(m) => unknown_error(*node) == Some(m@),
            },
    {
        let index = required_u32(node, "index")?;
        let dependencies = match node.attribute("dependencies") {
            Some(d) => Some(parse_index_list(d.as_str())?),
            None => None,
        };
        let dependenciesKind = match node.attribute("dependenciesKind") {
            Some(d) => Some(parse_kind_list(d.as_str())?),
            None => None,
        };
        Ok(Unknown { index, dependencies, dependenciesKind, range: node.range.start..node.range.end })
    }
}

/// The `<Unknown>` elements of the list `name` in `<ModelStructure>`.
pub open spec fn unknown_nodes(root: XmlElement, name: Seq<char>) -> Seq<XmlElement> {
    match root.spec_child("ModelStructure"@) {
        None => seq![],
        Some(ms) => match ms.spec_child(name) {
            None => seq![],
            Some(c) => c.spec_children("Unknown"@),
        },
    }
}

/// The first error in reading the unknowns `name`.
pub open spec fn unknowns_error(root: XmlElement, name: Seq<char>) -> Option<Seq<char>> {
    first_error(unknown_nodes(root, name), |n: XmlElement| unknown_error(n), 0)
}

/// `us` are the unknowns of the list `name`.
pub open spec fn unknowns_of(root: XmlElement, name: Seq<char>, us: Seq<Unknown>) -> bool {
    &&& us.len() == unknown_nodes(root, name).len()
    &&& forall|k: int| 0 <= k < us.len() ==> unknown_of(unknown_nodes(root, name)[k], #[trigger] us[k])
}

fn unknown_node_list<'a>(root: &'a XmlElement, name: &str) -> (res: Vec<&'a XmlElement>)
    ensures
        res@.len() == unknown_nodes(*root, name@).len(),
        forall|k: int| 0 <= k < res@.len() ==> *(#[trigger] res@[k]) == unknown_nodes(*root, name@)[k],
{
    match root.get_child("ModelStructure") {
        None => Vec::new(),
        Some(ms) => match ms.get_child(name) {
            None => Vec::new(),
            Some(c) => c.get_children("Unknown"),
        },
    }
}

/// Reads the unknowns of the list `name` (`Outputs`, `Derivatives` or
/// `InitialUnknowns`) of the model structure.
pub fn get_unknowns(root: &XmlElement, name: &str) -> (res: Result<Vec<Unknown>, String>)
    ensures
        match res {
            Ok(us) => unknowns_error(*root, name@) is None && unknowns_of(*root, name@, us@),
            Err(m) => unknowns_error(*root, name@) == Some(m@),
        },
{
    let nodes = unknown_node_list(root, name);
    let ghost spec_nodes = unknown_nodes(*root, name@);
    let mut out: Vec<Unknown> = Vec::new();
    let mut i: usize = 0;
    while i < nodes.len()
        invariant
            i <= nodes@.len(),
            nodes@.len() == spec_nodes.len(),
            forall|k: int| 0 <= k < nodes@.len() ==> *(#[trigger] nodes@[k]) == spec_nodes[k],
            spec_nodes == unknown_nodes(*root, name@),
            out@.len() == i,
            forall|k: int| 0 <= k < i ==> unknown_of(spec_nodes[k], #[trigger] out@[k]),
            first_error(spec_nodes, |n: XmlElement| unknown_error(n), i as nat) == first_error(
                spec_nodes,
                |n: XmlElement| unknown_error(n),
                0,
            ),
        decreases nodes.len() - i,
    {
        let u = Unknown::from_node(nodes[i])?;
        out.push(u);
        i = i + 1;
    }
    Ok(out)
}

// ---------------------------------------------------------------------------
// Interfaces
// ---------------------------------------------------------------------------
/// The `<File>` elements of the `<SourceFiles>` child of an interface element.
pub open spec fn source_file_nodes(n: XmlElement) -> Seq<XmlElement> {
    match n.spec_child("SourceFiles"@) {
        Some(sf) => sf.spec_children("File"@),
        None => seq![],
    }
}

/// The names of the files `nodes[i..]`, after those `acc` read so far.
pub open spec fn file_names(nodes: Seq<XmlElement>, i: nat, acc: Seq<String>) -> Result<
    Seq<String>,
    Seq<char>,
>
    decreases nodes.len() - i,
{
    if i >= nodes.len() {
        Ok(acc)
    } else {
        match nodes[i as int].spec_attribute("name"@) {
            Some(v) => file_names(nodes, i + 1, acc.push(v)),
            None => Err(missing_attribute_message("name"@)),
        }
    }
}

/// Reads the names of the source files of an interface element.
pub fn source_files(node: &XmlElement) -> (res: Result<Vec<String>, String>)
    ensures
        match res {
            Ok(v) => file_names(source_file_nodes(*node), 0, seq![]) == Ok::<
                Seq<String>,
                Seq<char>,
            >(v@),
            Err(m) => file_names(source_file_nodes(*node), 0, seq![]) == Err::<
                Seq<String>,
                Seq<char>,
            >(m@),
        },
{
    let nodes: Vec<&XmlElement> = match node.get_child("SourceFiles") {
        Some(sf) => sf.get_children("File"),
        None => Vec::new(),
    };
    let ghost spec_nodes = source_file_nodes(*node);
    let mut out: Vec<String> = Vec::new();
    let mut i: usize = 0;
    while i < nodes.len()
        invariant
            i <= nodes@.len(),
            nodes@.len() == spec_nodes.len(),
            spec_nodes == source_file_nodes(*node),
            forall|k: int| 0 <= k < nodes@.len() ==> *(#[trigger] nodes@[k]) == spec_nodes[k],
            file_names(spec_nodes, i as nat, out@) == file_names(spec_nodes, 0, seq![]),
        decreases nodes.len() - i,
    {
        let name = nodes[i].required_attribute("name")?;
        out.push(name);
        i = i + 1;
    }
    Ok(out)
}

pub open spec fn bool_error(n: XmlElement, name: Seq<char>) -> bool {
    n.spec_bool_attribute(name) is Err
}

pub open spec fn bool_message(n: XmlElement, name: Seq<char>) -> Option<Seq<char>> {
    error_of(n.spec_bool_attribute(name))
}

/// The first error in reading a `<CoSimulation>` element: its source files, its
/// model identifier, then its flags and `maxOutputDerivativeOrder` in the order of
/// the fields.
pub open spec fn co_simulation_error(n: XmlElement) -> Option<Seq<char>> {
    if file_names(source_file_nodes(n), 0, seq![]) is Err {
        error_of(file_names(source_file_nodes(n), 0, seq![]))
    } else if n.spec_attribute("modelIdentifier"@) is None {
        Some(missing_attribute_in_message(n, "modelIdentifier"@))
    } else if bool_error(n, "needsExecutionTool"@) {
        bool_message(n, "needsExecutionTool"@)
    } else if bool_error(n, "canHandleVariableCommunicationStepSize"@) {
        bool_message(n, "canHandleVariableCommunicationStepSize"@)
    } else if bool_error(n, "canInterpolateInputs"@) {
        bool_message(n, "canInterpolateInputs"@)
    } else if n.spec_integer_attribute("maxOutputDerivativeOrder"@, 0, u32::MAX as int) is Err {
        error_of(n.spec_integer_attribute("maxOutputDerivativeOrder"@, 0, u32::MAX as int))
    } else if bool_error(n, "canRunAsynchronuously"@) {
        bool_message(n, "canRunAsynchronuously"@)
    } else if bool_error(n, "canBeInstantiatedOnlyOncePerProcess"@) {
        bool_message(n, "canBeInstantiatedOnlyOncePerProcess"@)
    } else if bool_error(n, "canNotUseMemoryManagementFunctions"@) {
        bool_message(n, "canNotUseMemoryManagementFunctions"@)
    } else if bool_error(n, "canGetAndSetFMUstate"@) {
        bool_message(n, "canGetAndSetFMUstate"@)
    } else if bool_error(n, "canSerializeFMUstate"@) {
        bool_message(n, "canSerializeFMUstate"@)
    } else if bool_error(n, "providesDirectionalDerivative"@) {
        bool_message(n, "providesDirectionalDerivative"@)
    } else {
        None
    }
}

/// `cs` is the Co-Simulation interface that `n` describes.
pub open spec fn co_simulation_of(n: XmlElement, cs: CoSimulation) -> bool {
    &&& file_names(source_file_nodes(n), 0, seq![]) == Ok::<Seq<String>, Seq<char>>(
        cs.sourceFiles@,
    )
    &&& n.spec_attribute("modelIdentifier"@) == Some(cs.modelIdentifier)
    &&& cs.needsExecutionTool == bool_or_false(n, "needsExecutionTool"@)
    &&& cs.canHandleVariableCommunicationStepSize == bool_or_false(
        n,
        "canHandleVariableCommunicationStepSize"@,
    )
    &&& cs.canInterpolateInputs == bool_or_false(n, "canInterpolateInputs"@)
    &&& cs.maxOutputDerivativeOrder == u32_or_zero(n, "maxOutputDerivativeOrder"@)
    &&& cs.canRunAsynchronuously == bool_or_false(n, "canRunAsynchronuously"@)
    &&& cs.canBeInstantiatedOnlyOncePerProcess == bool_or_false(
        n,
        "canBeInstantiatedOnlyOncePerProcess"@,
    )
    &&& cs.canNotUseMemoryManagementFunctions == bool_or_false(
        n,
        "canNotUseMemoryManagementFunctions"@,
    )
    &&& cs.canGetAndSetFMUstate == bool_or_false(n, "canGetAndSetFMUstate"@)
    &&& cs.canSerializeFMUstate == bool_or_false(n, "canSerializeFMUstate"@)
    &&& cs.providesDirectionalDerivative == bool_or_false(n, "providesDirectionalDerivative"@)
    &&& cs.range == n.range
}

impl CoSimulation {
    /// Reads a `<CoSimulation>` element.
    pub fn from_node(node: &XmlElement) -> (res: Result<CoSimulation, String>)
        ensures
            match res {
                Ok(cs) => co_simulation_error(*node) is None && co_simulation_of(*node, cs),
                Err(m) => co_simulation_error(*node) == Some(m@),
            },
    {
        let sourceFiles = source_files(node)?;
        let modelIdentifier = node.required_attribute_in("modelIdentifier")?;
        let needsExecutionTool = bool_or_default(node, "needsExecutionTool")?;
        let canHandleVariableCommunicationStepSize = bool_or_default(
            node,
            "canHandleVariableCommunicationStepSize",
        )?;
        let canInterpolateInputs = bool_or_default(node, "canInterpolateInputs")?;
        let maxOutputDerivativeOrder = u32_or_default(node, "maxOutputDerivativeOrder")?;
        let canRunAsynchronuously = bool_or_default(node, "canRunAsynchronuously")?;
        let canBeInstantiatedOnlyOncePerProcess = bool_or_default(
            node,
            "canBeInstantiatedOnlyOncePerProcess",
        )?;
        let canNotUseMemoryManagementFunctions = bool_or_default(
            node,
            "canNotUseMemoryManagementFunctions",
        )?;
        let canGetAndSetFMUstate = bool_or_default(node, "canGetAndSetFMUstate")?;
        let canSerializeFMUstate = bool_or_default(node, "canSerializeFMUstate")?;
        let providesDirectionalDerivative = bool_or_default(node, "providesDirectionalDerivative")?;
        Ok(
            CoSimulation {
                sourceFiles,
                modelIdentifier,
                needsExecutionTool,
                canHandleVariableCommunicationStepSize,
                canInterpolateInputs,
                maxOutputDerivativeOrder,
                canRunAsynchronuously,
                canBeInstantiatedOnlyOncePerProcess,
                canNotUseMemoryManagementFunctions,
                canGetAndSetFMUstate,
                canSerializeFMUstate,
                providesDirectionalDerivative,
                range: node.range.start..node.range.end,
            },
        )
    }
}

/// The first error in reading a `<ModelExchange>` element: its source files, its
/// model identifier, then its flags in the order of the fields.
pub open spec fn model_exchange_error(n: XmlElement) -> Option<Seq<char>> {
    if file_names(source_file_nodes(n), 0, seq![]) is Err {
        error_of(file_names(source_file_nodes(n), 0, seq![]))
    } else if n.spec_attribute("modelIdentifier"@) is None {
        Some(missing_attribute_in_message(n, "modelIdentifier"@))
    } else if bool_error(n, "needsExecutionTool"@) {
        bool_message(n, "needsExecutionTool"@)
    } else if bool_error(n, "completedIntegratorStepNotNeeded"@) {
        bool_message(n, "completedIntegratorStepNotNeeded"@)
    } else if bool_error(n, "canBeInstantiatedOnlyOncePerProcess"@) {
        bool_message(n, "canBeInstantiatedOnlyOncePerProcess"@)
    } else if bool_error(n, "canNotUseMemoryManagementFunctions"@) {
        bool_message(n, "canNotUseMemoryManagementFunctions"@)
    } else if bool_error(n, "canGetAndSetFMUstate"@) {
        bool_message(n, "canGetAndSetFMUstate"@)
    } else if bool_error(n, "canSerializeFMUstate"@) {
        bool_message(n, "canSerializeFMUstate"@)
    } else if bool_error(n, "providesDirectionalDerivative"@) {
        bool_message(n, "providesDirectionalDerivative"@)
    } else {
        None
    }
}

/// `me` is the Model Exchange interface that `n` describes.
pub open spec fn model_exchange_of(n: XmlElement, me: ModelExchange) -> bool {
    &&& file_names(source_file_nodes(n), 0, seq![]) == Ok::<Seq<String>, Seq<char>>(
        me.sourceFiles@,
    )
    &&& n.spec_attribute("modelIdentifier"@) == Some(me.modelIdentifier)
    &&& me.needsExecutionTool == bool_or_false(n, "needsExecutionTool"@)
    &&& me.completedIntegratorStepNotNeeded == bool_or_false(
        n,
        "completedIntegratorStepNotNeeded"@,
    )
    &&& me.canBeInstantiatedOnlyOncePerProcess == bool_or_false(
        n,
        "canBeInstantiatedOnlyOncePerProcess"@,
    )
    &&& me.canNotUseMemoryManagementFunctions == bool_or_false(
        n,
        "canNotUseMemoryManagementFunctions"@,
    )
    &&& me.canGetAndSetFMUstate == bool_or_false(n, "canGetAndSetFMUstate"@)
    &&& me.canSerializeFMUstate == bool_or_false(n, "canSerializeFMUstate"@)
    &&& me.providesDirectionalDerivative == bool_or_false(n, "providesDirectionalDerivative"@)
    &&& me.range == n.range
}

impl ModelExchange {
    /// Reads a `<ModelExchange>` element.
    pub fn from_node(node: &XmlElement) -> (res: Result<ModelExchange, String>)
        ensures
            match res {
                Ok(me) => model_exchange_error(*node) is None && model_exchange_of(*node, me),
                Err(m) => model_exchange_error(*node) == Some(m@),
            },
    {
        let sourceFiles = source_files(node)?;
        let modelIdentifier = node.required_attribute_in("modelIdentifier")?;
        let needsExecutionTool = bool_or_default(node, "needsExecutionTool")?;
        let completedIntegratorStepNotNeeded = bool_or_default(
            node,
            "completedIntegratorStepNotNeeded",
        )?;
        let canBeInstantiatedOnlyOncePerProcess = bool_or_default(
            node,
            "canBeInstantiatedOnlyOncePerProcess",
        )?;
        let canNotUseMemoryManagementFunctions = bool_or_default(
            node,
            "canNotUseMemoryManagementFunctions",
        )?;
        let canGetAndSetFMUstate = bool_or_default(node, "canGetAndSetFMUstate")?;
        let canSerializeFMUstate = bool_or_default(node, "canSerializeFMUstate")?;
        let providesDirectionalDerivative = bool_or_default(node, "providesDirectionalDerivative")?;
        Ok(
            ModelExchange {
                sourceFiles,
                modelIdentifier,
                needsExecutionTool,
                completedIntegratorStepNotNeeded,
                canBeInstantiatedOnlyOncePerProcess,
                canNotUseMemoryManagementFunctions,
                canGetAndSetFMUstate,
                canSerializeFMUstate,
                providesDirectionalDerivative,
                range: node.range.start..node.range.end,
            },
        )
    }
}

// ---------------------------------------------------------------------------
// Type definitions
// ---------------------------------------------------------------------------
/// The item that an `<Item>` element describes: its name, then its `value` as an
/// `i32`.
pub open spec fn spec_item(n: XmlElement) -> Result<Item, Seq<char>> {
    match n.spec_attribute("name"@) {
        None => Err(missing_attribute_message("name"@)),
        Some(name) => match n.spec_attribute("value"@) {
            None => Err(missing_attribute_in_message(n, "value"@)),
            Some(_) => match n.spec_integer_attribute("value"@, i32::MIN as int, i32::MAX as int) {
                Err(e) => Err(e),
                Ok(v) => Ok(
                    Item {
                        name,
                        value: match v {
                            Some(x) => x as i32,
                            None => 0,
                        },
                        description: n.spec_attribute("description"@),
                        range: n.range,
                    },
                ),
            },
        },
    }
}

impl Item {
    /// Reads an `<Item>` element of an enumeration type.
    pub fn from_node(node: &XmlElement) -> (res: Result<Item, String>)
        ensures
            match res {
                Ok(it) => spec_item(*node) == Ok::<Item, Seq<char>>(it),
                Err(m) => spec_item(*node) == Err::<Item, Seq<char>>(m@),
            },
    {
        let name = node.required_attribute("name")?;
        let description = node.attribute("description");
        let _ = node.required_attribute_in("value")?;
        let value = match node.attribute_as_integer("value", i32::MIN as i64, i32::MAX as u64)? {
            Some(v) => v as i32,
            None => 0,
        };
        Ok(Item { name, value, description, range: node.range.start..node.range.end })
    }
}

/// The `<Item>` children of an enumeration element.
pub open spec fn item_nodes(c: XmlElement) -> Seq<XmlElement> {
    c.spec_children("Item"@)
}

/// The first error among the items of an enumeration element.
pub open spec fn items_error(c: XmlElement) -> Option<Seq<char>> {
    first_error(item_nodes(c), |x: XmlElement| error_of(spec_item(x)), 0)
}

/// `items` are the items that the enumeration element `c` lists, in order.
pub open spec fn items_of(c: XmlElement, items: Seq<Item>) -> bool {
    &&& items.len() == item_nodes(c).len()
    &&& forall|k: int|
        0 <= k < items.len() ==> spec_item(item_nodes(c)[k]) == Ok::<Item, Seq<char>>(
            #[trigger] items[k],
        )
}

/// Reads the items of an enumeration element.
fn read_items(c: &XmlElement) -> (res: Result<Vec<Item>, String>)
    ensures
        match res {
            Ok(v) => items_error(*c) is None && items_of(*c, v@),
            Err(m) => items_error(*c) == Some(m@),
        },
{
    let nodes = c.get_children("Item");
    let ghost spec_nodes = item_nodes(*c);
    let mut out: Vec<Item> = Vec::new();
    let mut i: usize = 0;
    while i < nodes.len()
        invariant
            i <= nodes@.len(),
            nodes@.len() == spec_nodes.len(),
            spec_nodes == item_nodes(*c),
            forall|k: int| 0 <= k < nodes@.len() ==> *(#[trigger] nodes@[k]) == spec_nodes[k],
            out@.len() == i,
            forall|k: int|
                0 <= k < i ==> spec_item(spec_nodes[k]) == Ok::<Item, Seq<char>>(#[trigger] out@[k]),
            first_error(spec_nodes, |x: XmlElement| error_of(spec_item(x)), i as nat)
                == first_error(spec_nodes, |x: XmlElement| error_of(spec_item(x)), 0),
        decreases nodes.len() - i,
    {
        let it = Item::from_node(nodes[i])?;
        out.push(it);
        i = i + 1;
    }
    Ok(out)
}

/// The first error in reading the type definition `n`: its name, then the first
/// child element that names a type and the attributes of that child in the order
/// of the fields (for an enumeration, its items first).
pub open spec fn simple_type_error(n: XmlElement) -> Option<Seq<char>> {
    if n.spec_attribute("name"@) is None {
        Some(missing_attribute_message("name"@))
    } else {
        match type_child_from(n.children@, 0) {
            None => Some("Missing variable type element"@),
            Some(c) => if c.name@ == "Real"@ {
                if bool_error(c, "relativeQuantity"@) {
                    bool_message(c, "relativeQuantity"@)
                } else if bool_error(c, "unbounded"@) {
                    bool_message(c, "unbounded"@)
                } else if c.spec_float_attribute("min"@) is Err {
                    error_of(c.spec_float_attribute("min"@))
                } else if c.spec_float_attribute("max"@) is Err {
                    error_of(c.spec_float_attribute("max"@))
                } else {
                    error_of(c.spec_float_attribute("nominal"@))
                }
            } else if c.name@ == "Integer"@ {
                if c.spec_integer_attribute("min"@, i32::MIN as int, i32::MAX as int) is Err {
                    error_of(c.spec_integer_attribute("min"@, i32::MIN as int, i32::MAX as int))
                } else {
                    error_of(c.spec_integer_attribute("max"@, i32::MIN as int, i32::MAX as int))
                }
            } else if c.name@ == "Enumeration"@ {
                items_error(c)
            } else {
                None
            },
        }
    }
}

/// `t` is the type definition that `n` describes.
pub open spec fn simple_type_of(n: XmlElement, t: SimpleType) -> bool {
    n.spec_attribute("name"@) matches Some(name) && type_child_from(n.children@, 0) matches Some(c)
        && if c.name@ == "Real"@ {
        t == SimpleType::Real {
            name,
            description: n.spec_attribute("description"@),
            quantity: c.spec_attribute("quantity"@),
            unit: c.spec_attribute("unit"@),
            displayUnit: c.spec_attribute("displayUnit"@),
            relativeQuantity: bool_or_false(c, "relativeQuantity"@),
            min: c.spec_float_attribute("min"@)->Ok_0,
            max: c.spec_float_attribute("max"@)->Ok_0,
            nominal: c.spec_float_attribute("nominal"@)->Ok_0,
            unbounded: bool_or_false(c, "unbounded"@),
            range: n.range,
        }
    } else if c.name@ == "Integer"@ {
        t == SimpleType::Integer {
            name,
            description: n.spec_attribute("description"@),
            quantity: c.spec_attribute("quantity"@),
            min: as_i32(c.spec_integer_attribute("min"@, i32::MIN as int, i32::MAX as int)->Ok_0),
            max: as_i32(c.spec_integer_attribute("max"@, i32::MIN as int, i32::MAX as int)->Ok_0),
            range: n.range,
        }
    } else if c.name@ == "Boolean"@ {
        t == SimpleType::Boolean {
            name,
            description: n.spec_attribute("description"@),
            range: n.range,
        }
    } else if c.name@ == "String"@ {
        t == SimpleType::String { name, description: n.spec_attribute("description"@), range: n.range }
    } else {
        t matches SimpleType::Enumeration { name: tn, description, items, quantity, range }
            && tn == name && description == n.spec_attribute("description"@) && items_of(c, items@)
            && quantity == c.spec_attribute("quantity"@) && range == n.range
    }
}

/// Reads an optional `i32` attribute.
pub fn i32_attribute(node: &XmlElement, name: &str) -> (res: Result<Option<i32>, String>)
    ensures
        match res {
            Ok(v) => node.spec_integer_attribute(name@, i32::MIN as int, i32::MAX as int) matches Ok(
                w,
            ) && v == as_i32(w),
            Err(m) => node.spec_integer_attribute(name@, i32::MIN as int, i32::MAX as int) == Err::<
                Option<int>,
                Seq<char>,
            >(m@),
        },
{
    match node.attribute_as_integer(name, i32::MIN as i64, i32::MAX as u64) {
        Ok(Some(v)) => Ok(Some(v as i32)),
        Ok(None) => Ok(None),
        Err(m) => Err(m),
    }
}

impl SimpleType {
    /// Reads a `<SimpleType>` element.
    pub fn from_node(node: &XmlElement) -> (res: Result<SimpleType, String>)
        ensures
            match res {
                Ok(t) => simple_type_error(*node) is None && simple_type_of(*node, t),
                Err(m) => simple_type_error(*node) == Some(m@),
            },
    {
        let name = node.required_attribute("name")?;
        let description = node.attribute("description");
        let mut i: usize = 0;
        while i < node.children.len()
            invariant
                i <= node.children@.len(),
                type_child_from(node.children@, i as nat) == type_child_from(node.children@, 0),
                node.spec_attribute("name"@) == Some(name),
                description == node.spec_attribute("description"@),
            decreases node.children.len() - i,
        {
            match &node.children[i] {
                XmlNode::Element(c) => {
                    if c.has_tag_name("Real") {
                        let quantity = c.attribute("quantity");
                        let unit = c.attribute("unit");
                        let displayUnit = c.attribute("displayUnit");
                        let relativeQuantity = bool_or_default(c, "relativeQuantity")?;
                        let unbounded = bool_or_default(c, "unbounded")?;
                        let min = c.attribute_as_float("min")?;
                        let max = c.attribute_as_float("max")?;
                        let nominal = c.attribute_as_float("nominal")?;
                        return Ok(
                            SimpleType::Real {
                                name,
                                description,
                                quantity,
                                unit,
                                displayUnit,
                                relativeQuantity,
                                min,
                                max,
                                nominal,
                                unbounded,
                                range: node.range.start..node.range.end,
                            },
                        );
                    } else if c.has_tag_name("Integer") {
                        let quantity = c.attribute("quantity");
                        let min = i32_attribute(c, "min")?;
                        let max = i32_attribute(c, "max")?;
                        return Ok(
                            SimpleType::Integer {
                                name,
                                description,
                                quantity,
                                min,
                                max,
                                range: node.range.start..node.range.end,
                            },
                        );
                    } else if c.has_tag_name("Boolean") {
                        proof {
                            reveal_strlit("Boolean");
                            reveal_strlit("Enumeration");
                        }
                        return Ok(
                            SimpleType::Boolean {
                                name,
                                description,
                                range: node.range.start..node.range.end,
                            },
                        );
                    } else if c.has_tag_name("String") {
                        proof {
                            reveal_strlit("String");
                            reveal_strlit("Enumeration");
                        }
                        return Ok(
                            SimpleType::String {
                                name,
                                description,
                                range: node.range.start..node.range.end,
                            },
                        );
                    } else if c.has_tag_name("Enumeration") {
                        let items = read_items(c)?;
                        let quantity = c.attribute("quantity");
                        return Ok(
                            SimpleType::Enumeration {
                                name,
                                description,
                                items,
                                quantity,
                                range: node.range.start..node.range.end,
                            },
                        );
                    }
                },
                XmlNode::Other(_) => {},
            }
            i = i + 1;
        }
        Err(owned("Missing variable type element"))
    }
}

// ---------------------------------------------------------------------------
// The model description
// ---------------------------------------------------------------------------
/// The `<ScalarVariable>` elements of `<ModelVariables>`.
pub open spec fn variable_nodes(root: XmlElement) -> Seq<XmlElement> {
    match root.spec_child("ModelVariables"@) {
        Some(mv) => mv.spec_children("ScalarVariable"@),
        None => seq![],
    }
}

/// The first error among the scalar variables.
pub open spec fn variables_error(root: XmlElement) -> Option<Seq<char>> {
    first_error(variable_nodes(root), |n: XmlElement| error_of(spec_scalar_variable(n)), 0)
}

/// `vs` are the scalar variables of `root`, in order.
pub open spec fn variables_of(root: XmlElement, vs: Seq<ScalarVariable>) -> bool {
    &&& vs.len() == variable_nodes(root).len()
    &&& forall|k: int|
        0 <= k < vs.len() ==> spec_scalar_variable(variable_nodes(root)[k]) == Ok::<
            ScalarVariable,
            Seq<char>,
        >(#[trigger] vs[k])
}

fn read_variables(root: &XmlElement, mv: &XmlElement) -> (res: Result<Vec<ScalarVariable>, String>)
    requires
        root.spec_child("ModelVariables"@) == Some(*mv),
    ensures
        match res {
            Ok(v) => variables_error(*root) is None && variables_of(*root, v@),
            Err(m) => variables_error(*root) == Some(m@),
        },
{
    let nodes = mv.get_children("ScalarVariable");
    let ghost spec_nodes = variable_nodes(*root);
    let mut out: Vec<ScalarVariable> = Vec::new();
    let mut i: usize = 0;
    while i < nodes.len()
        invariant
            i <= nodes@.len(),
            nodes@.len() == spec_nodes.len(),
            spec_nodes == variable_nodes(*root),
            forall|k: int| 0 <= k < nodes@.len() ==> *(#[trigger] nodes@[k]) == spec_nodes[k],
            out@.len() == i,
            forall|k: int|
                0 <= k < i ==> spec_scalar_variable(spec_nodes[k]) == Ok::<ScalarVariable, Seq<char>>(
                    #[trigger] out@[k],
                ),
            first_error(spec_nodes, |n: XmlElement| error_of(spec_scalar_variable(n)), i as nat)
                == first_error(spec_nodes, |n: XmlElement| error_of(spec_scalar_variable(n)), 0),
        decreases nodes.len() - i,
    {
        let v = ScalarVariable::from_node(nodes[i])?;
        out.push(v);
        i = i + 1;
    }
    Ok(out)
}

/// The `<Category>` elements of `<LogCategories>`.
pub open spec fn category_nodes(root: XmlElement) -> Seq<XmlElement> {
    match root.spec_child("LogCategories"@) {
        Some(c) => c.spec_children("Category"@),
        None => seq![],
    }
}

/// The first error among the log categories.
pub open spec fn categories_error(root: XmlElement) -> Option<Seq<char>> {
    first_error(category_nodes(root), |n: XmlElement| category_error(n), 0)
}

/// `cs` are the log categories of `root`, in order.
pub open spec fn categories_of(root: XmlElement, cs: Seq<Category>) -> bool {
    &&& cs.len() == category_nodes(root).len()
    &&& forall|k: int| 0 <= k < cs.len() ==> category_of(category_nodes(root)[k], #[trigger] cs[k])
}

pub fn read_categories(root: &XmlElement) -> (res: Result<Vec<Category>, String>)
    ensures
        match res {
            Ok(v) => categories_error(*root) is None && categories_of(*root, v@),
            Err(m) => categories_error(*root) == Some(m@),
        },
{
    let nodes: Vec<&XmlElement> = match root.get_child("LogCategories") {
        Some(c) => c.get_children("Category"),
        None => Vec::new(),
    };
    let ghost spec_nodes = category_nodes(*root);
    let mut out: Vec<Category> = Vec::new();
    let mut i: usize = 0;
    while i < nodes.len()
        invariant
            i <= nodes@.len(),
            nodes@.len() == spec_nodes.len(),
            spec_nodes == category_nodes(*root),
            forall|k: int| 0 <= k < nodes@.len() ==> *(#[trigger] nodes@[k]) == spec_nodes[k],
            out@.len() == i,
            forall|k: int| 0 <= k < i ==> category_of(spec_nodes[k], #[trigger] out@[k]),
            first_error(spec_nodes, |n: XmlElement| category_error(n), i as nat) == first_error(
                spec_nodes,
                |n: XmlElement| category_error(n),
                0,
            ),
        decreases nodes.len() - i,
    {
        let c = Category::from_node(nodes[i])?;
        out.push(c);
        i = i + 1;
    }
    Ok(out)
}

/// The `<Unit>` elements of `<UnitDefintions>` (the element name that this reader
/// looks for).
pub open spec fn unit_nodes(root: XmlElement) -> Seq<XmlElement> {
    match root.spec_child("UnitDefintions"@) {
        Some(c) => c.spec_children("Unit"@),
        None => seq![],
    }
}

/// The first error among the unit definitions.
pub open spec fn units_error(root: XmlElement) -> Option<Seq<char>> {
    first_error(unit_nodes(root), |n: XmlElement| unit_error(n), 0)
}

/// `us` are the unit definitions of `root`, in order.
pub open spec fn units_of(root: XmlElement, us: Seq<Unit>) -> bool {
    &&& us.len() == unit_nodes(root).len()
    &&& forall|k: int| 0 <= k < us.len() ==> unit_of(unit_nodes(root)[k], #[trigger] us[k])
}

fn read_units(root: &XmlElement) -> (res: Result<Vec<Unit>, String>)
    ensures
        match res {
            Ok(v) => units_error(*root) is None && units_of(*root, v@),
            Err(m) => units_error(*root) == Some(m@),
        },
{
    let nodes: Vec<&XmlElement> = match root.get_child("UnitDefintions") {
        Some(c) => c.get_children("Unit"),
        None => Vec::new(),
    };
    let ghost spec_nodes = unit_nodes(*root);
    let mut out: Vec<Unit> = Vec::new();
    let mut i: usize = 0;
    while i < nodes.len()
        invariant
            i <= nodes@.len(),
            nodes@.len() == spec_nodes.len(),
            spec_nodes == unit_nodes(*root),
            forall|k: int| 0 <= k < nodes@.len() ==> *(#[trigger] nodes@[k]) == spec_nodes[k],
            out@.len() == i,
            forall|k: int| 0 <= k < i ==> unit_of(spec_nodes[k], #[trigger] out@[k]),
            first_error(spec_nodes, |n: XmlElement| unit_error(n), i as nat) == first_error(
                spec_nodes,
                |n: XmlElement| unit_error(n),
                0,
            ),
        decreases nodes.len() - i,
    {
        let u = Unit::from_node(nodes[i])?;
        out.push(u);
        i = i + 1;
    }
    Ok(out)
}

/// The type definition element that is read: the first `<SimpleType>` of
/// `<TypeDefinitions>`.
pub open spec fn type_definition_node(root: XmlElement) -> Option<XmlElement> {
    match root.spec_child("TypeDefinitions"@) {
        Some(t) => t.spec_child("SimpleType"@),
        None => None,
    }
}

/// The error in reading the type definition, if any.
pub open spec fn type_definitions_error(root: XmlElement) -> Option<Seq<char>> {
    match type_definition_node(root) {
        Some(n) => simple_type_error(n),
        None => None,
    }
}

/// `ts` are the type definitions read from `root`.
pub open spec fn type_definitions_of(root: XmlElement, ts: Seq<SimpleType>) -> bool {
    match type_definition_node(root) {
        Some(n) => ts.len() == 1 && simple_type_of(n, ts[0]),
        None => ts.len() == 0,
    }
}

fn read_type_definitions(root: &XmlElement) -> (res: Result<Vec<SimpleType>, String>)
    ensures
        match res {
            Ok(v) => type_definitions_error(*root) is None && type_definitions_of(*root, v@),
            Err(m) => type_definitions_error(*root) == Some(m@),
        },
{
    let mut out: Vec<SimpleType> = Vec::new();
    match root.get_child("TypeDefinitions") {
        Some(t) => match t.get_child("SimpleType") {
            Some(n) => {
                let st = SimpleType::from_node(n)?;
                out.push(st);
            },
            None => {},
        },
        None => {},
    }
    Ok(out)
}

/// The error in reading an optional interface element, if any.
pub open spec fn co_simulation_child_error(root: XmlElement) -> Option<Seq<char>> {
    match root.spec_child("CoSimulation"@) {
        Some(n) => co_simulation_error(n),
        None => None,
    }
}

/// The error in reading an optional interface element, if any.
pub open spec fn model_exchange_child_error(root: XmlElement) -> Option<Seq<char>> {
    match root.spec_child("ModelExchange"@) {
        Some(n) => model_exchange_error(n),
        None => None,
    }
}

/// The naming convention that `root` gives, `flat` where it gives none.
pub open spec fn spec_naming_convention(root: XmlElement) -> Result<
    VariableNamingConvention,
    Seq<char>,
> {
    match root.spec_attribute("variableNamingConvention"@) {
        None => Ok(VariableNamingConvention::Flat),
        Some(s) => match VariableNamingConvention::spec_from_name(s@) {
            Some(c) => Ok(c),
            None => Err("Unknown variable naming convention: "@ + s@),
        },
    }
}

/// The first error in reading an FMI 2.0 model description from its root element,
/// in the order in which the reader meets them.
pub open spec fn model_description_error(root: XmlElement) -> Option<Seq<char>> {
    match root.spec_attribute("fmiVersion"@) {
        None => Some("Missing attribute 'fmiVersion'"@),
        Some(v) => if v@ != "2.0"@ {
            Some("Expected FMI version 2.0, but was "@ + v@)
        } else if root.spec_child("ModelVariables"@) is None {
            Some(missing_element_message(root, "ModelVariables"@))
        } else if variables_error(root) is Some {
            variables_error(root)
        } else if categories_error(root) is Some {
            categories_error(root)
        } else if co_simulation_child_error(root) is Some {
            co_simulation_child_error(root)
        } else if model_exchange_child_error(root) is Some {
            model_exchange_child_error(root)
        } else if units_error(root) is Some {
            units_error(root)
        } else if type_definitions_error(root) is Some {
            type_definitions_error(root)
        } else if root.spec_attribute("modelName"@) is None {
            Some(missing_attribute_message("modelName"@))
        } else if root.spec_attribute("guid"@) is None {
            Some(missing_attribute_message("guid"@))
        } else if spec_naming_convention(root) is Err {
            error_of(spec_naming_convention(root))
        } else if root.spec_integer_attribute("numberOfEventIndicators"@, 0, u32::MAX as int) is Err {
            error_of(root.spec_integer_attribute("numberOfEventIndicators"@, 0, u32::MAX as int))
        } else if unknowns_error(root, "Outputs"@) is Some {
            unknowns_error(root, "Outputs"@)
        } else if unknowns_error(root, "Derivatives"@) is Some {
            unknowns_error(root, "Derivatives"@)
        } else {
            unknowns_error(root, "InitialUnknowns"@)
        },
    }
}

/// `md` is the model description that `root` describes.
pub open spec fn model_description_of(root: XmlElement, md: ModelDescription) -> bool {
    &&& root.spec_attribute("modelName"@) == Some(md.modelName)
    &&& root.spec_attribute("guid"@) == Some(md.guid)
    &&& md.description == root.spec_attribute("description"@)
    &&& md.author == root.spec_attribute("author"@)
    &&& md.version == root.spec_attribute("version"@)
    &&& md.copyright == root.spec_attribute("copyright"@)
    &&& md.license == root.spec_attribute("license"@)
    &&& md.generationTool == root.spec_attribute("generationTool"@)
    &&& md.generationDateAndTime == root.spec_attribute("generationDateAndTime"@)
    &&& spec_naming_convention(root) == Ok::<VariableNamingConvention, Seq<char>>(
        md.variableNamingConvention,
    )
    &&& categories_of(root, md.logCategories@)
    &&& match root.spec_child("DefaultExperiment"@) {
        Some(n) => md.defaultExperiment matches Some(d) && default_experiment_of(n, d),
        None => md.defaultExperiment is None,
    }
    &&& match root.spec_child("CoSimulation"@) {
        Some(n) => md.coSimulation matches Some(cs) && co_simulation_of(n, cs),
        None => md.coSimulation is None,
    }
    &&& match root.spec_child("ModelExchange"@) {
        Some(n) => md.modelExchange matches Some(me) && model_exchange_of(n, me),
        None => md.modelExchange is None,
    }
    &&& units_of(root, md.unitDefintions@)
    &&& type_definitions_of(root, md.typeDefinitions@)
    &&& variables_of(root, md.modelVariables@)
    &&& md.numberOfEventIndicators == u32_or_zero(root, "numberOfEventIndicators"@)
    &&& unknowns_of(root, "Outputs"@, md.outputs@)
    &&& unknowns_of(root, "Derivatives"@, md.derivatives@)
    &&& unknowns_of(root, "InitialUnknowns"@, md.initialUnknowns@)
}

fn naming_convention_of(root: &XmlElement) -> (res: Result<VariableNamingConvention, String>)
    ensures
        match res {
            Ok(c) => spec_naming_convention(*root) == Ok::<VariableNamingConvention, Seq<char>>(c),
            Err(m) => spec_naming_convention(*root) == Err::<VariableNamingConvention, Seq<char>>(
                m@,
            ),
        },
{
    match root.attribute("variableNamingConvention") {
        None => Ok(VariableNamingConvention::Flat),
        Some(s) => VariableNamingConvention::from_name(s.as_str()),
    }
}

impl ModelDescription {
    /// Reads an FMI 2.0 model description from the root element of its document.
    pub fn from_node(root: &XmlElement) -> (res: Result<ModelDescription, String>)
        ensures
            match res {
                Ok(md) => model_description_error(*root) is None && model_description_of(*root, md),
                Err(m) => model_description_error(*root) == Some(m@),
            },
    {
        proof {
            reveal_strlit("2.0");
        }
        match root.attribute("fmiVersion") {
            Some(v) => {
                if v != owned("2.0") {
                    let mut m = owned("Expected FMI version 2.0, but was ");
                    push_str(&mut m, v.as_str());
                    return Err(m);
                }
            },
            None => {
                return Err(owned("Missing attribute 'fmiVersion'"));
            },
        }
        let mv = root.get_required_child("ModelVariables")?;
        let modelVariables = read_variables(root, mv)?;
        let logCategories = read_categories(root)?;
        let defaultExperiment = match root.get_child("DefaultExperiment") {
            Some(n) => Some(DefaultExperiment::from_node(n)),
            None => None,
        };
        let coSimulation = match root.get_child("CoSimulation") {
            Some(n) => Some(CoSimulation::from_node(n)?),
            None => None,
        };
        let modelExchange = match root.get_child("ModelExchange") {
            Some(n) => Some(ModelExchange::from_node(n)?),
            None => None,
        };
        let unitDefintions = read_units(root)?;
        let typeDefinitions = read_type_definitions(root)?;
        let modelName = root.required_attribute("modelName")?;
        let guid = root.required_attribute("guid")?;
        let variableNamingConvention = naming_convention_of(root)?;
        let numberOfEventIndicators = u32_or_default(root, "numberOfEventIndicators")?;
        let outputs = get_unknowns(root, "Outputs")?;
        let derivatives = get_unknowns(root, "Derivatives")?;
        let initialUnknowns = get_unknowns(root, "InitialUnknowns")?;
        Ok(
            ModelDescription {
                modelName,
                guid,
                description: root.attribute("description"),
                author: root.attribute("author"),
                version: root.attribute("version"),
                copyright: root.attribute("copyright"),
                license: root.attribute("license"),
                generationTool: root.attribute("generationTool"),
                generationDateAndTime: root.attribute("generationDateAndTime"),
                variableNamingConvention,
                logCategories,
                defaultExperiment,
                modelExchange,
                coSimulation,
                unitDefintions,
                typeDefinitions,
                modelVariables,
                numberOfEventIndicators,
                outputs,
                derivatives,
                initialUnknowns,
            },
        )
    }

    /// Reads an FMI 2.0 model description from the text of its document.
    pub fn from_string(text: &str) -> (res: Result<ModelDescription, String>)
        ensures
            match xml_document(text@) {
                Err(e) => res matches Err(m) && m@ == e,
                Ok(root) => match res {
                    Ok(md) => model_description_error(root) is None && model_description_of(
                        root,
                        md,
                    ),
                    Err(m) => model_description_error(root) == Some(m@),
                },
            },
    {
        let root = parse_xml(text)?;
        ModelDescription::from_node(&root)
    }
}

} // verus!
