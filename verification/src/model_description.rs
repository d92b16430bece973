//! What FMI 2 and FMI 3 model descriptions have in common: units, log categories,
//! the default experiment, validation problems, and the FMI version of a document.
#![allow(non_snake_case)]

pub mod fmi2;
pub mod fmi3;
pub mod validation;

use std::ops::Range;
use vstd::prelude::*;

use crate::text::{owned, push_str};
use crate::xml::{parse_xml, xml_document, XmlElement};

verus! {

/// A problem found while validating a model description: the source ranges of the
/// elements involved and what is wrong.
#[derive(Debug)]
pub struct ValidationError {
    pub range: Vec<Range<usize>>,
    pub message: String,
}

/// A validation problem as a value of the specification.
pub struct Problem {
    pub ranges: Seq<Range<usize>>,
    pub message: Seq<char>,
}

impl ValidationError {
    /// The problem that this error reports.
    pub open spec fn view_problem(self) -> Problem {
        Problem { ranges: self.range@, message: self.message@ }
    }
}

/// The problems that a list of errors reports, in order.
pub open spec fn problems_of(errors: Seq<ValidationError>) -> Seq<Problem> {
    errors.map_values(|e: ValidationError| e.view_problem())
}

/// The problem of the element at `range`.
pub open spec fn problem_at(range: Range<usize>, message: Seq<char>) -> Problem {
    Problem { ranges: seq![range], message }
}

/// Appends the errors `more` to `errors`.
pub fn append_errors(errors: &mut Vec<ValidationError>, more: Vec<ValidationError>)
    ensures
        problems_of(final(errors)@) == problems_of(old(errors)@) + problems_of(more@),
{
    let ghost added = more@;
    let mut more = more;
    errors.append(&mut more);
    proof {
        assert(problems_of(errors@) =~= problems_of(old(errors)@) + problems_of(added));
    }
}

/// The major version of the FMI standard that a model description follows.
#[derive(Debug, PartialEq, Eq, Hash, Clone, Copy)]
pub enum FMIMajorVersion {
    V2,
    V3,
}

impl FMIMajorVersion {
    /// The number of the major version.
    pub fn number(&self) -> (res: u32)
        ensures
            res == (match self {
                FMIMajorVersion::V2 => 2u32,
                FMIMajorVersion::V3 => 3u32,
            }),
    {
        match self {
            FMIMajorVersion::V2 => 2,
            FMIMajorVersion::V3 => 3,
        }
    }
}

/// A unit definition.
#[derive(Debug)]
pub struct Unit {
    pub name: String,
    pub baseUnit: Option<BaseUnit>,
    pub displayUnits: Vec<DisplayUnit>,
    pub range: Range<usize>,
}

/// A display unit. `factor` and `offset` are floating-point literals (`"1.0"` and
/// `"0.0"` where the attribute is absent).
#[derive(Debug)]
pub struct DisplayUnit {
    pub name: String,
    pub factor: String,
    pub offset: String,
    pub inverse: bool,
    pub range: Range<usize>,
}

/// The exponents of the SI base units of a unit, with its factor and offset as
/// floating-point literals (`"1.0"` and `"0.0"` where the attribute is absent).
#[derive(Debug)]
pub struct BaseUnit {
    pub kg: i32,
    pub m: i32,
    pub s: i32,
    pub A: i32,
    pub K: i32,
    pub mol: i32,
    pub cd: i32,
    pub rad: i32,
    pub factor: String,
    pub offset: String,
    pub range: Range<usize>,
}

/// A log category.
#[derive(Debug)]
pub struct Category {
    pub name: String,
    pub description: Option<String>,
}

/// The default experiment; the times, the tolerance and the step size are kept as
/// they are written.
#[derive(Debug)]
pub struct DefaultExperiment {
    pub startTime: Option<String>,
    pub stopTime: Option<String>,
    pub tolerance: Option<String>,
    pub stepSize: Option<String>,
    pub range: Range<usize>,
}

// ---------------------------------------------------------------------------
// Reading the common elements
// ---------------------------------------------------------------------------
/// The first error among `f(items[i..])`.
pub open spec fn first_error<T>(items: Seq<T>, f: spec_fn(T) -> Option<Seq<char>>, i: nat) -> Option<
    Seq<char>,
>
    decreases items.len() - i,
{
    if i >= items.len() {
        None
    } else if f(items[i as int]) is Some {
        f(items[i as int])
    } else {
        first_error(items, f, i + 1)
    }
}

/// The first of `items[i..]` for which `p` holds.
pub open spec fn find_first<T>(items: Seq<T>, p: spec_fn(T) -> bool, i: nat) -> Option<T>
    decreases items.len() - i,
{
    if i >= items.len() {
        None
    } else if p(items[i as int]) {
        Some(items[i as int])
    } else {
        find_first(items, p, i + 1)
    }
}

/// The error of an optional attribute read, if any.
pub open spec fn error_of<T>(r: Result<T, Seq<char>>) -> Option<Seq<char>> {
    match r {
        Ok(_) => None,
        Err(e) => Some(e),
    }
}

/// An optional `i32` attribute read as an integer.
pub open spec fn as_i32(v: Option<int>) -> Option<i32> {
    match v {
        Some(x) => Some(x as i32),
        None => None,
    }
}

/// The literal of an optional floating-point attribute, or `default`.
pub open spec fn float_or(e: XmlElement, name: Seq<char>, default: Seq<char>) -> Seq<char> {
    match e.spec_float_attribute(name) {
        Ok(Some(v)) => v@,
        _ => default,
    }
}

/// The value of an optional integer attribute, or `0`.
pub open spec fn int_or_zero(e: XmlElement, name: Seq<char>, min: int, max: int) -> int {
    match e.spec_integer_attribute(name, min, max) {
        Ok(Some(v)) => v,
        _ => 0,
    }
}

/// The value of an optional boolean attribute, or `false`.
pub open spec fn bool_or_false(e: XmlElement, name: Seq<char>) -> bool {
    match e.spec_bool_attribute(name) {
        Ok(Some(v)) => v,
        _ => false,
    }
}

/// Reads an optional `i32` attribute, `0` where it is absent.
pub fn i32_or_zero(node: &XmlElement, name: &str) -> (res: Result<i32, String>)
    ensures
        match res {
            Ok(v) => node.spec_integer_attribute(name@, i32::MIN as int, i32::MAX as int) is Ok
                && v == int_or_zero(*node, name@, i32::MIN as int, i32::MAX as int),
            Err(m) => node.spec_integer_attribute(name@, i32::MIN as int, i32::MAX as int) == Err::<
                Option<int>,
                Seq<char>,
            >(m@),
        },
{
    match node.attribute_as_integer(name, i32::MIN as i64, i32::MAX as u64) {
        Ok(Some(v)) => Ok(v as i32),
        Ok(None) => Ok(0),
        Err(m) => Err(m),
    }
}

/// Reads an optional floating-point attribute as its literal, `default` where it is absent.
pub fn float_or_default(node: &XmlElement, name: &str, default: &str) -> (res: Result<String, String>)
    ensures
        match res {
            Ok(v) => node.spec_float_attribute(name@) is Ok && v@ == float_or(*node, name@, default@),
            Err(m) => node.spec_float_attribute(name@) == Err::<Option<String>, Seq<char>>(m@),
        },
{
    match node.attribute_as_float(name) {
        Ok(Some(v)) => Ok(v),
        Ok(None) => Ok(owned(default)),
        Err(m) => Err(m),
    }
}

/// Reads an optional boolean attribute, `false` where it is absent.
pub fn bool_or_default(node: &XmlElement, name: &str) -> (res: Result<bool, String>)
    ensures
        match res {
            Ok(v) => node.spec_bool_attribute(name@) is Ok && v == bool_or_false(*node, name@),
            Err(m) => node.spec_bool_attribute(name@) == Err::<Option<bool>, Seq<char>>(m@),
        },
{
    match node.attribute_as_bool(name) {
        Ok(Some(v)) => Ok(v),
        Ok(None) => Ok(false),
        Err(m) => Err(m),
    }
}

/// The first error in reading a `<BaseUnit>`: the exponents in the order
/// kg, m, s, A, K, mol, cd, rad, then factor and offset.
pub open spec fn base_unit_error(n: XmlElement) -> Option<Seq<char>> {
    let lo = i32::MIN as int;
    let hi = i32::MAX as int;
    if n.spec_integer_attribute("kg"@, lo, hi) is Err {
        error_of(n.spec_integer_attribute("kg"@, lo, hi))
    } else if n.spec_integer_attribute("m"@, lo, hi) is Err {
        error_of(n.spec_integer_attribute("m"@, lo, hi))
    } else if n.spec_integer_attribute("s"@, lo, hi) is Err {
        error_of(n.spec_integer_attribute("s"@, lo, hi))
    } else if n.spec_integer_attribute("A"@, lo, hi) is Err {
        error_of(n.spec_integer_attribute("A"@, lo, hi))
    } else if n.spec_integer_attribute("K"@, lo, hi) is Err {
        error_of(n.spec_integer_attribute("K"@, lo, hi))
    } else if n.spec_integer_attribute("mol"@, lo, hi) is Err {
        error_of(n.spec_integer_attribute("mol"@, lo, hi))
    } else if n.spec_integer_attribute("cd"@, lo, hi) is Err {
        error_of(n.spec_integer_attribute("cd"@, lo, hi))
    } else if n.spec_integer_attribute("rad"@, lo, hi) is Err {
        error_of(n.spec_integer_attribute("rad"@, lo, hi))
    } else if n.spec_float_attribute("factor"@) is Err {
        error_of(n.spec_float_attribute("factor"@))
    } else {
        error_of(n.spec_float_attribute("offset"@))
    }
}

/// `u` is the base unit that `n` describes.
pub open spec fn base_unit_of(n: XmlElement, u: BaseUnit) -> bool {
    let lo = i32::MIN as int;
    let hi = i32::MAX as int;
    &&& u.kg == int_or_zero(n, "kg"@, lo, hi)
    &&& u.m == int_or_zero(n, "m"@, lo, hi)
    &&& u.s == int_or_zero(n, "s"@, lo, hi)
    &&& u.A == int_or_zero(n, "A"@, lo, hi)
    &&& u.K == int_or_zero(n, "K"@, lo, hi)
    &&& u.mol == int_or_zero(n, "mol"@, lo, hi)
    &&& u.cd == int_or_zero(n, "cd"@, lo, hi)
    &&& u.rad == int_or_zero(n, "rad"@, lo, hi)
    &&& u.factor@ == float_or(n, "factor"@, "1.0"@)
    &&& u.offset@ == float_or(n, "offset"@, "0.0"@)
    &&& u.range == n.range
}

impl BaseUnit {
    /// Reads a `<BaseUnit>` element.
    pub fn from_node(node: &XmlElement) -> (res: Result<BaseUnit, String>)
        ensures
            match res {
                Ok(u) => base_unit_error(*node) is None && base_unit_of(*node, u),
                Err(m) => base_unit_error(*node) == Some(m@),
            },
    {
        let kg = i32_or_zero(node, "kg")?;
        let m = i32_or_zero(node, "m")?;
        let s = i32_or_zero(node, "s")?;
        let a = i32_or_zero(node, "A")?;
        let k = i32_or_zero(node, "K")?;
        let mol = i32_or_zero(node, "mol")?;
        let cd = i32_or_zero(node, "cd")?;
        let rad = i32_or_zero(node, "rad")?;
        let factor = float_or_default(node, "factor", "1.0")?;
        let offset = float_or_default(node, "offset", "0.0")?;
        Ok(BaseUnit {
            kg,
            m,
            s,
            A: a,
            K: k,
            mol,
            cd,
            rad,
            factor,
            offset,
            range: node.range.start..node.range.end,
        })
    }
}

/// The first error in reading a `<DisplayUnit>`: factor, offset, inverse, then name.
pub open spec fn display_unit_error(n: XmlElement) -> Option<Seq<char>> {
    if n.spec_float_attribute("factor"@) is Err {
        error_of(n.spec_float_attribute("factor"@))
    } else if n.spec_float_attribute("offset"@) is Err {
        error_of(n.spec_float_attribute("offset"@))
    } else if n.spec_bool_attribute("inverse"@) is Err {
        error_of(n.spec_bool_attribute("inverse"@))
    } else if n.spec_attribute("name"@) is None {
        Some(crate::xml::missing_attribute_message("name"@))
    } else {
        None
    }
}

/// `u` is the display unit that `n` describes.
pub open spec fn display_unit_of(n: XmlElement, u: DisplayUnit) -> bool {
    &&& u.factor@ == float_or(n, "factor"@, "1.0"@)
    &&& u.offset@ == float_or(n, "offset"@, "0.0"@)
    &&& u.inverse == bool_or_false(n, "inverse"@)
    &&& n.spec_attribute("name"@) == Some(u.name)
    &&& u.range == n.range
}

impl DisplayUnit {
    /// Reads a `<DisplayUnit>` element.
    pub fn from_node(node: &XmlElement) -> (res: Result<DisplayUnit, String>)
        ensures
            match res {
                Ok(u) => display_unit_error(*node) is None && display_unit_of(*node, u),
                Err(m) => display_unit_error(*node) == Some(m@),
            },
    {
        let factor = float_or_default(node, "factor", "1.0")?;
        let offset = float_or_default(node, "offset", "0.0")?;
        let inverse = bool_or_default(node, "inverse")?;
        let name = node.required_attribute("name")?;
        Ok(DisplayUnit { name, factor, offset, inverse, range: node.range.start..node.range.end })
    }
}

/// The first error in reading a `<Unit>`: its name, its first `<BaseUnit>`, then its
/// `<DisplayUnit>` children in order.
pub open spec fn unit_error(n: XmlElement) -> Option<Seq<char>> {
    if n.spec_attribute("name"@) is None {
        Some(crate::xml::missing_attribute_message("name"@))
    } else if n.spec_child("BaseUnit"@) matches Some(b) && base_unit_error(b) is Some {
        base_unit_error(n.spec_child("BaseUnit"@).unwrap())
    } else {
        first_error(n.spec_children("DisplayUnit"@), |d: XmlElement| display_unit_error(d), 0)
    }
}

/// `u` is the unit that `n` describes.
pub open spec fn unit_of(n: XmlElement, u: Unit) -> bool {
    &&& n.spec_attribute("name"@) == Some(u.name)
    &&& match n.spec_child("BaseUnit"@) {
        Some(b) => u.baseUnit matches Some(bu) && base_unit_of(b, bu),
        None => u.baseUnit is None,
    }
    &&& u.displayUnits@.len() == n.spec_children("DisplayUnit"@).len()
    &&& forall|k: int|
        0 <= k < u.displayUnits@.len() ==> display_unit_of(
            n.spec_children("DisplayUnit"@)[k],
            #[trigger] u.displayUnits@[k],
        )
    &&& u.range == n.range
}

impl Unit {
    /// Reads a `<Unit>` element.
    pub fn from_node(node: &XmlElement) -> (res: Result<Unit, String>)
        ensures
            match res {
                Ok(u) => unit_error(*node) is None && unit_of(*node, u),
                Err(m) => unit_error(*node) == Some(m@),
            },
    {
        let name = node.required_attribute("name")?;
        let baseUnit = match node.get_child("BaseUnit") {
            Some(b) => Some(BaseUnit::from_node(b)?),
            None => None,
        };
        let nodes = node.get_children("DisplayUnit");
        let ghost spec_nodes = node.spec_children("DisplayUnit"@);
        assert(unit_error(*node) == first_error(spec_nodes, |d: XmlElement| display_unit_error(d), 0));
        let mut displayUnits: Vec<DisplayUnit> = Vec::new();
        let mut i: usize = 0;
        while i < nodes.len()
            invariant
                i <= nodes@.len(),
                nodes@.len() == spec_nodes.len(),
                forall|k: int| 0 <= k < nodes@.len() ==> *(#[trigger] nodes@[k]) == spec_nodes[k],
                displayUnits@.len() == i,
                forall|k: int|
                    0 <= k < i ==> display_unit_of(spec_nodes[k], #[trigger] displayUnits@[k]),
                first_error(spec_nodes, |d: XmlElement| display_unit_error(d), i as nat)
                    == first_error(spec_nodes, |d: XmlElement| display_unit_error(d), 0),
                forall|k: int| 0 <= k < i ==> display_unit_error(#[trigger] spec_nodes[k]) is None,
                unit_error(*node) == first_error(spec_nodes, |d: XmlElement| display_unit_error(d), 0),
            decreases nodes.len() - i,
        {
            let u = DisplayUnit::from_node(nodes[i])?;
            displayUnits.push(u);
            i = i + 1;
        }
        Ok(Unit { name, baseUnit, displayUnits, range: node.range.start..node.range.end })
    }
}

/// The first error in reading a `<Category>`: its name.
pub open spec fn category_error(n: XmlElement) -> Option<Seq<char>> {
    if n.spec_attribute("name"@) is None {
        Some(crate::xml::missing_attribute_message("name"@))
    } else {
        None
    }
}

/// `c` is the log category that `n` describes.
pub open spec fn category_of(n: XmlElement, c: Category) -> bool {
    &&& n.spec_attribute("name"@) == Some(c.name)
    &&& c.description == n.spec_attribute("description"@)
}

impl Category {
    /// Reads a `<Category>` element.
    pub fn from_node(node: &XmlElement) -> (res: Result<Category, String>)
        ensures
            match res {
                Ok(c) => category_error(*node) is None && category_of(*node, c),
                Err(m) => category_error(*node) == Some(m@),
            },
    {
        let name = node.required_attribute("name")?;
        let description = node.attribute("description");
        Ok(Category { name, description })
    }
}

/// The default experiment that `n` describes.
pub open spec fn default_experiment_of(n: XmlElement, d: DefaultExperiment) -> bool {
    &&& d.startTime == n.spec_attribute("startTime"@)
    &&& d.stopTime == n.spec_attribute("stopTime"@)
    &&& d.tolerance == n.spec_attribute("tolerance"@)
    &&& d.stepSize == n.spec_attribute("stepSize"@)
    &&& d.range == n.range
}

impl DefaultExperiment {
    /// Reads a `<DefaultExperiment>` element.
    pub fn from_node(node: &XmlElement) -> (res: DefaultExperiment)
        ensures
            default_experiment_of(*node, res),
    {
        DefaultExperiment {
            startTime: node.attribute("startTime"),
            stopTime: node.attribute("stopTime"),
            tolerance: node.attribute("tolerance"),
            stepSize: node.attribute("stepSize"),
            range: node.range.start..node.range.end,
        }
    }
}

// ---------------------------------------------------------------------------
// The FMI version of a document
// ---------------------------------------------------------------------------
/// The `fmiVersion` attribute of a root element, or why there is none.
pub open spec fn spec_fmi_version_of(root: XmlElement) -> Result<String, Seq<char>> {
    match root.spec_attribute("fmiVersion"@) {
        Some(v) => Ok(v),
        None => Err("Attribute fmiVersion is missing."@),
    }
}

/// The `fmiVersion` attribute of the root element of the document `text`, or why
/// there is none.
pub open spec fn spec_peek_fmi_version(text: Seq<char>) -> Result<String, Seq<char>> {
    match xml_document(text) {
        Err(e) => Err(e),
        Ok(root) => spec_fmi_version_of(root),
    }
}

/// Reads the `fmiVersion` attribute of a root element.
pub fn fmi_version_of(root: &XmlElement) -> (res: Result<String, String>)
    ensures
        match res {
            Ok(v) => spec_fmi_version_of(*root) == Ok::<String, Seq<char>>(v),
            Err(e) => spec_fmi_version_of(*root) == Err::<String, Seq<char>>(e@),
        },
{
    match root.attribute("fmiVersion") {
        Some(v) => Ok(v),
        None => Err(owned("Attribute fmiVersion is missing.")),
    }
}

/// Reads the `fmiVersion` attribute of the root element of the document `text`.
pub fn peek_fmi_version(text: &str) -> (res: Result<String, String>)
    ensures
        match res {
            Ok(v) => spec_peek_fmi_version(text@) == Ok::<String, Seq<char>>(v),
            Err(e) => spec_peek_fmi_version(text@) == Err::<String, Seq<char>>(e@),
        },
{
    let root = parse_xml(text)?;
    fmi_version_of(&root)
}

/// The major version that an `fmiVersion` attribute names: `2.0` is FMI 2, any
/// `3.*` is FMI 3; `1.0` and anything else is refused.
pub open spec fn spec_major_version(v: Seq<char>) -> Result<FMIMajorVersion, Seq<char>> {
    if v == "1.0"@ {
        Err("FMI 1.0 is not supported."@)
    } else if v == "2.0"@ {
        Ok(FMIMajorVersion::V2)
    } else if v.len() >= 2 && v.take(2) == "3."@ {
        Ok(FMIMajorVersion::V3)
    } else {
        Err("Unknown FMI version: "@ + v)
    }
}

/// The major version that an `fmiVersion` attribute names.
pub fn major_version_of(fmi_version: &String) -> (res: Result<FMIMajorVersion, String>)
    ensures
        match res {
            Ok(m) => spec_major_version(fmi_version@) == Ok::<FMIMajorVersion, Seq<char>>(m),
            Err(e) => spec_major_version(fmi_version@) == Err::<FMIMajorVersion, Seq<char>>(e@),
        },
{
    let cs = crate::text::chars_of(fmi_version.as_str());
    proof {
        reveal_strlit("3.");
    }
    if *fmi_version == owned("1.0") {
        Err(owned("FMI 1.0 is not supported."))
    } else if *fmi_version == owned("2.0") {
        Ok(FMIMajorVersion::V2)
    } else if cs.len() >= 2 && cs[0] == '3' && cs[1] == '.' {
        assert(fmi_version@.take(2) =~= "3."@);
        Ok(FMIMajorVersion::V3)
    } else {
        assert(!(fmi_version@.len() >= 2 && fmi_version@.take(2) == "3."@)) by {
            if fmi_version@.len() >= 2 && fmi_version@.take(2) == "3."@ {
                assert(fmi_version@.take(2)[0] == '3');
                assert(fmi_version@.take(2)[1] == '.');
            }
        }
        let mut m = owned("Unknown FMI version: ");
        push_str(&mut m, fmi_version.as_str());
        Err(m)
    }
}

/// The major FMI version of the model description `text`.
pub fn peak_fmi_major_version(text: &str) -> (res: Result<FMIMajorVersion, String>)
    ensures
        match res {
            Ok(m) => spec_peek_fmi_version(text@) matches Ok(v) && spec_major_version(v@) == Ok::<
                FMIMajorVersion,
                Seq<char>,
            >(m),
            Err(e) => match spec_peek_fmi_version(text@) {
                Err(pe) => e@ == pe,
                Ok(v) => spec_major_version(v@) == Err::<FMIMajorVersion, Seq<char>>(e@),
            },
        },
{
    let fmi_version = peek_fmi_version(text)?;
    major_version_of(&fmi_version)
}

} // verus!
