//! Validation of an FMI 3.0 model description against the rules of the standard.
#![allow(non_snake_case)]

use std::ops::Range;
use vstd::prelude::*;

use crate::model_description::fmi3::{
    fmiValueReference, Causality, Initial, ModelDescription, ModelVariable, Unknown, Variability,
    VariableNamingConvention, VariableType,
};
use crate::model_description::validation::{
    check_structured_name, validate_structured_variable_name,
};
use crate::model_description::validation::grammar::{
    is_structured_name, lemma_structured_name_grammar,
};
use crate::model_description::{
    append_errors, problem_at, problems_of, Problem, ValidationError,
};
use crate::model_description::fmi3::file::{
    lemma_default_initial, lemma_read_default_initial, model_variable_of,
};
use crate::text::{decimal, owned, push_str, u64_to_decimal};
use crate::xml::XmlElement;

verus! {

// ---------------------------------------------------------------------------
// The rules, one variable at a time
// ---------------------------------------------------------------------------
/// The combinations of causality, variability and initial that the standard allows.
pub open spec fn legal_combination(c: Causality, v: Variability, i: Option<Initial>) -> bool {
    match (c, v, i) {
        (Causality::StructuralParameter, Variability::Fixed, Some(Initial::Exact)) => true,
        (Causality::StructuralParameter, Variability::Tunable, Some(Initial::Exact)) => true,
        (Causality::Parameter, Variability::Fixed, Some(Initial::Exact)) => true,
        (Causality::Parameter, Variability::Tunable, Some(Initial::Exact)) => true,
        (Causality::CalculatedParameter, Variability::Fixed, Some(Initial::Calculated)) => true,
        (Causality::CalculatedParameter, Variability::Fixed, Some(Initial::Approx)) => true,
        (Causality::CalculatedParameter, Variability::Tunable, Some(Initial::Calculated)) => true,
        (Causality::CalculatedParameter, Variability::Tunable, Some(Initial::Approx)) => true,
        (Causality::Input, Variability::Discrete, Some(Initial::Exact)) => true,
        (Causality::Input, Variability::Continuous, Some(Initial::Exact)) => true,
        (Causality::Output, Variability::Constant, Some(Initial::Exact)) => true,
        (Causality::Output, Variability::Discrete, Some(Initial::Calculated)) => true,
        (Causality::Output, Variability::Discrete, Some(Initial::Exact)) => true,
        (Causality::Output, Variability::Discrete, Some(Initial::Approx)) => true,
        (Causality::Output, Variability::Continuous, Some(Initial::Calculated)) => true,
        (Causality::Output, Variability::Continuous, Some(Initial::Exact)) => true,
        (Causality::Output, Variability::Continuous, Some(Initial::Approx)) => true,
        (Causality::Local, Variability::Constant, Some(Initial::Exact)) => true,
        (Causality::Local, Variability::Fixed, Some(Initial::Calculated)) => true,
        (Causality::Local, Variability::Fixed, Some(Initial::Approx)) => true,
        (Causality::Local, Variability::Tunable, Some(Initial::Calculated)) => true,
        (Causality::Local, Variability::Tunable, Some(Initial::Approx)) => true,
        (Causality::Local, Variability::Discrete, Some(Initial::Calculated)) => true,
        (Causality::Local, Variability::Discrete, Some(Initial::Exact)) => true,
        (Causality::Local, Variability::Discrete, Some(Initial::Approx)) => true,
        (Causality::Local, Variability::Continuous, Some(Initial::Calculated)) => true,
        (Causality::Local, Variability::Continuous, Some(Initial::Exact)) => true,
        (Causality::Local, Variability::Continuous, Some(Initial::Approx)) => true,
        (Causality::Independent, Variability::Continuous, None) => true,
        _ => false,
    }
}

/// The combinations of causality, variability and initial that the standard
/// allows: parameters (structural or not) are fixed or tunable and exact;
/// calculated parameters are fixed or tunable and calculated or approximate;
/// inputs are discrete or continuous and exact; outputs and locals are exact
/// constants, or discrete or continuous with any initial; locals may also be fixed
/// or tunable and calculated or approximate; the independent variable is
/// continuous and has no initial.
pub proof fn lemma_legal_combinations(c: Causality, v: Variability, i: Option<Initial>)
    ensures
        legal_combination(c, v, i) <==> match c {
            Causality::Parameter | Causality::StructuralParameter => (v == Variability::Fixed || v
                == Variability::Tunable) && i == Some(Initial::Exact),
            Causality::CalculatedParameter => (v == Variability::Fixed || v
                == Variability::Tunable) && (i == Some(Initial::Calculated) || i == Some(
                Initial::Approx,
            )),
            Causality::Input => (v == Variability::Discrete || v == Variability::Continuous) && i
                == Some(Initial::Exact),
            Causality::Output => (v == Variability::Constant && i == Some(Initial::Exact)) || ((v
                == Variability::Discrete || v == Variability::Continuous) && i is Some),
            Causality::Local => (v == Variability::Constant && i == Some(Initial::Exact)) || ((v
                == Variability::Fixed || v == Variability::Tunable) && (i == Some(
                Initial::Calculated,
            ) || i == Some(Initial::Approx))) || ((v == Variability::Discrete || v
                == Variability::Continuous) && i is Some),
            Causality::Independent => v == Variability::Continuous && i is None,
        },
{
}

/// A variable read without an `initial` attribute passes the check of its
/// combination of causality, variability and initial exactly when some initial
/// would make its causality and variability legal: the default the reader gives
/// is always a legal one.
pub proof fn lemma_read_initial_is_legal(n: XmlElement, var: ModelVariable)
    requires
        model_variable_of(n, var),
        n.spec_attribute("initial"@) is None,
    ensures
        legal_combination(var.causality, var.variability, var.initial) <==> exists|i: Option<Initial>|
            legal_combination(var.causality, var.variability, i),
{
    lemma_read_default_initial(n, var);
    lemma_default_initial(var.variability, var.causality);
    lemma_legal_combinations(var.causality, var.variability, var.initial);
    if exists|i: Option<Initial>| legal_combination(var.causality, var.variability, i) {
        let i = choose|i: Option<Initial>| legal_combination(var.causality, var.variability, i);
        lemma_legal_combinations(var.causality, var.variability, i);
    }
}

/// An optional `initial` as `{:?}` writes it.
pub open spec fn initial_debug(i: Option<Initial>) -> Seq<char> {
    match i {
        Some(x) => "Some("@ + x.spec_debug_name() + ")"@,
        None => "None"@,
    }
}

/// The first of the variables `vs[..i]` whose name is `name`.
pub open spec fn earlier_named(vs: Seq<ModelVariable>, name: Seq<char>, i: nat) -> Option<
    ModelVariable,
>
    decreases i,
{
    if i == 0 || i > vs.len() {
        None
    } else {
        match earlier_named(vs, name, (i - 1) as nat) {
            Some(v) => Some(v),
            None => if vs[i - 1].name@ == name {
                Some(vs[i - 1])
            } else {
                None
            },
        }
    }
}

/// The first of the variables `vs[..i]` whose value reference is `vr`.
pub open spec fn earlier_with_reference(vs: Seq<ModelVariable>, vr: u32, i: nat) -> Option<
    ModelVariable,
>
    decreases i,
{
    if i == 0 || i > vs.len() {
        None
    } else {
        match earlier_with_reference(vs, vr, (i - 1) as nat) {
            Some(v) => Some(v),
            None => if vs[i - 1].valueReference == vr {
                Some(vs[i - 1])
            } else {
                None
            },
        }
    }
}

/// The first of the variables `vs[..i]` that is independent.
pub open spec fn earlier_independent(vs: Seq<ModelVariable>, i: nat) -> Option<ModelVariable>
    decreases i,
{
    if i == 0 || i > vs.len() {
        None
    } else {
        match earlier_independent(vs, (i - 1) as nat) {
            Some(v) => Some(v),
            None => if vs[i - 1].causality == Causality::Independent {
                Some(vs[i - 1])
            } else {
                None
            },
        }
    }
}

/// The problem with the name of a variable, if any.
pub open spec fn name_problems(md: ModelDescription, v: ModelVariable) -> Seq<Problem> {
    if v.name@.len() == 0 {
        seq![problem_at(v.range, "Variable name cannot be empty."@)]
    } else if md.variableNamingConvention == VariableNamingConvention::Structured
        && check_structured_name(v.name@) is Err {
        seq![
            problem_at(
                v.range,
                "Variable name '"@ + v.name@
                    + "' does not conform to the structured naming convention: "@
                    + check_structured_name(v.name@)->Err_0,
            ),
        ]
    } else {
        seq![]
    }
}

/// The problems that a variable repeats the value reference or the name of an
/// earlier one.
pub open spec fn duplicate_problems(vs: Seq<ModelVariable>, i: nat) -> Seq<Problem> {
    (match earlier_with_reference(vs, vs[i as int].valueReference, i) {
        Some(d) => seq![
            Problem {
                ranges: seq![d.range, vs[i as int].range],
                message: "Duplicate value reference: "@ + decimal(
                    vs[i as int].valueReference as nat,
                ),
            },
        ],
        None => seq![],
    }) + match earlier_named(vs, vs[i as int].name@, i) {
        Some(d) => seq![
            Problem {
                ranges: seq![d.range, vs[i as int].range],
                message: "Duplicate variable name: '"@ + vs[i as int].name@ + "'"@,
            },
        ],
        None => seq![],
    }
}

/// Whether a variable needs a start value.
pub open spec fn needs_start(v: ModelVariable) -> bool {
    !(v.variableType is Clock) && (v.initial == Some(Initial::Exact) || v.initial == Some(
        Initial::Approx,
    ) || v.causality == Causality::Input)
}

/// The problems of a variable with its start value.
pub open spec fn start_problems(v: ModelVariable) -> Seq<Problem> {
    (if v.initial == Some(Initial::Calculated) && v.variableType.spec_has_start() {
        seq![problem_at(v.range, "The variable '{}' is calculated but provides a start value."@)]
    } else {
        seq![]
    }) + if needs_start(v) && !v.variableType.spec_has_start() {
        seq![problem_at(v.range, "Variable '"@ + v.name@ + "' has no start value."@)]
    } else {
        seq![]
    }
}

/// The problems with an independent variable.
pub open spec fn independent_problems(vs: Seq<ModelVariable>, i: nat) -> Seq<Problem> {
    let v = vs[i as int];
    if v.causality == Causality::Independent {
        (match earlier_independent(vs, i) {
            Some(d) => seq![
                Problem {
                    ranges: seq![d.range, v.range],
                    message: "There can only be one independent variable."@,
                },
            ],
            None => seq![],
        }) + (if !v.variableType.spec_is_float() {
            seq![
                problem_at(
                    v.range,
                    "The independent variable must be a Float32 or Float64 variable."@,
                ),
            ]
        } else {
            seq![]
        }) + (if v.variability != Variability::Continuous {
            seq![problem_at(v.range, "The independent variable must be continuous."@)]
        } else {
            seq![]
        }) + (if v.variableType.spec_has_start() {
            seq![problem_at(v.range, "The independent variable must not have a start value."@)]
        } else {
            seq![]
        })
    } else {
        seq![]
    }
}

/// The problem with the combination of causality, variability and initial.
pub open spec fn combination_problems(v: ModelVariable) -> Seq<Problem> {
    if !legal_combination(v.causality, v.variability, v.initial) {
        seq![
            problem_at(
                v.range,
                "Illegal combination of causality '"@ + v.causality.spec_debug_name()
                    + "', variability '"@ + v.variability.spec_debug_name() + "', and initial '"@
                    + initial_debug(v.initial) + "' for variable '"@ + v.name@ + "'."@,
            ),
        ]
    } else {
        seq![]
    }
}

/// The problems of the variable `vs[i]`, in the order in which they are checked.
pub open spec fn variable_problems(md: ModelDescription, i: nat) -> Seq<Problem> {
    let vs = md.modelVariables@;
    let v = vs[i as int];
    name_problems(md, v) + duplicate_problems(vs, i) + start_problems(v) + independent_problems(
        vs,
        i,
    ) + combination_problems(v)
}

/// The problems of the variables `[..n]`, in order.
pub open spec fn variables_problems(md: ModelDescription, n: nat) -> Seq<Problem>
    decreases n,
{
    if n == 0 {
        seq![]
    } else {
        variables_problems(md, (n - 1) as nat) + variable_problems(md, (n - 1) as nat)
    }
}

// ---------------------------------------------------------------------------
// The rules on the model structure
// ---------------------------------------------------------------------------
/// Whether `vr` is the value reference of a variable.
pub open spec fn is_value_reference(md: ModelDescription, vr: u32) -> bool {
    exists|k: int| 0 <= k < md.modelVariables@.len() && (#[trigger] md.modelVariables@[k]).valueReference == vr
}

/// The problems with the dependencies `ds[..n]` of an unknown.
pub open spec fn dependency_problems(md: ModelDescription, u: Unknown, ds: Seq<u32>, n: nat) -> Seq<
    Problem,
>
    decreases n,
{
    if n == 0 || n > ds.len() {
        seq![]
    } else {
        dependency_problems(md, u, ds, (n - 1) as nat) + if !is_value_reference(md, ds[n - 1]) {
            seq![
                problem_at(
                    u.range,
                    "Illegal value reference in dependencies: "@ + decimal(ds[n - 1] as nat),
                ),
            ]
        } else {
            seq![]
        }
    }
}

/// The problems of an unknown of the model structure.
pub open spec fn unknown_problems(md: ModelDescription, u: Unknown) -> Seq<Problem> {
    (if !is_value_reference(md, u.valueReference) {
        seq![
            problem_at(u.range, "Illegal value reference: "@ + decimal(u.valueReference as nat)),
        ]
    } else {
        seq![]
    }) + match u.dependencies {
        Some(ds) => dependency_problems(md, u, ds@, ds@.len()) + match u.dependenciesKind {
            Some(ks) => if ds@.len() != ks@.len() {
                seq![
                    problem_at(
                        u.range,
                        "The number of elements in dependenciesKind does not match the number of elements in dependencies."@,
                    ),
                ]
            } else {
                seq![]
            },
            None => seq![],
        },
        None => seq![],
    }
}

/// The problems of the unknowns `us[..n]`, in order.
pub open spec fn unknowns_problems(md: ModelDescription, us: Seq<Unknown>, n: nat) -> Seq<Problem>
    decreases n,
{
    if n == 0 || n > us.len() {
        seq![]
    } else {
        unknowns_problems(md, us, (n - 1) as nat) + unknown_problems(md, us[n - 1])
    }
}

/// All problems of a model description, in the order in which they are checked:
/// the variables, then the outputs, the derivatives and the initial unknowns.
pub open spec fn model_problems(md: ModelDescription) -> Seq<Problem> {
    variables_problems(md, md.modelVariables@.len()) + unknowns_problems(
        md,
        md.outputs@,
        md.outputs@.len(),
    ) + unknowns_problems(md, md.derivatives@, md.derivatives@.len()) + unknowns_problems(
        md,
        md.initialUnknowns@,
        md.initialUnknowns@.len(),
    )
}

/// The names of the variables hold no NUL character where they are checked against
/// the structured naming convention.
pub open spec fn names_checkable(md: ModelDescription) -> bool {
    md.variableNamingConvention == VariableNamingConvention::Structured ==> forall|k: int|
        0 <= k < md.modelVariables@.len() ==> !(#[trigger] md.modelVariables@[k]).name@.contains(
            '\0',
        )
}

// ---------------------------------------------------------------------------
// What a valid model description is
// ---------------------------------------------------------------------------
/// The rules that a single variable must follow.
pub open spec fn variable_is_valid(md: ModelDescription, v: ModelVariable) -> bool {
    &&& v.name@.len() > 0
    &&& md.variableNamingConvention == VariableNamingConvention::Structured ==> is_structured_name(
        v.name@,
    )
    &&& v.initial == Some(Initial::Calculated) ==> !v.variableType.spec_has_start()
    &&& needs_start(v) ==> v.variableType.spec_has_start()
    &&& v.causality == Causality::Independent ==> v.variableType.spec_is_float() && v.variability
        == Variability::Continuous && !v.variableType.spec_has_start()
    &&& legal_combination(v.causality, v.variability, v.initial)
}

/// The rules that an unknown of the model structure must follow.
pub open spec fn unknown_is_valid(md: ModelDescription, u: Unknown) -> bool {
    &&& is_value_reference(md, u.valueReference)
    &&& u.dependencies matches Some(ds) ==> {
        &&& forall|k: int| 0 <= k < ds@.len() ==> is_value_reference(md, #[trigger] ds@[k])
        &&& u.dependenciesKind matches Some(ks) ==> ks@.len() == ds@.len()
    }
}

/// A model description that follows the rules of the standard: every variable
/// follows the rules, no two variables share a value reference or a name, at most
/// one variable is independent, and every unknown follows the rules.
pub open spec fn is_valid_model(md: ModelDescription) -> bool {
    let vs = md.modelVariables@;
    &&& forall|i: int| 0 <= i < vs.len() ==> variable_is_valid(md, #[trigger] vs[i])
    &&& forall|i: int, j: int|
        0 <= i < j < vs.len() ==> (#[trigger] vs[i]).valueReference != (
        #[trigger] vs[j]).valueReference
    &&& forall|i: int, j: int|
        0 <= i < j < vs.len() ==> (#[trigger] vs[i]).name@ != (#[trigger] vs[j]).name@
    &&& forall|i: int, j: int|
        0 <= i < j < vs.len() ==> !((#[trigger] vs[i]).causality == Causality::Independent && (
        #[trigger] vs[j]).causality == Causality::Independent)
    &&& forall|k: int| 0 <= k < md.outputs@.len() ==> unknown_is_valid(md, #[trigger] md.outputs@[k])
    &&& forall|k: int|
        0 <= k < md.derivatives@.len() ==> unknown_is_valid(md, #[trigger] md.derivatives@[k])
    &&& forall|k: int|
        0 <= k < md.initialUnknowns@.len() ==> unknown_is_valid(
            md,
            #[trigger] md.initialUnknowns@[k],
        )
}

proof fn lemma_earlier_named_none(vs: Seq<ModelVariable>, name: Seq<char>, i: nat)
    requires
        i <= vs.len(),
    ensures
        earlier_named(vs, name, i) is None <==> forall|j: int| 0 <= j < i ==> (#[trigger] vs[j]).name@
            != name,
    decreases i,
{
    if i > 0 {
        lemma_earlier_named_none(vs, name, (i - 1) as nat);
    }
}

proof fn lemma_earlier_with_reference_none(vs: Seq<ModelVariable>, vr: u32, i: nat)
    requires
        i <= vs.len(),
    ensures
        earlier_with_reference(vs, vr, i) is None <==> forall|j: int|
            0 <= j < i ==> (#[trigger] vs[j]).valueReference != vr,
    decreases i,
{
    if i > 0 {
        lemma_earlier_with_reference_none(vs, vr, (i - 1) as nat);
    }
}

proof fn lemma_earlier_independent_none(vs: Seq<ModelVariable>, i: nat)
    requires
        i <= vs.len(),
    ensures
        earlier_independent(vs, i) is None <==> forall|j: int| 0 <= j < i ==> (
        #[trigger] vs[j]).causality != Causality::Independent,
    decreases i,
{
    if i > 0 {
        lemma_earlier_independent_none(vs, (i - 1) as nat);
    }
}

proof fn lemma_variable_problems(md: ModelDescription, i: nat)
    requires
        i < md.modelVariables@.len(),
    ensures
        variable_problems(md, i).len() == 0 <==> {
            let vs = md.modelVariables@;
            &&& variable_is_valid(md, vs[i as int])
            &&& forall|j: int|
                0 <= j < i ==> (#[trigger] vs[j]).valueReference != vs[i as int].valueReference
            &&& forall|j: int| 0 <= j < i ==> (#[trigger] vs[j]).name@ != vs[i as int].name@
            &&& vs[i as int].causality == Causality::Independent ==> forall|j: int|
                0 <= j < i ==> (#[trigger] vs[j]).causality != Causality::Independent
        },
{
    let vs = md.modelVariables@;
    lemma_structured_name_grammar(vs[i as int].name@);
    lemma_earlier_named_none(vs, vs[i as int].name@, i);
    lemma_earlier_with_reference_none(vs, vs[i as int].valueReference, i);
    lemma_earlier_independent_none(vs, i);
}

proof fn lemma_variables_problems(md: ModelDescription, n: nat)
    requires
        n <= md.modelVariables@.len(),
    ensures
        variables_problems(md, n).len() == 0 <==> forall|i: int|
            0 <= i < n ==> (#[trigger] variable_problems(md, i as nat)).len() == 0,
    decreases n,
{
    if n > 0 {
        lemma_variables_problems(md, (n - 1) as nat);
    }
}

proof fn lemma_dependency_problems(md: ModelDescription, u: Unknown, ds: Seq<u32>, n: nat)
    requires
        n <= ds.len(),
    ensures
        dependency_problems(md, u, ds, n).len() == 0 <==> forall|k: int|
            0 <= k < n ==> is_value_reference(md, #[trigger] ds[k]),
    decreases n,
{
    if n > 0 {
        lemma_dependency_problems(md, u, ds, (n - 1) as nat);
    }
}

proof fn lemma_unknown_problems(md: ModelDescription, u: Unknown)
    ensures
        unknown_problems(md, u).len() == 0 <==> unknown_is_valid(md, u),
{
    match u.dependencies {
        Some(ds) => lemma_dependency_problems(md, u, ds@, ds@.len()),
        None => {},
    }
}

proof fn lemma_unknowns_problems(md: ModelDescription, us: Seq<Unknown>, n: nat)
    requires
        n <= us.len(),
    ensures
        unknowns_problems(md, us, n).len() == 0 <==> forall|k: int|
            0 <= k < n ==> unknown_is_valid(md, #[trigger] us[k]),
    decreases n,
{
    if n > 0 {
        lemma_unknowns_problems(md, us, (n - 1) as nat);
        lemma_unknown_problems(md, us[n - 1]);
    }
}

/// Validation finds no problem in a model description exactly when it follows the
/// rules of the standard (`is_valid_model`).
pub proof fn lemma_no_problems_iff_valid(md: ModelDescription)
    ensures
        model_problems(md).len() == 0 <==> is_valid_model(md),
{
    let vs = md.modelVariables@;
    lemma_variables_problems(md, vs.len());
    lemma_unknowns_problems(md, md.outputs@, md.outputs@.len());
    lemma_unknowns_problems(md, md.derivatives@, md.derivatives@.len());
    lemma_unknowns_problems(md, md.initialUnknowns@, md.initialUnknowns@.len());
    assert forall|i: int| 0 <= i < vs.len() implies (#[trigger] variable_problems(md, i as nat)).len()
        == 0 <==> {
        &&& variable_is_valid(md, vs[i])
        &&& forall|j: int| 0 <= j < i ==> (#[trigger] vs[j]).valueReference != vs[i].valueReference
        &&& forall|j: int| 0 <= j < i ==> (#[trigger] vs[j]).name@ != vs[i].name@
        &&& vs[i].causality == Causality::Independent ==> forall|j: int|
            0 <= j < i ==> (#[trigger] vs[j]).causality != Causality::Independent
    } by {
        lemma_variable_problems(md, i as nat);
    }
    if is_valid_model(md) {
        assert forall|i: int| 0 <= i < vs.len() implies (#[trigger] variable_problems(
            md,
            i as nat,
        )).len() == 0 by {
            assert(variable_is_valid(md, vs[i]));
            assert forall|j: int| 0 <= j < i implies (#[trigger] vs[j]).name@ != vs[i].name@ by {
                assert(vs[j].name@ != vs[i].name@);
            }
            assert forall|j: int| 0 <= j < i implies (#[trigger] vs[j]).valueReference
                != vs[i].valueReference by {
                assert(vs[j].valueReference != vs[i].valueReference);
            }
        }
    }
    if model_problems(md).len() == 0 {
        assert forall|i: int, j: int| 0 <= i < j < vs.len() implies (#[trigger] vs[i]).name@ != (
        #[trigger] vs[j]).name@ by {
            assert(variable_problems(md, j as nat).len() == 0);
        }
        assert forall|i: int, j: int| 0 <= i < j < vs.len() implies (
        #[trigger] vs[i]).valueReference != (#[trigger] vs[j]).valueReference by {
            assert(variable_problems(md, j as nat).len() == 0);
        }
        assert forall|i: int, j: int| 0 <= i < j < vs.len() implies !((
        #[trigger] vs[i]).causality == Causality::Independent && (#[trigger] vs[j]).causality
            == Causality::Independent) by {
            assert(variable_problems(md, j as nat).len() == 0);
        }
        assert forall|i: int| 0 <= i < vs.len() implies variable_is_valid(md, #[trigger] vs[i]) by {
            assert(variable_problems(md, i as nat).len() == 0);
        }
    }
}

// ---------------------------------------------------------------------------
// Executable checks
// ---------------------------------------------------------------------------
fn error_at(range: &Range<usize>, message: String) -> (res: ValidationError)
    ensures
        res.view_problem() == problem_at(*range, message@),
{
    let r = range.start..range.end;
    let v = vec![r];
    proof {
        assert(v@ =~= seq![*range]);
    }
    ValidationError { range: v, message }
}

fn error_at_both(first: &Range<usize>, second: &Range<usize>, message: String) -> (res:
    ValidationError)
    ensures
        res.view_problem() == (Problem { ranges: seq![*first, *second], message: message@ }),
{
    let v = vec![first.start..first.end, second.start..second.end];
    proof {
        assert(v@ =~= seq![*first, *second]);
    }
    ValidationError { range: v, message }
}

fn initial_debug_string(i: Option<Initial>) -> (res: String)
    ensures
        res@ == initial_debug(i),
{
    match i {
        Some(x) => {
            let mut m = owned("Some(");
            let n = x.debug_name();
            push_str(&mut m, n.as_str());
            push_str(&mut m, ")");
            m
        },
        None => owned("None"),
    }
}

fn is_legal_combination(c: Causality, v: Variability, i: Option<Initial>) -> (res: bool)
    ensures
        res == legal_combination(c, v, i),
{
    match (c, v, i) {
        (Causality::StructuralParameter, Variability::Fixed, Some(Initial::Exact)) => true,
        (Causality::StructuralParameter, Variability::Tunable, Some(Initial::Exact)) => true,
        (Causality::Parameter, Variability::Fixed, Some(Initial::Exact)) => true,
        (Causality::Parameter, Variability::Tunable, Some(Initial::Exact)) => true,
        (Causality::CalculatedParameter, Variability::Fixed, Some(Initial::Calculated)) => true,
        (Causality::CalculatedParameter, Variability::Fixed, Some(Initial::Approx)) => true,
        (Causality::CalculatedParameter, Variability::Tunable, Some(Initial::Calculated)) => true,
        (Causality::CalculatedParameter, Variability::Tunable, Some(Initial::Approx)) => true,
        (Causality::Input, Variability::Discrete, Some(Initial::Exact)) => true,
        (Causality::Input, Variability::Continuous, Some(Initial::Exact)) => true,
        (Causality::Output, Variability::Constant, Some(Initial::Exact)) => true,
        (Causality::Output, Variability::Discrete, Some(Initial::Calculated)) => true,
        (Causality::Output, Variability::Discrete, Some(Initial::Exact)) => true,
        (Causality::Output, Variability::Discrete, Some(Initial::Approx)) => true,
        (Causality::Output, Variability::Continuous, Some(Initial::Calculated)) => true,
        (Causality::Output, Variability::Continuous, Some(Initial::Exact)) => true,
        (Causality::Output, Variability::Continuous, Some(Initial::Approx)) => true,
        (Causality::Local, Variability::Constant, Some(Initial::Exact)) => true,
        (Causality::Local, Variability::Fixed, Some(Initial::Calculated)) => true,
        (Causality::Local, Variability::Fixed, Some(Initial::Approx)) => true,
        (Causality::Local, Variability::Tunable, Some(Initial::Calculated)) => true,
        (Causality::Local, Variability::Tunable, Some(Initial::Approx)) => true,
        (Causality::Local, Variability::Discrete, Some(Initial::Calculated)) => true,
        (Causality::Local, Variability::Discrete, Some(Initial::Exact)) => true,
        (Causality::Local, Variability::Discrete, Some(Initial::Approx)) => true,
        (Causality::Local, Variability::Continuous, Some(Initial::Calculated)) => true,
        (Causality::Local, Variability::Continuous, Some(Initial::Exact)) => true,
        (Causality::Local, Variability::Continuous, Some(Initial::Approx)) => true,
        (Causality::Independent, Variability::Continuous, None) => true,
        _ => false,
    }
}

fn find_earlier_named(vs: &Vec<ModelVariable>, i: usize) -> (res: Option<usize>)
    requires
        i < vs@.len(),
    ensures
        match res {
            Some(j) => j < i && earlier_named(vs@, vs@[i as int].name@, i as nat) == Some(
                vs@[j as int],
            ),
            None => earlier_named(vs@, vs@[i as int].name@, i as nat) is None,
        },
{
    let mut j: usize = 0;
    while j < i
        invariant
            j <= i < vs@.len(),
            earlier_named(vs@, vs@[i as int].name@, j as nat) is None,
        decreases i - j,
    {
        if vs[j].name == vs[i].name {
            proof {
                lemma_earlier_named_prefix(vs@, vs@[i as int].name@, (j + 1) as nat, i as nat);
            }
            return Some(j);
        }
        j = j + 1;
    }
    None
}

fn find_earlier_independent(vs: &Vec<ModelVariable>, i: usize) -> (res: Option<usize>)
    requires
        i < vs@.len(),
    ensures
        match res {
            Some(j) => j < i && earlier_independent(vs@, i as nat) == Some(vs@[j as int]),
            None => earlier_independent(vs@, i as nat) is None,
        },
{
    let mut j: usize = 0;
    while j < i
        invariant
            j <= i < vs@.len(),
            earlier_independent(vs@, j as nat) is None,
        decreases i - j,
    {
        if vs[j].causality == Causality::Independent {
            proof {
                lemma_earlier_independent_prefix(vs@, (j + 1) as nat, i as nat);
            }
            return Some(j);
        }
        j = j + 1;
    }
    None
}

proof fn lemma_earlier_named_prefix(vs: Seq<ModelVariable>, name: Seq<char>, j: nat, i: nat)
    requires
        j <= i <= vs.len(),
        earlier_named(vs, name, j) is Some,
    ensures
        earlier_named(vs, name, i) == earlier_named(vs, name, j),
    decreases i - j,
{
    if j < i {
        lemma_earlier_named_prefix(vs, name, j, (i - 1) as nat);
    }
}

proof fn lemma_earlier_independent_prefix(vs: Seq<ModelVariable>, j: nat, i: nat)
    requires
        j <= i <= vs.len(),
        earlier_independent(vs, j) is Some,
    ensures
        earlier_independent(vs, i) == earlier_independent(vs, j),
    decreases i - j,
{
    if j < i {
        lemma_earlier_independent_prefix(vs, j, (i - 1) as nat);
    }
}

fn find_earlier_with_reference(vs: &Vec<ModelVariable>, i: usize) -> (res: Option<usize>)
    requires
        i < vs@.len(),
    ensures
        match res {
            Some(j) => j < i && earlier_with_reference(vs@, vs@[i as int].valueReference, i as nat)
                == Some(vs@[j as int]),
            None => earlier_with_reference(vs@, vs@[i as int].valueReference, i as nat) is None,
        },
{
    let mut j: usize = 0;
    while j < i
        invariant
            j <= i < vs@.len(),
            earlier_with_reference(vs@, vs@[i as int].valueReference, j as nat) is None,
        decreases i - j,
    {
        if vs[j].valueReference == vs[i].valueReference {
            proof {
                lemma_earlier_with_reference_prefix(
                    vs@,
                    vs@[i as int].valueReference,
                    (j + 1) as nat,
                    i as nat,
                );
            }
            return Some(j);
        }
        j = j + 1;
    }
    None
}

proof fn lemma_earlier_with_reference_prefix(vs: Seq<ModelVariable>, vr: u32, j: nat, i: nat)
    requires
        j <= i <= vs.len(),
        earlier_with_reference(vs, vr, j) is Some,
    ensures
        earlier_with_reference(vs, vr, i) == earlier_with_reference(vs, vr, j),
    decreases i - j,
{
    if j < i {
        lemma_earlier_with_reference_prefix(vs, vr, j, (i - 1) as nat);
    }
}

fn check_duplicates(vs: &Vec<ModelVariable>, i: usize) -> (res: Vec<ValidationError>)
    requires
        i < vs@.len(),
    ensures
        problems_of(res@) == duplicate_problems(vs@, i as nat),
{
    let mut out: Vec<ValidationError> = Vec::new();
    match find_earlier_with_reference(vs, i) {
        Some(j) => {
            let mut m = owned("Duplicate value reference: ");
            let d = u64_to_decimal(vs[i].valueReference as u64);
            push_str(&mut m, d.as_str());
            out.push(error_at_both(&vs[j].range, &vs[i].range, m));
        },
        None => {},
    }
    let ghost first = problems_of(out@);
    match find_earlier_named(vs, i) {
        Some(j) => {
            let mut m = owned("Duplicate variable name: '");
            push_str(&mut m, vs[i].name.as_str());
            push_str(&mut m, "'");
            out.push(error_at_both(&vs[j].range, &vs[i].range, m));
        },
        None => {},
    }
    proof {
        assert(problems_of(out@) =~= duplicate_problems(vs@, i as nat));
    }
    out
}

fn check_start(v: &ModelVariable) -> (res: Vec<ValidationError>)
    ensures
        problems_of(res@) == start_problems(*v),
{
    let mut out: Vec<ValidationError> = Vec::new();
    let calculated = match v.initial {
        Some(Initial::Calculated) => true,
        _ => false,
    };
    if calculated && v.variableType.has_start() {
        out.push(
            error_at(&v.range, owned("The variable '{}' is calculated but provides a start value.")),
        );
    }
    let ghost first = problems_of(out@);
    let is_clock = match &v.variableType {
        VariableType::Clock { .. } => true,
        _ => false,
    };
    if !is_clock {
        let exact_or_approx = match v.initial {
            Some(Initial::Exact) => true,
            Some(Initial::Approx) => true,
            _ => false,
        };
        if (exact_or_approx || v.causality == Causality::Input) && !v.variableType.has_start() {
            let mut m = owned("Variable '");
            push_str(&mut m, v.name.as_str());
            push_str(&mut m, "' has no start value.");
            out.push(error_at(&v.range, m));
        }
    }
    proof {
        assert(problems_of(out@) =~= start_problems(*v));
    }
    out
}

fn check_independent(vs: &Vec<ModelVariable>, i: usize) -> (res: Vec<ValidationError>)
    requires
        i < vs@.len(),
    ensures
        problems_of(res@) == independent_problems(vs@, i as nat),
{
    let v = &vs[i];
    let mut out: Vec<ValidationError> = Vec::new();
    if v.causality == Causality::Independent {
        match find_earlier_independent(vs, i) {
            Some(j) => {
                out.push(
                    error_at_both(
                        &vs[j].range,
                        &v.range,
                        owned("There can only be one independent variable."),
                    ),
                );
            },
            None => {},
        }
        let ghost first = problems_of(out@);
        match &v.variableType {
            VariableType::Float32 { .. } => {},
            VariableType::Float64 { .. } => {},
            _ => {
                out.push(
                    error_at(
                        &v.range,
                        owned("The independent variable must be a Float32 or Float64 variable."),
                    ),
                );
            },
        }
        let ghost second = problems_of(out@);
        if v.variability != Variability::Continuous {
            out.push(error_at(&v.range, owned("The independent variable must be continuous.")));
        }
        let ghost third = problems_of(out@);
        if v.variableType.has_start() {
            out.push(
                error_at(&v.range, owned("The independent variable must not have a start value.")),
            );
        }
        proof {
            assert(problems_of(out@) =~= independent_problems(vs@, i as nat));
        }
    } else {
        proof {
            assert(problems_of(out@) =~= independent_problems(vs@, i as nat));
        }
    }
    out
}

fn check_combination(v: &ModelVariable) -> (res: Vec<ValidationError>)
    ensures
        problems_of(res@) == combination_problems(*v),
{
    let mut out: Vec<ValidationError> = Vec::new();
    if !is_legal_combination(v.causality, v.variability, v.initial) {
        let mut m = owned("Illegal combination of causality '");
        let c = v.causality.debug_name();
        let va = v.variability.debug_name();
        let ini = initial_debug_string(v.initial);
        push_str(&mut m, c.as_str());
        push_str(&mut m, "', variability '");
        push_str(&mut m, va.as_str());
        push_str(&mut m, "', and initial '");
        push_str(&mut m, ini.as_str());
        push_str(&mut m, "' for variable '");
        push_str(&mut m, v.name.as_str());
        push_str(&mut m, "'.");
        out.push(error_at(&v.range, m));
    }
    proof {
        assert(problems_of(out@) =~= combination_problems(*v));
    }
    out
}

impl ModelDescription {
    fn check_name(&self, v: &ModelVariable) -> (res: Vec<ValidationError>)
        requires
            self.variableNamingConvention == VariableNamingConvention::Structured ==> !v.name@.contains(
                '\0',
            ),
        ensures
            problems_of(res@) == name_problems(*self, *v),
    {
        let mut out: Vec<ValidationError> = Vec::new();
        if v.name.as_str().unicode_len() == 0 {
            out.push(error_at(&v.range, owned("Variable name cannot be empty.")));
        } else if self.variableNamingConvention == VariableNamingConvention::Structured {
            match validate_structured_variable_name(v.name.as_str()) {
                Err(message) => {
                    let mut m = owned("Variable name '");
                    push_str(&mut m, v.name.as_str());
                    push_str(&mut m, "' does not conform to the structured naming convention: ");
                    push_str(&mut m, message.as_str());
                    out.push(error_at(&v.range, m));
                },
                Ok(_) => {},
            }
        }
        proof {
            assert(problems_of(out@) =~= name_problems(*self, *v));
        }
        out
    }

    fn check_variable(&self, i: usize) -> (res: Vec<ValidationError>)
        requires
            i < self.modelVariables@.len(),
            names_checkable(*self),
        ensures
            problems_of(res@) == variable_problems(*self, i as nat),
    {
        let v = &self.modelVariables[i];
        let mut out = self.check_name(v);
        append_errors(&mut out, check_duplicates(&self.modelVariables, i));
        append_errors(&mut out, check_start(v));
        append_errors(&mut out, check_independent(&self.modelVariables, i));
        append_errors(&mut out, check_combination(v));
        out
    }

    /// Whether `vr` is the value reference of a variable.
    fn is_valid_value_reference(&self, vr: fmiValueReference) -> (res: bool)
        ensures
            res == is_value_reference(*self, vr),
    {
        let mut i: usize = 0;
        while i < self.modelVariables.len()
            invariant
                i <= self.modelVariables@.len(),
                forall|k: int| 0 <= k < i ==> (#[trigger] self.modelVariables@[k]).valueReference != vr,
            decreases self.modelVariables.len() - i,
        {
            if self.modelVariables[i].valueReference == vr {
                return true;
            }
            i = i + 1;
        }
        false
    }

    /// The problems of an unknown: its value reference, the value references of its
    /// dependencies, and whether its dependency kinds match its dependencies in
    /// number.
    fn validate_unknown(&self, u: &Unknown) -> (res: Vec<ValidationError>)
        ensures
            problems_of(res@) == unknown_problems(*self, *u),
    {
        let mut out: Vec<ValidationError> = Vec::new();
        if !self.is_valid_value_reference(u.valueReference) {
            let mut m = owned("Illegal value reference: ");
            let d = u64_to_decimal(u.valueReference as u64);
            push_str(&mut m, d.as_str());
            out.push(error_at(&u.range, m));
        }
        let ghost head = problems_of(out@);
        proof {
            assert(head =~= (if !is_value_reference(*self, u.valueReference) {
                seq![
                    problem_at(
                        u.range,
                        "Illegal value reference: "@ + decimal(u.valueReference as nat),
                    ),
                ]
            } else {
                seq![]
            }));
        }
        match &u.dependencies {
            Some(ds) => {
                let mut k: usize = 0;
                while k < ds.len()
                    invariant
                        k <= ds@.len(),
                        problems_of(out@) == head + dependency_problems(*self, *u, ds@, k as nat),
                    decreases ds.len() - k,
                {
                    let ghost before = problems_of(out@);
                    if !self.is_valid_value_reference(ds[k]) {
                        let mut m = owned("Illegal value reference in dependencies: ");
                        let d = u64_to_decimal(ds[k] as u64);
                        push_str(&mut m, d.as_str());
                        out.push(error_at(&u.range, m));
                    }
                    proof {
                        assert(problems_of(out@) =~= before + (if !is_value_reference(
                            *self,
                            ds@[k as int],
                        ) {
                            seq![
                                problem_at(
                                    u.range,
                                    "Illegal value reference in dependencies: "@ + decimal(
                                        ds@[k as int] as nat,
                                    ),
                                ),
                            ]
                        } else {
                            seq![]
                        }));
                    }
                    k = k + 1;
                }
                let ghost before = problems_of(out@);
                match &u.dependenciesKind {
                    Some(ks) => {
                        if ds.len() != ks.len() {
                            out.push(
                                error_at(
                                    &u.range,
                                    owned(
                                        "The number of elements in dependenciesKind does not match the number of elements in dependencies.",
                                    ),
                                ),
                            );
                        }
                    },
                    None => {},
                }
                proof {
                    let kinds = match &u.dependenciesKind {
                        Some(ks) => if ds@.len() != ks@.len() {
                            seq![
                                problem_at(
                                    u.range,
                                    "The number of elements in dependenciesKind does not match the number of elements in dependencies."@,
                                ),
                            ]
                        } else {
                            seq![]
                        },
                        None => seq![],
                    };
                    assert(problems_of(out@) =~= before + kinds);
                    assert(before + kinds =~= unknown_problems(*self, *u));
                }
            },
            None => {
                proof {
                    assert(problems_of(out@) =~= unknown_problems(*self, *u));
                }
            },
        }
        out
    }

    /// The problems of the unknowns `us`, in order.
    fn validate_unknowns(&self, us: &Vec<Unknown>) -> (res: Vec<ValidationError>)
        ensures
            problems_of(res@) == unknowns_problems(*self, us@, us@.len()),
    {
        let mut out: Vec<ValidationError> = Vec::new();
        let mut k: usize = 0;
        while k < us.len()
            invariant
                k <= us@.len(),
                problems_of(out@) == unknowns_problems(*self, us@, k as nat),
            decreases us.len() - k,
        {
            append_errors(&mut out, self.validate_unknown(&us[k]));
            k = k + 1;
        }
        out
    }

    /// Checks if the model description is valid according to the FMI 3.0
    /// specification. Returns the problems found, in the order in which they are
    /// checked; where there are none, the model description is valid.
    pub fn validate(&self) -> (res: Vec<ValidationError>)
        requires
            names_checkable(*self),
        ensures
            problems_of(res@) == model_problems(*self),
            res@.len() == 0 <==> is_valid_model(*self),
    {
        proof {
            lemma_no_problems_iff_valid(*self);
        }
        let mut out: Vec<ValidationError> = Vec::new();
        let mut i: usize = 0;
        while i < self.modelVariables.len()
            invariant
                i <= self.modelVariables@.len(),
                names_checkable(*self),
                problems_of(out@) == variables_problems(*self, i as nat),
            decreases self.modelVariables.len() - i,
        {
            append_errors(&mut out, self.check_variable(i));
            i = i + 1;
        }
        append_errors(&mut out, self.validate_unknowns(&self.outputs));
        append_errors(&mut out, self.validate_unknowns(&self.derivatives));
        append_errors(&mut out, self.validate_unknowns(&self.initialUnknowns));
        out
    }
}

} // verus!
