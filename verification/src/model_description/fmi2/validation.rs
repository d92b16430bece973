//! Validation of an FMI 2.0 model description against the rules of the standard.
#![allow(non_snake_case)]

use std::ops::Range;
use vstd::prelude::*;

use crate::model_description::fmi2::{
    Causality, Initial, ModelDescription, ScalarVariable, Unknown, Variability,
    VariableNamingConvention, VariableType,
};
use crate::model_description::validation::{
    check_structured_name, validate_structured_variable_name,
};
use crate::model_description::validation::grammar::{
    is_structured_name, lemma_structured_name_grammar,
};
use crate::model_description::{
    append_errors, problem_at, problems_of, Problem, ValidationError,
};
use crate::model_description::fmi2::file::{
    default_initial, lemma_default_initial, lemma_read_default_initial, spec_scalar_variable,
};
use crate::text::{decimal, owned, push_str, u64_to_decimal};
use crate::xml::XmlElement;

verus! {

// ---------------------------------------------------------------------------
// The rules, one variable at a time
// ---------------------------------------------------------------------------
/// The combinations of causality, variability and initial that the standard allows.
pub open spec fn legal_combination(c: Causality, v: Variability, i: Option<Initial>) -> bool {
    match (c, v, i) {
        (Causality::Parameter, Variability::Fixed, Some(Initial::Exact)) => true,
        (Causality::Parameter, Variability::Tunable, Some(Initial::Exact)) => true,
        (Causality::CalculatedParameter, Variability::Fixed, Some(Initial::Calculated)) => true,
        (Causality::CalculatedParameter, Variability::Fixed, Some(Initial::Approx)) => true,
        (Causality::CalculatedParameter, Variability::Tunable, Some(Initial::Calculated)) => true,
        (Causality::CalculatedParameter, Variability::Tunable, Some(Initial::Approx)) => true,
        (Causality::Input, Variability::Discrete, Some(Initial::Exact)) => true,
        (Causality::Input, Variability::Continuous, Some(Initial::Exact)) => true,
        (Causality::Output, Variability::Constant, Some(Initial::Exact)) => true,
        (Causality::Output, Variability::Discrete, Some(Initial::Calculated)) => true,
        (Causality::Output, Variability::Discrete, Some(Initial::Exact)) => true,
        (Causality::Output, Variability::Discrete, Some(Initial::Approx)) => true,
        (Causality::Output, Variability::Continuous, Some(Initial::Calculated)) => true,
        (Causality::Output, Variability::Continuous, Some(Initial::Exact)) => true,
        (Causality::Output, Variability::Continuous, Some(Initial::Approx)) => true,
        (Causality::Local, Variability::Constant, Some(Initial::Exact)) => true,
        (Causality::Local, Variability::Fixed, Some(Initial::Calculated)) => true,
        (Causality::Local, Variability::Fixed, Some(Initial::Approx)) => true,
        (Causality::Local, Variability::Tunable, Some(Initial::Calculated)) => true,
        (Causality::Local, Variability::Tunable, Some(Initial::Approx)) => true,
        (Causality::Local, Variability::Discrete, Some(Initial::Calculated)) => true,
        (Causality::Local, Variability::Discrete, Some(Initial::Exact)) => true,
        (Causality::Local, Variability::Discrete, Some(Initial::Approx)) => true,
        (Causality::Local, Variability::Continuous, Some(Initial::Calculated)) => true,
        (Causality::Local, Variability::Continuous, Some(Initial::Exact)) => true,
        (Causality::Local, Variability::Continuous, Some(Initial::Approx)) => true,
        (Causality::Independent, Variability::Continuous, None) => true,
        _ => false,
    }
}

/// The combinations of causality, variability and initial that the standard
/// allows: parameters are fixed or tunable and exact; calculated parameters are
/// fixed or tunable and calculated or approximate; inputs are discrete or
/// continuous and exact; outputs and locals are exact constants, or discrete or
/// continuous with any initial; locals may also be fixed or tunable and calculated
/// or approximate; the independent variable is continuous and has no initial.
pub proof fn lemma_legal_combinations(c: Causality, v: Variability, i: Option<Initial>)
    ensures
        legal_combination(c, v, i) <==> match c {
            Causality::Parameter => (v == Variability::Fixed || v == Variability::Tunable) && i
                == Some(Initial::Exact),
            Causality::CalculatedParameter => (v == Variability::Fixed || v
                == Variability::Tunable) && (i == Some(Initial::Calculated) || i == Some(
                Initial::Approx,
            )),
            Causality::Input => (v == Variability::Discrete || v == Variability::Continuous) && i
                == Some(Initial::Exact),
            Causality::Output => (v == Variability::Constant && i == Some(Initial::Exact)) || ((v
                == Variability::Discrete || v == Variability::Continuous) && i is Some),
            Causality::Local => (v == Variability::Constant && i == Some(Initial::Exact)) || ((v
                == Variability::Fixed || v == Variability::Tunable) && (i == Some(
                Initial::Calculated,
            ) || i == Some(Initial::Approx))) || ((v == Variability::Discrete || v
                == Variability::Continuous) && i is Some),
            Causality::Independent => v == Variability::Continuous && i is None,
        },
{
}

/// A variable read without an `initial` attribute passes the check of its
/// combination of causality, variability and initial exactly when some initial
/// would make its causality and variability legal: the default the reader gives
/// is always a legal one.
pub proof fn lemma_read_initial_is_legal(n: XmlElement)
    requires
        spec_scalar_variable(n) is Ok,
        n.spec_attribute("initial"@) is None,
    ensures
        ({
            let v = spec_scalar_variable(n)->Ok_0;
            legal_combination(v.causality, v.variability, v.initial) <==> exists|i: Option<Initial>|
                legal_combination(v.causality, v.variability, i)
        }),
{
    let v = spec_scalar_variable(n)->Ok_0;
    lemma_read_default_initial(n);
    lemma_default_initial(v.variability, v.causality);
    lemma_legal_combinations(v.causality, v.variability, v.initial);
    if exists|i: Option<Initial>| legal_combination(v.causality, v.variability, i) {
        let i = choose|i: Option<Initial>| legal_combination(v.causality, v.variability, i);
        lemma_legal_combinations(v.causality, v.variability, i);
    }
}

/// An optional `initial` as `{:?}` writes it.
pub open spec fn initial_debug(i: Option<Initial>) -> Seq<char> {
    match i {
        Some(x) => "Some("@ + x.spec_debug_name() + ")"@,
        None => "None"@,
    }
}

/// The first of the variables `vs[..i]` whose name is `name`.
pub open spec fn earlier_named(vs: Seq<ScalarVariable>, name: Seq<char>, i: nat) -> Option<
    ScalarVariable,
>
    decreases i,
{
    if i == 0 || i > vs.len() {
        None
    } else {
        match earlier_named(vs, name, (i - 1) as nat) {
            Some(v) => Some(v),
            None => if vs[i - 1].name@ == name {
                Some(vs[i - 1])
            } else {
                None
            },
        }
    }
}

/// The first of the variables `vs[..i]` that is independent.
pub open spec fn earlier_independent(vs: Seq<ScalarVariable>, i: nat) -> Option<ScalarVariable>
    decreases i,
{
    if i == 0 || i > vs.len() {
        None
    } else {
        match earlier_independent(vs, (i - 1) as nat) {
            Some(v) => Some(v),
            None => if vs[i - 1].causality == Causality::Independent {
                Some(vs[i - 1])
            } else {
                None
            },
        }
    }
}

/// The problem with the name of a variable, if any.
pub open spec fn name_problems(md: ModelDescription, v: ScalarVariable) -> Seq<Problem> {
    if v.name@.len() == 0 {
        seq![problem_at(v.range, "Variable name cannot be empty."@)]
    } else if md.variableNamingConvention == VariableNamingConvention::Structured
        && check_structured_name(v.name@) is Err {
        seq![
            problem_at(
                v.range,
                "Variable name '"@ + v.name@
                    + "' does not conform to the structured naming convention: "@
                    + check_structured_name(v.name@)->Err_0,
            ),
        ]
    } else {
        seq![]
    }
}

/// The problem that a variable repeats the name of an earlier one.
pub open spec fn duplicate_problems(vs: Seq<ScalarVariable>, i: nat) -> Seq<Problem> {
    match earlier_named(vs, vs[i as int].name@, i) {
        Some(d) => seq![
            Problem {
                ranges: seq![d.range, vs[i as int].range],
                message: "Duplicate variable name: '"@ + vs[i as int].name@ + "'"@,
            },
        ],
        None => seq![],
    }
}

/// The problems with an independent variable.
pub open spec fn independent_problems(vs: Seq<ScalarVariable>, i: nat) -> Seq<Problem> {
    let v = vs[i as int];
    if v.causality == Causality::Independent {
        (match earlier_independent(vs, i) {
            Some(d) => seq![
                Problem {
                    ranges: seq![d.range, v.range],
                    message: "There can only be one independent variable."@,
                },
            ],
            None => seq![],
        }) + (if !(v.variableType is Real) {
            seq![problem_at(v.range, "The independent variable must be a Real variable."@)]
        } else {
            seq![]
        }) + (if v.variability != Variability::Continuous {
            seq![problem_at(v.range, "The independent variable must be continuous."@)]
        } else {
            seq![]
        }) + (if v.variableType.spec_has_start() {
            seq![problem_at(v.range, "The independent variable must not have a start value."@)]
        } else {
            seq![]
        })
    } else {
        seq![]
    }
}

/// Whether a variable needs a start value.
pub open spec fn needs_start(v: ScalarVariable) -> bool {
    v.initial == Some(Initial::Exact) || v.initial == Some(Initial::Approx) || v.causality
        == Causality::Input
}

/// The problems of a variable with its start value, its variability and the
/// combination of causality, variability and initial.
pub open spec fn attribute_problems(v: ScalarVariable) -> Seq<Problem> {
    (if needs_start(v) && !v.variableType.spec_has_start() {
        seq![problem_at(v.range, "Variable '"@ + v.name@ + "' has no start value."@)]
    } else {
        seq![]
    }) + (if !(v.variableType is Real) && v.variability == Variability::Continuous {
        seq![problem_at(v.range, "Only Real variables can be continuous."@)]
    } else {
        seq![]
    }) + (if !legal_combination(v.causality, v.variability, v.initial) {
        seq![
            problem_at(
                v.range,
                "Illegal combination of causality '"@ + v.causality.spec_debug_name()
                    + "', variability '"@ + v.variability.spec_debug_name() + "', and initial '"@
                    + initial_debug(v.initial) + "' for variable '"@ + v.name@ + "'."@,
            ),
        ]
    } else {
        seq![]
    })
}

/// The problems of the variable `vs[i]`, in the order in which they are checked.
pub open spec fn variable_problems(md: ModelDescription, i: nat) -> Seq<Problem> {
    let vs = md.modelVariables@;
    let v = vs[i as int];
    name_problems(md, v) + duplicate_problems(vs, i) + independent_problems(vs, i)
        + attribute_problems(v)
}

/// The problems of the variables `[..n]`, in order.
pub open spec fn variables_problems(md: ModelDescription, n: nat) -> Seq<Problem>
    decreases n,
{
    if n == 0 {
        seq![]
    } else {
        variables_problems(md, (n - 1) as nat) + variable_problems(md, (n - 1) as nat)
    }
}

// ---------------------------------------------------------------------------
// The rules on the model structure
// ---------------------------------------------------------------------------
/// Whether `index` is the 1-based index of a variable.
pub open spec fn is_variable_index(md: ModelDescription, index: u32) -> bool {
    0 < index <= md.modelVariables@.len()
}

/// The problems with the dependencies `ds[..n]` of an unknown.
pub open spec fn dependency_problems(md: ModelDescription, u: Unknown, ds: Seq<u32>, n: nat) -> Seq<
    Problem,
>
    decreases n,
{
    if n == 0 || n > ds.len() {
        seq![]
    } else {
        dependency_problems(md, u, ds, (n - 1) as nat) + if !is_variable_index(md, ds[n - 1]) {
            seq![
                problem_at(
                    u.range,
                    "Illegal variable index in dependencies: "@ + decimal(ds[n - 1] as nat),
                ),
            ]
        } else {
            seq![]
        }
    }
}

/// The problems of an unknown of the model structure.
pub open spec fn unknown_problems(md: ModelDescription, u: Unknown) -> Seq<Problem> {
    (if !is_variable_index(md, u.index) {
        seq![
            Problem {
                ranges: seq![],
                message: "Illegal variable index: "@ + decimal(u.index as nat),
            },
        ]
    } else {
        seq![]
    }) + match u.dependencies {
        Some(ds) => dependency_problems(md, u, ds@, ds@.len()) + match u.dependenciesKind {
            Some(ks) => if ds@.len() != ks@.len() {
                seq![
                    problem_at(
                        u.range,
                        "The number of elements in dependenciesKind does not match the number of elements in dependencies."@,
                    ),
                ]
            } else {
                seq![]
            },
            None => seq![],
        },
        None => seq![],
    }
}

/// The problems of the unknowns `us[..n]`, in order.
pub open spec fn unknowns_problems(md: ModelDescription, us: Seq<Unknown>, n: nat) -> Seq<Problem>
    decreases n,
{
    if n == 0 || n > us.len() {
        seq![]
    } else {
        unknowns_problems(md, us, (n - 1) as nat) + unknown_problems(md, us[n - 1])
    }
}

/// The variable with the 1-based index `index`, if there is one.
pub open spec fn variable_at(md: ModelDescription, index: u32) -> Option<ScalarVariable> {
    if is_variable_index(md, index) {
        Some(md.modelVariables@[index - 1])
    } else {
        None
    }
}

/// The problems of a derivative: it must be a Real variable whose `derivative`
/// attribute is the index of a Real variable.
pub open spec fn derivative_problems(md: ModelDescription, u: Unknown) -> Seq<Problem> {
    match variable_at(md, u.index) {
        None => seq![problem_at(u.range, "Illegal variable index: "@ + decimal(u.index as nat))],
        Some(dv) => match dv.variableType {
            VariableType::Real { derivative, .. } => match derivative {
                Some(d) => match variable_at(md, d) {
                    Some(sv) => if !(sv.variableType is Real) {
                        seq![
                            problem_at(
                                dv.range,
                                "The continuous state variable "@ + sv.name@
                                    + " referenced by the derivative "@ + dv.name@
                                    + " is not a Real variable"@,
                            ),
                        ]
                    } else {
                        seq![]
                    },
                    None => seq![
                        problem_at(
                            dv.range,
                            "Attribute derivative of variable "@ + dv.name@
                                + " is not a valid variable index"@,
                        ),
                    ],
                },
                None => seq![
                    problem_at(dv.range, "Variable "@ + dv.name@ + " is not a derivative"@),
                ],
            },
            _ => seq![problem_at(dv.range, "Variable "@ + dv.name@ + " is not a real variable"@)],
        },
    }
}

/// The derivative problems of the unknowns `us[..n]`, in order.
pub open spec fn derivatives_problems(md: ModelDescription, us: Seq<Unknown>, n: nat) -> Seq<
    Problem,
>
    decreases n,
{
    if n == 0 || n > us.len() {
        seq![]
    } else {
        derivatives_problems(md, us, (n - 1) as nat) + derivative_problems(md, us[n - 1])
    }
}

/// All problems of a model description, in the order in which they are checked:
/// the variables, the outputs, the derivatives as unknowns, the derivatives and
/// their states, then the initial unknowns.
pub open spec fn model_problems(md: ModelDescription) -> Seq<Problem> {
    variables_problems(md, md.modelVariables@.len()) + unknowns_problems(
        md,
        md.outputs@,
        md.outputs@.len(),
    ) + unknowns_problems(md, md.derivatives@, md.derivatives@.len()) + derivatives_problems(
        md,
        md.derivatives@,
        md.derivatives@.len(),
    ) + unknowns_problems(md, md.initialUnknowns@, md.initialUnknowns@.len())
}

/// The names of the variables hold no NUL character where they are checked against
/// the structured naming convention.
pub open spec fn names_checkable(md: ModelDescription) -> bool {
    md.variableNamingConvention == VariableNamingConvention::Structured ==> forall|k: int|
        0 <= k < md.modelVariables@.len() ==> !(#[trigger] md.modelVariables@[k]).name@.contains(
            '\0',
        )
}

// ---------------------------------------------------------------------------
// What a valid model description is
// ---------------------------------------------------------------------------
/// The rules that a single variable must follow.
pub open spec fn variable_is_valid(md: ModelDescription, v: ScalarVariable) -> bool {
    &&& v.name@.len() > 0
    &&& md.variableNamingConvention == VariableNamingConvention::Structured ==> is_structured_name(
        v.name@,
    )
    &&& v.causality == Causality::Independent ==> v.variableType is Real && v.variability
        == Variability::Continuous && !v.variableType.spec_has_start()
    &&& needs_start(v) ==> v.variableType.spec_has_start()
    &&& v.variability == Variability::Continuous ==> v.variableType is Real
    &&& legal_combination(v.causality, v.variability, v.initial)
}

/// The rules that an unknown of the model structure must follow.
pub open spec fn unknown_is_valid(md: ModelDescription, u: Unknown) -> bool {
    &&& is_variable_index(md, u.index)
    &&& u.dependencies matches Some(ds) ==> {
        &&& forall|k: int| 0 <= k < ds@.len() ==> is_variable_index(md, #[trigger] ds@[k])
        &&& u.dependenciesKind matches Some(ks) ==> ks@.len() == ds@.len()
    }
}

/// The rules that a derivative must follow: it is a Real variable whose
/// `derivative` attribute is the index of a Real variable.
pub open spec fn derivative_is_valid(md: ModelDescription, u: Unknown) -> bool {
    variable_at(md, u.index) matches Some(dv) && dv.variableType matches VariableType::Real {
        derivative: Some(d),
        ..
    } && variable_at(md, d) matches Some(sv) && sv.variableType is Real
}

/// A model description that follows the rules of the standard: every variable
/// follows the rules, no two variables share a name, at most one variable is
/// independent, and every unknown (and every derivative) follows the rules.
pub open spec fn is_valid_model(md: ModelDescription) -> bool {
    let vs = md.modelVariables@;
    &&& forall|i: int| 0 <= i < vs.len() ==> variable_is_valid(md, #[trigger] vs[i])
    &&& forall|i: int, j: int|
        0 <= i < j < vs.len() ==> (#[trigger] vs[i]).name@ != (#[trigger] vs[j]).name@
    &&& forall|i: int, j: int|
        0 <= i < j < vs.len() ==> !((#[trigger] vs[i]).causality == Causality::Independent && (
        #[trigger] vs[j]).causality == Causality::Independent)
    &&& forall|k: int| 0 <= k < md.outputs@.len() ==> unknown_is_valid(md, #[trigger] md.outputs@[k])
    &&& forall|k: int|
        0 <= k < md.derivatives@.len() ==> unknown_is_valid(md, #[trigger] md.derivatives@[k])
            && derivative_is_valid(md, md.derivatives@[k])
    &&& forall|k: int|
        0 <= k < md.initialUnknowns@.len() ==> unknown_is_valid(
            md,
            #[trigger] md.initialUnknowns@[k],
        )
}

proof fn lemma_earlier_named_none(vs: Seq<ScalarVariable>, name: Seq<char>, i: nat)
    requires
        i <= vs.len(),
    ensures
        earlier_named(vs, name, i) is None <==> forall|j: int| 0 <= j < i ==> (#[trigger] vs[j]).name@
            != name,
    decreases i,
{
    if i > 0 {
        lemma_earlier_named_none(vs, name, (i - 1) as nat);
    }
}

proof fn lemma_earlier_independent_none(vs: Seq<ScalarVariable>, i: nat)
    requires
        i <= vs.len(),
    ensures
        earlier_independent(vs, i) is None <==> forall|j: int| 0 <= j < i ==> (
        #[trigger] vs[j]).causality != Causality::Independent,
    decreases i,
{
    if i > 0 {
        lemma_earlier_independent_none(vs, (i - 1) as nat);
    }
}

proof fn lemma_variable_problems(md: ModelDescription, i: nat)
    requires
        i < md.modelVariables@.len(),
    ensures
        variable_problems(md, i).len() == 0 <==> {
            let vs = md.modelVariables@;
            &&& variable_is_valid(md, vs[i as int])
            &&& forall|j: int| 0 <= j < i ==> (#[trigger] vs[j]).name@ != vs[i as int].name@
            &&& vs[i as int].causality == Causality::Independent ==> forall|j: int|
                0 <= j < i ==> (#[trigger] vs[j]).causality != Causality::Independent
        },
{
    let vs = md.modelVariables@;
    lemma_structured_name_grammar(vs[i as int].name@);
    lemma_earlier_named_none(vs, vs[i as int].name@, i);
    lemma_earlier_independent_none(vs, i);
}

proof fn lemma_variables_problems(md: ModelDescription, n: nat)
    requires
        n <= md.modelVariables@.len(),
    ensures
        variables_problems(md, n).len() == 0 <==> forall|i: int|
            0 <= i < n ==> (#[trigger] variable_problems(md, i as nat)).len() == 0,
    decreases n,
{
    if n > 0 {
        lemma_variables_problems(md, (n - 1) as nat);
    }
}

proof fn lemma_dependency_problems(md: ModelDescription, u: Unknown, ds: Seq<u32>, n: nat)
    requires
        n <= ds.len(),
    ensures
        dependency_problems(md, u, ds, n).len() == 0 <==> forall|k: int|
            0 <= k < n ==> is_variable_index(md, #[trigger] ds[k]),
    decreases n,
{
    if n > 0 {
        lemma_dependency_problems(md, u, ds, (n - 1) as nat);
    }
}

proof fn lemma_unknown_problems(md: ModelDescription, u: Unknown)
    ensures
        unknown_problems(md, u).len() == 0 <==> unknown_is_valid(md, u),
{
    match u.dependencies {
        Some(ds) => lemma_dependency_problems(md, u, ds@, ds@.len()),
        None => {},
    }
}

proof fn lemma_unknowns_problems(md: ModelDescription, us: Seq<Unknown>, n: nat)
    requires
        n <= us.len(),
    ensures
        unknowns_problems(md, us, n).len() == 0 <==> forall|k: int|
            0 <= k < n ==> unknown_is_valid(md, #[trigger] us[k]),
    decreases n,
{
    if n > 0 {
        lemma_unknowns_problems(md, us, (n - 1) as nat);
        lemma_unknown_problems(md, us[n - 1]);
    }
}

proof fn lemma_derivatives_problems(md: ModelDescription, us: Seq<Unknown>, n: nat)
    requires
        n <= us.len(),
    ensures
        derivatives_problems(md, us, n).len() == 0 <==> forall|k: int|
            0 <= k < n ==> derivative_is_valid(md, #[trigger] us[k]),
    decreases n,
{
    if n > 0 {
        lemma_derivatives_problems(md, us, (n - 1) as nat);
    }
}

/// Validation finds no problem in a model description exactly when it follows the
/// rules of the standard (`is_valid_model`).
pub proof fn lemma_no_problems_iff_valid(md: ModelDescription)
    ensures
        model_problems(md).len() == 0 <==> is_valid_model(md),
{
    let vs = md.modelVariables@;
    lemma_variables_problems(md, vs.len());
    lemma_unknowns_problems(md, md.outputs@, md.outputs@.len());
    lemma_unknowns_problems(md, md.derivatives@, md.derivatives@.len());
    lemma_derivatives_problems(md, md.derivatives@, md.derivatives@.len());
    lemma_unknowns_problems(md, md.initialUnknowns@, md.initialUnknowns@.len());
    assert forall|i: int| 0 <= i < vs.len() implies (#[trigger] variable_problems(md, i as nat)).len()
        == 0 <==> {
        &&& variable_is_valid(md, vs[i])
        &&& forall|j: int| 0 <= j < i ==> (#[trigger] vs[j]).name@ != vs[i].name@
        &&& vs[i].causality == Causality::Independent ==> forall|j: int|
            0 <= j < i ==> (#[trigger] vs[j]).causality != Causality::Independent
    } by {
        lemma_variable_problems(md, i as nat);
    }
    if is_valid_model(md) {
        assert forall|i: int| 0 <= i < vs.len() implies (#[trigger] variable_problems(
            md,
            i as nat,
        )).len() == 0 by {
            assert(variable_is_valid(md, vs[i]));
            assert forall|j: int| 0 <= j < i implies (#[trigger] vs[j]).name@ != vs[i].name@ by {
                assert(vs[j].name@ != vs[i].name@);
            }
        }
    }
    if model_problems(md).len() == 0 {
        assert forall|i: int, j: int| 0 <= i < j < vs.len() implies (#[trigger] vs[i]).name@ != (
        #[trigger] vs[j]).name@ by {
            assert(variable_problems(md, j as nat).len() == 0);
        }
        assert forall|i: int, j: int| 0 <= i < j < vs.len() implies !((
        #[trigger] vs[i]).causality == Causality::Independent && (#[trigger] vs[j]).causality
            == Causality::Independent) by {
            assert(variable_problems(md, j as nat).len() == 0);
        }
        assert forall|i: int| 0 <= i < vs.len() implies variable_is_valid(md, #[trigger] vs[i]) by {
            assert(variable_problems(md, i as nat).len() == 0);
        }
    }
}

// ---------------------------------------------------------------------------
// Executable checks
// ---------------------------------------------------------------------------
fn error_at(range: &Range<usize>, message: String) -> (res: ValidationError)
    ensures
        res.view_problem() == problem_at(*range, message@),
{
    let r = range.start..range.end;
    let v = vec![r];
    proof {
        assert(v@ =~= seq![*range]);
    }
    ValidationError { range: v, message }
}

fn error_at_both(first: &Range<usize>, second: &Range<usize>, message: String) -> (res:
    ValidationError)
    ensures
        res.view_problem() == (Problem { ranges: seq![*first, *second], message: message@ }),
{
    let v = vec![first.start..first.end, second.start..second.end];
    proof {
        assert(v@ =~= seq![*first, *second]);
    }
    ValidationError { range: v, message }
}

fn initial_debug_string(i: Option<Initial>) -> (res: String)
    ensures
        res@ == initial_debug(i),
{
    match i {
        Some(x) => {
            let mut m = owned("Some(");
            let n = x.debug_name();
            push_str(&mut m, n.as_str());
            push_str(&mut m, ")");
            m
        },
        None => owned("None"),
    }
}

fn is_legal_combination(c: Causality, v: Variability, i: Option<Initial>) -> (res: bool)
    ensures
        res == legal_combination(c, v, i),
{
    match (c, v, i) {
        (Causality::Parameter, Variability::Fixed, Some(Initial::Exact)) => true,
        (Causality::Parameter, Variability::Tunable, Some(Initial::Exact)) => true,
        (Causality::CalculatedParameter, Variability::Fixed, Some(Initial::Calculated)) => true,
        (Causality::CalculatedParameter, Variability::Fixed, Some(Initial::Approx)) => true,
        (Causality::CalculatedParameter, Variability::Tunable, Some(Initial::Calculated)) => true,
        (Causality::CalculatedParameter, Variability::Tunable, Some(Initial::Approx)) => true,
        (Causality::Input, Variability::Discrete, Some(Initial::Exact)) => true,
        (Causality::Input, Variability::Continuous, Some(Initial::Exact)) => true,
        (Causality::Output, Variability::Constant, Some(Initial::Exact)) => true,
        (Causality::Output, Variability::Discrete, Some(Initial::Calculated)) => true,
        (Causality::Output, Variability::Discrete, Some(Initial::Exact)) => true,
        (Causality::Output, Variability::Discrete, Some(Initial::Approx)) => true,
        (Causality::Output, Variability::Continuous, Some(Initial::Calculated)) => true,
        (Causality::Output, Variability::Continuous, Some(Initial::Exact)) => true,
        (Causality::Output, Variability::Continuous, Some(Initial::Approx)) => true,
        (Causality::Local, Variability::Constant, Some(Initial::Exact)) => true,
        (Causality::Local, Variability::Fixed, Some(Initial::Calculated)) => true,
        (Causality::Local, Variability::Fixed, Some(Initial::Approx)) => true,
        (Causality::Local, Variability::Tunable, Some(Initial::Calculated)) => true,
        (Causality::Local, Variability::Tunable, Some(Initial::Approx)) => true,
        (Causality::Local, Variability::Discrete, Some(Initial::Calculated)) => true,
        (Causality::Local, Variability::Discrete, Some(Initial::Exact)) => true,
        (Causality::Local, Variability::Discrete, Some(Initial::Approx)) => true,
        (Causality::Local, Variability::Continuous, Some(Initial::Calculated)) => true,
        (Causality::Local, Variability::Continuous, Some(Initial::Exact)) => true,
        (Causality::Local, Variability::Continuous, Some(Initial::Approx)) => true,
        (Causality::Independent, Variability::Continuous, None) => true,
        _ => false,
    }
}

fn find_earlier_named(vs: &Vec<ScalarVariable>, i: usize) -> (res: Option<usize>)
    requires
        i < vs@.len(),
    ensures
        match res {
            Some(j) => j < i && earlier_named(vs@, vs@[i as int].name@, i as nat) == Some(
                vs@[j as int],
            ),
            None => earlier_named(vs@, vs@[i as int].name@, i as nat) is None,
        },
{
    let mut j: usize = 0;
    while j < i
        invariant
            j <= i < vs@.len(),
            earlier_named(vs@, vs@[i as int].name@, j as nat) is None,
        decreases i - j,
    {
        if vs[j].name == vs[i].name {
            proof {
                lemma_earlier_named_prefix(vs@, vs@[i as int].name@, (j + 1) as nat, i as nat);
            }
            return Some(j);
        }
        j = j + 1;
    }
    None
}

fn find_earlier_independent(vs: &Vec<ScalarVariable>, i: usize) -> (res: Option<usize>)
    requires
        i < vs@.len(),
    ensures
        match res {
            Some(j) => j < i && earlier_independent(vs@, i as nat) == Some(vs@[j as int]),
            None => earlier_independent(vs@, i as nat) is None,
        },
{
    let mut j: usize = 0;
    while j < i
        invariant
            j <= i < vs@.len(),
            earlier_independent(vs@, j as nat) is None,
        decreases i - j,
    {
        if vs[j].causality == Causality::Independent {
            proof {
                lemma_earlier_independent_prefix(vs@, (j + 1) as nat, i as nat);
            }
            return Some(j);
        }
        j = j + 1;
    }
    None
}

proof fn lemma_earlier_named_prefix(vs: Seq<ScalarVariable>, name: Seq<char>, j: nat, i: nat)
    requires
        j <= i <= vs.len(),
        earlier_named(vs, name, j) is Some,
    ensures
        earlier_named(vs, name, i) == earlier_named(vs, name, j),
    decreases i - j,
{
    if j < i {
        lemma_earlier_named_prefix(vs, name, j, (i - 1) as nat);
    }
}

proof fn lemma_earlier_independent_prefix(vs: Seq<ScalarVariable>, j: nat, i: nat)
    requires
        j <= i <= vs.len(),
        earlier_independent(vs, j) is Some,
    ensures
        earlier_independent(vs, i) == earlier_independent(vs, j),
    decreases i - j,
{
    if j < i {
        lemma_earlier_independent_prefix(vs, j, (i - 1) as nat);
    }
}

impl ModelDescription {
    fn check_name(&self, v: &ScalarVariable) -> (res: Vec<ValidationError>)
        requires
            self.variableNamingConvention == VariableNamingConvention::Structured ==> !v.name@.contains(
                '\0',
            ),
        ensures
            problems_of(res@) == name_problems(*self, *v),
    {
        let mut out: Vec<ValidationError> = Vec::new();
        if v.name.as_str().unicode_len() == 0 {
            out.push(error_at(&v.range, owned("Variable name cannot be empty.")));
        } else if self.variableNamingConvention == VariableNamingConvention::Structured {
            match validate_structured_variable_name(v.name.as_str()) {
                Err(message) => {
                    let mut m = owned("Variable name '");
                    push_str(&mut m, v.name.as_str());
                    push_str(&mut m, "' does not conform to the structured naming convention: ");
                    push_str(&mut m, message.as_str());
                    out.push(error_at(&v.range, m));
                },
                Ok(_) => {},
            }
        }
        proof {
            assert(problems_of(out@) =~= name_problems(*self, *v));
        }
        out
    }

    fn check_variable(&self, i: usize) -> (res: Vec<ValidationError>)
        requires
            i < self.modelVariables@.len(),
            names_checkable(*self),
        ensures
            problems_of(res@) == variable_problems(*self, i as nat),
    {
        let v = &self.modelVariables[i];
        let mut out = self.check_name(v);
        append_errors(&mut out, check_duplicate(&self.modelVariables, i));
        append_errors(&mut out, check_independent(&self.modelVariables, i));
        append_errors(&mut out, check_attributes(v));
        out
    }
}

fn check_duplicate(vs: &Vec<ScalarVariable>, i: usize) -> (res: Vec<ValidationError>)
    requires
        i < vs@.len(),
    ensures
        problems_of(res@) == duplicate_problems(vs@, i as nat),
{
    let mut out: Vec<ValidationError> = Vec::new();
    match find_earlier_named(vs, i) {
        Some(j) => {
            let mut m = owned("Duplicate variable name: '");
            push_str(&mut m, vs[i].name.as_str());
            push_str(&mut m, "'");
            out.push(error_at_both(&vs[j].range, &vs[i].range, m));
        },
        None => {},
    }
    proof {
        assert(problems_of(out@) =~= duplicate_problems(vs@, i as nat));
    }
    out
}

fn check_independent(vs: &Vec<ScalarVariable>, i: usize) -> (res: Vec<ValidationError>)
    requires
        i < vs@.len(),
    ensures
        problems_of(res@) == independent_problems(vs@, i as nat),
{
    let v = &vs[i];
    let mut out: Vec<ValidationError> = Vec::new();
    if v.causality == Causality::Independent {
        match find_earlier_independent(vs, i) {
            Some(j) => {
                out.push(
                    error_at_both(
                        &vs[j].range,
                        &v.range,
                        owned("There can only be one independent variable."),
                    ),
                );
            },
            None => {},
        }
        let ghost first = problems_of(out@);
        match &v.variableType {
            VariableType::Real { .. } => {},
            _ => {
                out.push(
                    error_at(&v.range, owned("The independent variable must be a Real variable.")),
                );
            },
        }
        let ghost second = problems_of(out@);
        if v.variability != Variability::Continuous {
            out.push(error_at(&v.range, owned("The independent variable must be continuous.")));
        }
        let ghost third = problems_of(out@);
        if v.variableType.has_start() {
            out.push(
                error_at(&v.range, owned("The independent variable must not have a start value.")),
            );
        }
        proof {
            assert(problems_of(out@) =~= independent_problems(vs@, i as nat));
        }
    } else {
        proof {
            assert(problems_of(out@) =~= independent_problems(vs@, i as nat));
        }
    }
    out
}

fn check_attributes(v: &ScalarVariable) -> (res: Vec<ValidationError>)
    ensures
        problems_of(res@) == attribute_problems(*v),
{
    let mut out: Vec<ValidationError> = Vec::new();
    let exact_or_approx = match v.initial {
        Some(Initial::Exact) => true,
        Some(Initial::Approx) => true,
        _ => false,
    };
    if (exact_or_approx || v.causality == Causality::Input) && !v.variableType.has_start() {
        let mut m = owned("Variable '");
        push_str(&mut m, v.name.as_str());
        push_str(&mut m, "' has no start value.");
        out.push(error_at(&v.range, m));
    }
    let is_real = match &v.variableType {
        VariableType::Real { .. } => true,
        _ => false,
    };
    if !is_real && v.variability == Variability::Continuous {
        out.push(error_at(&v.range, owned("Only Real variables can be continuous.")));
    }
    if !is_legal_combination(v.causality, v.variability, v.initial) {
        let mut m = owned("Illegal combination of causality '");
        let c = v.causality.debug_name();
        let va = v.variability.debug_name();
        let ini = initial_debug_string(v.initial);
        push_str(&mut m, c.as_str());
        push_str(&mut m, "', variability '");
        push_str(&mut m, va.as_str());
        push_str(&mut m, "', and initial '");
        push_str(&mut m, ini.as_str());
        push_str(&mut m, "' for variable '");
        push_str(&mut m, v.name.as_str());
        push_str(&mut m, "'.");
        out.push(error_at(&v.range, m));
    }
    proof {
        assert(problems_of(out@) =~= attribute_problems(*v));
    }
    out
}

impl ModelDescription {
    /// Whether `index` is the 1-based index of a variable.
    fn is_valid_variable_index(&self, index: u32) -> (res: bool)
        ensures
            res == is_variable_index(*self, index),
    {
        index > 0 && (index as usize) <= self.modelVariables.len()
    }

    /// The problems of an unknown: its index, the indices of its dependencies, and
    /// whether its dependency kinds match its dependencies in number.
    fn validate_unknown(&self, u: &Unknown) -> (res: Vec<ValidationError>)
        ensures
            problems_of(res@) == unknown_problems(*self, *u),
    {
        let mut out: Vec<ValidationError> = Vec::new();
        if !self.is_valid_variable_index(u.index) {
            let mut m = owned("Illegal variable index: ");
            let d = u64_to_decimal(u.index as u64);
            push_str(&mut m, d.as_str());
            let none: Vec<Range<usize>> = Vec::new();
            proof {
                assert(none@ =~= Seq::<Range<usize>>::empty());
            }
            out.push(ValidationError { range: none, message: m });
        }
        proof {
            assert(problems_of(out@) =~= (if !is_variable_index(*self, u.index) {
                seq![
                    Problem {
                        ranges: seq![],
                        message: "Illegal variable index: "@ + decimal(u.index as nat),
                    },
                ]
            } else {
                seq![]
            }));
        }
        match &u.dependencies {
            Some(ds) => {
                let mut k: usize = 0;
                while k < ds.len()
                    invariant
                        k <= ds@.len(),
                        problems_of(out@) == (if !is_variable_index(*self, u.index) {
                            seq![
                                Problem {
                                    ranges: seq![],
                                    message: "Illegal variable index: "@ + decimal(u.index as nat),
                                },
                            ]
                        } else {
                            seq![]
                        }) + dependency_problems(*self, *u, ds@, k as nat),
                    decreases ds.len() - k,
                {
                    let ghost before = problems_of(out@);
                    if !self.is_valid_variable_index(ds[k]) {
                        let mut m = owned("Illegal variable index in dependencies: ");
                        let d = u64_to_decimal(ds[k] as u64);
                        push_str(&mut m, d.as_str());
                        out.push(error_at(&u.range, m));
                    }
                    proof {
                        assert(problems_of(out@) =~= before + (if !is_variable_index(
                            *self,
                            ds@[k as int],
                        ) {
                            seq![
                                problem_at(
                                    u.range,
                                    "Illegal variable index in dependencies: "@ + decimal(
                                        ds@[k as int] as nat,
                                    ),
                                ),
                            ]
                        } else {
                            seq![]
                        }));
                    }
                    k = k + 1;
                }
                let ghost before = problems_of(out@);
                match &u.dependenciesKind {
                    Some(ks) => {
                        if ds.len() != ks.len() {
                            out.push(
                                error_at(
                                    &u.range,
                                    owned(
                                        "The number of elements in dependenciesKind does not match the number of elements in dependencies.",
                                    ),
                                ),
                            );
                        }
                    },
                    None => {},
                }
                proof {
                    let kinds = match &u.dependenciesKind {
                        Some(ks) => if ds@.len() != ks@.len() {
                            seq![
                                problem_at(
                                    u.range,
                                    "The number of elements in dependenciesKind does not match the number of elements in dependencies."@,
                                ),
                            ]
                        } else {
                            seq![]
                        },
                        None => seq![],
                    };
                    assert(problems_of(out@) =~= before + kinds);
                    assert(before + kinds =~= unknown_problems(*self, *u));
                }
            },
            None => {
                proof {
                    assert(problems_of(out@) =~= unknown_problems(*self, *u));
                }
            },
        }
        out
    }

    /// The problems of the unknowns `us`, in order.
    fn validate_unknowns(&self, us: &Vec<Unknown>) -> (res: Vec<ValidationError>)
        ensures
            problems_of(res@) == unknowns_problems(*self, us@, us@.len()),
    {
        let mut out: Vec<ValidationError> = Vec::new();
        let mut k: usize = 0;
        while k < us.len()
            invariant
                k <= us@.len(),
                problems_of(out@) == unknowns_problems(*self, us@, k as nat),
            decreases us.len() - k,
        {
            append_errors(&mut out, self.validate_unknown(&us[k]));
            k = k + 1;
        }
        out
    }

    /// The problems of a derivative and the state it refers to.
    fn check_derivative(&self, u: &Unknown) -> (res: Vec<ValidationError>)
        ensures
            problems_of(res@) == derivative_problems(*self, *u),
    {
        let mut out: Vec<ValidationError> = Vec::new();
        match self.get_variable_by_index(u.index) {
            None => {
                let mut m = owned("Illegal variable index: ");
                let d = u64_to_decimal(u.index as u64);
                push_str(&mut m, d.as_str());
                out.push(error_at(&u.range, m));
            },
            Some(dv) => match &dv.variableType {
                VariableType::Real { derivative, .. } => match derivative {
                    Some(d) => match self.get_variable_by_index(*d) {
                        Some(sv) => match &sv.variableType {
                            VariableType::Real { .. } => {},
                            _ => {
                                let mut m = owned("The continuous state variable ");
                                push_str(&mut m, sv.name.as_str());
                                push_str(&mut m, " referenced by the derivative ");
                                push_str(&mut m, dv.name.as_str());
                                push_str(&mut m, " is not a Real variable");
                                out.push(error_at(&dv.range, m));
                            },
                        },
                        None => {
                            let mut m = owned("Attribute derivative of variable ");
                            push_str(&mut m, dv.name.as_str());
                            push_str(&mut m, " is not a valid variable index");
                            out.push(error_at(&dv.range, m));
                        },
                    },
                    None => {
                        let mut m = owned("Variable ");
                        push_str(&mut m, dv.name.as_str());
                        push_str(&mut m, " is not a derivative");
                        out.push(error_at(&dv.range, m));
                    },
                },
                _ => {
                    let mut m = owned("Variable ");
                    push_str(&mut m, dv.name.as_str());
                    push_str(&mut m, " is not a real variable");
                    out.push(error_at(&dv.range, m));
                },
            },
        }
        proof {
            assert(problems_of(out@) =~= derivative_problems(*self, *u));
        }
        out
    }

    /// Checks if the model description is valid according to the FMI 2.0
    /// specification. Returns the problems found, in the order in which they are
    /// checked; where there are none, the model description is valid.
    pub fn validate(&self) -> (res: Vec<ValidationError>)
        requires
            names_checkable(*self),
        ensures
            problems_of(res@) == model_problems(*self),
            res@.len() == 0 <==> is_valid_model(*self),
    {
        proof {
            lemma_no_problems_iff_valid(*self);
        }
        let mut out: Vec<ValidationError> = Vec::new();
        let mut i: usize = 0;
        while i < self.modelVariables.len()
            invariant
                i <= self.modelVariables@.len(),
                names_checkable(*self),
                problems_of(out@) == variables_problems(*self, i as nat),
            decreases self.modelVariables.len() - i,
        {
            append_errors(&mut out, self.check_variable(i));
            i = i + 1;
        }
        append_errors(&mut out, self.validate_unknowns(&self.outputs));
        append_errors(&mut out, self.validate_unknowns(&self.derivatives));
        let mut derivative_errors: Vec<ValidationError> = Vec::new();
        let mut k: usize = 0;
        while k < self.derivatives.len()
            invariant
                k <= self.derivatives@.len(),
                problems_of(derivative_errors@) == derivatives_problems(
                    *self,
                    self.derivatives@,
                    k as nat,
                ),
            decreases self.derivatives.len() - k,
        {
            append_errors(&mut derivative_errors, self.check_derivative(&self.derivatives[k]));
            k = k + 1;
        }
        append_errors(&mut out, derivative_errors);
        append_errors(&mut out, self.validate_unknowns(&self.initialUnknowns));
        out
    }
}

} // verus!
