use fmi_rs::model_description::fmi2::{Causality, Initial, ModelDescription, Variability, VariableType};
use fmi_rs::model_description::{peak_fmi_major_version, FMIMajorVersion};

const BOUNCING_BALL: &str = r#"<?xml version="1.0" encoding="UTF-8"?>
<fmiModelDescription fmiVersion="2.0" modelName="BouncingBall" guid="{1AE5E10D}" numberOfEventIndicators="1" variableNamingConvention="structured">
  <CoSimulation modelIdentifier="BouncingBall" canHandleVariableCommunicationStepSize="true">
    <SourceFiles><File name="model.c"/><File name="fmi2Functions.c"/></SourceFiles>
  </CoSimulation>
  <UnitDefintions><Unit name="m"><BaseUnit m="1"/></Unit></UnitDefintions>
  <TypeDefinitions><SimpleType name="Height"><Real quantity="Length" unit="m" min="0"/></SimpleType></TypeDefinitions>
  <LogCategories><Category name="logEvents" description="Log events"/></LogCategories>
  <DefaultExperiment startTime="0" stopTime="3" stepSize="1e-2"/>
  <ModelVariables>
    <ScalarVariable name="time" valueReference="0" causality="independent" variability="continuous"><Real/></ScalarVariable>
    <ScalarVariable name="h" valueReference="1" causality="output" variability="continuous" initial="exact"><Real start="1" declaredType="Height"/></ScalarVariable>
    <ScalarVariable name="der(h)" valueReference="2" causality="local" variability="continuous"><Real derivative="2"/></ScalarVariable>
    <ScalarVariable name="e" valueReference="3" causality="parameter" variability="tunable"><Real start="0.7" unit="1"/></ScalarVariable>
  </ModelVariables>
  <ModelStructure>
    <Outputs><Unknown index="2"/></Outputs>
    <Derivatives><Unknown index="3" dependencies="2" dependenciesKind="dependent"/></Derivatives>
  </ModelStructure>
</fmiModelDescription>"#;

fn with_variables(variables: &str) -> String {
    format!(
        r#"<fmiModelDescription fmiVersion="2.0" modelName="M" guid="g"><ModelVariables>{}</ModelVariables></fmiModelDescription>"#,
        variables
    )
}

#[test]
fn reads_a_model_description() {
    let md = ModelDescription::from_string(BOUNCING_BALL).unwrap();
    assert_eq!(md.modelName, "BouncingBall");
    assert_eq!(md.guid, "{1AE5E10D}");
    assert_eq!(md.numberOfEventIndicators, 1);
    assert_eq!(md.modelVariables.len(), 4);
    assert_eq!(md.logCategories.len(), 1);
    assert_eq!(md.logCategories[0].name, "logEvents");
    let cs = md.coSimulation.as_ref().unwrap();
    assert_eq!(cs.modelIdentifier, "BouncingBall");
    assert!(cs.canHandleVariableCommunicationStepSize);
    assert!(!cs.canInterpolateInputs);
    assert_eq!(cs.sourceFiles, vec!["model.c".to_string(), "fmi2Functions.c".to_string()]);
    assert!(md.modelExchange.is_none());
    assert_eq!(md.unitDefintions.len(), 1);
    assert_eq!(md.unitDefintions[0].baseUnit.as_ref().unwrap().m, 1);
    assert_eq!(md.typeDefinitions.len(), 1);
    assert_eq!(md.typeDefinitions[0].name(), "Height");
    let de = md.defaultExperiment.as_ref().unwrap();
    assert_eq!(de.stopTime, Some("3".to_string()));
    assert_eq!(md.outputs.len(), 1);
    assert_eq!(md.outputs[0].index, 2);
    assert_eq!(md.derivatives[0].dependencies, Some(vec![2]));
}

#[test]
fn fills_in_defaults_of_variables() {
    let md = ModelDescription::from_string(BOUNCING_BALL).unwrap();
    let time = &md.modelVariables[0];
    assert_eq!(time.causality, Causality::Independent);
    assert_eq!(time.initial, None);
    let h = md.get_variable_by_name("h").unwrap();
    assert_eq!(h.initial, Some(Initial::Exact));
    let der = md.get_variable_by_value_reference(2).unwrap();
    assert_eq!(der.name, "der(h)");
    assert_eq!(der.initial, Some(Initial::Calculated));
    assert_eq!(der.variability, Variability::Continuous);
    match &der.variableType {
        VariableType::Real { derivative, .. } => assert_eq!(*derivative, Some(2)),
        _ => panic!("not a Real variable"),
    }
    let e = md.get_variable_by_index(4).unwrap();
    assert_eq!(e.initial, Some(Initial::Exact));
    assert!(md.get_variable_by_index(0).is_none());
    assert!(md.get_variable_by_index(5).is_none());
}

#[test]
fn finds_units_through_declared_types() {
    let md = ModelDescription::from_string(BOUNCING_BALL).unwrap();
    let h = md.get_variable_by_name("h").unwrap();
    assert_eq!(md.get_unit(h), Some("m"));
    let e = md.get_variable_by_name("e").unwrap();
    assert_eq!(md.get_unit(e), Some("1"));
    let time = md.get_variable_by_name("time").unwrap();
    assert_eq!(md.get_unit(time), None);
    assert!(md.get_type_definition("Height").is_some());
    assert!(md.get_type_definition("Mass").is_none());
}

#[test]
fn a_valid_model_description_has_no_problems() {
    let md = ModelDescription::from_string(BOUNCING_BALL).unwrap();
    let problems = md.validate();
    assert!(problems.is_empty(), "{:?}", problems.iter().map(|p| p.message.clone()).collect::<Vec<_>>());
}

#[test]
fn refuses_other_versions() {
    let text = BOUNCING_BALL.replace("fmiVersion=\"2.0\"", "fmiVersion=\"3.0\"");
    assert_eq!(
        ModelDescription::from_string(&text).err(),
        Some("Expected FMI version 2.0, but was 3.0".to_string())
    );
    let text = BOUNCING_BALL.replace("fmiVersion=\"2.0\"", "");
    assert_eq!(
        ModelDescription::from_string(&text).err(),
        Some("Missing attribute 'fmiVersion'".to_string())
    );
}

#[test]
fn reports_missing_elements_and_attributes() {
    let text = r#"<fmiModelDescription fmiVersion="2.0" modelName="M" guid="g"/>"#;
    assert_eq!(
        ModelDescription::from_string(text).err(),
        Some("Missing required element <ModelVariables> in <fmiModelDescription>".to_string())
    );
    let text = with_variables(r#"<ScalarVariable valueReference="1"><Real/></ScalarVariable>"#);
    assert_eq!(
        ModelDescription::from_string(&text).err(),
        Some("Missing required attribute 'name'".to_string())
    );
    let text = with_variables(r#"<ScalarVariable name="x" valueReference="a"><Real/></ScalarVariable>"#);
    assert_eq!(
        ModelDescription::from_string(&text).err(),
        Some("invalid digit found in string".to_string())
    );
    let text = with_variables(r#"<ScalarVariable name="x" valueReference="1"/>"#);
    assert_eq!(
        ModelDescription::from_string(&text).err(),
        Some("Missing variable type element".to_string())
    );
    let text = with_variables(r#"<ScalarVariable name="x" valueReference="1" causality="inside"><Real/></ScalarVariable>"#);
    assert_eq!(
        ModelDescription::from_string(&text).err(),
        Some("Unknown causality: inside".to_string())
    );
    let text = with_variables(r#"<ScalarVariable name="x" valueReference="1" causality="input" variability="fixed"><Real/></ScalarVariable>"#);
    assert_eq!(
        ModelDescription::from_string(&text).err(),
        Some("Illegal combination of variability and causality: Fixed Input".to_string())
    );
    let text = with_variables(r#"<ScalarVariable name="x" valueReference="1" initial="sure"><Real/></ScalarVariable>"#);
    assert_eq!(
        ModelDescription::from_string(&text).err(),
        Some("Unknown intial: sure".to_string())
    );
    let text = with_variables(r#"
        <ScalarVariable name="x" valueReference="1" canHandleMultipleSetPerTimeInstant="yes"><Real/></ScalarVariable>"#);
    assert_eq!(
        ModelDescription::from_string(&text).err(),
        Some("Line 2: Illegal value 'yes' for attribute 'canHandleMultipleSetPerTimeInstant' in <ScalarVariable>.".to_string())
    );
}

#[test]
fn reports_problems_of_variables() {
    let text = with_variables(&[
        r#"<ScalarVariable name="x" valueReference="1" causality="input"><Real/></ScalarVariable>"#,
        r#"<ScalarVariable name="x" valueReference="2" variability="continuous"><Integer/></ScalarVariable>"#,
    ].concat());
    let md = ModelDescription::from_string(&text).unwrap();
    let messages: Vec<String> = md.validate().into_iter().map(|p| p.message).collect();
    assert_eq!(
        messages,
        vec![
            "Variable 'x' has no start value.".to_string(),
            "Duplicate variable name: 'x'".to_string(),
            "Only Real variables can be continuous.".to_string(),
        ]
    );
}

#[test]
fn reports_illegal_indices() {
    let text = r#"<fmiModelDescription fmiVersion="2.0" modelName="M" guid="g">
      <ModelVariables><ScalarVariable name="x" valueReference="1"><Real/></ScalarVariable></ModelVariables>
      <ModelStructure><Outputs><Unknown index="0" dependencies="1 7" dependenciesKind="dependent"/></Outputs>
      <Derivatives><Unknown index="1"/></Derivatives></ModelStructure>
    </fmiModelDescription>"#;
    let md = ModelDescription::from_string(text).unwrap();
    let problems = md.validate();
    let messages: Vec<String> = problems.iter().map(|p| p.message.clone()).collect();
    assert_eq!(
        messages,
        vec![
            "Illegal variable index: 0".to_string(),
            "Illegal variable index in dependencies: 7".to_string(),
            "The number of elements in dependenciesKind does not match the number of elements in dependencies.".to_string(),
            "Variable x is not a derivative".to_string(),
        ]
    );
    assert!(problems[0].range.is_empty());
    assert_eq!(problems[1].range.len(), 1);
}

#[test]
fn checks_structured_names() {
    let text = with_variables(r#"<ScalarVariable name="1x" valueReference="1"><Real/></ScalarVariable>"#)
        .replace("guid=\"g\"", "guid=\"g\" variableNamingConvention=\"structured\"");
    let md = ModelDescription::from_string(&text).unwrap();
    let messages: Vec<String> = md.validate().into_iter().map(|p| p.message).collect();
    assert_eq!(
        messages,
        vec!["Variable name '1x' does not conform to the structured naming convention: syntax error, unexpected UNSIGNED_INTEGER, expecting DER or NONDIGIT or Q_NAME".to_string()]
    );
}

#[test]
fn peeks_at_the_major_version() {
    assert_eq!(peak_fmi_major_version(BOUNCING_BALL).unwrap(), FMIMajorVersion::V2);
    let text = BOUNCING_BALL.replace("fmiVersion=\"2.0\"", "fmiVersion=\"3.0-beta\"");
    assert_eq!(peak_fmi_major_version(&text).unwrap(), FMIMajorVersion::V3);
    let text = BOUNCING_BALL.replace("fmiVersion=\"2.0\"", "fmiVersion=\"1.0\"");
    assert_eq!(peak_fmi_major_version(&text).err(), Some("FMI 1.0 is not supported.".to_string()));
    let text = BOUNCING_BALL.replace("fmiVersion=\"2.0\"", "fmiVersion=\"4\"");
    assert_eq!(peak_fmi_major_version(&text).err(), Some("Unknown FMI version: 4".to_string()));
    let text = BOUNCING_BALL.replace("fmiVersion=\"2.0\"", "");
    assert_eq!(peak_fmi_major_version(&text).err(), Some("Attribute fmiVersion is missing.".to_string()));
    assert!(peak_fmi_major_version("<a>").is_err());
    assert_eq!(FMIMajorVersion::V3.number(), 3);
}
