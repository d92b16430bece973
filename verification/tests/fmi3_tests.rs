use fmi_rs::model_description::fmi3::file::parse_hex;
use fmi_rs::model_description::fmi3::{
    Causality, Dimension, Initial, IntervalVariability, ModelDescription, TypeDefinition,
    Variability, VariableType,
};

const FEEDTHROUGH: &str = r#"<?xml version="1.0" encoding="UTF-8"?>
<fmiModelDescription fmiVersion="3.0" modelName="Feedthrough" instantiationToken="{37B954F1}" variableNamingConvention="structured">
  <ModelExchange modelIdentifier="Feedthrough" canGetAndSetFMUState="true"/>
  <CoSimulation modelIdentifier="Feedthrough" fixedInternalStepSize="0.1" maxOutputDerivativeOrder="2" hasEventMode="1"/>
  <UnitDefinitions><Unit name="s"><BaseUnit s="1"/></Unit></UnitDefinitions>
  <TypeDefinitions>
    <Float64Type name="Time" unit="s"/>
    <EnumerationType name="Option"><Item name="Option 1" value="1"/><Item name="Option 2" value="2"/></EnumerationType>
  </TypeDefinitions>
  <ModelVariables>
    <Float64 name="time" valueReference="0" causality="independent" variability="continuous"/>
    <Float64 name="Float64_continuous_input" valueReference="7" causality="input" start="0" declaredType="Time"/>
    <Int32 name="Int32_input" valueReference="19" causality="input" start="0" min="-5" max="5"/>
    <Boolean name="Boolean_input" valueReference="27" causality="input" start="false"/>
    <String name="String_parameter" valueReference="29" causality="parameter" variability="fixed"><Start value="Set me!"/></String>
    <Binary name="Binary_input" valueReference="30" causality="input"><Start value="666f6f"/></Binary>
    <Enumeration name="Enumeration_input" valueReference="33" causality="input" declaredType="Option" start="1"/>
    <Float64 name="x" valueReference="40" causality="output"><Dimension start="3"/></Float64>
    <Clock name="c" valueReference="41" causality="input" intervalVariability="triggered"/>
  </ModelVariables>
  <ModelStructure>
    <Output valueReference="40"/>
    <InitialUnknown valueReference="40" dependencies="7 19" dependenciesKind="dependent dependent"/>
  </ModelStructure>
</fmiModelDescription>"#;

fn with_variables(variables: &str) -> String {
    format!(
        r#"<fmiModelDescription fmiVersion="3.0" modelName="M" instantiationToken="t"><ModelVariables>{}</ModelVariables><ModelStructure/></fmiModelDescription>"#,
        variables
    )
}

#[test]
fn reads_an_fmi3_model_description() {
    let md = ModelDescription::from_string(FEEDTHROUGH).unwrap();
    assert_eq!(md.fmiVersion, "3.0");
    assert_eq!(md.modelName, "Feedthrough");
    assert_eq!(md.instantiationToken, "{37B954F1}");
    assert_eq!(md.modelVariables.len(), 9);
    assert_eq!(md.typeDefinitions.len(), 2);
    assert_eq!(md.unitDefinitions.len(), 1);
    let cs = md.coSimulation.as_ref().unwrap();
    assert_eq!(cs.fixedInternalStepSize, Some("0.1".to_string()));
    assert_eq!(cs.maxOutputDerivativeOrder, 2);
    assert!(cs.hasEventMode);
    assert!(md.modelExchange.as_ref().unwrap().canGetAndSetFMUState);
    assert!(md.scheduledExecution.is_none());
    assert_eq!(md.outputs.len(), 1);
    assert_eq!(md.outputs[0].valueReference, 40);
    assert_eq!(md.initialUnknowns[0].dependencies, Some(vec![7, 19]));
    match &md.typeDefinitions[1] {
        TypeDefinition::Enumeration { items, .. } => {
            assert_eq!(items.len(), 2);
            assert_eq!(items[1].value, 2);
        }
        _ => panic!("not an enumeration type"),
    }
}

#[test]
fn reads_fmi3_variables() {
    let md = ModelDescription::from_string(FEEDTHROUGH).unwrap();
    let input = md.get_variable(7).unwrap();
    assert_eq!(input.causality, Causality::Input);
    assert_eq!(input.variability, Variability::Continuous);
    assert_eq!(input.initial, Some(Initial::Exact));
    assert_eq!(md.get_unit(input), Some("s"));
    match &md.get_variable(19).unwrap().variableType {
        VariableType::Int32 { start, min, max, .. } => {
            assert_eq!((*start, *min, *max), (Some(0), Some(-5), Some(5)));
        }
        _ => panic!("not an Int32 variable"),
    }
    let int_input = md.get_variable(19).unwrap();
    assert_eq!(int_input.variability, Variability::Discrete);
    match &md.get_variable(29).unwrap().variableType {
        VariableType::String { start, .. } => assert_eq!(start, &vec!["Set me!".to_string()]),
        _ => panic!("not a String variable"),
    }
    match &md.get_variable(30).unwrap().variableType {
        VariableType::Binary { start, .. } => assert_eq!(start, &vec![b"foo".to_vec()]),
        _ => panic!("not a Binary variable"),
    }
    match &md.get_variable(41).unwrap().variableType {
        VariableType::Clock { intervalVariability, shiftDecimal, shiftCounter, .. } => {
            assert!(matches!(intervalVariability, IntervalVariability::Triggered));
            assert_eq!(shiftDecimal, "0.0");
            assert_eq!(*shiftCounter, 0);
        }
        _ => panic!("not a Clock variable"),
    }
    let x = md.get_variable(40).unwrap();
    assert!(matches!(x.dimensions[0], Dimension::Fixed { start: 3 }));
    assert_eq!(x.initial, Some(Initial::Calculated));
    assert!(md.get_variable(99).is_none());
    assert!(md.get_type_definition("Option").is_some());
}

#[test]
fn a_valid_fmi3_model_description_has_no_problems() {
    let md = ModelDescription::from_string(FEEDTHROUGH).unwrap();
    let messages: Vec<String> = md.validate().into_iter().map(|p| p.message).collect();
    assert!(messages.is_empty(), "{:?}", messages);
}

#[test]
fn reports_fmi3_reading_errors() {
    let text = FEEDTHROUGH.replace("fmiVersion=\"3.0\"", "fmiVersion=\"2.0\"");
    assert_eq!(
        ModelDescription::from_string(&text).err(),
        Some("Expected FMI version 3.*, but was 2.0".to_string())
    );
    let text = r#"<fmiModelDescription fmiVersion="3.0" modelName="M" instantiationToken="t"><ModelVariables/></fmiModelDescription>"#;
    assert_eq!(
        ModelDescription::from_string(text).err(),
        Some("Missing <ModelStructure> element.".to_string())
    );
    let text = with_variables(r#"<Real name="x" valueReference="1"/>"#);
    assert_eq!(
        ModelDescription::from_string(&text).err(),
        Some("Missing variable type element".to_string())
    );
    let text = with_variables(r#"<Int8 name="x" valueReference="1" start="300"/>"#);
    assert_eq!(
        ModelDescription::from_string(&text).err(),
        Some("Line 1: Illegal value '300' for attribute 'start' in <Int8>.".to_string())
    );
    let text = with_variables(r#"<Float64 name="x" valueReference="1" causality="inside"/>"#);
    assert_eq!(
        ModelDescription::from_string(&text).err(),
        Some("Line 1: Illegal value 'inside' for attribute 'causality' in <Float64>.".to_string())
    );
    let text = with_variables(r#"<Binary name="x" valueReference="1"><Start value="abc"/></Binary>"#);
    assert_eq!(
        ModelDescription::from_string(&text).err(),
        Some("Invalid hex string length: abc".to_string())
    );
    let text = with_variables(r#"<Float64 name="x" valueReference="1"><Dimension/></Float64>"#);
    assert_eq!(
        ModelDescription::from_string(&text).err(),
        Some("Dimension must have either size or valueReference attribute".to_string())
    );
    let text = with_variables(r#"<Clock name="c" valueReference="1"/>"#);
    assert_eq!(
        ModelDescription::from_string(&text).err(),
        Some("Missing required attribute 'intervalVariability'".to_string())
    );
    let text = r#"<fmiModelDescription fmiVersion="3.0" modelName="M" instantiationToken="t"><ModelVariables/><ModelStructure><Output/></ModelStructure></fmiModelDescription>"#;
    assert_eq!(
        ModelDescription::from_string(text).err(),
        Some("Missing valueReference attribute in Output".to_string())
    );
}

#[test]
fn reports_fmi3_problems() {
    let text = with_variables(&[
        r#"<Float64 name="x" valueReference="1" causality="local" initial="calculated" start="1"/>"#,
        r#"<Float64 name="y" valueReference="1" causality="independent"/>"#,
        r#"<Int32 name="z" valueReference="2" causality="independent"/>"#,
    ].concat());
    let md = ModelDescription::from_string(&text).unwrap();
    let messages: Vec<String> = md.validate().into_iter().map(|p| p.message).collect();
    assert_eq!(
        messages,
        vec![
            "The variable '{}' is calculated but provides a start value.".to_string(),
            "Duplicate value reference: 1".to_string(),
            "There can only be one independent variable.".to_string(),
            "The independent variable must be a Float32 or Float64 variable.".to_string(),
            "The independent variable must be continuous.".to_string(),
            "Illegal combination of causality 'Independent', variability 'Discrete', and initial 'None' for variable 'z'.".to_string(),
        ]
    );
}

#[test]
fn reads_hexadecimal_binaries() {
    assert_eq!(parse_hex("00ff7F").unwrap(), vec![0u8, 255, 127]);
    assert_eq!(parse_hex("").unwrap(), Vec::<u8>::new());
    assert_eq!(parse_hex("+a").unwrap(), vec![10u8]);
    assert_eq!(parse_hex("abc").err(), Some("Invalid hex string length: abc".to_string()));
    assert_eq!(
        parse_hex("zz").err(),
        Some("Invalid hex byte 'zz': invalid digit found in string".to_string())
    );
    assert_eq!(
        parse_hex("é0x").err(),
        Some("Invalid hex byte 'é': invalid digit found in string".to_string())
    );
}
