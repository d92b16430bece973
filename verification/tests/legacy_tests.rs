use fmi_rs::fmi::model_description::{
    read_model_description, read_model_description_from, Causality, Dimension, MajorVersion, Variability, VariableType,
};
use fmi_rs::fmi::simulate::call;
use fmi_rs::fmi::types::fmiStatus;
use fmi_rs::model_description::fmi_version_of;
use fmi_rs::xml::parse_xml;

const FMI2: &str = r#"<fmiModelDescription fmiVersion="2.0" modelName="M" guid="{g}" numberOfEventIndicators="2">
  <ModelExchange modelIdentifier="M" completedIntegratorStepNotNeeded="true"/>
  <DefaultExperiment stopTime="10"/>
  <ModelVariables>
    <ScalarVariable name="x" valueReference="1"><Real/></ScalarVariable>
    <ScalarVariable name="k" valueReference="2" causality="parameter"><Real/></ScalarVariable>
    <ScalarVariable name="n" valueReference="3" causality="whatever"><Integer/></ScalarVariable>
  </ModelVariables>
  <ModelStructure>
    <Outputs><Unknown index="1"/><Unknown index="2"/></Outputs>
    <InitialUnknowns/>
  </ModelStructure>
</fmiModelDescription>"#;

const FMI3: &str = r#"<fmiModelDescription fmiVersion="3.0" modelName="M" instantiationToken="{t}">
  <CoSimulation modelIdentifier="M" canHandleVariableCommunicationStepSize="true"/>
  <ModelVariables>
    <Float64 name="time" valueReference="0" causality="independent"/>
    <UInt64 name="v" valueReference="1" causality="output"><Dimension start="2"/><Dimension valueReference="0"/></UInt64>
  </ModelVariables>
  <ModelStructure/>
</fmiModelDescription>"#;

#[test]
fn reads_an_fmi2_document() {
    let md = read_model_description(FMI2).unwrap().unwrap();
    assert_eq!(md.majorVersion, MajorVersion::V2);
    assert_eq!(md.instantiationToken, "{g}");
    assert_eq!(md.numberOfEventIndicators, 2);
    assert_eq!(md.modelVariables.len(), 3);
    assert_eq!(md.modelVariables[0].variableType, VariableType::Float64);
    assert_eq!(md.modelVariables[0].variability, Variability::Continuous);
    assert_eq!(md.modelVariables[1].causality, Causality::Parameter);
    assert_eq!(md.modelVariables[1].variability, Variability::Discrete);
    assert_eq!(md.modelVariables[2].causality, Causality::Local);
    assert_eq!(md.modelVariables[2].variableType, VariableType::Int32);
    assert!(!md.modelExchange.as_ref().unwrap().needsCompletedIntegratorStep);
    assert_eq!(md.defaultExperiment.as_ref().unwrap().stopTime, Some("10".to_string()));
    assert_eq!(md.outputs.len(), 2);
    assert_eq!(md.derivatives.len(), 0);
    assert_eq!(md.initialUnknowns.len(), 0);
}

#[test]
fn reads_an_fmi3_document() {
    let md = read_model_description(FMI3).unwrap().unwrap();
    assert_eq!(md.majorVersion, MajorVersion::V3);
    assert_eq!(md.modelVariables.len(), 2);
    assert_eq!(md.modelVariables[1].variableType, VariableType::UInt64);
    assert_eq!(md.modelVariables[1].variability, Variability::Discrete);
    assert!(matches!(md.modelVariables[1].dimensions[0], Dimension::Fixed(2)));
    assert!(matches!(md.modelVariables[1].dimensions[1], Dimension::Variable(0)));
    assert!(md.coSimulation.as_ref().unwrap().canHandleVariableCommunicationStepSize);
    assert!(md.outputs.is_empty());
}

#[test]
fn reports_what_the_reader_refuses() {
    assert_eq!(
        read_model_description(r#"<a fmiVersion="1.0"/>"#).unwrap().err(),
        Some("Unsupported FMI version: 1.0".to_string())
    );
    assert_eq!(
        read_model_description("<a/>").unwrap().err(),
        Some("Attribute fmiVersion is missing.".to_string())
    );
    let text = FMI2.replace("<InitialUnknowns/>", "");
    assert_eq!(
        read_model_description(&text).unwrap().err(),
        Some("Missing container element 'InitialUnknowns'.".to_string())
    );
    let text = FMI3.replace("<Float64 ", "<Real ");
    assert_eq!(
        read_model_description(&text).unwrap().err(),
        Some("Unknown variable type: Real".to_string())
    );
    let text = FMI3.replace("<ModelStructure/>", "");
    assert_eq!(
        read_model_description(&text).unwrap().err(),
        Some("Missing ModelStructure element.".to_string())
    );
}

#[test]
fn gives_up_where_the_reader_cannot_go_on() {
    assert!(read_model_description("<a").is_none());
    let text = FMI2.replace("valueReference=\"1\"", "valueReference=\"one\"");
    assert!(read_model_description(&text).is_none());
    let text = FMI3.replace("modelName=\"M\"", "");
    assert!(read_model_description(&text).is_none());
    let text = FMI3.replace("<Dimension start=\"2\"/>", "<Dimension/>");
    assert!(read_model_description(&text).is_none());
}

#[test]
fn passes_on_successful_calls_of_either_version() {
    assert_eq!(call(fmiStatus::fmiWarning).unwrap(), fmiStatus::fmiWarning);
    assert_eq!(
        call(fmiStatus::fmiFatal).err(),
        Some("FMI call failed with status: fmiFatal".to_string())
    );
}

#[test]
fn reads_from_a_parsed_root() {
    let root = parse_xml(FMI2).unwrap();
    assert_eq!(fmi_version_of(&root).unwrap(), "2.0");
    let md = read_model_description_from(&root).unwrap().unwrap();
    assert_eq!(md.modelVariables.len(), 3);
    let other = parse_xml(r#"<fmiModelDescription fmiVersion="1.0"/>"#).unwrap();
    assert_eq!(
        read_model_description_from(&other).unwrap().err(),
        Some("Unsupported FMI version: 1.0".to_string())
    );
    let none = parse_xml("<fmiModelDescription/>").unwrap();
    assert_eq!(fmi_version_of(&none).err(), Some("Attribute fmiVersion is missing.".to_string()));
}
