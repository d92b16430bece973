use fmi_rs::fmi2::log::message_line;
use fmi_rs::fmi2::types::{fmi2False, fmi2Status, fmi2True};
use fmi_rs::fmi3::types::fmi3Status;
use fmi_rs::model_description::fmi2::ModelDescription as ModelDescription2;
use fmi_rs::model_description::fmi3::ModelDescription as ModelDescription3;
use fmi_rs::sim::fmi2::{
    call, check_start_value_names, parse_boolean, parse_variable_value, VariableValue,
};
use fmi_rs::sim::fmi3::csv::{csv_header, csv_record, read_csv};
use fmi_rs::util::{zip_entry_names, zip_extraction};
use fmi_rs::sim::fmi3::{
    call as call3, check_start_value_names as check_start_value_names3,
    parse_variable_value as parse_variable_value3, VariableValue as VariableValue3,
};

const FMI2: &str = r#"<fmiModelDescription fmiVersion="2.0" modelName="M" guid="g"><ModelVariables>
  <ScalarVariable name="r" valueReference="1"><Real/></ScalarVariable>
  <ScalarVariable name="i" valueReference="2" variability="discrete"><Integer/></ScalarVariable>
  <ScalarVariable name="b" valueReference="3" variability="discrete"><Boolean/></ScalarVariable>
  <ScalarVariable name="s" valueReference="4" variability="discrete"><String/></ScalarVariable>
</ModelVariables></fmiModelDescription>"#;

const FMI3: &str = r#"<fmiModelDescription fmiVersion="3.0" modelName="M" instantiationToken="t"><ModelVariables>
  <Float32 name="f" valueReference="1"/>
  <UInt8 name="u" valueReference="2"/>
  <Int64 name="i" valueReference="3"/>
  <Boolean name="b" valueReference="4"/>
  <String name="s" valueReference="5"/>
  <Binary name="x" valueReference="6"/>
  <Enumeration name="e" valueReference="7" declaredType="E"/>
</ModelVariables><ModelStructure/></fmiModelDescription>"#;

#[test]
fn passes_on_successful_calls() {
    assert_eq!(call(fmi2Status::fmi2OK).unwrap(), fmi2Status::fmi2OK);
    assert_eq!(call(fmi2Status::fmi2Warning).unwrap(), fmi2Status::fmi2Warning);
    assert_eq!(
        call(fmi2Status::fmi2Error).err(),
        Some("FMI call failed with status: fmi2Error".to_string())
    );
    assert_eq!(call3(fmi3Status::fmi3OK).unwrap(), fmi3Status::fmi3OK);
    assert_eq!(
        call3(fmi3Status::fmi3Discard).err(),
        Some("FMI call failed with status: fmi3Discard".to_string())
    );
}

#[test]
fn parses_booleans() {
    assert_eq!(parse_boolean("true").unwrap(), fmi2True);
    assert_eq!(parse_boolean("1").unwrap(), fmi2True);
    assert_eq!(parse_boolean("false").unwrap(), fmi2False);
    assert_eq!(parse_boolean("0").unwrap(), fmi2False);
    assert_eq!(
        parse_boolean("yes").err(),
        Some("Invalid boolean literal: yes".to_string())
    );
}

#[test]
fn parses_fmi2_values() {
    let md = ModelDescription2::from_string(FMI2).unwrap();
    let t = |name: &str| &md.get_variable_by_name(name).unwrap().variableType;
    assert_eq!(parse_variable_value(t("r"), "1e-3").unwrap(), VariableValue::Real("1e-3".to_string()));
    assert_eq!(parse_variable_value(t("r"), "x").err(), Some("invalid float literal".to_string()));
    assert_eq!(
        parse_variable_value(t("r"), "").err(),
        Some("cannot parse float from empty string".to_string())
    );
    assert_eq!(parse_variable_value(t("i"), "-42").unwrap(), VariableValue::Integer(-42));
    assert_eq!(
        parse_variable_value(t("i"), "3000000000").err(),
        Some("number too large to fit in target type".to_string())
    );
    assert_eq!(parse_variable_value(t("b"), "1").unwrap(), VariableValue::Boolean(1));
    assert_eq!(parse_variable_value(t("s"), "a b").unwrap(), VariableValue::String("a b".to_string()));
}

#[test]
fn parses_fmi3_values() {
    let md = ModelDescription3::from_string(FMI3).unwrap();
    let t = |vr: u32| &md.get_variable(vr).unwrap().variableType;
    assert_eq!(
        parse_variable_value3(t(1), "1 2.5").unwrap(),
        VariableValue3::Float32(vec!["1".to_string(), "2.5".to_string()])
    );
    assert_eq!(parse_variable_value3(t(1), "1 a").err(), Some("invalid float literal".to_string()));
    assert_eq!(parse_variable_value3(t(2), " 1  255 ").unwrap(), VariableValue3::UInt8(vec![1, 255]));
    assert_eq!(
        parse_variable_value3(t(2), "256").err(),
        Some("number too large to fit in target type".to_string())
    );
    assert_eq!(parse_variable_value3(t(3), "-7").unwrap(), VariableValue3::Int64(vec![-7]));
    assert_eq!(parse_variable_value3(t(7), "2").unwrap(), VariableValue3::Int64(vec![2]));
    assert_eq!(
        parse_variable_value3(t(4), "true false").unwrap(),
        VariableValue3::Boolean(vec![true, false])
    );
    assert_eq!(
        parse_variable_value3(t(4), "1").err(),
        Some("provided string was not `true` or `false`".to_string())
    );
    assert_eq!(
        parse_variable_value3(t(5), "a b").unwrap(),
        VariableValue3::String(vec!["a".to_string(), "b".to_string()])
    );
    assert_eq!(
        parse_variable_value3(t(6), "0102 ff").unwrap(),
        VariableValue3::Binary(vec![vec![1, 2], vec![255]])
    );
    assert_eq!(
        parse_variable_value3(t(6), "012").err(),
        Some("Invalid hex string length: 012".to_string())
    );
}

#[test]
fn formats_logged_messages() {
    assert_eq!(
        message_line(fmi2Status::fmi2Warning, "logEvents", "state event  \n"),
        "[WARNING] [logEvents] state event"
    );
    assert_eq!(message_line(fmi2Status::fmi2OK, "c", "m"), "[INFO] [c] m");
    assert_eq!(message_line(fmi2Status::fmi2Pending, "c", " "), "[PENDING] [c] ");
}

#[test]
fn writes_fmi2_values_as_literals() {
    assert_eq!(VariableValue::Real("1.5e3".to_string()).to_literal(), "1.5e3");
    assert_eq!(VariableValue::Integer(-42).to_literal(), "-42");
    assert_eq!(VariableValue::Integer(i32::MIN).to_literal(), "-2147483648");
    assert_eq!(VariableValue::Boolean(fmi2True).to_literal(), "1");
    assert_eq!(VariableValue::Boolean(fmi2False).to_literal(), "0");
    assert_eq!(VariableValue::String("a b".to_string()).to_literal(), "a b");
}

#[test]
fn writes_fmi3_values_as_literals() {
    assert_eq!(VariableValue3::Int8(vec![-128, 0, 127]).to_literal(), "-128 0 127");
    assert_eq!(VariableValue3::UInt8(vec![255, 7]).to_literal(), "255 7");
    assert_eq!(VariableValue3::Int16(vec![-300]).to_literal(), "-300");
    assert_eq!(VariableValue3::UInt16(vec![65535]).to_literal(), "65535");
    assert_eq!(VariableValue3::Int32(vec![1, -2]).to_literal(), "1 -2");
    assert_eq!(VariableValue3::UInt32(vec![4294967295]).to_literal(), "4294967295");
    assert_eq!(VariableValue3::Int64(vec![i64::MIN]).to_literal(), "-9223372036854775808");
    assert_eq!(VariableValue3::UInt64(vec![u64::MAX, 0]).to_literal(), "18446744073709551615 0");
    assert_eq!(VariableValue3::Boolean(vec![true, false]).to_literal(), "true false");
    assert_eq!(VariableValue3::String(vec!["x".to_string(), "y".to_string()]).to_literal(), "x y");
    assert_eq!(VariableValue3::Binary(vec![vec![0x0f, 0xa0], vec![0xff]]).to_literal(), "0fa0 ff");
    assert_eq!(VariableValue3::Float64(vec!["1".to_string(), "2.5".to_string()]).to_literal(), "1 2.5");
    assert_eq!(VariableValue3::Float32(vec![]).to_literal(), "");
}

#[test]
fn counts_fmi3_values() {
    assert_eq!(VariableValue3::Int8(vec![1, 2, 3]).len(), 3);
    assert!(!VariableValue3::Int8(vec![1]).is_empty());
    assert!(VariableValue3::Binary(vec![]).is_empty());
    assert_eq!(VariableValue3::String(vec!["a".to_string()]).len(), 1);
}

#[test]
fn literals_read_back() {
    let md = ModelDescription3::from_string(FMI3).unwrap();
    let t = |vr: u32| &md.get_variable(vr).unwrap().variableType;
    let v = VariableValue3::Int64(vec![-5, 12]);
    assert_eq!(parse_variable_value3(t(3), &v.to_literal()).unwrap(), v);
    let v = VariableValue3::UInt8(vec![0, 255]);
    assert_eq!(parse_variable_value3(t(2), &v.to_literal()).unwrap(), v);
    let v = VariableValue3::Boolean(vec![false, true]);
    assert_eq!(parse_variable_value3(t(4), &v.to_literal()).unwrap(), v);
    let v = VariableValue3::Binary(vec![vec![0, 0xab], vec![0x10]]);
    assert_eq!(parse_variable_value3(t(6), &v.to_literal()).unwrap(), v);
    let v = VariableValue3::String(vec!["x".to_string(), "yz".to_string()]);
    assert_eq!(parse_variable_value3(t(5), &v.to_literal()).unwrap(), v);

    let md2 = ModelDescription2::from_string(FMI2).unwrap();
    let t2 = |name: &str| &md2.get_variable_by_name(name).unwrap().variableType;
    for v in [VariableValue::Integer(-7), VariableValue::Boolean(fmi2True), VariableValue::Boolean(fmi2False)] {
        let ty = match v {
            VariableValue::Integer(_) => t2("i"),
            _ => t2("b"),
        };
        assert_eq!(parse_variable_value(ty, &v.to_literal()).unwrap(), v);
    }
}

fn start_values(pairs: &[(&str, &str)]) -> Vec<(String, String)> {
    pairs.iter().map(|(n, v)| (n.to_string(), v.to_string())).collect()
}

#[test]
fn start_values_must_name_variables() {
    let md2 = ModelDescription2::from_string(FMI2).unwrap();
    assert_eq!(check_start_value_names(&start_values(&[("r", "1"), ("i", "2")]), &md2), Ok(()));
    assert_eq!(
        check_start_value_names(&start_values(&[("x", "1"), ("r", "2"), ("y z", "3")]), &md2),
        Err("The start values for the following variables could not be set because they don't exist in the model description: 'x', 'y z'.".to_string())
    );
    let md3 = ModelDescription3::from_string(FMI3).unwrap();
    assert_eq!(check_start_value_names3(&start_values(&[]), &md3), Ok(()));
    assert_eq!(
        check_start_value_names3(&start_values(&[("f", "1"), ("q", "2")]), &md3),
        Err("The start values for the following variables could not be set because they don't exist in the model description: 'q'.".to_string())
    );
}

#[test]
fn csv_records_of_trajectories() {
    let md = ModelDescription3::from_string(FMI3).unwrap();
    let vars = vec![md.get_variable(2).unwrap(), md.get_variable(4).unwrap()];
    assert_eq!(csv_header(&vars), vec!["time".to_string(), "u".to_string(), "b".to_string()]);
    assert_eq!(csv_header(&vec![]), vec!["time".to_string()]);
    let row = vec![VariableValue3::UInt8(vec![1, 2]), VariableValue3::Boolean(vec![true])];
    assert_eq!(
        csv_record("0.5", &row),
        vec!["0.5".to_string(), "1 2".to_string(), "true".to_string()]
    );
}

#[test]
fn reads_trajectories_from_csv() {
    let md = ModelDescription3::from_string(FMI3).unwrap();
    let (vars, times, rows) = read_csv(b"time,u,b\n0,1 2,true\n0.5,3,false\n", &md).unwrap();
    assert_eq!(vars.len(), 2);
    assert_eq!(vars[0].name, "u");
    assert_eq!(vars[1].name, "b");
    assert_eq!(times, vec!["0".to_string(), "0.5".to_string()]);
    assert_eq!(rows[0], vec![VariableValue3::UInt8(vec![1, 2]), VariableValue3::Boolean(vec![true])]);
    assert_eq!(rows[1], vec![VariableValue3::UInt8(vec![3]), VariableValue3::Boolean(vec![false])]);
}

#[test]
fn csv_reading_errors() {
    let md = ModelDescription3::from_string(FMI3).unwrap();
    assert_eq!(
        read_csv(b"time,nope\n0,1\n", &md).err(),
        Some("Variable \"nope\" does not exist in the FMU.".to_string())
    );
    assert_eq!(
        read_csv(b"time,u\nx,1\n", &md).err(),
        Some("Failed to parse time value 'x' in row 2: invalid float literal".to_string())
    );
    assert_eq!(
        read_csv(b"time,u\n0,1\n1,300\n", &md).err(),
        Some("Failed to parse \"300\" (row 3, column 2). number too large to fit in target type".to_string())
    );
    assert!(read_csv(b"time,u\n0,1,2\n", &md).is_err());
    assert_eq!(read_csv(b"", &md).unwrap().0.len(), 0);
}

fn zip_of(entries: &[(&str, &[u8])]) -> Vec<u8> {
    let mut buf = std::io::Cursor::new(Vec::new());
    {
        let mut w = zip::ZipWriter::new(&mut buf);
        for (name, data) in entries {
            if name.ends_with('/') {
                w.add_directory(name.trim_end_matches('/'), zip::write::SimpleFileOptions::default()).unwrap();
            } else {
                w.start_file(*name, zip::write::SimpleFileOptions::default()).unwrap();
                std::io::Write::write_all(&mut w, data).unwrap();
            }
        }
        w.finish().unwrap();
    }
    buf.into_inner()
}

#[test]
fn lists_and_extracts_zip_entries() {
    let bytes = zip_of(&[("modelDescription.xml", b"<x/>"), ("binaries/", b""), ("binaries/a.so", b"ab")]);
    assert_eq!(
        zip_entry_names(&bytes).unwrap(),
        vec!["modelDescription.xml".to_string(), "binaries".to_string(), "binaries/a.so".to_string()]
    );
    let (steps, error) = zip_extraction(&bytes).unwrap();
    assert!(error.is_none());
    assert_eq!(steps.len(), 3);
    assert!(!steps[0].is_dir);
    assert_eq!(steps[0].contents.as_ref().unwrap(), b"<x/>");
    assert!(steps[1].is_dir);
    assert_eq!(steps[2].contents.as_ref().unwrap(), b"ab");
    assert!(zip_entry_names(b"not a zip").is_err());
}
