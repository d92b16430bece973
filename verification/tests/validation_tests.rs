use fmi_rs::model_description::validation::validate_structured_variable_name;

#[test]
fn test_structured_variable_name_validation() {
    let valid_names = vec![
        "_",
        "der(x)",
        "a.b.c",
        "v[1]",
        "v[1,2]",
        "'quoted.name'",
        "der('quoted name'[1])",
        "der(a[1].b[2,3].c)",
    ];

    for name in valid_names {
        assert_eq!(validate_structured_variable_name(name), Ok(()));
    }

    let invalid_names = vec![
        (
            "1x",
            "syntax error, unexpected UNSIGNED_INTEGER, expecting DER or NONDIGIT or Q_NAME",
        ),
        (
            "a..b",
            "syntax error, unexpected '.', expecting NONDIGIT or Q_NAME",
        ),
        (
            "a[1",
            "syntax error, unexpected end of file, expecting ',' or ']'",
        ),
        (
            "a[1,2",
            "syntax error, unexpected end of file, expecting ',' or ']'",
        ),
        (
            "a[1]b",
            "syntax error, unexpected NONDIGIT, expecting end of file",
        ),
        (
            "der(a[1].b[2].c",
            "syntax error, unexpected end of file, expecting ')' or ',' or '.'",
        ),
    ];

    for (name, expected_error) in invalid_names {
        assert_eq!(
            validate_structured_variable_name(name),
            Err(expected_error.to_string())
        );
    }
}

#[test]
fn structured_name_with_derivative_order() {
    assert_eq!(validate_structured_variable_name("der(x,2)"), Ok(()));
    assert_eq!(
        validate_structured_variable_name("der(x,)"),
        Err("syntax error, unexpected ')', expecting UNSIGNED_INTEGER".to_string())
    );
    assert_eq!(
        validate_structured_variable_name("der(x,2"),
        Err("syntax error, unexpected end of file, expecting ')'".to_string())
    );
}

#[test]
fn structured_name_errors_name_the_unexpected_token() {
    assert_eq!(
        validate_structured_variable_name(""),
        Err("syntax error, unexpected end of file, expecting DER or NONDIGIT or Q_NAME".to_string())
    );
    assert_eq!(
        validate_structured_variable_name("a b"),
        Err("syntax error, unexpected invalid token, expecting end of file".to_string())
    );
    assert_eq!(
        validate_structured_variable_name("v[]"),
        Err("syntax error, unexpected ']', expecting UNSIGNED_INTEGER".to_string())
    );
    assert_eq!(
        validate_structured_variable_name("der(x))"),
        Err("syntax error, unexpected ')', expecting end of file".to_string())
    );
    assert_eq!(validate_structured_variable_name("'a\\'b'"), Ok(()));
    assert_eq!(
        validate_structured_variable_name("''"),
        Err("syntax error, unexpected invalid token, expecting DER or NONDIGIT or Q_NAME".to_string())
    );
}

#[test]
fn names_of_the_grammar_are_accepted() {
    for name in ["x1_Y", "'a\\'b'", "'\\n'", "a.'b c'[0].d", "der(a.b[1,22],3)", "der", "dera(1)"] {
        let ok = validate_structured_variable_name(name).is_ok();
        let expected = !name.starts_with("dera");
        assert_eq!(ok, expected, "{name}");
    }
    for name in ["''", "'a", "a.", "der(x)y", "der(1)", "a[1][2]", "(x)", "der(x,1,2)"] {
        assert!(validate_structured_variable_name(name).is_err(), "{name}");
    }
}
