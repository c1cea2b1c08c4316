use box_kernel::kernel::pipeline_config;
use box_kernel::variables::replace_hocon_parameters;

struct TestCase<'a> {
    input: &'a str,
    output: &'a str,
}

#[test]
fn test_replace_parameters() {
    let cases: Vec<TestCase> = vec![
        TestCase {
            input: r#"{"inputURI": "s3://"${VARIABLE_ONE}"/green_tripdata_2013-08.csv*"}"#,
            output: r#"{"inputURI": "s3://${VARIABLE_ONE}/green_tripdata_2013-08.csv*"}"#,
        },
        TestCase {
            input: r#"{"inputURI": ${VARIABLE_ONE}"/green_tripdata_2013-08.csv*"}"#,
            output: r#"{"inputURI": "${VARIABLE_ONE}/green_tripdata_2013-08.csv*"}"#,
        },
        TestCase {
            input: r#"{"inputURI": "s3://"${VARIABLE_ONE}}"#,
            output: r#"{"inputURI": "s3://${VARIABLE_ONE}"}"#,
        },
        TestCase {
            input: r#"{"inputURI": "s3://"${VARIABLE_ONE}"/"${VARIABLE_TWO}}"#,
            output: r#"{"inputURI": "s3://${VARIABLE_ONE}/${VARIABLE_TWO}"}"#,
        },
    ];

    cases.iter().for_each(|test| {
        // also ensure the output case is valid
        let _: serde_json::Value = serde_json::from_str(test.output).unwrap();

        // assert match
        let config = replace_hocon_parameters(test.input);
        assert_eq!(&config, test.output);
    });
}

#[test]
fn replace_hocon_parameters_leaves_plain_json_alone() {
    let input = r#"{"type": "SQLTransform", "sql": "SELECT 1"}"#;
    assert_eq!(replace_hocon_parameters(input), input);
}

#[test]
fn pipeline_config_wraps_cell_in_stage_list() {
    let cell = r#"{"inputURI": "s3://"${VARIABLE_ONE}}"#;
    assert_eq!(pipeline_config(cell), r#"[{"inputURI": "s3://${VARIABLE_ONE}"}]"#);
}

use box_kernel::variables::{substitute_variables, SubstitutionError};

fn params(pairs: &[(&str, &str)]) -> Vec<(String, String)> {
    pairs.iter().map(|(k, v)| (k.to_string(), v.to_string())).collect()
}

#[test]
fn substitute_replaces_every_placeholder_of_a_parameter() {
    let r = substitute_variables(
        "a ${A} b ${A=default} ${B}".to_string(),
        &params(&[("A", "x"), ("B", "y")]),
        false,
        false,
    );
    assert_eq!(r.ok(), Some("a x b x y".to_string()));
}

#[test]
fn substitute_parameter_without_placeholder() {
    let r = substitute_variables("${A}".to_string(), &params(&[("A", "1"), ("B", "2")]), false, false);
    match r {
        Err(SubstitutionError::MissingPlaceholder(k)) => assert_eq!(k, "B"),
        _ => panic!("expected a missing placeholder"),
    }
    let r = substitute_variables("${A}".to_string(), &params(&[("A", "1"), ("B", "2")]), true, false);
    assert_eq!(r.ok(), Some("1".to_string()));
}

#[test]
fn substitute_placeholders_without_parameter() {
    let r = substitute_variables("${Z} ${Z} ${A} ${Z}".to_string(), &params(&[]), false, false);
    match r {
        Err(SubstitutionError::MissingParameters(v)) => {
            assert_eq!(v, vec!["${A}".to_string(), "${Z}".to_string(), "${Z}".to_string()])
        }
        _ => panic!("expected missing parameters"),
    }
    let r = substitute_variables("${Z}".to_string(), &params(&[]), false, true);
    assert_eq!(r.ok(), Some("${Z}".to_string()));
}
