use callbot::config::{Parameter, ParameterType};
use callbot::template::{replace_all, substitute_values};

fn text_param(name: &str, placeholder: &str) -> Parameter {
    Parameter {
        name: name.to_string(),
        placeholder: placeholder.to_string(),
        param_type: ParameterType::Text,
        required: false,
        description: None,
        options: Vec::new(),
        default: None,
    }
}

#[test]
fn replace_single_occurrence() {
    assert_eq!(replace_all("echo {{msg}}", "{{msg}}", "hi"), "echo hi");
}

#[test]
fn replace_every_occurrence() {
    assert_eq!(replace_all("{{x}} and {{x}} and {{x}}", "{{x}}", "y"), "y and y and y");
}

#[test]
fn replace_without_occurrence_is_identity() {
    assert_eq!(replace_all("echo hello", "{{msg}}", "hi"), "echo hello");
}

#[test]
fn replace_scans_left_to_right_without_overlap() {
    assert_eq!(replace_all("aaa", "aa", "b"), "ba");
}

#[test]
fn replacement_text_is_not_rescanned() {
    assert_eq!(replace_all("ab", "a", "ab"), "abb");
}

#[test]
fn replace_with_empty_pattern_is_identity() {
    assert_eq!(replace_all("echo", "", "x"), "echo");
}

#[test]
fn replace_with_empty_replacement_deletes() {
    assert_eq!(replace_all("a-b-c", "-", ""), "abc");
}

#[test]
fn substitution_applies_parameters_in_declaration_order() {
    let template = "run {{a}} {{b}}".to_string();
    let params = vec![text_param("a", "{{a}}"), text_param("b", "{{b}}")];
    let values = vec!["one".to_string(), "two".to_string()];
    assert_eq!(substitute_values(&template, &params, &values), "run one two");
}

#[test]
fn earlier_value_can_introduce_a_later_placeholder() {
    let template = "run {{a}}".to_string();
    let params = vec![text_param("a", "{{a}}"), text_param("b", "{{b}}")];
    let values = vec!["{{b}}".to_string(), "late".to_string()];
    assert_eq!(substitute_values(&template, &params, &values), "run late");
}

#[test]
fn parameter_without_placeholder_in_template_is_inert() {
    let template = "deploy --env={{env}}".to_string();
    let params = vec![text_param("env", "{{env}}"), text_param("ghost", "{{ghost}}")];
    let with_one = substitute_values(&template, &params, &vec![
        "prod".to_string(),
        "anything".to_string(),
    ]);
    let with_other = substitute_values(&template, &params, &vec![
        "prod".to_string(),
        "something else".to_string(),
    ]);
    assert_eq!(with_one, "deploy --env=prod");
    assert_eq!(with_one, with_other);
}
