use callbot::config::{
    Action, AppConfig, Column, Config, LoadError, Parameter, ParameterOption, ParameterType,
};

fn text_param(name: &str, placeholder: &str, default: Option<&str>) -> Parameter {
    Parameter {
        name: name.to_string(),
        placeholder: placeholder.to_string(),
        param_type: ParameterType::Text,
        required: false,
        description: None,
        options: Vec::new(),
        default: default.map(|d| d.to_string()),
    }
}

fn select_param(
    name: &str,
    placeholder: &str,
    options: &[(&str, &str)],
    default: Option<&str>,
) -> Parameter {
    Parameter {
        name: name.to_string(),
        placeholder: placeholder.to_string(),
        param_type: ParameterType::Select,
        required: false,
        description: None,
        options: options
            .iter()
            .map(|(v, l)| ParameterOption { value: v.to_string(), label: l.to_string() })
            .collect(),
        default: default.map(|d| d.to_string()),
    }
}

fn action(label: &str, template: &str, parameters: Vec<Parameter>) -> Action {
    Action {
        label: label.to_string(),
        template: template.to_string(),
        description: None,
        parameters,
    }
}

fn column(id: &str, title: &str, actions: Vec<Action>) -> Column {
    Column { id: id.to_string(), title: title.to_string(), actions }
}

fn config(columns: Vec<Column>) -> Config {
    Config {
        app: AppConfig { title: "Launcher".to_string(), subtitle: "demo".to_string() },
        columns,
    }
}

#[test]
fn accepts_minimal_config() {
    let cfg = config(vec![column("c1", "Tools", vec![action("list", "ls -la", vec![])])]);
    assert_eq!(cfg.validate(), Ok(()));
}

#[test]
fn accepts_config_with_parameters() {
    let cfg = config(vec![column(
        "c1",
        "Deploy",
        vec![action(
            "deploy",
            "deploy --env={{env}} --tag={{tag}}",
            vec![
                select_param("env", "{{env}}", &[("qlf", "QLF"), ("prod", "Prod")], Some("qlf")),
                text_param("tag", "{{tag}}", Some("latest")),
            ],
        )],
    )]);
    assert_eq!(cfg.validate(), Ok(()));
}

#[test]
fn rejects_empty_column_list() {
    let cfg = config(vec![]);
    assert_eq!(cfg.validate(), Err(LoadError::NoColumns));
}

#[test]
fn rejects_column_without_actions() {
    let cfg = config(vec![
        column("c1", "Tools", vec![action("list", "ls", vec![])]),
        column("c2", "Empty", vec![]),
    ]);
    assert_eq!(cfg.validate(), Err(LoadError::NoActions { column: 1 }));
}

#[test]
fn rejects_select_parameter_without_options() {
    let cfg = config(vec![column(
        "c1",
        "Deploy",
        vec![action("deploy", "deploy {{env}}", vec![select_param("env", "{{env}}", &[], None)])],
    )]);
    assert_eq!(
        cfg.validate(),
        Err(LoadError::SelectWithoutOptions { column: 0, action: 0, parameter: 0 })
    );
}

#[test]
fn rejects_empty_column_id() {
    let cfg = config(vec![column("", "Tools", vec![action("list", "ls", vec![])])]);
    assert_eq!(cfg.validate(), Err(LoadError::EmptyColumnId { column: 0 }));
}

#[test]
fn rejects_empty_column_title() {
    let cfg = config(vec![column("c1", "", vec![action("list", "ls", vec![])])]);
    assert_eq!(cfg.validate(), Err(LoadError::EmptyColumnTitle { column: 0 }));
}

#[test]
fn rejects_empty_action_label() {
    let cfg = config(vec![column("c1", "Tools", vec![action("", "ls", vec![])])]);
    assert_eq!(cfg.validate(), Err(LoadError::EmptyActionLabel { column: 0, action: 0 }));
}

#[test]
fn rejects_empty_action_template() {
    let cfg = config(vec![column(
        "c1",
        "Tools",
        vec![action("list", "ls", vec![]), action("broken", "", vec![])],
    )]);
    assert_eq!(cfg.validate(), Err(LoadError::EmptyActionTemplate { column: 0, action: 1 }));
}

#[test]
fn rejects_empty_parameter_name() {
    let cfg = config(vec![column(
        "c1",
        "Tools",
        vec![action("list", "ls {{p}}", vec![text_param("", "{{p}}", None)])],
    )]);
    assert_eq!(
        cfg.validate(),
        Err(LoadError::EmptyParameterName { column: 0, action: 0, parameter: 0 })
    );
}

#[test]
fn rejects_empty_placeholder() {
    let cfg = config(vec![column(
        "c1",
        "Tools",
        vec![action(
            "list",
            "ls {{p}}",
            vec![text_param("path", "{{p}}", None), text_param("depth", "", None)],
        )],
    )]);
    assert_eq!(
        cfg.validate(),
        Err(LoadError::EmptyPlaceholder { column: 0, action: 0, parameter: 1 })
    );
}

#[test]
fn reports_first_violation_in_document_order() {
    let cfg = config(vec![
        column("c1", "", vec![]),
        column("", "Tools", vec![action("", "", vec![])]),
    ]);
    assert_eq!(cfg.validate(), Err(LoadError::EmptyColumnTitle { column: 0 }));
}
