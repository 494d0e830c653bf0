use callbot::config::{
    Action, AppConfig, Column, Config, Parameter, ParameterOption, ParameterType,
};
use callbot::event::{Effect, InputEvent};
use callbot::ui::App;

fn text_param(name: &str, placeholder: &str, default: Option<&str>) -> Parameter {
    Parameter {
        name: name.to_string(),
        placeholder: placeholder.to_string(),
        param_type: ParameterType::Text,
        required: false,
        description: None,
        options: Vec::new(),
        default: default.map(|d| d.to_string()),
    }
}

fn select_param(
    name: &str,
    placeholder: &str,
    options: &[(&str, &str)],
    default: Option<&str>,
) -> Parameter {
    Parameter {
        name: name.to_string(),
        placeholder: placeholder.to_string(),
        param_type: ParameterType::Select,
        required: false,
        description: None,
        options: options
            .iter()
            .map(|(v, l)| ParameterOption { value: v.to_string(), label: l.to_string() })
            .collect(),
        default: default.map(|d| d.to_string()),
    }
}

fn action(label: &str, template: &str, parameters: Vec<Parameter>) -> Action {
    Action {
        label: label.to_string(),
        template: template.to_string(),
        description: None,
        parameters,
    }
}

fn column(id: &str, title: &str, actions: Vec<Action>) -> Column {
    Column { id: id.to_string(), title: title.to_string(), actions }
}

fn config(columns: Vec<Column>) -> Config {
    Config {
        app: AppConfig { title: "Launcher".to_string(), subtitle: "demo".to_string() },
        columns,
    }
}

fn three_action_app() -> App {
    App::new(config(vec![column(
        "c1",
        "Tools",
        vec![
            action("first", "run 1", vec![]),
            action("second", "run 2", vec![]),
            action("third", "run 3", vec![]),
        ],
    )]))
}

fn deploy_app() -> App {
    App::new(config(vec![column(
        "c1",
        "Deploy",
        vec![action(
            "deploy",
            "deploy --env={{env}} --tag={{tag}}",
            vec![
                select_param("env", "{{env}}", &[("qlf", "QLF"), ("prod", "Prod")], Some("qlf")),
                text_param("tag", "{{tag}}", Some("latest")),
            ],
        )],
    )]))
}

fn selected(app: &App, c: usize) -> Option<usize> {
    app.columns[c].selected
}

#[test]
fn initial_state_selects_first_action() {
    let app = three_action_app();
    assert_eq!(app.focused_column, 0);
    assert!(!app.show_details);
    assert!(!app.details_in_edit);
    assert_eq!(selected(&app, 0), Some(0));
}

#[test]
fn initial_state_of_empty_column_has_no_selection() {
    let app = App::new(config(vec![
        column("c1", "Tools", vec![action("list", "ls", vec![])]),
        column("c2", "Empty", vec![]),
    ]));
    assert_eq!(selected(&app, 0), Some(0));
    assert_eq!(selected(&app, 1), None);
}

#[test]
fn up_and_down_clamp_at_column_bounds() {
    let mut app = three_action_app();
    app.handle_event(InputEvent::Up, 1);
    assert_eq!(selected(&app, 0), Some(0));
    app.handle_event(InputEvent::Down, 1);
    app.handle_event(InputEvent::Down, 1);
    app.handle_event(InputEvent::Down, 1);
    app.handle_event(InputEvent::Down, 1);
    assert_eq!(selected(&app, 0), Some(2));
    app.handle_event(InputEvent::Up, 1);
    assert_eq!(selected(&app, 0), Some(1));
}

#[test]
fn page_moves_clamp_at_column_bounds() {
    let mut app = three_action_app();
    app.handle_event(InputEvent::PageDown, 2);
    assert_eq!(selected(&app, 0), Some(2));
    app.handle_event(InputEvent::PageDown, 2);
    assert_eq!(selected(&app, 0), Some(2));
    app.handle_event(InputEvent::PageUp, 1);
    assert_eq!(selected(&app, 0), Some(1));
    app.handle_event(InputEvent::PageUp, 5);
    assert_eq!(selected(&app, 0), Some(0));
}

#[test]
fn home_and_end_jump_to_bounds() {
    let mut app = three_action_app();
    app.handle_event(InputEvent::End, 1);
    assert_eq!(selected(&app, 0), Some(2));
    app.handle_event(InputEvent::Home, 1);
    assert_eq!(selected(&app, 0), Some(0));
}

#[test]
fn navigation_on_empty_column_keeps_no_selection() {
    let mut app = App::new(config(vec![
        column("c1", "Empty", vec![]),
        column("c2", "Tools", vec![action("list", "ls", vec![])]),
    ]));
    for ev in [
        InputEvent::Up,
        InputEvent::Down,
        InputEvent::PageUp,
        InputEvent::PageDown,
        InputEvent::Home,
        InputEvent::End,
    ] {
        app.handle_event(ev, 3);
        assert_eq!(selected(&app, 0), None);
    }
}

#[test]
fn switch_column_cycles_back_after_column_count_steps() {
    let mut app = App::new(config(vec![
        column("c1", "A", vec![action("a", "a", vec![])]),
        column("c2", "B", vec![action("b", "b", vec![])]),
        column("c3", "C", vec![action("c", "c", vec![])]),
    ]));
    assert_eq!(app.focused_column, 0);
    app.handle_event(InputEvent::SwitchColumn, 1);
    assert_eq!(app.focused_column, 1);
    app.handle_event(InputEvent::SwitchColumn, 1);
    assert_eq!(app.focused_column, 2);
    app.handle_event(InputEvent::SwitchColumn, 1);
    assert_eq!(app.focused_column, 0);
}

#[test]
fn confirm_without_selection_does_not_open_details() {
    let mut app = App::new(config(vec![
        column("c1", "Empty", vec![]),
        column("c2", "Tools", vec![action("list", "ls", vec![])]),
    ]));
    app.handle_event(InputEvent::Confirm, 1);
    assert!(!app.show_details);
}

#[test]
fn confirm_opens_details_and_cancel_closes_them() {
    let mut app = deploy_app();
    app.handle_event(InputEvent::Confirm, 1);
    assert!(app.show_details);
    assert_eq!(app.details_focused_param, 0);
    app.handle_event(InputEvent::Cancel, 1);
    assert!(!app.show_details);
}

#[test]
fn stale_parameter_focus_is_reset_on_entering_details() {
    let mut app = App::new(config(vec![column(
        "c1",
        "Tools",
        vec![
            action(
                "rich",
                "run {{a}} {{b}}",
                vec![text_param("a", "{{a}}", None), text_param("b", "{{b}}", None)],
            ),
            action("plain", "run {{x}}", vec![text_param("x", "{{x}}", None)]),
        ],
    )]));
    app.handle_event(InputEvent::Confirm, 1);
    app.handle_event(InputEvent::Down, 1);
    assert_eq!(app.details_focused_param, 1);
    app.handle_event(InputEvent::Cancel, 1);
    app.handle_event(InputEvent::Down, 1);
    app.handle_event(InputEvent::Confirm, 1);
    assert_eq!(app.details_focused_param, 0);
}

#[test]
fn select_cycling_stays_inside_option_bounds() {
    let mut app = deploy_app();
    app.handle_event(InputEvent::Confirm, 1);
    assert_eq!(app.param_selected[0][0][0], 0);
    app.handle_event(InputEvent::Left, 1);
    assert_eq!(app.param_selected[0][0][0], 0);
    app.handle_event(InputEvent::Right, 1);
    assert_eq!(app.param_selected[0][0][0], 1);
    assert_eq!(app.param_values[0][0][0], "prod");
    app.handle_event(InputEvent::Right, 1);
    assert_eq!(app.param_selected[0][0][0], 1);
    app.handle_event(InputEvent::Left, 1);
    assert_eq!(app.param_selected[0][0][0], 0);
    assert_eq!(app.param_values[0][0][0], "qlf");
}

#[test]
fn edit_cancel_restores_the_pre_edit_value() {
    let mut app = deploy_app();
    app.handle_event(InputEvent::Confirm, 1);
    app.handle_event(InputEvent::Down, 1);
    app.handle_event(InputEvent::Confirm, 1);
    assert!(app.details_in_edit);
    app.handle_event(InputEvent::Character('a'), 1);
    app.handle_event(InputEvent::Character('b'), 1);
    app.handle_event(InputEvent::Character('c'), 1);
    assert_eq!(app.param_values[0][0][1], "latestabc");
    app.handle_event(InputEvent::Cancel, 1);
    assert!(!app.details_in_edit);
    assert_eq!(app.param_values[0][0][1], "latest");
}

#[test]
fn edit_commit_keeps_the_typed_value() {
    let mut app = App::new(config(vec![column(
        "c1",
        "Tools",
        vec![action("run", "run {{v}}", vec![text_param("v", "{{v}}", Some("x"))])],
    )]));
    app.handle_event(InputEvent::Confirm, 1);
    app.handle_event(InputEvent::Confirm, 1);
    assert!(app.details_in_edit);
    app.handle_event(InputEvent::Backspace, 1);
    app.handle_event(InputEvent::Character('y'), 1);
    app.handle_event(InputEvent::Character('z'), 1);
    app.handle_event(InputEvent::Confirm, 1);
    assert!(!app.details_in_edit);
    assert_eq!(app.param_values[0][0][0], "yz");
}

#[test]
fn edit_mode_suppresses_navigation_keys() {
    let mut app = deploy_app();
    app.handle_event(InputEvent::Confirm, 1);
    app.handle_event(InputEvent::Down, 1);
    app.handle_event(InputEvent::Confirm, 1);
    assert!(app.details_in_edit);
    app.handle_event(InputEvent::SwitchColumn, 1);
    app.handle_event(InputEvent::Up, 1);
    app.handle_event(InputEvent::Left, 1);
    assert!(app.details_in_edit);
    assert_eq!(app.focused_column, 0);
    assert_eq!(app.details_focused_param, 1);
}

#[test]
fn templating_follows_cycling_and_editing() {
    let mut app = deploy_app();
    assert_eq!(app.preview(), "deploy --env=qlf --tag=latest");
    app.handle_event(InputEvent::Confirm, 1);
    app.handle_event(InputEvent::Right, 1);
    app.handle_event(InputEvent::Down, 1);
    app.handle_event(InputEvent::Confirm, 1);
    for _ in 0.."latest".len() {
        app.handle_event(InputEvent::Backspace, 1);
    }
    app.handle_event(InputEvent::Character('v'), 1);
    app.handle_event(InputEvent::Character('2'), 1);
    app.handle_event(InputEvent::Confirm, 1);
    assert_eq!(app.preview(), "deploy --env=prod --tag=v2");
}

#[test]
fn run_requests_execution_of_the_substituted_command() {
    let mut app = deploy_app();
    app.handle_event(InputEvent::Confirm, 1);
    let eff = app.handle_event(InputEvent::Run, 1);
    match eff {
        Effect::Execute(cmd) => assert_eq!(cmd, "deploy --env=qlf --tag=latest"),
        other => panic!("expected an execution request, got {:?}", other),
    }
}

#[test]
fn quit_terminates_from_browsing_and_details() {
    let mut app = deploy_app();
    let eff = app.handle_event(InputEvent::Quit, 1);
    assert!(matches!(eff, Effect::Terminate));
    app.handle_event(InputEvent::Confirm, 1);
    let eff = app.handle_event(InputEvent::Quit, 1);
    assert!(matches!(eff, Effect::Terminate));
}

#[test]
fn select_default_value_picks_the_matching_option() {
    let app = App::new(config(vec![column(
        "c1",
        "Deploy",
        vec![action(
            "deploy",
            "deploy {{env}}",
            vec![select_param(
                "env",
                "{{env}}",
                &[("qlf", "QLF"), ("pprod", "PProd"), ("prod", "Prod")],
                Some("pprod"),
            )],
        )],
    )]));
    assert_eq!(app.param_selected[0][0][0], 1);
    assert_eq!(app.param_values[0][0][0], "pprod");
}

#[test]
fn select_without_matching_default_falls_back_to_first_option() {
    let app = App::new(config(vec![column(
        "c1",
        "Deploy",
        vec![action(
            "deploy",
            "deploy {{env}}",
            vec![select_param("env", "{{env}}", &[("qlf", "QLF"), ("prod", "Prod")], Some("zzz"))],
        )],
    )]));
    assert_eq!(app.param_selected[0][0][0], 0);
    assert_eq!(app.param_values[0][0][0], "qlf");
}
