use dsh_lite::cli::{
    cache_percent, choose_skill, cli_action, cli_prompt, default_skill, help_text, marked_path,
    parse_cli_skill, preview, resolve_config_path, CliAction,
};
use dsh_lite::subagent::make_plan_skill;

fn args(list: &[&str]) -> Vec<String> {
    list.iter().map(|s| s.to_string()).collect()
}

#[test]
fn the_first_argument_says_what_to_do() {
    assert_eq!(cli_action(&args(&["p"])), CliAction::Run);
    assert_eq!(cli_action(&args(&["p", "-V"])), CliAction::Version);
    assert_eq!(cli_action(&args(&["p", "--version"])), CliAction::Version);
    assert_eq!(cli_action(&args(&["p", "-h"])), CliAction::Help);
    assert_eq!(cli_action(&args(&["p", "x", "--help"])), CliAction::Run);
    assert_eq!(cli_prompt(&args(&["p", "do it"])), Some("do it".to_string()));
    assert_eq!(cli_prompt(&args(&["p", "--skill", "a"])), None);
    assert_eq!(cli_prompt(&args(&["p", "--skill", "a", "do it"])), Some("do it".to_string()));
    assert_eq!(cli_prompt(&args(&["p", "--skill=a", "do it"])), Some("do it".to_string()));
    assert_eq!(cli_prompt(&args(&["p", "do it", "--skill", "a"])), Some("do it".to_string()));
    assert_eq!(cli_prompt(&args(&["p", "--skill"])), None);
    assert_eq!(cli_prompt(&args(&["p"])), None);
}

#[test]
fn a_skill_is_named_in_either_form() {
    assert_eq!(parse_cli_skill(&args(&["p", "--skill", "a"])), Some("a".to_string()));
    assert_eq!(parse_cli_skill(&args(&["p", "x", "--skill=b"])), Some("b".to_string()));
    assert_eq!(parse_cli_skill(&args(&["p", "--skill"])), None);
    assert_eq!(parse_cli_skill(&args(&["p", "--skills"])), None);
}

#[test]
fn the_command_line_goes_before_the_configuration() {
    let skills = vec![make_plan_skill("a", "", ""), make_plan_skill("b", "", "")];
    let a = Some("a".to_string());
    let b = Some("b".to_string());
    assert_eq!(choose_skill(&a, &b, &skills).name, "a");
    assert_eq!(choose_skill(&None, &b, &skills).name, "b");
    assert_eq!(choose_skill(&None, &None, &skills).name, default_skill().name);
    assert_eq!(choose_skill(&Some("z".into()), &b, &skills).name, "a");
    assert_eq!(choose_skill(&Some("z".into()), &b, &vec![]).name, "default");
}

#[test]
fn the_configuration_is_looked_for_in_order() {
    let some = |s: &str| Some(s.to_string());
    assert_eq!(resolve_config_path(some("e"), some("m"), some("b")), "e");
    assert_eq!(resolve_config_path(None, some("m"), some("b")), "m");
    assert_eq!(resolve_config_path(None, None, some("b")), "b");
    assert_eq!(resolve_config_path(None, None, None), "config/default.yaml");
    assert_eq!(marked_path(" /etc/x.yaml\n"), some("/etc/x.yaml"));
    assert_eq!(marked_path(" \n"), None);
}

#[test]
fn shares_of_the_cache_are_percents() {
    assert_eq!(cache_percent(0, 0), 0);
    assert_eq!(cache_percent(1, 2), 33);
    assert_eq!(cache_percent(u64::MAX, u64::MAX), 50);
}

#[test]
fn a_preview_is_short() {
    assert_eq!(preview("abc"), "abc");
    let long: String = "日".repeat(600);
    assert_eq!(preview(&long), "日".repeat(500));
}

#[test]
fn help_names_the_version() {
    assert!(help_text("1.2.3").starts_with("dsh-lite 1.2.3 "));
}
