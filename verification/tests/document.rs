use womscp_server::cli::{Cli, Commands};
use womscp_server::document::{Document, Value};

fn sample() -> Document {
    Document {
        entries: vec![
            ("address".to_string(), Value::Text("h:1".to_string())),
            ("count".to_string(), Value::Integer(-4)),
            ("flag".to_string(), Value::Other),
            ("count".to_string(), Value::Integer(8)),
        ],
    }
}

#[test]
fn get_finds_the_value_under_a_key() {
    let document = sample();
    assert_eq!(document.get("address"), Some(&Value::Text("h:1".to_string())));
    assert_eq!(document.get("flag"), Some(&Value::Other));
}

#[test]
fn get_takes_the_first_of_two_entries() {
    assert_eq!(sample().get("count"), Some(&Value::Integer(-4)));
}

#[test]
fn get_finds_nothing_under_a_missing_key() {
    let document = sample();
    assert_eq!(document.get("database"), None);
    assert_eq!(document.get("addres"), None);
    assert_eq!(document.get(""), None);
}

#[test]
fn get_finds_nothing_in_an_empty_document() {
    let document = Document { entries: Vec::new() };
    assert_eq!(document.get("address"), None);
}

#[test]
fn config_path_is_the_default_without_a_flag() {
    let cli = Cli { config: None, command: None };
    assert_eq!(cli.config_path(), "config.toml");
}

#[test]
fn config_path_is_the_one_given() {
    let cli = Cli { config: Some("/etc/womscp/server.toml".to_string()), command: None };
    assert_eq!(cli.config_path(), "/etc/womscp/server.toml");
}

#[test]
fn init_asks_for_provisioning() {
    let cli = Cli { config: None, command: Some(Commands::Init) };
    assert!(cli.provisions());
}

#[test]
fn no_subcommand_asks_for_no_provisioning() {
    let cli = Cli { config: Some("x.toml".to_string()), command: None };
    assert!(!cli.provisions());
}
