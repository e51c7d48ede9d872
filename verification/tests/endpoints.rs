use chuncord::cli::{Args, Command, WebhookCommand};
use chuncord::config::{
    add_webhook, default_webhook, del_webhook, get_configpath, get_webhook, list_webhooks, literal_webhook, Config,
    ConfigError, Webhook,
};
use chuncord::document::{Entry, Node};

fn kept() -> Config {
    let mut cfg = Config::new();
    add_webhook(&mut cfg, "main".to_string(), "https://host.example/1".to_string()).ok().unwrap();
    add_webhook(&mut cfg, "spare".to_string(), "https://host.example/2".to_string()).ok().unwrap();
    cfg
}

fn text(r: Result<String, ConfigError>) -> Result<String, String> {
    r.map_err(|e| e.message())
}

#[test]
fn first_endpoint_becomes_the_default() {
    let cfg = kept();
    assert_eq!(cfg.default_webhook.as_deref(), Some("main"));
    assert_eq!(cfg.webhooks.len(), 2);
}

#[test]
fn endpoint_is_resolved_by_literal_name_or_default() {
    let cfg = kept();
    assert_eq!(text(get_webhook(Some("raw:https://x.example/h"), &cfg)), Ok("https://x.example/h".to_string()));
    assert_eq!(text(get_webhook(Some("raw:"), &cfg)), Ok(String::new()));
    assert_eq!(text(get_webhook(Some("spare"), &cfg)), Ok("https://host.example/2".to_string()));
    assert_eq!(text(get_webhook(None, &cfg)), Ok("https://host.example/1".to_string()));
    assert_eq!(text(get_webhook(Some("other"), &cfg)), Err("Webhook named 'other' not found.".to_string()));
    assert_eq!(text(get_webhook(Some("raw"), &cfg)), Err("Webhook named 'raw' not found.".to_string()));
    assert_eq!(text(get_webhook(None, &Config::new())), Err("No default webhook set".to_string()));
    assert_eq!(literal_webhook("raw:abc"), Some("abc".to_string()));
    assert_eq!(literal_webhook("main"), None);
}

#[test]
fn default_that_was_dropped_is_not_found() {
    let mut cfg = kept();
    assert!(del_webhook(&mut cfg, "main").is_ok());
    assert_eq!(cfg.webhooks.len(), 1);
    assert_eq!(cfg.default_webhook.as_deref(), Some("main"));
    assert_eq!(text(get_webhook(None, &cfg)), Err("Default webhook 'main' not found.".to_string()));
}

#[test]
fn endpoint_names_are_kept_once() {
    let mut cfg = kept();
    let refused = add_webhook(&mut cfg, "main".to_string(), "https://other".to_string());
    assert_eq!(refused.map_err(|e| e.message()), Err("Webhook main already exists".to_string()));
    assert_eq!(cfg.webhooks.len(), 2);
    assert_eq!(text(get_webhook(Some("main"), &cfg)), Ok("https://host.example/1".to_string()));
}

#[test]
fn unknown_endpoint_cannot_be_dropped_or_made_default() {
    let mut cfg = kept();
    assert_eq!(del_webhook(&mut cfg, "x").map_err(|e| e.message()), Err("Webhook 'x' not found.".to_string()));
    assert_eq!(
        default_webhook(&mut cfg, "x".to_string()).map_err(|e| e.message()),
        Err("Webhook 'x' not found.".to_string())
    );
    assert!(default_webhook(&mut cfg, "spare".to_string()).is_ok());
    assert_eq!(cfg.default_webhook.as_deref(), Some("spare"));
}

#[test]
fn listing_marks_the_default() {
    let lines = list_webhooks(&kept());
    assert_eq!(
        lines,
        vec![
            " - [*] main \u{1b}[90m(https://host.example/1)\u{1b}[0m".to_string(),
            " - spare \u{1b}[90m(https://host.example/2)\u{1b}[0m".to_string(),
        ]
    );
}

#[test]
fn config_is_stored_as_toml_and_read_back() {
    let cfg = kept();
    let stored = cfg.save().ok().unwrap();
    let value: toml::Value = toml::from_str(&stored).unwrap();
    assert_eq!(value.get("default_webhook").and_then(|v| v.as_str()), Some("main"));
    assert_eq!(
        value.get("webhooks").and_then(|v| v.get("spare")).and_then(|v| v.as_str()),
        Some("https://host.example/2")
    );
    let loaded = Config::load(Some(&stored)).ok().unwrap();
    assert!(!loaded.created);
    assert_eq!(loaded.config.default_webhook.as_deref(), Some("main"));
    assert_eq!(text(get_webhook(Some("spare"), &loaded.config)), Ok("https://host.example/2".to_string()));
    assert_eq!(text(get_webhook(None, &loaded.config)), Ok("https://host.example/1".to_string()));
    assert_eq!(loaded.config.webhooks.len(), 2);
}

#[test]
fn config_without_a_file_is_made_new() {
    let loaded = Config::load(None).ok().unwrap();
    assert!(loaded.created);
    assert!(loaded.config.webhooks.is_empty());
    assert!(loaded.config.default_webhook.is_none());
    let stored = loaded.config.save().ok().unwrap();
    let again = Config::load(Some(&stored)).ok().unwrap();
    assert!(again.config.webhooks.is_empty());
}

#[test]
fn config_that_is_no_config_is_malformed() {
    for stored in ["", "webhooks = 5", "[webhooks]\nmain = 5", "default_webhook = 1\n[webhooks]", "[webhooks"] {
        assert!(matches!(Config::load(Some(stored)), Err(ConfigError::Malformed)), "{}", stored);
    }
    assert!(Config::load(Some("[webhooks]\n")).is_ok());
}

#[test]
fn last_entry_of_a_name_counts() {
    let cfg = Config {
        webhooks: vec![
            Webhook { name: "a".to_string(), url: "1".to_string() },
            Webhook { name: "a".to_string(), url: "2".to_string() },
        ],
        default_webhook: None,
    };
    assert_eq!(text(get_webhook(Some("a"), &cfg)), Ok("2".to_string()));
    let mut cfg = cfg;
    assert!(del_webhook(&mut cfg, "a").is_ok());
    assert!(cfg.webhooks.is_empty());
}

#[test]
fn config_lies_in_its_own_directory() {
    let path = get_configpath();
    assert_eq!(path.directory, "dcfzf");
    assert_eq!(path.file, "config.toml");
}

#[test]
fn webhook_commands_change_the_config_or_list_it() {
    let mut cfg = Config::new();
    let outcome = WebhookCommand::Add { name: "main".to_string(), url: "u".to_string() }.apply(&mut cfg).ok().unwrap();
    assert!(outcome.changed && outcome.lines.is_empty());
    let outcome = WebhookCommand::List.apply(&mut cfg).ok().unwrap();
    assert!(!outcome.changed);
    assert_eq!(outcome.lines, vec![" - [*] main \u{1b}[90m(u)\u{1b}[0m".to_string()]);
    assert!(WebhookCommand::Default { name: "none".to_string() }.apply(&mut cfg).is_err());
    assert!(WebhookCommand::Default { name: "main".to_string() }.apply(&mut cfg).is_ok());
    assert!(WebhookCommand::Delete { name: "main".to_string() }.apply(&mut cfg).is_ok());
    assert!(WebhookCommand::Delete { name: "main".to_string() }.apply(&mut cfg).is_err());
    assert!(cfg.webhooks.is_empty());
}

#[test]
fn commands_that_go_to_an_endpoint_name_it() {
    let upload = Args { command: Command::Upload { file: "f".to_string(), webhook: Some("main".to_string()) } };
    assert!(upload.command.needs_endpoint());
    assert_eq!(upload.command.webhook().map(|s| s.as_str()), Some("main"));
    let erase = Command::Delete { mid: 4, webhook: None };
    assert!(erase.needs_endpoint());
    assert_eq!(erase.webhook(), None);
    let fetch = Command::Download { url: "u".to_string(), output: None };
    assert!(!fetch.needs_endpoint());
    assert!(!Command::Webhook { command: WebhookCommand::List }.needs_endpoint());
}

#[test]
fn config_with_a_name_twice_is_stored_with_its_last_entry() {
    let cfg = Config {
        webhooks: vec![
            Webhook { name: "a".to_string(), url: "first".to_string() },
            Webhook { name: "b".to_string(), url: "other".to_string() },
            Webhook { name: "a".to_string(), url: "last".to_string() },
        ],
        default_webhook: None,
    };
    let stored = cfg.save().ok().unwrap();
    let value: toml::Value = toml::from_str(&stored).unwrap();
    assert_eq!(value.get("webhooks").and_then(|v| v.get("a")).and_then(|v| v.as_str()), Some("last"));
    assert_eq!(value.get("webhooks").and_then(|v| v.get("b")).and_then(|v| v.as_str()), Some("other"));
    let loaded = Config::load(Some(&stored)).ok().unwrap().config;
    assert_eq!(loaded.webhooks.len(), 2);
    assert_eq!(list_webhooks(&loaded).len(), 2);
}

#[test]
fn config_read_from_a_document_keeps_every_name_once() {
    let table = Node::Table(vec![
        Entry { key: "a".to_string(), value: Node::Integer(5) },
        Entry { key: "b".to_string(), value: Node::Text("other".to_string()) },
        Entry { key: "a".to_string(), value: Node::Text("last".to_string()) },
    ]);
    let document = Node::Table(vec![Entry { key: "webhooks".to_string(), value: table }]);
    let cfg = Config::from_node(&document).expect("the overridden entry does not count");
    assert_eq!(cfg.webhooks.len(), 2);
    assert_eq!(get_webhook(Some("a"), &cfg).ok(), Some("last".to_string()));
    assert_eq!(get_webhook(Some("b"), &cfg).ok(), Some("other".to_string()));
}
