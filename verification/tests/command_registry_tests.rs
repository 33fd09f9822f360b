//! Command registry: built-ins, lookup, search, suggestions, plugins.

use ucode_tui::command_registry::{CommandCategory, CommandDef, CommandRegistry, CommandSource};

#[test]
fn test_registry_with_builtins() {
    let reg = CommandRegistry::with_builtins();
    assert_eq!(reg.list().len(), 10);
}

#[test]
fn test_resolve_exact_match() {
    let reg = CommandRegistry::with_builtins();
    let cmd = reg.resolve("/connect").unwrap();
    assert_eq!(cmd.name, "/connect");
    assert_eq!(cmd.description, "Connect provider or auth method");
}

#[test]
fn test_resolve_not_found() {
    let reg = CommandRegistry::with_builtins();
    assert!(reg.resolve("/nonexistent").is_none());
}

#[test]
fn test_search_by_name() {
    let reg = CommandRegistry::with_builtins();
    let results = reg.search("session");
    assert_eq!(results.len(), 3);
    for cmd in &results {
        assert!(
            cmd.name.contains("session") || cmd.description.to_lowercase().contains("session"),
            "unexpected: {}",
            cmd.name
        );
    }
}

#[test]
fn test_search_by_description() {
    let reg = CommandRegistry::with_builtins();
    let results = reg.search("checkpoint");
    assert!(!results.is_empty());
    assert!(results.iter().any(|c| c.name == "/checkpoint"));
}

#[test]
fn test_search_empty_query() {
    let reg = CommandRegistry::with_builtins();
    let results = reg.search("");
    assert_eq!(results.len(), 10);
}

#[test]
fn test_search_case_insensitive() {
    let reg = CommandRegistry::with_builtins();
    let results = reg.search("CONNECT");
    assert!(!results.is_empty());
    assert!(results.iter().any(|c| c.name == "/connect"));
}

#[test]
fn test_register_custom_command() {
    let mut reg = CommandRegistry::with_builtins();
    reg.register(CommandDef {
        name: "/custom".to_owned(),
        description: "A custom command".to_owned(),
        category: CommandCategory::Tools,
        source: CommandSource::User,
        args_hint: None,
        action: None,
    });
    let cmd = reg.resolve("/custom").unwrap();
    assert_eq!(cmd.name, "/custom");
    assert_eq!(reg.list().len(), 11);
}

#[test]
fn test_suggest_similar() {
    let reg = CommandRegistry::with_builtins();
    // "conect" shares prefix "con" with "/connect"
    let suggestions = reg.suggest("conect");
    assert!(
        suggestions.iter().any(|c| c.name == "/connect"),
        "expected /connect in suggestions for 'conect'"
    );
}

#[test]
fn test_command_source_badges() {
    assert_eq!(CommandSource::Builtin.badge(), "[builtin]");
    assert_eq!(CommandSource::User.badge(), "[user]");
    assert_eq!(CommandSource::Project.badge(), "[project]");
    assert_eq!(
        CommandSource::Plugin("my-plugin".to_owned()).badge(),
        "[plugin]"
    );
}


#[test]
fn remove_by_source_name_removes_matching_plugin_commands() {
    let mut reg = CommandRegistry::with_builtins();
    reg.register(CommandDef {
        name: "/analyze".to_owned(),
        description: "Run analysis".to_owned(),
        category: CommandCategory::Plugins,
        source: CommandSource::Plugin("code-analyzer".to_owned()),
        args_hint: None,
        action: None,
    });
    reg.register(CommandDef {
        name: "/lint".to_owned(),
        description: "Run linter".to_owned(),
        category: CommandCategory::Plugins,
        source: CommandSource::Plugin("linter".to_owned()),
        args_hint: None,
        action: None,
    });
    assert_eq!(reg.list().len(), 12);
    reg.remove_by_source_name("code-analyzer");
    assert_eq!(reg.list().len(), 11);
    assert!(reg.resolve("/analyze").is_none());
    assert!(reg.resolve("/lint").is_some());
}

#[test]
fn remove_by_source_name_leaves_builtins_intact() {
    let mut reg = CommandRegistry::with_builtins();
    reg.register(CommandDef {
        name: "/plugin-cmd".to_owned(),
        description: "Plugin command".to_owned(),
        category: CommandCategory::Plugins,
        source: CommandSource::Plugin("my-plugin".to_owned()),
        args_hint: None,
        action: None,
    });
    reg.remove_by_source_name("my-plugin");
    // All 10 builtins should remain.
    assert_eq!(reg.list().len(), 10);
    assert!(reg.resolve("/connect").is_some());
}
