use gitcmd::config::choose_value;
use gitcmd::config::parse_import_choices;
use gitcmd::config::parse_scope_choice;
use gitcmd::config::parse_yes_no;
use gitcmd::config::GitConfigSettings;
use gitcmd::config_io::parse_config_listing;
use gitcmd::config_io::parse_gitcmd_conf;
use gitcmd::config_io::GitCmdAlias;
use gitcmd::config_io::GitCmdConfig;
use gitcmd::config_io::GitConfig;

#[test]
fn alias_entries_round_trip() {
    let a = GitCmdAlias::new("st", "status");
    assert_eq!(a.to_entry(), "st=status");
    let b = GitCmdAlias::from_entry(" st = status ").unwrap();
    assert_eq!(b.identifier, "st");
    assert_eq!(b.command, "status");
    assert!(GitCmdAlias::from_entry("no entry here").is_none());
}

#[test]
fn alias_value_keeps_later_equal_signs() {
    let a = GitCmdAlias::from_entry("cfg=config user.name=Ada").unwrap();
    assert_eq!(a.identifier, "cfg");
    assert_eq!(a.command, "config user.name=Ada");
}

#[test]
fn config_entries_round_trip() {
    let c = GitConfig::new("user.name", "Ada Lovelace");
    assert_eq!(c.to_entry(), "user.name=Ada Lovelace");
    let d = GitConfig::from_entry("\tuser.email=ada@example.com").unwrap();
    assert_eq!(d.identifier, "user.email");
    assert_eq!(d.value, "ada@example.com");
    assert!(GitConfig::from_entry("gitconfig {").is_none());
}

#[test]
fn the_apply_command_quotes_the_value() {
    let c = GitConfig::new("user.name", "Ada Lovelace");
    assert_eq!(
        c.to_command("global"),
        "git config --global user.name \"Ada Lovelace\""
    );
}

#[test]
fn parse_line_sorts_entries_by_their_key() {
    let mut config = GitCmdConfig::new();
    config.parse_line("// a comment");
    config.parse_line("");
    config.parse_line("scope {");
    config.parse_line("\tglobal");
    config.parse_line("}");
    config.parse_line("\tuser.name=Ada");
    config.parse_line("\tst=status");
    assert_eq!(config.scope, "global");
    assert_eq!(config.git_configs.len(), 1);
    assert_eq!(config.git_configs[0].identifier, "user.name");
    assert_eq!(config.git_configs[0].value, "Ada");
    assert_eq!(config.git_cmds.len(), 1);
    assert_eq!(config.git_cmds[0].identifier, "st");
    assert_eq!(config.git_cmds[0].command, "status");
}

#[test]
fn a_whole_file_parses_section_by_section() {
    let lines: Vec<String> = vec![
        "scope {",
        "\tglobal",
        "}",
        "",
        "gitconfig {",
        "\tuser.email=ada@example.com",
        "\tinit.defaultbranch=main",
        "}",
        "",
        "gitcmd {",
        "\tst=status",
        "\ta=add -A",
        "}",
    ]
    .into_iter()
    .map(|s| s.to_string())
    .collect();
    let config = parse_gitcmd_conf(&lines);
    assert_eq!(config.scope, "global");
    assert_eq!(config.git_configs.len(), 2);
    assert_eq!(config.git_configs[1].identifier, "init.defaultbranch");
    assert_eq!(config.git_cmds.len(), 2);
    assert_eq!(config.git_cmds[1].command, "add -A");
}

#[test]
fn the_rendered_file_is_byte_exact() {
    let mut config = GitCmdConfig::new();
    config.parse_line("global");
    config.parse_line("user.name=Ada");
    config.parse_line("st=status");
    let expected = "scope {\n\tglobal\n}\n\n\
                    gitconfig {\n\tuser.name=Ada\n}\n\n\
                    gitcmd {\n\tst=status\n}\n";
    assert_eq!(config.to_file_text(), expected);
}

#[test]
fn rendering_then_parsing_restores_the_configuration() {
    let mut config = GitCmdConfig::new();
    config.parse_line("local");
    config.parse_line("core.editor=vim");
    config.parse_line("gac=add -A && commit");
    let text = config.to_file_text();
    let lines: Vec<String> = text.lines().map(|s| s.to_string()).collect();
    let back = parse_gitcmd_conf(&lines);
    assert_eq!(back.scope, "local");
    assert_eq!(back.git_configs.len(), 1);
    assert_eq!(back.git_configs[0].identifier, "core.editor");
    assert_eq!(back.git_cmds.len(), 1);
    assert_eq!(back.git_cmds[0].command, "add -A && commit");
}

#[test]
fn config_commands_apply_every_setting_at_the_scope() {
    let mut config = GitCmdConfig::new();
    config.parse_line("global");
    config.parse_line("user.name=Ada");
    config.parse_line("core.editor=vim");
    let commands = config.config_commands();
    assert_eq!(
        commands,
        vec![
            "git config --global user.name \"Ada\"".to_string(),
            "git config --global core.editor \"vim\"".to_string(),
        ]
    );
}

#[test]
fn a_config_listing_keeps_only_entries() {
    let lines: Vec<String> = vec!["user.name=Ada", "not an entry", "core.editor=vim"]
        .into_iter()
        .map(|s| s.to_string())
        .collect();
    let configs = parse_config_listing(&lines);
    assert_eq!(configs.len(), 2);
    assert_eq!(configs[0].identifier, "user.name");
    assert_eq!(configs[1].value, "vim");
}

#[test]
fn the_settings_table_names_fourteen_keys() {
    let settings = GitConfigSettings::new();
    assert_eq!(settings.settings.len(), 14);
    assert_eq!(settings.settings[0].identifier, "user.name");
    assert_eq!(settings.settings[1].identifier, "user.email");
    assert_eq!(settings.settings[10].identifier, "init.defaultBranch");
    assert_eq!(settings.settings[13].identifier, "core.pager");
    assert_eq!(settings.settings[3].example, "vim");
    assert!(settings.settings.iter().all(|s| !s.possibles.is_empty()));
}

#[test]
fn import_choices_name_their_scopes() {
    assert_eq!(
        parse_import_choices("1, 3").unwrap(),
        vec!["local".to_string(), "system".to_string()]
    );
    assert_eq!(parse_import_choices("4").unwrap(), vec!["none".to_string()]);
    assert!(parse_import_choices("1,5").is_none());
    assert!(parse_import_choices("").is_none());
}

#[test]
fn the_creation_scope_must_be_one_of_three() {
    assert_eq!(parse_scope_choice(" global "), Some("global".to_string()));
    assert_eq!(parse_scope_choice("local"), Some("local".to_string()));
    assert_eq!(parse_scope_choice("system"), Some("system".to_string()));
    assert_eq!(parse_scope_choice("other"), None);
    assert_eq!(parse_scope_choice(""), None);
}

#[test]
fn yes_no_replies_default_to_yes() {
    assert_eq!(parse_yes_no(""), Some(true));
    assert_eq!(parse_yes_no(" y "), Some(true));
    assert_eq!(parse_yes_no("Y"), Some(true));
    assert_eq!(parse_yes_no("n"), Some(false));
    assert_eq!(parse_yes_no("N"), Some(false));
    assert_eq!(parse_yes_no("maybe"), None);
}

#[test]
fn a_blank_reply_takes_the_default_value() {
    assert_eq!(choose_value("", "vim"), "vim");
    assert_eq!(choose_value("  ", "vim"), "vim");
    assert_eq!(choose_value("nano", "vim"), "nano");
    assert_eq!(choose_value(" nano ", "vim"), " nano ");
}
