use remotty::cli::{
    parse_args, CliCommand, SecretCommand, ServiceCommand, TelegramCommand, TelegramSmokeScenario,
};

#[test]
fn parse_args_defaults_to_running_bridge() {
    assert_eq!(
        parse_args(Vec::<String>::new()).expect("default command should parse"),
        CliCommand::Run {
            config_path: "bridge.toml".to_owned(),
        }
    );
}

#[test]
fn parse_args_supports_global_config_override() {
    assert_eq!(
        parse_args(vec!["--config".to_owned(), "custom.toml".to_owned()])
            .expect("config override should parse"),
        CliCommand::Run {
            config_path: "custom.toml".to_owned(),
        }
    );
}

#[test]
fn parse_args_supports_secret_set() {
    assert_eq!(
        parse_args(vec![
            "secret".to_owned(),
            "set".to_owned(),
            "bot".to_owned(),
            "token".to_owned(),
        ])
        .expect("secret set should parse"),
        CliCommand::Secret(SecretCommand::Put {
            key: "bot".to_owned(),
            value: "token".to_owned(),
        })
    );
}

#[test]
fn parse_args_supports_service_install_with_config() {
    assert_eq!(
        parse_args(vec![
            "service".to_owned(),
            "install".to_owned(),
            "--config".to_owned(),
            "prod/bridge.toml".to_owned(),
        ])
        .expect("service install should parse"),
        CliCommand::Service(ServiceCommand::Install {
            config_path: "prod/bridge.toml".to_owned(),
        })
    );
}

#[test]
fn parse_args_supports_service_status() {
    assert_eq!(
        parse_args(vec!["service".to_owned(), "status".to_owned()])
            .expect("service status should parse"),
        CliCommand::Service(ServiceCommand::Status)
    );
}

#[test]
fn parse_args_rejects_incomplete_service_run() {
    let error = parse_args(vec!["service".to_owned(), "run".to_owned()])
        .expect_err("service run without config should fail");
    assert!(error.contains("usage: service"));
}

#[test]
fn parse_args_supports_telegram_configure() {
    assert_eq!(
        parse_args(vec!["telegram".to_owned(), "configure".to_owned()])
            .expect("telegram configure should parse"),
        CliCommand::Telegram(TelegramCommand::Configure {
            config_path: "bridge.toml".to_owned(),
        })
    );
}

#[test]
fn parse_args_supports_telegram_pair_with_config() {
    assert_eq!(
        parse_args(vec![
            "telegram".to_owned(),
            "pair".to_owned(),
            "--config".to_owned(),
            "prod/bridge.toml".to_owned(),
        ])
        .expect("telegram pair should parse"),
        CliCommand::Telegram(TelegramCommand::Pair {
            config_path: "prod/bridge.toml".to_owned(),
        })
    );
}

#[test]
fn parse_args_supports_telegram_access_pair_with_config() {
    assert_eq!(
        parse_args(vec![
            "telegram".to_owned(),
            "access-pair".to_owned(),
            "ABC123".to_owned(),
            "--config".to_owned(),
            "prod/bridge.toml".to_owned(),
        ])
        .expect("telegram access-pair should parse"),
        CliCommand::Telegram(TelegramCommand::AccessPair {
            code: "ABC123".to_owned(),
            config_path: "prod/bridge.toml".to_owned(),
        })
    );
}

#[test]
fn parse_args_supports_telegram_policy_allowlist() {
    assert_eq!(
        parse_args(vec![
            "telegram".to_owned(),
            "policy".to_owned(),
            "allowlist".to_owned(),
        ])
        .expect("telegram policy allowlist should parse"),
        CliCommand::Telegram(TelegramCommand::PolicyAllowlist {
            config_path: "bridge.toml".to_owned(),
        })
    );
}

#[test]
fn parse_args_supports_live_env_check() {
    assert_eq!(
        parse_args(vec!["telegram".to_owned(), "live-env-check".to_owned()])
            .expect("telegram live-env-check should parse"),
        CliCommand::Telegram(TelegramCommand::LiveEnvCheck {
            config_path: "bridge.toml".to_owned(),
        })
    );
}

#[test]
fn parse_args_supports_live_env_check_with_config() {
    assert_eq!(
        parse_args(vec![
            "telegram".to_owned(),
            "live-env-check".to_owned(),
            "--config".to_owned(),
            "custom.toml".to_owned(),
        ])
        .expect("telegram live-env-check --config should parse"),
        CliCommand::Telegram(TelegramCommand::LiveEnvCheck {
            config_path: "custom.toml".to_owned(),
        })
    );
}

#[test]
fn parse_args_supports_smoke_accept() {
    assert_eq!(
        parse_args(vec![
            "telegram".to_owned(),
            "smoke".to_owned(),
            "approval".to_owned(),
            "accept".to_owned(),
        ])
        .expect("telegram smoke approval accept should parse"),
        CliCommand::Telegram(TelegramCommand::Smoke {
            scenario: TelegramSmokeScenario::ApprovalAccept,
            config_path: "bridge.toml".to_owned(),
        })
    );
}

#[test]
fn parse_args_supports_smoke_decline_with_config() {
    assert_eq!(
        parse_args(vec![
            "telegram".to_owned(),
            "smoke".to_owned(),
            "approval".to_owned(),
            "decline".to_owned(),
            "--config".to_owned(),
            "prod/bridge.toml".to_owned(),
        ])
        .expect("telegram smoke approval decline should parse"),
        CliCommand::Telegram(TelegramCommand::Smoke {
            scenario: TelegramSmokeScenario::ApprovalDecline,
            config_path: "prod/bridge.toml".to_owned(),
        })
    );
}

#[test]
fn parse_args_rejects_unknown_command() {
    assert!(parse_args(vec!["bogus".to_owned()]).is_err());
}

#[test]
fn parse_args_supports_secret_delete() {
    assert_eq!(
        parse_args(vec!["secret".to_owned(), "delete".to_owned(), "bot".to_owned()])
            .expect("secret delete should parse"),
        CliCommand::Secret(SecretCommand::Delete {
            key: "bot".to_owned(),
        })
    );
}

#[test]
fn parse_args_supports_remote_control() {
    let words = |v: &[&str]| v.iter().map(|s| s.to_string()).collect::<Vec<String>>();
    assert_eq!(
        parse_args(words(&["remote-control"])),
        Ok(CliCommand::RemoteControl {
            config_path: None,
            workspace_path: ".".to_owned(),
        })
    );
    assert_eq!(
        parse_args(words(&["remote-control", "--config", "C:/r/bridge.toml", "--workspace", "C:/work/app"])),
        Ok(CliCommand::RemoteControl {
            config_path: Some("C:/r/bridge.toml".to_owned()),
            workspace_path: "C:/work/app".to_owned(),
        })
    );
    assert_eq!(
        parse_args(words(&["remote-control", "--workspace", "C:/work/app"])),
        Ok(CliCommand::RemoteControl {
            config_path: None,
            workspace_path: "C:/work/app".to_owned(),
        })
    );
    assert_eq!(
        parse_args(words(&["remote-control", "--bogus"])),
        Err("usage: remote-control [--config <path>] [--workspace <path>]".to_owned())
    );
}

#[test]
fn parse_args_supports_workspace_upsert() {
    let words = |v: &[&str]| v.iter().map(|s| s.to_string()).collect::<Vec<String>>();
    assert_eq!(
        parse_args(words(&["config", "workspace", "upsert", "--workspace", "C:/work/app"])),
        Ok(CliCommand::Config(remotty::cli::ConfigCommand::WorkspaceUpsert {
            config_path: None,
            workspace_path: "C:/work/app".to_owned(),
        }))
    );
    assert_eq!(
        parse_args(words(&["config", "workspace"])),
        Err("usage: config workspace upsert [--config <path>] [--workspace <path>]".to_owned())
    );
}

#[test]
fn default_config_lives_in_application_data() {
    assert_eq!(
        remotty::cli::default_config_path(Some(r"C:\Users\me\AppData\Roaming")),
        r"C:\Users\me\AppData\Roaming\remotty\bridge.toml"
    );
    assert_eq!(remotty::cli::default_config_path(None), "bridge.toml");
}
