use zks::config::{
    config_file_names, config_from_answers, config_path, configs_dir_path,
    edit_existing_config_non_interactively,
    edit_prompt_defaults, selected_config_path, BridgehubConfig, Database, DatabaseConfig,
    EditConfigOpts, GovernanceConfig, NetworkConfig, PromptAnswers, PromptDefaults,
    WalletConfig, ZKSyncConfig, SELECTED_CONFIG_FILE_NAME,
};

fn existing() -> ZKSyncConfig {
    ZKSyncConfig {
        network: NetworkConfig {
            l1_rpc_url: Some("http://l1".to_owned()),
            l1_chain_id: Some(9),
            l1_explorer_url: None,
            l2_rpc_url: "http://l2".to_owned(),
            l2_chain_id: Some(270),
            l2_explorer_url: Some("http://explorer".to_owned()),
        },
        wallet: Some(WalletConfig { address: [1; 20], private_key: "key".to_owned() }),
        db: Some(DatabaseConfig {
            server: Database { url: "postgres://server".to_owned() },
            prover: Database { url: "postgres://prover".to_owned() },
        }),
        governance: GovernanceConfig { address: [2; 20], owner_private_key: "gov".to_owned() },
        bridgehub: BridgehubConfig { admin_private_key: None, owner_private_key: Some("owner".to_owned()) },
    }
}

fn no_opts() -> EditConfigOpts {
    EditConfigOpts {
        l1_rpc_url: None,
        l2_rpc_url: None,
        l2_explorer_url: None,
        l1_explorer_url: None,
        private_key: None,
        address: None,
        governance: None,
        governance_owner: None,
        bridgehub_admin: None,
        bridgehub_owner: None,
    }
}

fn fallback() -> PromptDefaults {
    PromptDefaults {
        l1_rpc_url: "http://default-l1".to_owned(),
        l2_rpc_url: "http://default-l2".to_owned(),
        l2_explorer_url: "http://default-l2-explorer".to_owned(),
        l1_explorer_url: "http://default-l1-explorer".to_owned(),
        private_key: "default-key".to_owned(),
        address: [9; 20],
        governance_address: [8; 20],
        governance_owner_private_key: "default-gov".to_owned(),
        bridgehub_admin_private_key: "default-admin".to_owned(),
        bridgehub_owner_private_key: "default-owner".to_owned(),
    }
}

fn same(a: &ZKSyncConfig, b: &ZKSyncConfig) -> bool {
    format!("{a:?}") == format!("{b:?}")
}

#[test]
fn configuration_paths() {
    assert_eq!(config_path("/tmp/configs", "dev"), "/tmp/configs/dev.toml");
    assert_eq!(selected_config_path("/tmp/configs"), "/tmp/configs/.selected");
    assert_eq!(SELECTED_CONFIG_FILE_NAME, ".selected");
    assert_eq!(configs_dir_path("/home/u/.config"), "/home/u/.config/zks-cli/configs");
    assert_eq!(
        config_path(&configs_dir_path("/home/u/.config"), "dev"),
        "/home/u/.config/zks-cli/configs/dev.toml"
    );
    assert_ne!(config_path("/tmp/configs", "dev"), config_path("/tmp/configs", "dev2"));
}

#[test]
fn a_saved_name_is_listed_among_other_files() {
    let files = vec![
        "a.toml".to_owned(),
        ".selected".to_owned(),
        "notes.txt".to_owned(),
        "dev.toml".to_owned(),
        "b.toml".to_owned(),
    ];
    assert!(config_file_names(&files).contains(&"dev".to_owned()));
}

#[test]
fn configuration_names_from_file_names() {
    let files = vec![
        "dev.toml".to_owned(),
        ".selected".to_owned(),
        "x.toml.toml".to_owned(),
        "other".to_owned(),
    ];
    assert_eq!(config_file_names(&files), vec!["dev".to_owned(), "x".to_owned(), "other".to_owned()]);
    assert_eq!(config_file_names(&vec![".selected.toml".to_owned()]), Vec::<String>::new());
}

fn without_ids_and_databases(mut config: ZKSyncConfig) -> ZKSyncConfig {
    config.network.l1_chain_id = None;
    config.network.l2_chain_id = None;
    config.db = None;
    config
}

#[test]
fn editing_without_options_keeps_the_configuration() {
    let plain = without_ids_and_databases(existing());
    let edited = edit_existing_config_non_interactively(plain.clone(), no_opts());
    assert!(same(&edited, &plain));
}

#[test]
fn editing_does_not_carry_over_chain_ids_and_databases() {
    let edited = edit_existing_config_non_interactively(existing(), no_opts());
    assert_eq!(edited.network.l1_chain_id, None);
    assert_eq!(edited.network.l2_chain_id, None);
    assert!(edited.db.is_none());
    assert!(same(&edited, &without_ids_and_databases(existing())));
}

#[test]
fn editing_applies_the_given_options() {
    let mut opts = no_opts();
    opts.l1_explorer_url = Some("http://l1-explorer".to_owned());
    opts.l2_rpc_url = Some("http://new-l2".to_owned());
    opts.private_key = Some("new-key".to_owned());
    opts.governance = Some([3; 20]);
    opts.bridgehub_owner = Some("new-owner".to_owned());
    let edited = edit_existing_config_non_interactively(existing(), opts.clone());
    assert_eq!(edited.network.l1_explorer_url, Some("http://l1-explorer".to_owned()));
    assert_eq!(edited.network.l2_rpc_url, "http://new-l2");
    assert_eq!(edited.network.l1_rpc_url, Some("http://l1".to_owned()));
    assert_eq!(edited.network.l2_chain_id, None);
    let wallet = edited.wallet.clone().unwrap();
    assert_eq!(wallet.private_key, "new-key");
    assert_eq!(wallet.address, [1; 20]);
    assert_eq!(edited.governance.address, [3; 20]);
    assert_eq!(edited.governance.owner_private_key, "gov");
    assert_eq!(edited.bridgehub.owner_private_key, Some("new-owner".to_owned()));
    assert_eq!(edited.bridgehub.admin_private_key, None);
    // Editing twice with the same options changes nothing more.
    let twice = edit_existing_config_non_interactively(edited.clone(), opts);
    assert!(same(&twice, &edited));
}

#[test]
fn wallet_options_need_a_wallet() {
    let mut config = existing();
    config.wallet = None;
    let mut opts = no_opts();
    opts.private_key = Some("new-key".to_owned());
    let edited = edit_existing_config_non_interactively(config, opts);
    assert!(edited.wallet.is_none());
}

#[test]
fn interactive_edit_offers_existing_values() {
    let d = edit_prompt_defaults(&existing(), &fallback());
    assert_eq!(d.l1_rpc_url, "http://l1");
    assert_eq!(d.l1_explorer_url, "http://default-l1-explorer");
    assert_eq!(d.l2_rpc_url, "http://l2");
    assert_eq!(d.private_key, "key");
    assert_eq!(d.governance_address, [2; 20]);
    assert_eq!(d.bridgehub_admin_private_key, "default-admin");
    assert_eq!(d.bridgehub_owner_private_key, "owner");
}

#[test]
fn answers_make_a_configuration() {
    let answers = PromptAnswers {
        l1_rpc_url: None,
        l2_rpc_url: "http://l2".to_owned(),
        l2_explorer_url: Some("http://e".to_owned()),
        l1_explorer_url: None,
        private_key: "k".to_owned(),
        address: [4; 20],
        governance_address: [5; 20],
        governance_owner_private_key: "g".to_owned(),
        bridgehub_admin_private_key: Some("a".to_owned()),
        bridgehub_owner_private_key: None,
    };
    let config = config_from_answers(answers);
    assert_eq!(config.network.l2_chain_id, None);
    assert_eq!(config.network.l1_chain_id, None);
    assert_eq!(config.wallet.unwrap().address, [4; 20]);
    assert!(config.db.is_none());
    assert_eq!(config.bridgehub.admin_private_key, Some("a".to_owned()));
}

#[test]
fn accepting_every_offered_value_keeps_a_full_configuration() {
    let mut full = without_ids_and_databases(existing());
    full.network.l1_explorer_url = Some("http://l1-explorer".to_owned());
    full.bridgehub.admin_private_key = Some("admin".to_owned());
    let d = edit_prompt_defaults(&full, &fallback());
    let answers = PromptAnswers {
        l1_rpc_url: Some(d.l1_rpc_url),
        l2_rpc_url: d.l2_rpc_url,
        l2_explorer_url: Some(d.l2_explorer_url),
        l1_explorer_url: Some(d.l1_explorer_url),
        private_key: d.private_key,
        address: d.address,
        governance_address: d.governance_address,
        governance_owner_private_key: d.governance_owner_private_key,
        bridgehub_admin_private_key: Some(d.bridgehub_admin_private_key),
        bridgehub_owner_private_key: Some(d.bridgehub_owner_private_key),
    };
    let config = config_from_answers(answers);
    assert!(same(&config, &full));
}
