use boson::config::{
    default_compat_tool_dir, default_game_configs, parse_bool, BosonConfig, CompatType,
    GameConfig, GameConfigFile, SteamCompatConfig,
};
use boson::env::EnvVars;
use std::collections::BTreeMap;

fn s(text: &str) -> String {
    text.to_string()
}

fn file(overrides: Vec<(u32, GameConfig)>) -> GameConfigFile {
    let mut table = BTreeMap::new();
    for (id, config) in overrides {
        table.insert(id, config);
    }
    GameConfigFile { overrides: table }
}

fn vars(pairs: &[(&str, &str)]) -> EnvVars {
    EnvVars::from_pairs(pairs.iter().map(|(k, v)| (s(k), s(v))).collect())
}

#[test]
fn test_runtime_defaults() {
    // Test Electron runtime defaults
    let electron_defaults = CompatType::Electron.runtime_defaults();
    assert_eq!(electron_defaults.compat_type, CompatType::Electron);
    assert_eq!(electron_defaults.disable_steam_overlay, true);
    assert!(electron_defaults.env_vars.is_empty());

    // Test Love runtime defaults
    let love_defaults = CompatType::Love.runtime_defaults();
    assert_eq!(love_defaults.compat_type, CompatType::Love);
    assert_eq!(love_defaults.disable_steam_overlay, false);
}

#[test]
fn test_3_layer_config_merging() {
    let config = BosonConfig::default();

    // Balatro has a built-in override for Love
    let balatro_config = config.get_game_config(2379780);
    assert_eq!(balatro_config.compat_type, CompatType::Love);
    assert_eq!(balatro_config.disable_steam_overlay, false);

    // An unknown title uses the default compatibility type
    let unknown_config = config.get_game_config(999999);
    assert_eq!(unknown_config.compat_type, CompatType::DeferProton);
    assert_eq!(unknown_config.disable_steam_overlay, false);
}

#[test]
fn test_electron_game_config() {
    let mut config = BosonConfig::default();

    config.game_overrides.push((
        123456,
        GameConfig {
            compat_type: CompatType::Electron,
            wrapper_command: None,
            wrapper_args: vec![],
            env_vars: vars(&[("CUSTOM_VAR", "value")]),
            append_args: vec!["--custom-arg".to_string()],
            extra_preloads: vec![],
            disable_steam_overlay: false,
            ..Default::default()
        },
    ));

    let electron_config = config.get_game_config(123456);
    assert_eq!(electron_config.compat_type, CompatType::Electron);
    assert_eq!(electron_config.disable_steam_overlay, false);
    assert!(electron_config.env_vars.contains_key("CUSTOM_VAR"));
    assert!(electron_config
        .append_args
        .contains(&"--custom-arg".to_string()));
}

#[test]
fn test_comprehensive_3_layer_merging() {
    let mut config = BosonConfig {
        default_compat_config: GameConfig {
            compat_type: CompatType::ForceNative,
            wrapper_command: None,
            wrapper_args: vec!["--global-arg".to_string()],
            env_vars: vars(&[("GLOBAL_VAR", "global_value")]),
            append_args: vec!["--global-append".to_string()],
            extra_preloads: vec!["libglobal.so".to_string()],
            disable_steam_overlay: false,
            ..Default::default()
        },
        game_overrides: vec![],
    };

    config.game_overrides.push((
        555555,
        GameConfig {
            compat_type: CompatType::Electron,
            wrapper_command: Some("custom-electron".to_string()),
            wrapper_args: vec!["--user-arg".to_string()],
            env_vars: vars(&[("USER_VAR", "user_value")]),
            append_args: vec!["--user-append".to_string()],
            extra_preloads: vec!["libuser.so".to_string()],
            disable_steam_overlay: false,
            ..Default::default()
        },
    ));

    let final_config = config.get_game_config(555555);

    assert_eq!(final_config.compat_type, CompatType::Electron);
    assert_eq!(
        final_config.wrapper_command,
        Some("custom-electron".to_string())
    );

    assert_eq!(
        final_config.wrapper_args,
        vec!["--global-arg".to_string(), "--user-arg".to_string()]
    );

    assert_eq!(
        final_config.env_vars.get("GLOBAL_VAR"),
        Some("global_value".to_string())
    );
    assert_eq!(
        final_config.env_vars.get("USER_VAR"),
        Some("user_value".to_string())
    );

    assert!(final_config
        .append_args
        .contains(&"--global-append".to_string()));
    assert!(final_config
        .append_args
        .contains(&"--user-append".to_string()));

    assert!(final_config
        .extra_preloads
        .contains(&"libglobal.so".to_string()));
    assert!(final_config
        .extra_preloads
        .contains(&"libuser.so".to_string()));

    assert_eq!(final_config.disable_steam_overlay, false);
}

#[test]
fn test_defer_proton_config_merging() {
    let mut config = BosonConfig {
        default_compat_config: GameConfig {
            compat_type: CompatType::ForceNative,
            wrapper_args: vec!["--global-arg".to_string()],
            compat_tool_dir: Some("GlobalProton".to_string()),
            ..Default::default()
        },
        game_overrides: vec![],
    };

    config.game_overrides.push((
        666666,
        GameConfig {
            compat_type: CompatType::DeferProton,
            wrapper_command: None,
            wrapper_args: vec!["--user-arg".to_string()],
            env_vars: EnvVars::new(),
            append_args: vec![],
            extra_preloads: vec![],
            disable_steam_overlay: false,
            compat_tool_dir: None,
        },
    ));

    let final_config = config.get_game_config(666666);

    assert_eq!(final_config.compat_type, CompatType::DeferProton);
    assert_eq!(
        final_config.compat_tool_dir,
        Some("GlobalProton".to_string())
    );
    assert!(final_config
        .wrapper_args
        .contains(&"--global-arg".to_string()));
    assert!(final_config
        .wrapper_args
        .contains(&"--user-arg".to_string()));
}

#[test]
fn test_defer_proton_explicit_override() {
    let mut config = BosonConfig {
        default_compat_config: GameConfig::default(),
        game_overrides: vec![],
    };

    config.game_overrides.push((
        777777,
        GameConfig {
            compat_type: CompatType::DeferProton,
            wrapper_args: vec!["--custom-arg".to_string()],
            compat_tool_dir: Some("Proton-GE-8-32".to_string()),
            ..Default::default()
        },
    ));

    let final_config = config.get_game_config(777777);

    assert_eq!(
        final_config.compat_tool_dir,
        Some("Proton-GE-8-32".to_string())
    );
}

#[test]
fn cookie_clicker_resolves_to_electron_without_overlay() {
    let config = BosonConfig::default();
    let resolved = config.get_game_config(1454400);
    assert_eq!(resolved.compat_type, CompatType::Electron);
    assert_eq!(resolved.disable_steam_overlay, true);
    // no layer names a tool, so the fallback is put in
    assert_eq!(resolved.compat_tool_dir, Some(s("Proton - Experimental")));
}

#[test]
fn unknown_title_resolves_to_the_two_layer_merge() {
    let config = BosonConfig {
        default_compat_config: GameConfig {
            compat_type: CompatType::Love,
            wrapper_args: vec![s("--fused")],
            env_vars: vars(&[("A", "1")]),
            disable_steam_overlay: true,
            ..Default::default()
        },
        game_overrides: default_game_configs(),
    };
    let resolved = config.get_game_config(42);
    let mut two_layers = CompatType::Love.runtime_defaults();
    BosonConfig::merge_config_static(&mut two_layers, &config.default_compat_config);
    assert_eq!(resolved.compat_type, two_layers.compat_type);
    assert_eq!(resolved.compat_type, CompatType::Love);
    assert_eq!(resolved.wrapper_command, two_layers.wrapper_command);
    assert_eq!(resolved.wrapper_args, two_layers.wrapper_args);
    assert_eq!(resolved.wrapper_args, vec![s("--fused")]);
    assert_eq!(resolved.env_vars.entries(), two_layers.env_vars.entries());
    assert_eq!(resolved.append_args, two_layers.append_args);
    assert_eq!(resolved.extra_preloads, two_layers.extra_preloads);
    assert_eq!(resolved.disable_steam_overlay, true);
    assert_eq!(two_layers.compat_tool_dir, None);
    assert_eq!(resolved.compat_tool_dir, Some(s("Proton - Experimental")));
}

#[test]
fn unknown_deferring_title_gets_the_fallback_tool() {
    let config = BosonConfig::default();
    let resolved = config.get_game_config(7);
    assert_eq!(resolved.compat_type, CompatType::DeferProton);
    assert_eq!(resolved.compat_tool_dir, Some(s("Proton - Experimental")));
    assert_eq!(default_compat_tool_dir(), Some(s("Proton - Experimental")));
}

#[test]
fn force_native_defaults_are_blank() {
    let defaults = CompatType::ForceNative.runtime_defaults();
    assert_eq!(defaults.compat_type, CompatType::DeferProton);
    assert_eq!(defaults.wrapper_command, None);
    assert!(defaults.wrapper_args.is_empty());
    assert!(defaults.env_vars.is_empty());
    assert_eq!(defaults.disable_steam_overlay, false);
    assert_eq!(defaults.compat_tool_dir, None);
    let deferring = CompatType::DeferProton.runtime_defaults();
    assert_eq!(deferring.compat_tool_dir, Some(s("Proton - Experimental")));
    assert_eq!(CompatType::default(), CompatType::DeferProton);
}

#[test]
fn merge_appends_lists_and_unites_tables() {
    let mut base = GameConfig {
        compat_type: CompatType::Love,
        wrapper_command: Some(s("base-cmd")),
        wrapper_args: vec![s("a"), s("b")],
        env_vars: vars(&[("K", "base"), ("ONLY_BASE", "x")]),
        append_args: vec![s("p")],
        extra_preloads: vec![s("l1.so")],
        disable_steam_overlay: true,
        compat_tool_dir: Some(s("BaseTool")),
    };
    let overlay = GameConfig {
        compat_type: CompatType::ForceNative,
        wrapper_command: None,
        wrapper_args: vec![s("a"), s("c")],
        env_vars: vars(&[("K", "overlay"), ("ONLY_OVERLAY", "y")]),
        append_args: vec![],
        extra_preloads: vec![s("l2.so")],
        disable_steam_overlay: false,
        compat_tool_dir: None,
    };
    BosonConfig::merge_config_static(&mut base, &overlay);
    assert_eq!(base.compat_type, CompatType::ForceNative);
    assert_eq!(base.wrapper_command, Some(s("base-cmd")));
    assert_eq!(base.wrapper_args, vec![s("a"), s("b"), s("a"), s("c")]);
    assert_eq!(base.env_vars.get("K"), Some(s("overlay")));
    assert_eq!(base.env_vars.get("ONLY_BASE"), Some(s("x")));
    assert_eq!(base.env_vars.get("ONLY_OVERLAY"), Some(s("y")));
    assert_eq!(base.env_vars.len(), 3);
    assert_eq!(base.append_args, vec![s("p")]);
    assert_eq!(base.extra_preloads, vec![s("l1.so"), s("l2.so")]);
    assert_eq!(base.disable_steam_overlay, false);
    assert_eq!(base.compat_tool_dir, Some(s("BaseTool")));
}

#[test]
fn merge_never_shrinks_lists() {
    let base = GameConfig {
        wrapper_args: vec![s("1"), s("2"), s("3")],
        ..Default::default()
    };
    let overlay = GameConfig {
        wrapper_args: vec![s("4")],
        ..Default::default()
    };
    let mut merged = base.clone();
    BosonConfig::merge_config_static(&mut merged, &overlay);
    assert!(merged.wrapper_args.len() >= base.wrapper_args.len());
    assert!(merged.wrapper_args.len() >= overlay.wrapper_args.len());
    assert_eq!(merged.wrapper_args.len(), 4);
    let mut other_way = overlay.clone();
    BosonConfig::merge_config_static(&mut other_way, &base);
    assert_eq!(other_way.wrapper_args, vec![s("4"), s("1"), s("2"), s("3")]);
}

#[test]
fn merge_is_associative_on_an_example() {
    let a = GameConfig {
        wrapper_command: Some(s("a")),
        wrapper_args: vec![s("a1")],
        env_vars: vars(&[("X", "a"), ("Y", "a")]),
        compat_tool_dir: Some(s("A")),
        ..Default::default()
    };
    let b = GameConfig {
        compat_type: CompatType::Love,
        wrapper_args: vec![s("b1")],
        env_vars: vars(&[("Y", "b"), ("Z", "b")]),
        disable_steam_overlay: true,
        ..Default::default()
    };
    let c = GameConfig {
        compat_type: CompatType::Electron,
        wrapper_command: Some(s("c")),
        wrapper_args: vec![s("c1")],
        env_vars: vars(&[("Z", "c")]),
        ..Default::default()
    };
    let store = BosonConfig { default_compat_config: GameConfig::default(), game_overrides: vec![] };
    let mut left = a.clone();
    store.merge_config(&mut left, &b);
    store.merge_config(&mut left, &c);
    let mut bc = b.clone();
    store.merge_config(&mut bc, &c);
    let mut right = a.clone();
    store.merge_config(&mut right, &bc);
    assert_eq!(left.compat_type, right.compat_type);
    assert_eq!(left.wrapper_command, Some(s("c")));
    assert_eq!(right.wrapper_command, Some(s("c")));
    assert_eq!(left.wrapper_args, vec![s("a1"), s("b1"), s("c1")]);
    assert_eq!(right.wrapper_args, left.wrapper_args);
    assert_eq!(left.env_vars.get("X"), Some(s("a")));
    assert_eq!(left.env_vars.get("Y"), Some(s("b")));
    assert_eq!(left.env_vars.get("Z"), Some(s("c")));
    assert_eq!(left.env_vars.entries(), right.env_vars.entries());
    assert_eq!(left.disable_steam_overlay, false);
    assert_eq!(right.disable_steam_overlay, false);
    assert_eq!(left.compat_tool_dir, Some(s("A")));
    assert_eq!(right.compat_tool_dir, Some(s("A")));
}

#[test]
fn last_layer_that_sets_a_scalar_wins() {
    let config = BosonConfig {
        default_compat_config: GameConfig {
            compat_type: CompatType::Love,
            wrapper_command: Some(s("global-cmd")),
            disable_steam_overlay: true,
            compat_tool_dir: Some(s("GlobalTool")),
            ..Default::default()
        },
        game_overrides: vec![
            (1, GameConfig { compat_type: CompatType::Electron, ..Default::default() }),
            (
                2,
                GameConfig {
                    compat_type: CompatType::DeferProton,
                    wrapper_command: Some(s("own-cmd")),
                    compat_tool_dir: Some(s("OwnTool")),
                    disable_steam_overlay: true,
                    ..Default::default()
                },
            ),
        ],
    };
    let one = config.get_game_config(1);
    assert_eq!(one.compat_type, CompatType::Electron);
    assert_eq!(one.wrapper_command, Some(s("global-cmd")));
    assert_eq!(one.compat_tool_dir, Some(s("GlobalTool")));
    // the override leaves the switch at its default, and that still wins
    assert_eq!(one.disable_steam_overlay, false);
    let two = config.get_game_config(2);
    assert_eq!(two.compat_type, CompatType::DeferProton);
    assert_eq!(two.wrapper_command, Some(s("own-cmd")));
    assert_eq!(two.compat_tool_dir, Some(s("OwnTool")));
    assert_eq!(two.disable_steam_overlay, true);
}

#[test]
fn first_override_of_a_title_is_the_one_used() {
    let config = BosonConfig {
        default_compat_config: GameConfig::default(),
        game_overrides: vec![
            (5, GameConfig { compat_type: CompatType::Love, ..Default::default() }),
            (5, GameConfig { compat_type: CompatType::Electron, ..Default::default() }),
        ],
    };
    assert_eq!(config.get_game_config(5).compat_type, CompatType::Love);
}

#[test]
fn built_in_overrides() {
    let builtin = default_game_configs();
    assert_eq!(builtin.len(), 2);
    assert_eq!(builtin[0].0, 2379780);
    assert_eq!(builtin[0].1.compat_type, CompatType::Love);
    assert_eq!(builtin[0].1.disable_steam_overlay, false);
    assert_eq!(builtin[0].1.compat_tool_dir, None);
    assert_eq!(builtin[1].0, 1454400);
    assert_eq!(builtin[1].1.compat_type, CompatType::Electron);
    assert_eq!(builtin[1].1.disable_steam_overlay, true);
}

#[test]
fn loading_merges_files_in_order() {
    let first = file(
        vec![
            (
                10,
                GameConfig {
                    compat_type: CompatType::Electron,
                    wrapper_args: vec![s("--one")],
                    env_vars: vars(&[("K", "first")]),
                    disable_steam_overlay: true,
                    ..Default::default()
                },
            ),
            (
                2379780,
                GameConfig {
                    compat_type: CompatType::Love,
                    extra_preloads: vec![s("liblovely.so")],
                    ..Default::default()
                },
            ),
        ],
    );
    let second = file(
        vec![(
            10,
            GameConfig {
                compat_type: CompatType::Electron,
                wrapper_command: Some(s("/opt/electron")),
                wrapper_args: vec![s("--one")],
                env_vars: vars(&[("K", "second")]),
                ..Default::default()
            },
        )],
    );
    let config = BosonConfig::load(&vec![first, second]);
    let ids: Vec<u32> = config.game_overrides.iter().map(|(id, _)| *id).collect();
    assert_eq!(ids, vec![2379780, 1454400, 10]);
    let ten = &config.game_overrides[2].1;
    assert_eq!(ten.wrapper_command, Some(s("/opt/electron")));
    // lists accumulate over files, duplicates included
    assert_eq!(ten.wrapper_args, vec![s("--one"), s("--one")]);
    assert_eq!(ten.env_vars.get("K"), Some(s("second")));
    // the later file leaves the switch unset, and that wins
    assert_eq!(ten.disable_steam_overlay, false);
    let balatro = &config.game_overrides[0].1;
    assert_eq!(balatro.compat_type, CompatType::Love);
    assert_eq!(balatro.extra_preloads, vec![s("liblovely.so")]);
    assert_eq!(config.default_compat_config.compat_type, CompatType::DeferProton);
}

#[test]
fn loading_no_file_gives_the_built_in_configuration() {
    let config = BosonConfig::load(&vec![]);
    assert_eq!(config.game_overrides.len(), 2);
    assert_eq!(config.get_game_config(2379780).compat_type, CompatType::Love);
}

#[test]
fn add_override_adds_or_merges() {
    let mut config = BosonConfig::default();
    let over = GameConfig { compat_type: CompatType::ForceNative, ..Default::default() };
    config.add_override(99, &over);
    assert_eq!(config.game_overrides.len(), 3);
    config.add_override(99, &GameConfig { wrapper_args: vec![s("x")], ..Default::default() });
    assert_eq!(config.game_overrides.len(), 3);
    assert_eq!(config.game_overrides[2].0, 99);
    assert_eq!(config.game_overrides[2].1.compat_type, CompatType::DeferProton);
    assert_eq!(config.game_overrides[2].1.wrapper_args, vec![s("x")]);
}

#[test]
fn executables_of_the_compatibility_types() {
    let hook = || s("/opt/boson/register-hook.js");
    assert_eq!(CompatType::DeferProton.executable(hook(), s("electron")), (None, vec![]));
    assert_eq!(CompatType::ForceNative.executable(hook(), s("electron")), (None, vec![]));
    assert_eq!(
        CompatType::Electron.executable(hook(), s("/usr/bin/electron")),
        (
            Some(s("/usr/bin/electron")),
            vec![s("--no-sandbox"), s("--require"), s("/opt/boson/register-hook.js")]
        )
    );
    assert_eq!(CompatType::Love.executable(hook(), s("electron")), (Some(s("love")), vec![]));
}

#[test]
fn parse_bool_reads_switches() {
    for word in ["1", "true", "yes", "y", "on", " TRUE ", "Yes", "\tOn\n"] {
        assert_eq!(parse_bool(word), Ok(true));
    }
    for word in ["0", "false", "no", "n", "off", " OFF", "No "] {
        assert_eq!(parse_bool(word), Ok(false));
    }
}

#[test]
fn parse_bool_rejects_other_words() {
    assert_eq!(
        parse_bool(" Maybe "),
        Err(s("invalid boolean 'maybe', expected 0/1 or true/false"))
    );
    assert_eq!(parse_bool(""), Err(s("invalid boolean '', expected 0/1 or true/false")));
    assert_eq!(
        parse_bool("t rue"),
        Err(s("invalid boolean 't rue', expected 0/1 or true/false"))
    );
}

#[test]
fn app_id_comes_from_the_numeric_option_first() {
    let mut opts = SteamCompatConfig::default();
    assert_eq!(opts.get_app_id(), None);
    opts.app_id = Some(s("2379780"));
    assert_eq!(opts.get_app_id(), Some(2379780));
    opts.steam_app_id = Some(7);
    assert_eq!(opts.get_app_id(), Some(7));
    opts.steam_app_id = None;
    opts.app_id = Some(s("/home/user/compatdata/1454400"));
    assert_eq!(opts.get_app_id(), None);
    opts.app_id = Some(s("4294967296"));
    assert_eq!(opts.get_app_id(), None);
    opts.app_id = Some(s("+12"));
    assert_eq!(opts.get_app_id(), Some(12));
}

#[test]
fn tool_directory_falls_back_for_every_compatibility_type() {
    for kind in [
        CompatType::DeferProton,
        CompatType::ForceNative,
        CompatType::Electron,
        CompatType::Love,
    ] {
        let unset = BosonConfig {
            default_compat_config: GameConfig { compat_type: kind, ..Default::default() },
            game_overrides: vec![(1, GameConfig { compat_type: kind, ..Default::default() })],
        };
        assert_eq!(unset.get_game_config(1).compat_tool_dir, Some(s("Proton - Experimental")));
        assert_eq!(unset.get_game_config(2).compat_tool_dir, Some(s("Proton - Experimental")));
        let global = BosonConfig {
            default_compat_config: GameConfig {
                compat_type: kind,
                compat_tool_dir: Some(s("Global")),
                ..Default::default()
            },
            game_overrides: vec![
                (1, GameConfig { compat_type: kind, ..Default::default() }),
                (
                    3,
                    GameConfig {
                        compat_type: kind,
                        compat_tool_dir: Some(s("Own")),
                        ..Default::default()
                    },
                ),
            ],
        };
        assert_eq!(global.get_game_config(1).compat_tool_dir, Some(s("Global")));
        assert_eq!(global.get_game_config(2).compat_tool_dir, Some(s("Global")));
        assert_eq!(global.get_game_config(3).compat_tool_dir, Some(s("Own")));
    }
}

#[test]
fn titles_present_before_loading_stay_where_they_are() {
    let later = file(vec![
        (7, GameConfig::default()),
        (1454400, GameConfig { wrapper_args: vec![s("--x")], ..Default::default() }),
    ]);
    let config = BosonConfig::load(&vec![later]);
    assert_eq!(config.game_overrides[0].0, 2379780);
    assert_eq!(config.game_overrides[1].0, 1454400);
    assert_eq!(config.game_overrides[1].1.wrapper_args, vec![s("--x")]);
    assert_eq!(config.game_overrides[2].0, 7);
    assert_eq!(config.game_overrides.len(), 3);
}

#[test]
fn a_file_is_read_by_rising_title() {
    let unsorted = file(vec![
        (30, GameConfig { wrapper_args: vec![s("c")], ..Default::default() }),
        (10, GameConfig { wrapper_args: vec![s("a")], ..Default::default() }),
        (20, GameConfig { wrapper_args: vec![s("b")], ..Default::default() }),
        (10, GameConfig { wrapper_args: vec![s("a2")], ..Default::default() }),
    ]);
    let entries = unsorted.entries();
    let ids: Vec<u32> = entries.iter().map(|(id, _)| *id).collect();
    assert_eq!(ids, vec![10, 20, 30]);
    assert_eq!(entries[0].1.wrapper_args, vec![s("a2")]);
    let mut config = BosonConfig { default_compat_config: GameConfig::default(), game_overrides: vec![] };
    config.add_file(&unsorted);
    let ids: Vec<u32> = config.game_overrides.iter().map(|(id, _)| *id).collect();
    assert_eq!(ids, vec![10, 20, 30]);
    assert!(GameConfigFile::new().entries().is_empty());
}
