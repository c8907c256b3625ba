use boson::config::{CompatType, GameConfig, SteamCompatConfig};
use boson::env::{EnvVars, ProcessEnv};
use boson::ld_paths::{
    compose_ld_library_path, compose_ld_preload, drop_overlay_entries, inherited, keep_entries,
    library_path_value, preload_value,
};
use boson::runtime::{
    assemble, command_for, command_words, compat_tool_candidates, exit_outcome, found_tool,
    get_compat_tool_wrapper, hook_path, launch_environment, lib_dir, lookup_compat_tool,
    manifest_path, verb_arguments, wrapper_from_default, wrapper_from_manifest, wrapper_program,
    Findings, LaunchError, Runtime, ToolManifest, ToolManifestVdf,
};

fn s(text: &str) -> String {
    text.to_string()
}

fn v(items: &[&str]) -> Vec<String> {
    items.iter().map(|x| x.to_string()).collect()
}

fn env_of(home: &str, pairs: &[(&str, &str)]) -> ProcessEnv {
    ProcessEnv::new(
        s(home),
        EnvVars::from_pairs(pairs.iter().map(|(k, v)| (s(k), s(v))).collect()),
    )
}

fn findings() -> Findings {
    Findings {
        exec_dir: s("/opt/boson"),
        lib_dir_present: false,
        game_dir: s("/games/title"),
        asar_present: vec![false, false, false, false],
        tool_present: vec![],
        manifest: None,
    }
}

fn manifest(line: &str) -> ToolManifest {
    ToolManifest { commandline: s(line), commandline_waitforexitandrun: None }
}

fn steam(library_paths: Option<&str>, client: Option<&str>) -> SteamCompatConfig {
    let mut opts = SteamCompatConfig::default();
    opts.library_paths = library_paths.map(s);
    opts.client_install_path = client.map(s);
    opts
}

#[test]
fn tool_candidates_in_search_order() {
    let opts = steam(Some("/lib/a:/lib/b"), Some("/home/u/.steam"));
    assert_eq!(
        compat_tool_candidates("Proton 9", &opts),
        Ok(v(&[
            "/lib/a/common/Proton 9",
            "/lib/b/common/Proton 9",
            "/home/u/.steam/compatibilitytools.d/Proton 9",
        ]))
    );
    let no_client = steam(Some("/lib/a"), None);
    assert_eq!(compat_tool_candidates("P", &no_client), Ok(v(&["/lib/a/common/P"])));
}

#[test]
fn tool_lookup_needs_the_library_roots() {
    let opts = steam(None, Some("/home/u/.steam"));
    assert_eq!(compat_tool_candidates("P", &opts), Err(LaunchError::LibraryPathsNotSet));
    assert_eq!(lookup_compat_tool("P", &opts, &vec![true]), Err(LaunchError::LibraryPathsNotSet));
}

#[test]
fn tool_lookup_takes_the_first_hit() {
    let opts = steam(Some("/lib/a:/lib/b"), Some("/client"));
    assert_eq!(
        lookup_compat_tool("P", &opts, &vec![false, true, true]),
        Ok(Some(s("/lib/b/common/P")))
    );
    assert_eq!(
        lookup_compat_tool("P", &opts, &vec![false, false, true]),
        Ok(Some(s("/client/compatibilitytools.d/P")))
    );
    assert_eq!(lookup_compat_tool("P", &opts, &vec![false, false, false]), Ok(None));
    // flags that are missing count as not found
    assert_eq!(lookup_compat_tool("P", &opts, &vec![]), Ok(None));
    assert_eq!(lookup_compat_tool("P", &opts, &vec![false]), Ok(None));
}

#[test]
fn wrapper_from_a_manifest() {
    let env = env_of("/home/u", &[("TOOLS", "/opt/tools")]);
    assert_eq!(
        get_compat_tool_wrapper("/lib/common/Proton", &manifest("/proton %verb%"), &env),
        Some((s("/lib/common/Proton/proton"), v(&["run"])))
    );
    assert_eq!(
        get_compat_tool_wrapper(
            "/tool",
            &manifest("$TOOLS/bin/run  --verb=%verb% ~/prefix ${MISSING} $TOOLS"),
            &env
        ),
        Some((
            s("/opt/tools/bin/run"),
            v(&["--verb=run", "/home/u/prefix", "${MISSING}", "/opt/tools"])
        ))
    );
}

#[test]
fn wrapper_of_an_empty_command_line_is_none() {
    let env = env_of("", &[]);
    assert_eq!(get_compat_tool_wrapper("/tool", &manifest(""), &env), None);
    assert_eq!(get_compat_tool_wrapper("/tool", &manifest("/"), &env), None);
    assert_eq!(get_compat_tool_wrapper("/tool", &manifest("   "), &env), None);
}

#[test]
fn wrapper_strips_only_one_leading_separator() {
    let env = env_of("", &[]);
    assert_eq!(
        get_compat_tool_wrapper("/tool", &manifest("//bin/sh -c"), &env),
        Some((s("/bin/sh"), v(&["-c"])))
    );
    assert_eq!(
        get_compat_tool_wrapper("/tool", &manifest("%verb%"), &env),
        Some((s("/tool/%verb%"), v(&[])))
    );
}

#[test]
fn tool_manifest_file_holds_a_manifest() {
    let file = ToolManifestVdf {
        manifest: ToolManifest {
            commandline: s("/proton %verb%"),
            commandline_waitforexitandrun: Some(s("/proton waitforexitandrun")),
        },
    };
    assert_eq!(file.manifest.commandline, "/proton %verb%");
    assert_eq!(manifest_path("/lib/common/Proton"), "/lib/common/Proton/toolmanifest.vdf");
}

#[test]
fn inherited_pieces_are_expanded() {
    let env = env_of(
        "/home/u",
        &[("LD_PRELOAD", "$A/x.so::~/y.so:/steam/gameoverlayrenderer.so:$EMPTY"), ("A", "/a"), ("EMPTY", "")],
    );
    assert_eq!(
        inherited("LD_PRELOAD", &env),
        v(&["/a/x.so", "", "/home/u/y.so", "/steam/gameoverlayrenderer.so", ""])
    );
    assert_eq!(inherited("NOT_SET", &env), v(&[]));
    assert_eq!(inherited("EMPTY", &env), v(&[""]));
}

#[test]
fn kept_entries_are_not_empty_and_not_the_overlay() {
    let entries = v(&["/a/x.so", "", "/steam/gameoverlayrenderer.so", "y"]);
    assert_eq!(
        keep_entries(entries.clone(), false),
        v(&["/a/x.so", "/steam/gameoverlayrenderer.so", "y"])
    );
    assert_eq!(keep_entries(entries, true), v(&["/a/x.so", "y"]));
    assert_eq!(keep_entries(v(&[]), true), v(&[]));
}

#[test]
fn preload_value_from_its_parts() {
    let inherited = v(&["", "/s/gameoverlayrenderer.so", "a.so"]);
    assert_eq!(preload_value(inherited.clone(), &v(&["b.so", ""]), true), "a.so:b.so:");
    assert_eq!(
        preload_value(inherited, &v(&["b.so"]), false),
        "/s/gameoverlayrenderer.so:a.so:b.so"
    );
    // what the configuration adds is never filtered
    assert_eq!(
        preload_value(v(&[]), &v(&["gameoverlayrenderer.so"]), true),
        "gameoverlayrenderer.so"
    );
    assert_eq!(preload_value(v(&[]), &v(&[]), true), "");
}

#[test]
fn library_path_value_from_its_parts() {
    let inherited = v(&["/usr/lib", "", "/s/gameoverlayrenderer"]);
    assert_eq!(
        library_path_value(inherited.clone(), Some("/opt/boson/lib"), false),
        "/usr/lib:/s/gameoverlayrenderer:/opt/boson/lib"
    );
    assert_eq!(
        library_path_value(inherited.clone(), Some("/opt/boson/lib"), true),
        "/usr/lib:/opt/boson/lib"
    );
    assert_eq!(library_path_value(inherited, None, true), "/usr/lib");
    assert_eq!(library_path_value(v(&[]), Some("/gameoverlayrenderer/lib"), true), "");
}

#[test]
fn command_line_words_and_arguments() {
    assert_eq!(command_words("/proton %verb%"), v(&["proton", "%verb%"]));
    assert_eq!(command_words("  /bin/sh\t-c "), v(&["/bin/sh", "-c"]));
    assert_eq!(command_words("/"), v(&[]));
    assert_eq!(verb_arguments(&v(&["proton", "%verb%", "--x=%verb%%verb%", "y"])), v(&["run", "--x=runrun", "y"]));
    assert_eq!(verb_arguments(&v(&["%verb%"])), v(&[]));
    assert_eq!(verb_arguments(&v(&[])), v(&[]));
    assert_eq!(wrapper_program("/tool", "proton"), "/tool/proton");
    assert_eq!(wrapper_program("/tool", "bin/proton"), "/tool/bin/proton");
    assert_eq!(wrapper_program("/tool", "/usr/bin/proton"), "/usr/bin/proton");
    assert_eq!(hook_path("/opt/boson"), "/opt/boson/register-hook.js");
}

#[test]
fn wrapper_decisions() {
    assert_eq!(found_tool(Ok(Some(s("/t")))), Ok(s("/t")));
    assert_eq!(found_tool(Ok(None)), Err(LaunchError::ToolNotFound));
    assert_eq!(
        found_tool(Err(LaunchError::LibraryPathsNotSet)),
        Err(LaunchError::LibraryPathsNotSet)
    );
    assert_eq!(
        wrapper_from_manifest(Some((s("/t/proton"), v(&["run"]))), &v(&["-c"])),
        (Some(s("/t/proton")), v(&["run", "-c"]))
    );
    assert_eq!(wrapper_from_manifest(None, &v(&["-c"])), (None, v(&["-c"])));
    let config = GameConfig { wrapper_args: v(&["-a"]), ..Default::default() };
    assert_eq!(
        wrapper_from_default(&config, (Some(s("love")), v(&["-d"]))),
        (Some(s("love")), v(&["-a", "-d"]))
    );
    assert_eq!(wrapper_from_default(&config, (None, v(&[]))), (None, v(&["-a"])));
    let own = GameConfig { wrapper_command: Some(s("mine")), ..Default::default() };
    assert_eq!(wrapper_from_default(&own, (Some(s("love")), v(&[]))), (Some(s("mine")), v(&[])));
    assert_eq!(wrapper_from_default(&own, (None, v(&["-d"]))), (Some(s("mine")), v(&["-d"])));
}

#[test]
fn command_and_environment_from_their_parts() {
    assert_eq!(
        command_for(Some(s("w")), v(&["a"]), v(&["b", "c"]), s("/t")),
        (s("w"), v(&["a", "b", "c", "/t"]))
    );
    assert_eq!(command_for(None, v(&["a"]), v(&["b"]), s("/t")), (s("/t"), v(&["b"])));
    let vars = EnvVars::from_pairs(vec![(s("X"), s("1")), (s("LD_LIBRARY_PATH"), s("own"))]);
    let envs = launch_environment(s("p.so"), s("/lib"), &vars);
    assert_eq!(
        envs.entries(),
        vec![(s("LD_PRELOAD"), s("p.so")), (s("LD_LIBRARY_PATH"), s("own")), (s("X"), s("1"))]
    );
    let command =
        assemble(Some(s("/t")), Ok((None, v(&["unused"]))), v(&["x"]), EnvVars::new(), s("/wd"))
            .unwrap();
    assert_eq!(command.program, "/t");
    assert_eq!(command.args, v(&["x"]));
    assert_eq!(command.working_dir, "/wd");
    // a missing payload is reported before a missing tool
    let none = assemble(None, Err(LaunchError::ToolNotFound), v(&[]), EnvVars::new(), s("/wd"));
    assert_eq!(none.err(), Some(LaunchError::PayloadNotFound));
    let tool =
        assemble(Some(s("/t")), Err(LaunchError::ToolNotFound), v(&[]), EnvVars::new(), s("/wd"));
    assert_eq!(tool.err(), Some(LaunchError::ToolNotFound));
}

#[test]
fn preload_keeps_configured_libraries_as_written() {
    let env = env_of("/home/u", &[("LD_PRELOAD", "/steam/ubuntu12_64/gameoverlayrenderer.so:/usr/lib/a.so")]);
    let on = GameConfig { extra_preloads: v(&["~/lovely.so", "b.so"]), ..Default::default() };
    assert_eq!(
        compose_ld_preload(&env, &on),
        "/steam/ubuntu12_64/gameoverlayrenderer.so:/usr/lib/a.so:~/lovely.so:b.so"
    );
    let off = GameConfig {
        extra_preloads: v(&["~/lovely.so", "b.so"]),
        disable_steam_overlay: true,
        ..Default::default()
    };
    assert_eq!(compose_ld_preload(&env, &off), "/usr/lib/a.so:~/lovely.so:b.so");
}

#[test]
fn preload_without_anything_is_empty() {
    let env = env_of("", &[]);
    assert_eq!(compose_ld_preload(&env, &GameConfig::default()), "");
    let only_overlay = env_of("", &[("LD_PRELOAD", "gameoverlayrenderer.so")]);
    let off = GameConfig { disable_steam_overlay: true, ..Default::default() };
    assert_eq!(compose_ld_preload(&only_overlay, &off), "");
}

#[test]
fn overlay_is_filtered_from_both_lists() {
    let env = env_of(
        "",
        &[
            ("LD_PRELOAD", "/s/gameoverlayrenderer.so:/s/32/gameoverlayrenderer.so:keep.so"),
            ("LD_LIBRARY_PATH", "/usr/lib:/s/gameoverlayrenderer:/lib"),
        ],
    );
    let off = GameConfig { disable_steam_overlay: true, ..Default::default() };
    let preload = compose_ld_preload(&env, &off);
    let library_path = compose_ld_library_path(&env, &off, Some("/opt/boson/lib"));
    assert_eq!(preload, "keep.so");
    assert_eq!(library_path, "/usr/lib:/lib:/opt/boson/lib");
    assert!(!preload.contains("gameoverlayrenderer"));
    assert!(!library_path.contains("gameoverlayrenderer"));
}

#[test]
fn library_path_gets_the_own_directory_last() {
    let env = env_of("/home/u", &[("LD_LIBRARY_PATH", "/usr/lib::~/lib:/x/gameoverlayrenderer")]);
    let on = GameConfig::default();
    assert_eq!(
        compose_ld_library_path(&env, &on, Some("/opt/boson/lib")),
        "/usr/lib:/home/u/lib:/x/gameoverlayrenderer:/opt/boson/lib"
    );
    assert_eq!(
        compose_ld_library_path(&env, &on, None),
        "/usr/lib:/home/u/lib:/x/gameoverlayrenderer"
    );
    let off = GameConfig { disable_steam_overlay: true, ..Default::default() };
    assert_eq!(
        compose_ld_library_path(&env, &off, Some("/opt/gameoverlayrenderer/lib")),
        "/usr/lib:/home/u/lib"
    );
    assert_eq!(compose_ld_library_path(&env_of("", &[]), &on, None), "");
    assert_eq!(lib_dir("/opt/boson"), "/opt/boson/lib");
}

#[test]
fn drop_overlay_entries_drops_only_those() {
    assert_eq!(
        drop_overlay_entries(v(&["a", "xgameoverlayrenderery", "", "b"])),
        v(&["a", "", "b"])
    );
}

#[test]
fn native_title_runs_the_install_path() {
    let config = GameConfig {
        compat_type: CompatType::ForceNative,
        wrapper_args: v(&["ignored-without-wrapper"]),
        env_vars: EnvVars::from_pairs(vec![(s("SDL_VIDEODRIVER"), s("$DRIVER")), (s("PLAIN"), s("1"))]),
        ..Default::default()
    };
    let rt = Runtime::new(steam(None, None), config, s("/games/title/run.sh"));
    let env = env_of("/home/u", &[("DRIVER", "wayland"), ("LD_LIBRARY_PATH", "/usr/lib")]);
    let mut found = findings();
    found.lib_dir_present = true;
    let command = rt.launch_game(v(&["--fullscreen"]), &env, &found).unwrap();
    assert_eq!(command.program, "/games/title/run.sh");
    assert_eq!(command.args, v(&["--fullscreen"]));
    assert_eq!(command.working_dir, "/games/title/run.sh");
    assert_eq!(command.envs.get("LD_PRELOAD"), Some(s("")));
    assert_eq!(command.envs.get("LD_LIBRARY_PATH"), Some(s("/usr/lib:/opt/boson/lib")));
    assert_eq!(command.envs.get("SDL_VIDEODRIVER"), Some(s("wayland")));
    assert_eq!(command.envs.get("PLAIN"), Some(s("1")));
    assert_eq!(command.envs.len(), 4);
}

#[test]
fn configured_variables_win_over_composed_ones() {
    let config = GameConfig {
        compat_type: CompatType::ForceNative,
        env_vars: EnvVars::from_pairs(vec![(s("LD_PRELOAD"), s("mine.so"))]),
        extra_preloads: v(&["other.so"]),
        ..Default::default()
    };
    let rt = Runtime::new(steam(None, None), config, s("/g/run"));
    let command = rt.launch_game(vec![], &env_of("", &[]), &findings()).unwrap();
    assert_eq!(command.envs.get("LD_PRELOAD"), Some(s("mine.so")));
    assert_eq!(command.envs.len(), 2);
}

#[test]
fn love_title_is_wrapped_with_love() {
    let config = GameConfig {
        compat_type: CompatType::Love,
        wrapper_args: v(&["--fused"]),
        ..Default::default()
    };
    let rt = Runtime::new(steam(None, None), config, s("/games/balatro/Balatro.exe"));
    let command = rt.launch_game(v(&["-x", "-y"]), &env_of("", &[]), &findings()).unwrap();
    assert_eq!(command.program, "love");
    assert_eq!(command.args, v(&["--fused", "-x", "-y", "/games/balatro/Balatro.exe"]));
}

#[test]
fn configured_wrapper_replaces_the_default_one() {
    let config = GameConfig {
        compat_type: CompatType::Love,
        wrapper_command: Some(s("/opt/love-12/love")),
        ..Default::default()
    };
    let rt = Runtime::new(steam(None, None), config, s("/g"));
    let command = rt.launch_game(vec![], &env_of("", &[]), &findings()).unwrap();
    assert_eq!(command.program, "/opt/love-12/love");
    assert_eq!(command.args, v(&["/g"]));
    let native = GameConfig {
        compat_type: CompatType::ForceNative,
        wrapper_command: Some(s("gamescope")),
        wrapper_args: v(&["--"]),
        ..Default::default()
    };
    let rt = Runtime::new(steam(None, None), native, s("/g/run"));
    let command = rt.launch_game(v(&["a"]), &env_of("", &[]), &findings()).unwrap();
    assert_eq!(command.program, "gamescope");
    assert_eq!(command.args, v(&["--", "a", "/g/run"]));
}

#[test]
fn electron_title_is_wrapped_with_electron() {
    let config = GameConfig {
        compat_type: CompatType::Electron,
        wrapper_args: v(&["--ozone-platform=wayland"]),
        disable_steam_overlay: true,
        ..Default::default()
    };
    let rt = Runtime::new(steam(None, None), config, s("/games/cookie/Cookie Clicker.exe"));
    let env = env_of("", &[("ELECTRON_PATH", "/usr/bin/electron33")]);
    let mut found = findings();
    found.game_dir = s("/games/cookie");
    found.asar_present = vec![false, false, false, true];
    let command = rt.launch_game(v(&["--dev"]), &env, &found).unwrap();
    assert_eq!(command.program, "/usr/bin/electron33");
    assert_eq!(
        command.args,
        v(&[
            "--ozone-platform=wayland",
            "--no-sandbox",
            "--require",
            "/opt/boson/register-hook.js",
            "--dev",
            "/games/cookie/resources/app.asar",
        ])
    );
    assert_eq!(command.working_dir, "/games/cookie/Cookie Clicker.exe");
}

#[test]
fn electron_title_without_payload_fails() {
    let config = GameConfig { compat_type: CompatType::Electron, ..Default::default() };
    let rt = Runtime::new(steam(None, None), config, s("/games/cookie"));
    let result = rt.launch_game(vec![], &env_of("", &[]), &findings());
    assert_eq!(result.err(), Some(LaunchError::PayloadNotFound));
    assert_eq!(rt.target(&env_of("", &[]), &findings()), None);
}

fn deferring(tool: Option<&str>) -> GameConfig {
    GameConfig {
        compat_type: CompatType::DeferProton,
        wrapper_args: v(&["--configured", "%verb%"]),
        compat_tool_dir: tool.map(s),
        ..Default::default()
    }
}

#[test]
fn deferring_title_runs_through_the_tool() {
    let rt = Runtime::new(
        steam(Some("/lib/a:/lib/b"), Some("/client")),
        deferring(Some("Proton 9")),
        s("/games/title/game.exe"),
    );
    let mut found = findings();
    found.tool_present = vec![false, true, false];
    found.manifest = Some(manifest("/proton %verb%"));
    let command = rt.launch_game(v(&["-windowed"]), &env_of("", &[]), &found).unwrap();
    assert_eq!(command.program, "/lib/b/common/Proton 9/proton");
    // the verb is put into the manifest's arguments; configured ones follow as written
    assert_eq!(
        command.args,
        v(&["run", "--configured", "%verb%", "-windowed", "/games/title/game.exe"])
    );
}

#[test]
fn deferring_title_without_usable_manifest_runs_bare() {
    let rt = Runtime::new(steam(Some("/lib"), None), deferring(Some("P")), s("/g/game.exe"));
    let mut found = findings();
    found.tool_present = vec![true];
    found.manifest = None;
    let command = rt.launch_game(v(&["x"]), &env_of("", &[]), &found).unwrap();
    assert_eq!(command.program, "/g/game.exe");
    assert_eq!(command.args, v(&["x"]));
    assert_eq!(
        rt.wrapper(&env_of("", &[]), &found),
        Ok((None, v(&["--configured", "%verb%"])))
    );
    found.manifest = Some(manifest("  "));
    let command = rt.launch_game(v(&["x"]), &env_of("", &[]), &found).unwrap();
    assert_eq!(command.program, "/g/game.exe");
    assert_eq!(command.args, v(&["x"]));
}

#[test]
fn deferring_title_whose_tool_is_absent_fails() {
    let rt = Runtime::new(
        steam(Some("/lib/a:/lib/b"), Some("/client")),
        deferring(Some("Proton 9")),
        s("/g/game.exe"),
    );
    let mut found = findings();
    found.tool_present = vec![false, false, false];
    found.manifest = Some(manifest("/proton %verb%"));
    let result = rt.launch_game(vec![], &env_of("", &[]), &found);
    assert_eq!(result.err(), Some(LaunchError::ToolNotFound));
}

#[test]
fn deferring_title_without_tool_name_fails() {
    let rt = Runtime::new(steam(Some("/lib"), None), deferring(None), s("/g/game.exe"));
    let mut found = findings();
    found.tool_present = vec![true];
    let result = rt.launch_game(vec![], &env_of("", &[]), &found);
    assert_eq!(result.err(), Some(LaunchError::ToolNotConfigured));
}

#[test]
fn deferring_title_without_library_roots_fails() {
    let rt = Runtime::new(steam(None, Some("/client")), deferring(Some("P")), s("/g/game.exe"));
    let mut found = findings();
    found.tool_present = vec![true];
    let result = rt.launch_game(vec![], &env_of("", &[]), &found);
    assert_eq!(result.err(), Some(LaunchError::LibraryPathsNotSet));
}

#[test]
fn exit_outcomes() {
    assert_eq!(exit_outcome(true, Some(0)), Ok(()));
    assert_eq!(exit_outcome(false, Some(3)), Err(LaunchError::NonZeroExit { code: Some(3) }));
    assert_eq!(exit_outcome(false, None), Err(LaunchError::NonZeroExit { code: None }));
}

#[test]
fn every_error_has_a_message() {
    let errors = [
        LaunchError::PayloadNotFound,
        LaunchError::ToolNotConfigured,
        LaunchError::LibraryPathsNotSet,
        LaunchError::ToolNotFound,
        LaunchError::NonZeroExit { code: Some(1) },
    ];
    for e in errors {
        assert!(!e.message().is_empty());
    }
    assert_eq!(LaunchError::LibraryPathsNotSet.message(), "STEAM_LIBRARY_PATHS is not set");
}
