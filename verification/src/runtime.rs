//! From a resolved configuration to the process to start: the executable,
//! its arguments and its environment.
//!
//! The launcher itself starts nothing and reads nothing. What lies on disk
//! is found out by the caller and handed in as [`Findings`]; what comes out
//! is a [`LaunchCommand`] for the caller to run.

use vstd::prelude::*;
use vstd::string::StringExecFns;
use crate::config::{
    append_strings,
    clone_opt,
    clone_strings,
    default_executable,
    later,
    CompatType,
    GameConfig,
    GameConfigView,
    SteamCompatConfig,
};
use crate::env::{expanded_all, expanded_table, EnvVars, ProcessEnv, ProcessEnvView};
use crate::ld_paths::{
    compose_ld_library_path,
    compose_ld_preload,
    library_entries,
    preload_entries,
};
use crate::path_search::{
    asar_path_of,
    electron_of,
    env_electron_path,
    first_existing,
    first_present,
    get_asar_path,
};
use crate::paths::{is_relative_path, join_path, joined_path, path_is_relative};
use crate::text::{
    opt_text,
    replace_all,
    replaced,
    split,
    split_on,
    split_words,
    strip_leading,
    texts,
    without_leading,
    words,
};

verus! {

/// Why a launch cannot go ahead, or how it ended badly.
#[derive(Clone, Copy, Debug, PartialEq, Eq, Structural)]
pub enum LaunchError {
    /// No application was found for an Electron title.
    PayloadNotFound,
    /// A deferring title names no compatibility tool.
    ToolNotConfigured,
    /// The platform did not say where its libraries are, so no tool can
    /// be looked for.
    LibraryPathsNotSet,
    /// The named compatibility tool is in none of the places searched.
    ToolNotFound,
    /// The title ran and ended with a failure status.
    NonZeroExit { code: Option<i32> },
}

/// The sentence that goes with an error.
pub open spec fn message_of(error: LaunchError) -> Seq<char> {
    match error {
        LaunchError::PayloadNotFound => "Could not find ASAR path for Electron game"@,
        LaunchError::ToolNotConfigured => "No compatibility tool directory is configured"@,
        LaunchError::LibraryPathsNotSet => "STEAM_LIBRARY_PATHS is not set"@,
        LaunchError::ToolNotFound => "Compatibility tool not found in configured library paths"@,
        LaunchError::NonZeroExit { .. } => "Game exited with non-zero status"@,
    }
}

impl LaunchError {
    /// A sentence that says what went wrong.
    pub fn message(&self) -> (out: String)
        ensures
            out@ == message_of(*self),
    {
        match self {
            LaunchError::PayloadNotFound => String::from_str(
                "Could not find ASAR path for Electron game",
            ),
            LaunchError::ToolNotConfigured => String::from_str(
                "No compatibility tool directory is configured",
            ),
            LaunchError::LibraryPathsNotSet => String::from_str("STEAM_LIBRARY_PATHS is not set"),
            LaunchError::ToolNotFound => String::from_str(
                "Compatibility tool not found in configured library paths",
            ),
            LaunchError::NonZeroExit { .. } => String::from_str(
                "Game exited with non-zero status",
            ),
        }
    }
}

/// How the title's process ended: fine if it reported success, a failure
/// carrying its status if not.
pub fn exit_outcome(success: bool, code: Option<i32>) -> (out: Result<(), LaunchError>)
    ensures
        out == if success {
            Ok::<(), LaunchError>(())
        } else {
            Err::<(), LaunchError>(LaunchError::NonZeroExit { code })
        },
{
    if success {
        Ok(())
    } else {
        Err(LaunchError::NonZeroExit { code })
    }
}

/// The descriptor that a compatibility tool ships in its directory.
#[derive(Debug)]
pub struct ToolManifest {
    /// The command line that runs a title through the tool.
    pub commandline: String,
    /// The command line for waiting for running titles first, if the tool
    /// has one of its own.
    pub commandline_waitforexitandrun: Option<String>,
}

/// The descriptor file of a compatibility tool as a whole.
#[derive(Debug)]
pub struct ToolManifestVdf {
    pub manifest: ToolManifest,
}

/// The directories in which compatibility tools are looked for: the
/// `common` directory of each library root, then the tools directory of
/// the client installation if it is known.
pub open spec fn tool_roots(library_paths: Seq<char>, client_install: Option<Seq<char>>) -> Seq<
    Seq<char>,
> {
    let roots = split(library_paths, ':');
    let libraries = Seq::new(roots.len(), |i: int| joined_path(roots[i], "common"@));
    match client_install {
        Some(dir) => libraries.push(joined_path(dir, "compatibilitytools.d"@)),
        None => libraries,
    }
}

/// The places where the tool `name` may be, in the order of the search.
pub open spec fn tool_candidates(
    name: Seq<char>,
    library_paths: Seq<char>,
    client_install: Option<Seq<char>>,
) -> Seq<Seq<char>> {
    let roots = tool_roots(library_paths, client_install);
    Seq::new(roots.len(), |i: int| joined_path(roots[i], name))
}

/// The result of the search for the tool `name`: an error if the library
/// roots are unknown, else the first candidate that was found to be a
/// directory, if any.
pub open spec fn tool_lookup(
    name: Seq<char>,
    library_paths: Option<Seq<char>>,
    client_install: Option<Seq<char>>,
    present: Seq<bool>,
) -> Result<Option<Seq<char>>, LaunchError> {
    match library_paths {
        None => Err(LaunchError::LibraryPathsNotSet),
        Some(paths) => Ok(first_present(tool_candidates(name, paths, client_install), present, 0)),
    }
}

/// The places where the compatibility tool `name` may be, in the order in
/// which they are to be checked. Fails if the platform's options do not
/// name the library roots.
pub fn compat_tool_candidates(name: &str, steam_opts: &SteamCompatConfig) -> (out: Result<
    Vec<String>,
    LaunchError,
>)
    ensures
        match out {
            Ok(list) => steam_opts.library_paths matches Some(paths) && texts(list@)
                == tool_candidates(name@, paths@, opt_text(steam_opts.client_install_path)),
            Err(e) => steam_opts.library_paths is None && e == LaunchError::LibraryPathsNotSet,
        },
{
    let paths = match &steam_opts.library_paths {
        Some(p) => p,
        None => {
            return Err(LaunchError::LibraryPathsNotSet);
        },
    };
    let roots = split_on(paths.as_str(), ':');
    let ghost client = opt_text(steam_opts.client_install_path);
    let mut out: Vec<String> = Vec::new();
    let mut i: usize = 0;
    while i < roots.len()
        invariant
            i <= roots.len(),
            texts(roots@) == split(paths@, ':'),
            out.len() == i,
            forall|j: int|
                0 <= j < i ==> out@[j]@ == joined_path(
                    joined_path(split(paths@, ':')[j], "common"@),
                    name@,
                ),
        decreases roots.len() - i,
    {
        assert(texts(roots@)[i as int] == roots@[i as int]@);
        let root = join_path(roots[i].as_str(), "common");
        out.push(join_path(root.as_str(), name));
        i += 1;
    }
    assert(texts(roots@).len() == roots@.len());
    if let Some(dir) = &steam_opts.client_install_path {
        let root = join_path(dir.as_str(), "compatibilitytools.d");
        out.push(join_path(root.as_str(), name));
    }
    assert(texts(out@) =~= tool_candidates(name@, paths@, client));
    Ok(out)
}

/// Finds the directory of the compatibility tool `name`. `present[i]`
/// tells whether the `i`-th of `compat_tool_candidates(name, steam_opts)`
/// is a directory on disk.
pub fn lookup_compat_tool(name: &str, steam_opts: &SteamCompatConfig, present: &Vec<bool>) -> (out:
    Result<Option<String>, LaunchError>)
    ensures
        match out {
            Ok(found) => tool_lookup(
                name@,
                opt_text(steam_opts.library_paths),
                opt_text(steam_opts.client_install_path),
                present@,
            ) == Ok::<Option<Seq<char>>, LaunchError>(opt_text(found)),
            Err(e) => tool_lookup(
                name@,
                opt_text(steam_opts.library_paths),
                opt_text(steam_opts.client_install_path),
                present@,
            ) == Err::<Option<Seq<char>>, LaunchError>(e),
        },
{
    match compat_tool_candidates(name, steam_opts) {
        Ok(candidates) => Ok(first_existing(&candidates, present)),
        Err(e) => Err(e),
    }
}

/// The verb that stands for `%verb%` in a tool's command line.
pub open spec fn run_verb() -> Seq<char> {
    "run"@
}

/// The placeholder for the verb in a tool's command line.
pub open spec fn verb_mark() -> Seq<char> {
    "%verb%"@
}

/// The words of a tool's command line: one leading `/` is dropped, then
/// the line is cut at whitespace.
pub open spec fn command_words_of(commandline: Seq<char>) -> Seq<Seq<char>> {
    words(without_leading(commandline, '/'))
}

/// The arguments among the expanded words of a command line: every word
/// after the first, with the verb put in for its placeholder.
pub open spec fn verb_arguments_of(expanded: Seq<Seq<char>>) -> Seq<Seq<char>> {
    if expanded.len() == 0 {
        Seq::empty()
    } else {
        Seq::new(
            (expanded.len() - 1) as nat,
            |i: int| replaced(expanded[i + 1], verb_mark(), run_verb()),
        )
    }
}

/// The executable that the first word of a command line names: a relative
/// name is taken below the tool's directory, any other as it is.
pub open spec fn wrapper_program_of(tool_dir: Seq<char>, first: Seq<char>) -> Seq<char> {
    if path_is_relative(first) {
        joined_path(tool_dir, first)
    } else {
        first
    }
}

/// The wrapper that a tool's command line asks for: its first word,
/// expanded, names the executable, and the other words, expanded, are the
/// arguments. An empty line asks for nothing.
pub open spec fn tool_wrapper(tool_dir: Seq<char>, commandline: Seq<char>, env: ProcessEnvView) -> Option<
    (Seq<char>, Seq<Seq<char>>),
> {
    let tokens = command_words_of(commandline);
    if tokens.len() == 0 {
        None
    } else {
        let expanded = expanded_all(tokens, env);
        Some((wrapper_program_of(tool_dir, expanded[0]), verb_arguments_of(expanded)))
    }
}

/// The mathematical content of an optional wrapper.
pub open spec fn wrapper_view(w: Option<(String, Vec<String>)>) -> Option<
    (Seq<char>, Seq<Seq<char>>),
> {
    match w {
        Some((program, args)) => Some((program@, texts(args@))),
        None => None,
    }
}

/// Cuts a tool's command line into its words.
pub fn command_words(commandline: &str) -> (out: Vec<String>)
    ensures
        texts(out@) == command_words_of(commandline@),
{
    let line = strip_leading(commandline, '/');
    split_words(line.as_str())
}

/// The arguments among the expanded words of a command line.
pub fn verb_arguments(expanded: &Vec<String>) -> (out: Vec<String>)
    ensures
        texts(out@) == verb_arguments_of(texts(expanded@)),
{
    let mut out: Vec<String> = Vec::new();
    if expanded.len() == 0 {
        assert(texts(out@) =~= Seq::empty());
        return out;
    }
    let mut i: usize = 1;
    while i < expanded.len()
        invariant
            1 <= i <= expanded.len(),
            out.len() == i - 1,
            forall|j: int|
                0 <= j < i - 1 ==> out@[j]@ == replaced(
                    expanded@[j + 1]@,
                    verb_mark(),
                    run_verb(),
                ),
        decreases expanded.len() - i,
    {
        out.push(replace_all(expanded[i].as_str(), "%verb%", "run"));
        i += 1;
    }
    proof {
        assert forall|j: int| 0 <= j < expanded.len() - 1 implies #[trigger] texts(out@)[j]
            == verb_arguments_of(texts(expanded@))[j] by {
            assert(texts(expanded@)[j + 1] == expanded@[j + 1]@);
        }
        assert(texts(out@) =~= verb_arguments_of(texts(expanded@)));
    }
    out
}

/// The executable that the first word of a command line names.
pub fn wrapper_program(tool_dir: &str, first: &str) -> (out: String)
    ensures
        out@ == wrapper_program_of(tool_dir@, first@),
{
    if is_relative_path(first) {
        join_path(tool_dir, first)
    } else {
        String::from_str(first)
    }
}

/// Reads the wrapper command out of a tool's manifest: the executable and
/// the arguments that run a title through the tool in `tool_dir`.
pub fn get_compat_tool_wrapper(tool_dir: &str, manifest: &ToolManifest, env: &ProcessEnv) -> (out:
    Option<(String, Vec<String>)>)
    ensures
        wrapper_view(out) == tool_wrapper(tool_dir@, manifest.commandline@, env@),
{
    let tokens = command_words(manifest.commandline.as_str());
    if tokens.len() == 0 {
        assert(texts(tokens@).len() == 0);
        return None;
    }
    assert(texts(tokens@).len() == tokens@.len());
    let expanded = env.expand_all(&tokens);
    assert(texts(expanded@).len() == expanded@.len());
    assert(texts(expanded@)[0] == expanded@[0]@);
    let program = wrapper_program(tool_dir, expanded[0].as_str());
    Some((program, verb_arguments(&expanded)))
}

/// What the caller found out about the disk before the launch is planned.
#[derive(Debug)]
pub struct Findings {
    /// The directory of the launcher's own executable.
    pub exec_dir: String,
    /// Whether `lib_dir(exec_dir)` exists.
    pub lib_dir_present: bool,
    /// The game's directory, canonical.
    pub game_dir: String,
    /// For each of `asar_candidates(asar_root(env, game_dir))`, whether it
    /// exists. Only read for an Electron title.
    pub asar_present: Vec<bool>,
    /// For each of `compat_tool_candidates(name, steam_opts)`, whether it
    /// is a directory. Only read for a deferring title.
    pub tool_present: Vec<bool>,
    /// The manifest in the tool directory that `lookup_compat_tool` found,
    /// or `None` if it could not be read or understood.
    pub manifest: Option<ToolManifest>,
}

/// The mathematical content of [`Findings`].
pub struct FindingsView {
    pub exec_dir: Seq<char>,
    pub lib_dir_present: bool,
    pub game_dir: Seq<char>,
    pub asar_present: Seq<bool>,
    pub tool_present: Seq<bool>,
    pub commandline: Option<Seq<char>>,
}

impl View for Findings {
    type V = FindingsView;

    open spec fn view(&self) -> FindingsView {
        FindingsView {
            exec_dir: self.exec_dir@,
            lib_dir_present: self.lib_dir_present,
            game_dir: self.game_dir@,
            asar_present: self.asar_present@,
            tool_present: self.tool_present@,
            commandline: match self.manifest {
                Some(m) => Some(m.commandline@),
                None => None,
            },
        }
    }
}

/// The process to start for a title.
#[derive(Debug)]
pub struct LaunchCommand {
    /// The executable.
    pub program: String,
    /// Its arguments.
    pub args: Vec<String>,
    /// The variables to set in its environment, on top of the inherited
    /// ones.
    pub envs: EnvVars,
    /// Its working directory.
    pub working_dir: String,
}

/// The mathematical content of a [`LaunchCommand`].
pub struct LaunchCommandView {
    pub program: Seq<char>,
    pub args: Seq<Seq<char>>,
    pub envs: Map<Seq<char>, Seq<char>>,
    pub working_dir: Seq<char>,
}

impl View for LaunchCommand {
    type V = LaunchCommandView;

    open spec fn view(&self) -> LaunchCommandView {
        LaunchCommandView {
            program: self.program@,
            args: texts(self.args@),
            envs: self.envs@,
            working_dir: self.working_dir@,
        }
    }
}

/// One launch: the platform's options, the title's resolved configuration
/// and the install path that the platform handed over.
#[derive(Debug)]
pub struct Runtime {
    pub steam_opts: SteamCompatConfig,
    pub game_config: GameConfig,
    pub exec_path: String,
}

/// What of a [`Runtime`] the launch depends on.
pub struct RuntimeView {
    pub library_paths: Option<Seq<char>>,
    pub client_install_path: Option<Seq<char>>,
    pub config: GameConfigView,
    pub exec_path: Seq<char>,
}

impl View for Runtime {
    type V = RuntimeView;

    open spec fn view(&self) -> RuntimeView {
        RuntimeView {
            library_paths: opt_text(self.steam_opts.library_paths),
            client_install_path: opt_text(self.steam_opts.client_install_path),
            config: self.game_config@,
            exec_path: self.exec_path@,
        }
    }
}

/// The place of the Electron hook script, beside the launcher's
/// executable.
pub fn hook_path(exec_dir: &str) -> (out: String)
    ensures
        out@ == joined_path(exec_dir@, "register-hook.js"@),
{
    join_path(exec_dir, "register-hook.js")
}

/// The launcher's own library directory, beside its executable.
pub fn lib_dir(exec_dir: &str) -> (out: String)
    ensures
        out@ == joined_path(exec_dir@, "lib"@),
{
    join_path(exec_dir, "lib")
}

/// The place of a tool's manifest in its directory.
pub fn manifest_path(tool_dir: &str) -> (out: String)
    ensures
        out@ == joined_path(tool_dir@, "toolmanifest.vdf"@),
{
    join_path(tool_dir, "toolmanifest.vdf")
}

/// What the search for a tool means for the launch: a tool that was not
/// found stops it.
pub open spec fn found_tool_of(search: Result<Option<Seq<char>>, LaunchError>) -> Result<
    Seq<char>,
    LaunchError,
> {
    match search {
        Err(e) => Err(e),
        Ok(None) => Err(LaunchError::ToolNotFound),
        Ok(Some(dir)) => Ok(dir),
    }
}

/// The wrapper of a deferring title whose tool was found. If the tool's
/// manifest gave a wrapper, that wrapper runs the title, with the
/// manifest's arguments before the configured ones. Without, there is no
/// wrapper, and the configured arguments stand alone.
pub open spec fn manifest_wrapper(
    parsed: Option<(Seq<char>, Seq<Seq<char>>)>,
    configured_args: Seq<Seq<char>>,
) -> (Option<Seq<char>>, Seq<Seq<char>>) {
    match parsed {
        Some((program, args)) => (Some(program), args + configured_args),
        None => (None, configured_args),
    }
}

/// The wrapper of a title that is not deferred: the configured wrapper
/// command, else the one that the compatibility type brings; the
/// configured arguments, then those that the compatibility type brings.
pub open spec fn default_wrapper(
    config: GameConfigView,
    brought: (Option<Seq<char>>, Seq<Seq<char>>),
) -> (Option<Seq<char>>, Seq<Seq<char>>) {
    (later(brought.0, config.wrapper_command), config.wrapper_args + brought.1)
}

/// The executable and its arguments. With a wrapper, the wrapper runs and
/// gets its own arguments, then the caller's, then the target as the last
/// one. Without, the target runs with the caller's arguments.
pub open spec fn command_line(
    wrapper: Option<Seq<char>>,
    wrapper_args: Seq<Seq<char>>,
    extra_args: Seq<Seq<char>>,
    target: Seq<char>,
) -> (Seq<char>, Seq<Seq<char>>) {
    match wrapper {
        Some(program) => (program, (wrapper_args + extra_args).push(target)),
        None => (target, extra_args),
    }
}

/// The variables that are set for the title: `LD_PRELOAD` and
/// `LD_LIBRARY_PATH`, then the configured variables, which win where the
/// names collide.
pub open spec fn environment_of(
    preload: Seq<char>,
    library_path: Seq<char>,
    vars: Map<Seq<char>, Seq<char>>,
) -> Map<Seq<char>, Seq<char>> {
    Map::<Seq<char>, Seq<char>>::empty().insert("LD_PRELOAD"@, preload).insert(
        "LD_LIBRARY_PATH"@,
        library_path,
    ).union_prefer_right(vars)
}

/// The process to start, given the target, the wrapper and the variables
/// that were worked out; or the reason why there is none. A missing target
/// is a missing payload, and it is reported before a missing tool.
pub open spec fn assembled(
    target: Option<Seq<char>>,
    wrapper: Result<(Option<Seq<char>>, Seq<Seq<char>>), LaunchError>,
    extra_args: Seq<Seq<char>>,
    envs: Map<Seq<char>, Seq<char>>,
    working_dir: Seq<char>,
) -> Result<LaunchCommandView, LaunchError> {
    match target {
        None => Err(LaunchError::PayloadNotFound),
        Some(target) => match wrapper {
            Err(e) => Err(e),
            Ok((program, wrapper_args)) => {
                let (program, args) = command_line(program, wrapper_args, extra_args, target);
                Ok(LaunchCommandView { program, args, envs, working_dir })
            },
        },
    }
}

/// What the search for a tool means for the launch.
pub fn found_tool(search: Result<Option<String>, LaunchError>) -> (out: Result<String, LaunchError>)
    ensures
        match out {
            Ok(dir) => search matches Ok(Some(d)) && d@ == dir@,
            Err(e) => found_tool_of(
                match search {
                    Ok(found) => Ok(opt_text(found)),
                    Err(e) => Err(e),
                },
            ) == Err::<Seq<char>, LaunchError>(e),
        },
{
    match search {
        Err(e) => Err(e),
        Ok(None) => Err(LaunchError::ToolNotFound),
        Ok(Some(dir)) => Ok(dir),
    }
}

/// The wrapper of a deferring title whose tool was found, given what the
/// tool's manifest asks for.
pub fn wrapper_from_manifest(parsed: Option<(String, Vec<String>)>, configured_args: &Vec<String>) -> (out:
    (Option<String>, Vec<String>))
    ensures
        (opt_text(out.0), texts(out.1@)) == manifest_wrapper(
            wrapper_view(parsed),
            texts(configured_args@),
        ),
{
    match parsed {
        Some((program, args)) => {
            let mut all = args;
            append_strings(&mut all, configured_args);
            (Some(program), all)
        },
        None => (None, clone_strings(configured_args)),
    }
}

/// The wrapper of a title that is not deferred, given what its
/// compatibility type brings.
pub fn wrapper_from_default(config: &GameConfig, brought: (Option<String>, Vec<String>)) -> (out: (
    Option<String>,
    Vec<String>,
))
    ensures
        (opt_text(out.0), texts(out.1@)) == default_wrapper(
            config@,
            (opt_text(brought.0), texts(brought.1@)),
        ),
{
    let program = if config.wrapper_command.is_some() {
        clone_opt(&config.wrapper_command)
    } else {
        brought.0
    };
    let mut args = clone_strings(&config.wrapper_args);
    append_strings(&mut args, &brought.1);
    (program, args)
}

/// The executable and its arguments.
pub fn command_for(
    wrapper: Option<String>,
    wrapper_args: Vec<String>,
    extra_args: Vec<String>,
    target: String,
) -> (out: (String, Vec<String>))
    ensures
        (out.0@, texts(out.1@)) == command_line(
            opt_text(wrapper),
            texts(wrapper_args@),
            texts(extra_args@),
            target@,
        ),
{
    match wrapper {
        Some(program) => {
            let mut args = wrapper_args;
            append_strings(&mut args, &extra_args);
            let ghost before = texts(args@);
            args.push(target);
            assert(texts(args@) =~= before.push(target@));
            (program, args)
        },
        None => (target, extra_args),
    }
}

/// The variables that are set for the title.
pub fn launch_environment(preload: String, library_path: String, vars: &EnvVars) -> (out: EnvVars)
    ensures
        out@ == environment_of(preload@, library_path@, vars@),
{
    let mut out = EnvVars::new();
    out.insert(String::from_str("LD_PRELOAD"), preload);
    out.insert(String::from_str("LD_LIBRARY_PATH"), library_path);
    out.extend(vars);
    out
}

/// Puts the process together from its parts.
pub fn assemble(
    target: Option<String>,
    wrapper: Result<(Option<String>, Vec<String>), LaunchError>,
    extra_args: Vec<String>,
    envs: EnvVars,
    working_dir: String,
) -> (out: Result<LaunchCommand, LaunchError>)
    ensures
        match out {
            Ok(command) => assembled(
                opt_text(target),
                match wrapper {
                    Ok((program, args)) => Ok((opt_text(program), texts(args@))),
                    Err(e) => Err(e),
                },
                texts(extra_args@),
                envs@,
                working_dir@,
            ) == Ok::<LaunchCommandView, LaunchError>(command@),
            Err(e) => assembled(
                opt_text(target),
                match wrapper {
                    Ok((program, args)) => Ok((opt_text(program), texts(args@))),
                    Err(e) => Err(e),
                },
                texts(extra_args@),
                envs@,
                working_dir@,
            ) == Err::<LaunchCommandView, LaunchError>(e),
        },
{
    let target = match target {
        Some(t) => t,
        None => {
            return Err(LaunchError::PayloadNotFound);
        },
    };
    let (wrapper, wrapper_args) = match wrapper {
        Ok(w) => w,
        Err(e) => {
            return Err(e);
        },
    };
    let (program, args) = command_for(wrapper, wrapper_args, extra_args, target);
    Ok(LaunchCommand { program, args, envs, working_dir })
}

/// What the title's executable target is: the application that was found
/// for an Electron title, the install path for every other.
pub open spec fn target_of(rt: RuntimeView, env: ProcessEnvView, found: FindingsView) -> Option<
    Seq<char>,
> {
    if rt.config.compat_type == CompatType::Electron {
        asar_path_of(env, found.game_dir, found.asar_present)
    } else {
        Some(rt.exec_path)
    }
}

/// The wrapper of a deferring title and its arguments. The title must name
/// a tool, the library roots must be known and the tool must be found.
/// The tool's manifest, if one was read, then says what the wrapper is.
pub open spec fn deferred_wrapper(rt: RuntimeView, env: ProcessEnvView, found: FindingsView) -> Result<
    (Option<Seq<char>>, Seq<Seq<char>>),
    LaunchError,
> {
    match rt.config.compat_tool_dir {
        None => Err(LaunchError::ToolNotConfigured),
        Some(name) => match found_tool_of(
            tool_lookup(name, rt.library_paths, rt.client_install_path, found.tool_present),
        ) {
            Err(e) => Err(e),
            Ok(dir) => Ok(
                manifest_wrapper(
                    match found.commandline {
                        Some(line) => tool_wrapper(dir, line, env),
                        None => None,
                    },
                    rt.config.wrapper_args,
                ),
            ),
        },
    }
}

/// The wrapper of a title that is not deferred.
pub open spec fn own_wrapper(rt: RuntimeView, env: ProcessEnvView, found: FindingsView) -> (
    Option<Seq<char>>,
    Seq<Seq<char>>,
) {
    default_wrapper(
        rt.config,
        default_executable(
            rt.config.compat_type,
            joined_path(found.exec_dir, "register-hook.js"@),
            electron_of(env),
        ),
    )
}

/// The wrapper of a title and its arguments.
pub open spec fn wrapper_chain(rt: RuntimeView, env: ProcessEnvView, found: FindingsView) -> Result<
    (Option<Seq<char>>, Seq<Seq<char>>),
    LaunchError,
> {
    if rt.config.compat_type == CompatType::DeferProton {
        deferred_wrapper(rt, env, found)
    } else {
        Ok(own_wrapper(rt, env, found))
    }
}

/// The launcher's own library directory, if it exists.
pub open spec fn lib_dir_of(found: FindingsView) -> Option<Seq<char>> {
    if found.lib_dir_present {
        Some(joined_path(found.exec_dir, "lib"@))
    } else {
        None
    }
}

/// The variables that are set for the title: the composed `LD_PRELOAD`
/// and `LD_LIBRARY_PATH`, then the configured variables with their values
/// expanded, which win where the names collide.
pub open spec fn launch_envs(config: GameConfigView, env: ProcessEnvView, found: FindingsView) -> Map<
    Seq<char>,
    Seq<char>,
> {
    environment_of(
        crate::text::join(preload_entries(env, config), ':'),
        crate::text::join(library_entries(env, config, lib_dir_of(found)), ':'),
        expanded_table(config.env_vars, env),
    )
}

/// The process that launches the title, or the reason why there is none.
/// The working directory is the install path.
pub open spec fn launch_of(
    rt: RuntimeView,
    extra_args: Seq<Seq<char>>,
    env: ProcessEnvView,
    found: FindingsView,
) -> Result<LaunchCommandView, LaunchError> {
    assembled(
        target_of(rt, env, found),
        wrapper_chain(rt, env, found),
        extra_args,
        launch_envs(rt.config, env, found),
        rt.exec_path,
    )
}

impl Runtime {
    /// A launch of the title installed at `exec_path`.
    pub fn new(steam_opts: SteamCompatConfig, game_config: GameConfig, exec_path: String) -> (out:
        Self)
        ensures
            out.steam_opts == steam_opts,
            out.game_config == game_config,
            out.exec_path == exec_path,
    {
        Runtime { steam_opts, game_config, exec_path }
    }

    /// The executable target of the title.
    pub fn target(&self, env: &ProcessEnv, found: &Findings) -> (out: Option<String>)
        ensures
            opt_text(out) == target_of(self@, env@, found@),
    {
        match self.game_config.compat_type {
            CompatType::Electron => get_asar_path(
                found.game_dir.as_str(),
                env,
                &found.asar_present,
            ),
            _ => Some(self.exec_path.clone()),
        }
    }

    /// The wrapper of the title and the wrapper's arguments.
    pub fn wrapper(&self, env: &ProcessEnv, found: &Findings) -> (out: Result<
        (Option<String>, Vec<String>),
        LaunchError,
    >)
        ensures
            match out {
                Ok((program, args)) => wrapper_chain(self@, env@, found@) == Ok::<
                    (Option<Seq<char>>, Seq<Seq<char>>),
                    LaunchError,
                >((opt_text(program), texts(args@))),
                Err(e) => wrapper_chain(self@, env@, found@) == Err::<
                    (Option<Seq<char>>, Seq<Seq<char>>),
                    LaunchError,
                >(e),
            },
    {
        let config = &self.game_config;
        match config.compat_type {
            CompatType::DeferProton => {
                let name = match &config.compat_tool_dir {
                    Some(n) => n,
                    None => {
                        return Err(LaunchError::ToolNotConfigured);
                    },
                };
                let search = lookup_compat_tool(
                    name.as_str(),
                    &self.steam_opts,
                    &found.tool_present,
                );
                let dir = match found_tool(search) {
                    Ok(d) => d,
                    Err(e) => {
                        return Err(e);
                    },
                };
                let parsed = match &found.manifest {
                    Some(m) => get_compat_tool_wrapper(dir.as_str(), m, env),
                    None => None,
                };
                Ok(wrapper_from_manifest(parsed, &config.wrapper_args))
            },
            _ => {
                let brought = config.compat_type.executable(
                    hook_path(found.exec_dir.as_str()),
                    env_electron_path(env),
                );
                Ok(wrapper_from_default(config, brought))
            },
        }
    }

    /// The variables to set for the title.
    pub fn environment(&self, env: &ProcessEnv, found: &Findings) -> (out: EnvVars)
        ensures
            out@ == launch_envs(self@.config, env@, found@),
    {
        let preload = compose_ld_preload(env, &self.game_config);
        let own_lib = lib_dir(found.exec_dir.as_str());
        let lib = if found.lib_dir_present {
            Some(own_lib.as_str())
        } else {
            None
        };
        let library_path = compose_ld_library_path(env, &self.game_config, lib);
        let vars = env.expand_table(&self.game_config.env_vars);
        launch_environment(preload, library_path, &vars)
    }

    /// Works out the process that launches the title: the executable, its
    /// arguments, the variables to set and the working directory. Nothing
    /// is started; a title without a payload or without its tool is
    /// reported before any process could be.
    pub fn launch_game(
        &self,
        additional_args: Vec<String>,
        env: &ProcessEnv,
        found: &Findings,
    ) -> (out: Result<LaunchCommand, LaunchError>)
        ensures
            match out {
                Ok(command) => launch_of(self@, texts(additional_args@), env@, found@) == Ok::<
                    LaunchCommandView,
                    LaunchError,
                >(command@),
                Err(e) => launch_of(self@, texts(additional_args@), env@, found@) == Err::<
                    LaunchCommandView,
                    LaunchError,
                >(e),
            },
    {
        let target = self.target(env, found);
        let wrapper = self.wrapper(env, found);
        let envs = self.environment(env, found);
        assemble(target, wrapper, additional_args, envs, self.exec_path.clone())
    }
}

} // verus!
