//! Per-title launch configuration: the compatibility types, the settings of
//! one title, and the three-layer merge that resolves them.
//!
//! A title's configuration is resolved by merging, in this order, the
//! runtime defaults of its compatibility type, the global default, and the
//! title's own override if there is one. Lists and tables accumulate;
//! scalars are overwritten by the last layer that sets them.

use vstd::prelude::*;
use vstd::string::StringExecFns;
pub use crate::config_file::GameConfigFile;
use crate::env::EnvVars;
use crate::text::{
    lowered,
    opt_text,
    parse_u32,
    parsed_u32,
    same_text,
    texts,
    trim_lower,
    trimmed,
};

verus! {

/// A copy of `v`.
pub fn clone_strings(v: &Vec<String>) -> (out: Vec<String>)
    ensures
        texts(out@) == texts(v@),
{
    let mut out: Vec<String> = Vec::new();
    let mut i: usize = 0;
    while i < v.len()
        invariant
            i <= v.len(),
            texts(out@) == texts(v@).take(i as int),
        decreases v.len() - i,
    {
        let ghost before = texts(out@);
        out.push(v[i].clone());
        proof {
            assert(texts(out@) =~= before.push(v@[i as int]@));
            assert(texts(v@).take(i + 1) =~= texts(v@).take(i as int).push(v@[i as int]@));
        }
        i += 1;
    }
    assert(texts(v@).take(v.len() as int) =~= texts(v@));
    out
}

/// Appends copies of the strings of `extra` to `base`.
pub fn append_strings(base: &mut Vec<String>, extra: &Vec<String>)
    ensures
        texts(final(base)@) == texts(old(base)@) + texts(extra@),
{
    let ghost start = texts(base@);
    let mut i: usize = 0;
    assert(start + texts(extra@).take(0) =~= start);
    while i < extra.len()
        invariant
            i <= extra.len(),
            texts(base@) == start + texts(extra@).take(i as int),
        decreases extra.len() - i,
    {
        let ghost before = texts(base@);
        base.push(extra[i].clone());
        proof {
            assert(texts(base@) =~= before.push(extra@[i as int]@));
            assert(start + texts(extra@).take(i + 1) =~= (start + texts(extra@).take(
                i as int,
            )).push(extra@[i as int]@));
        }
        i += 1;
    }
    assert(texts(extra@).take(extra.len() as int) =~= texts(extra@));
}

/// A copy of `o`.
pub fn clone_opt(o: &Option<String>) -> (out: Option<String>)
    ensures
        opt_text(out) == opt_text(*o),
{
    match o {
        Some(s) => Some(s.clone()),
        None => None,
    }
}

/// What a word means as a switch: `1`, `true`, `yes`, `y`, `on` switch on,
/// `0`, `false`, `no`, `n`, `off` switch off, anything else is no switch.
pub open spec fn switch_value(word: Seq<char>) -> Option<bool> {
    if word == "1"@ || word == "true"@ || word == "yes"@ || word == "y"@ || word == "on"@ {
        Some(true)
    } else if word == "0"@ || word == "false"@ || word == "no"@ || word == "n"@ || word
        == "off"@ {
        Some(false)
    } else {
        None
    }
}

/// The complaint about a word that is no switch.
pub open spec fn switch_complaint(word: Seq<char>) -> Seq<char> {
    "invalid boolean '"@ + word + "', expected 0/1 or true/false"@
}

/// Reads a switch, ignoring surrounding whitespace and the case of ASCII
/// letters. The error names the word as it was understood.
pub fn parse_bool(s: &str) -> (out: Result<bool, String>)
    ensures
        match out {
            Ok(b) => switch_value(lowered(trimmed(s@))) == Some(b),
            Err(msg) => switch_value(lowered(trimmed(s@))) is None && msg@ == switch_complaint(
                lowered(trimmed(s@)),
            ),
        },
{
    let word = trim_lower(s);
    let w = word.as_str();
    if same_text(w, "1") || same_text(w, "true") || same_text(w, "yes") || same_text(w, "y")
        || same_text(w, "on") {
        Ok(true)
    } else if same_text(w, "0") || same_text(w, "false") || same_text(w, "no") || same_text(
        w,
        "n",
    ) || same_text(w, "off") {
        Ok(false)
    } else {
        let mut msg = String::from_str("invalid boolean '");
        msg.append(w);
        msg.append("', expected 0/1 or true/false");
        Err(msg)
    }
}

/// How a title is run.
#[derive(Clone, Copy, Debug, PartialEq, Eq, Structural)]
pub enum CompatType {
    /// Hand the title to another compatibility tool.
    DeferProton,
    /// Run the install path itself as a native executable.
    ForceNative,
    /// Wrap the title's application archive with the Electron runtime.
    Electron,
    /// Wrap the title with the `love` runtime.
    Love,
}

impl Default for CompatType {
    fn default() -> (out: Self)
        ensures
            out == CompatType::DeferProton,
    {
        CompatType::DeferProton
    }
}

/// The launch settings of one title, or one layer of them.
#[derive(Debug)]
pub struct GameConfig {
    pub compat_type: CompatType,
    /// Command that wraps the title; replaces the compatibility type's own.
    pub wrapper_command: Option<String>,
    /// Arguments for the wrapper command.
    pub wrapper_args: Vec<String>,
    /// Environment variables to set for the title.
    pub env_vars: EnvVars,
    /// Arguments for the title itself.
    pub append_args: Vec<String>,
    /// Libraries to preload besides the inherited ones.
    pub extra_preloads: Vec<String>,
    /// Keep the platform's overlay renderer out of the title's process.
    pub disable_steam_overlay: bool,
    /// Directory name of the compatibility tool to delegate to.
    pub compat_tool_dir: Option<String>,
}

/// The mathematical content of a [`GameConfig`].
pub struct GameConfigView {
    pub compat_type: CompatType,
    pub wrapper_command: Option<Seq<char>>,
    pub wrapper_args: Seq<Seq<char>>,
    pub env_vars: Map<Seq<char>, Seq<char>>,
    pub append_args: Seq<Seq<char>>,
    pub extra_preloads: Seq<Seq<char>>,
    pub disable_steam_overlay: bool,
    pub compat_tool_dir: Option<Seq<char>>,
}

impl View for GameConfig {
    type V = GameConfigView;

    open spec fn view(&self) -> GameConfigView {
        GameConfigView {
            compat_type: self.compat_type,
            wrapper_command: opt_text(self.wrapper_command),
            wrapper_args: texts(self.wrapper_args@),
            env_vars: self.env_vars@,
            append_args: texts(self.append_args@),
            extra_preloads: texts(self.extra_preloads@),
            disable_steam_overlay: self.disable_steam_overlay,
            compat_tool_dir: opt_text(self.compat_tool_dir),
        }
    }
}

/// The layer that sets nothing: deferring, no wrapper, empty lists, overlay
/// left on, no tool directory.
pub open spec fn blank_config() -> GameConfigView {
    GameConfigView {
        compat_type: CompatType::DeferProton,
        wrapper_command: None,
        wrapper_args: Seq::empty(),
        env_vars: Map::empty(),
        append_args: Seq::empty(),
        extra_preloads: Seq::empty(),
        disable_steam_overlay: false,
        compat_tool_dir: None,
    }
}

/// `overlay` if it is set, else `base`.
pub open spec fn later<T>(base: Option<T>, overlay: Option<T>) -> Option<T> {
    if overlay is Some {
        overlay
    } else {
        base
    }
}

/// `overlay` laid over `base`: the compatibility type and the overlay switch
/// are the overlay's, the wrapper command and the tool directory are the
/// overlay's where it sets them, lists are appended and the variable table
/// is united with the overlay's values winning.
pub open spec fn merged(base: GameConfigView, overlay: GameConfigView) -> GameConfigView {
    GameConfigView {
        compat_type: overlay.compat_type,
        wrapper_command: later(base.wrapper_command, overlay.wrapper_command),
        wrapper_args: base.wrapper_args + overlay.wrapper_args,
        env_vars: base.env_vars.union_prefer_right(overlay.env_vars),
        append_args: base.append_args + overlay.append_args,
        extra_preloads: base.extra_preloads + overlay.extra_preloads,
        disable_steam_overlay: overlay.disable_steam_overlay,
        compat_tool_dir: later(base.compat_tool_dir, overlay.compat_tool_dir),
    }
}

/// The name of the tool that a deferring title falls back on.
pub open spec fn fallback_tool_dir() -> Seq<char> {
    "Proton - Experimental"@
}

/// The runtime defaults of a compatibility type.
pub open spec fn runtime_defaults_of(kind: CompatType) -> GameConfigView {
    match kind {
        CompatType::DeferProton => GameConfigView {
            compat_tool_dir: Some(fallback_tool_dir()),
            ..blank_config()
        },
        CompatType::ForceNative => blank_config(),
        CompatType::Electron => GameConfigView {
            compat_type: CompatType::Electron,
            disable_steam_overlay: true,
            ..blank_config()
        },
        CompatType::Love => GameConfigView { compat_type: CompatType::Love, ..blank_config() },
    }
}

impl Default for GameConfig {
    fn default() -> (out: Self)
        ensures
            out@ == blank_config(),
    {
        let out = GameConfig {
            compat_type: CompatType::DeferProton,
            wrapper_command: None,
            wrapper_args: Vec::new(),
            env_vars: EnvVars::new(),
            append_args: Vec::new(),
            extra_preloads: Vec::new(),
            disable_steam_overlay: false,
            compat_tool_dir: None,
        };
        proof {
            assert(texts(out.wrapper_args@) =~= Seq::empty());
            assert(texts(out.append_args@) =~= Seq::empty());
            assert(texts(out.extra_preloads@) =~= Seq::empty());
        }
        out
    }
}

impl Clone for GameConfig {
    fn clone(&self) -> (out: Self)
        ensures
            out@ == self@,
    {
        GameConfig {
            compat_type: self.compat_type,
            wrapper_command: clone_opt(&self.wrapper_command),
            wrapper_args: clone_strings(&self.wrapper_args),
            env_vars: self.env_vars.clone(),
            append_args: clone_strings(&self.append_args),
            extra_preloads: clone_strings(&self.extra_preloads),
            disable_steam_overlay: self.disable_steam_overlay,
            compat_tool_dir: clone_opt(&self.compat_tool_dir),
        }
    }
}

/// The tool directory used when a deferring title names none.
pub fn default_compat_tool_dir() -> (out: Option<String>)
    ensures
        opt_text(out) == Some(fallback_tool_dir()),
{
    Some(String::from_str("Proton - Experimental"))
}

impl CompatType {
    /// The runtime defaults of this compatibility type: the first layer of
    /// every title that uses it.
    pub fn runtime_defaults(&self) -> (out: GameConfig)
        ensures
            out@ == runtime_defaults_of(*self),
    {
        let mut out = GameConfig::default();
        match self {
            CompatType::DeferProton => {
                out.compat_tool_dir = default_compat_tool_dir();
            },
            CompatType::ForceNative => {},
            CompatType::Electron => {
                out.compat_type = CompatType::Electron;
                out.disable_steam_overlay = true;
            },
            CompatType::Love => {
                out.compat_type = CompatType::Love;
            },
        }
        out
    }
}

/// The wrapper that a compatibility type brings by itself, and the extra
/// arguments that go with it: none for the deferring and the native type,
/// the Electron runtime with its hook for Electron, `love` for Love.
pub open spec fn default_executable(
    kind: CompatType,
    hook_path: Seq<char>,
    electron: Seq<char>,
) -> (Option<Seq<char>>, Seq<Seq<char>>) {
    match kind {
        CompatType::DeferProton => (None, Seq::empty()),
        CompatType::ForceNative => (None, Seq::empty()),
        CompatType::Electron => (
            Some(electron),
            seq!["--no-sandbox"@, "--require"@, hook_path],
        ),
        CompatType::Love => (Some("love"@), Seq::empty()),
    }
}

impl CompatType {
    /// The default wrapper executable of this compatibility type and the
    /// arguments that it always gets. `hook_path` is the place of the
    /// Electron hook script and `electron` the Electron executable to use.
    pub fn executable(&self, hook_path: String, electron: String) -> (out: (
        Option<String>,
        Vec<String>,
    ))
        ensures
            (opt_text(out.0), texts(out.1@)) == default_executable(*self, hook_path@, electron@),
    {
        match self {
            CompatType::DeferProton => {
                let args: Vec<String> = Vec::new();
                assert(texts(args@) =~= Seq::empty());
                (None, args)
            },
            CompatType::ForceNative => {
                let args: Vec<String> = Vec::new();
                assert(texts(args@) =~= Seq::empty());
                (None, args)
            },
            CompatType::Electron => {
                let mut args: Vec<String> = Vec::new();
                args.push(String::from_str("--no-sandbox"));
                args.push(String::from_str("--require"));
                args.push(hook_path);
                assert(texts(args@) =~= seq!["--no-sandbox"@, "--require"@, hook_path@]);
                (Some(electron), args)
            },
            CompatType::Love => {
                let args: Vec<String> = Vec::new();
                assert(texts(args@) =~= Seq::empty());
                (Some(String::from_str("love")), args)
            },
        }
    }
}

/// The identifier of the title that is built in as a Love title.
pub const BALATRO: u32 = 2379780;

/// The identifier of the title that is built in as an Electron title.
pub const COOKIE_CLICKER: u32 = 1454400;

/// The overrides that are built in.
pub open spec fn builtin_overrides() -> Seq<(u32, GameConfigView)> {
    seq![
        (BALATRO, GameConfigView { compat_type: CompatType::Love, ..blank_config() }),
        (
            COOKIE_CLICKER,
            GameConfigView {
                compat_type: CompatType::Electron,
                disable_steam_overlay: true,
                ..blank_config()
            },
        ),
    ]
}

/// The mathematical content of a list of overrides.
pub open spec fn override_views(v: Seq<(u32, GameConfig)>) -> Seq<(u32, GameConfigView)> {
    Seq::new(v.len(), |i: int| (v[i].0, v[i].1@))
}

/// The overrides for a few well-known titles. The list is not meant to be
/// complete.
pub fn default_game_configs() -> (out: Vec<(u32, GameConfig)>)
    ensures
        override_views(out@) == builtin_overrides(),
{
    let mut love = GameConfig::default();
    love.compat_type = CompatType::Love;
    let mut electron = GameConfig::default();
    electron.compat_type = CompatType::Electron;
    electron.disable_steam_overlay = true;
    let mut out: Vec<(u32, GameConfig)> = Vec::new();
    out.push((BALATRO, love));
    out.push((COOKIE_CLICKER, electron));
    assert(override_views(out@) =~= builtin_overrides());
    out
}

/// The launcher's configuration: what holds for every title, and what holds
/// for single titles.
#[derive(Debug)]
pub struct BosonConfig {
    pub default_compat_config: GameConfig,
    pub game_overrides: Vec<(u32, GameConfig)>,
}

/// The mathematical content of a [`BosonConfig`].
pub struct BosonConfigView {
    pub default_compat_config: GameConfigView,
    pub game_overrides: Seq<(u32, GameConfigView)>,
}

impl View for BosonConfig {
    type V = BosonConfigView;

    open spec fn view(&self) -> BosonConfigView {
        BosonConfigView {
            default_compat_config: self.default_compat_config@,
            game_overrides: override_views(self.game_overrides@),
        }
    }
}

/// The position of the first override for `id` at or after `from`.
pub open spec fn override_index_from(
    overrides: Seq<(u32, GameConfigView)>,
    id: u32,
    from: int,
) -> Option<int>
    decreases overrides.len() - from,
{
    if from < 0 || from >= overrides.len() {
        None
    } else if overrides[from].0 == id {
        Some(from)
    } else {
        override_index_from(overrides, id, from + 1)
    }
}

/// The position of the first override for `id`.
pub open spec fn override_index(overrides: Seq<(u32, GameConfigView)>, id: u32) -> Option<int> {
    override_index_from(overrides, id, 0)
}

/// The first override for `id`, if there is one.
pub open spec fn override_for(overrides: Seq<(u32, GameConfigView)>, id: u32) -> Option<
    GameConfigView,
> {
    match override_index(overrides, id) {
        Some(i) => Some(overrides[i].1),
        None => None,
    }
}

/// No title has two overrides.
pub open spec fn unique_ids(overrides: Seq<(u32, GameConfigView)>) -> bool {
    forall|i: int, j: int| 0 <= i < j < overrides.len() ==> overrides[i].0 != overrides[j].0
}

/// What the search for an override finds: a position that holds `id` with
/// none before it, or nothing when no position holds `id`.
pub proof fn lemma_override_index(overrides: Seq<(u32, GameConfigView)>, id: u32, from: int)
    requires
        0 <= from <= overrides.len(),
    ensures
        match override_index_from(overrides, id, from) {
            Some(i) => from <= i < overrides.len() && overrides[i].0 == id && forall|j: int|
                from <= j < i ==> overrides[j].0 != id,
            None => forall|j: int| from <= j < overrides.len() ==> overrides[j].0 != id,
        },
    decreases overrides.len() - from,
{
    if from < overrides.len() && overrides[from].0 != id {
        lemma_override_index(overrides, id, from + 1);
    }
}

/// The layers of the title `id` laid one over the other: the runtime
/// defaults of its compatibility type, then the global default, then its
/// override. The compatibility type is the override's if there is one, the
/// global default's if not.
pub open spec fn layers_merged(store: BosonConfigView, id: u32) -> GameConfigView {
    match override_for(store.game_overrides, id) {
        Some(over) => merged(
            merged(runtime_defaults_of(over.compat_type), store.default_compat_config),
            over,
        ),
        None => merged(
            runtime_defaults_of(store.default_compat_config.compat_type),
            store.default_compat_config,
        ),
    }
}

/// `config` with the fallback tool put in where no tool directory is set.
pub open spec fn with_tool_fallback(config: GameConfigView) -> GameConfigView {
    GameConfigView {
        compat_tool_dir: match config.compat_tool_dir {
            Some(dir) => Some(dir),
            None => Some(fallback_tool_dir()),
        },
        ..config
    }
}

/// The configuration of the title `id`: its layers laid one over the
/// other, and the fallback tool directory where no layer sets one.
pub open spec fn resolved(store: BosonConfigView, id: u32) -> GameConfigView {
    with_tool_fallback(layers_merged(store, id))
}

/// `overrides` after one more override for `id` was read: merged into the
/// one already there, or added at the end.
pub open spec fn with_override(
    overrides: Seq<(u32, GameConfigView)>,
    id: u32,
    config: GameConfigView,
) -> Seq<(u32, GameConfigView)> {
    match override_index(overrides, id) {
        Some(i) => overrides.update(i, (overrides[i].0, merged(overrides[i].1, config))),
        None => overrides.push((id, config)),
    }
}

/// `overrides` after every override of `more` was read, in order.
pub open spec fn with_overrides(
    overrides: Seq<(u32, GameConfigView)>,
    more: Seq<(u32, GameConfigView)>,
) -> Seq<(u32, GameConfigView)>
    decreases more.len(),
{
    if more.len() == 0 {
        overrides
    } else {
        with_override(with_overrides(overrides, more.drop_last()), more.last().0, more.last().1)
    }
}

/// The contents of a list of configuration files.
pub open spec fn file_views(files: Seq<GameConfigFile>) -> Seq<Seq<(u32, GameConfigView)>> {
    Seq::new(files.len(), |i: int| files[i]@)
}

/// `overrides` after every file of `files` was read, in order.
pub open spec fn with_files(
    overrides: Seq<(u32, GameConfigView)>,
    files: Seq<Seq<(u32, GameConfigView)>>,
) -> Seq<(u32, GameConfigView)>
    decreases files.len(),
{
    if files.len() == 0 {
        overrides
    } else {
        with_overrides(with_files(overrides, files.drop_last()), files.last())
    }
}

/// The configuration before any file was read.
pub open spec fn initial_config() -> BosonConfigView {
    BosonConfigView { default_compat_config: blank_config(), game_overrides: builtin_overrides() }
}

/// Reading one more override keeps the titles distinct.
pub proof fn lemma_with_override_unique(
    overrides: Seq<(u32, GameConfigView)>,
    id: u32,
    config: GameConfigView,
)
    requires
        unique_ids(overrides),
    ensures
        unique_ids(with_override(overrides, id, config)),
{
    lemma_override_index(overrides, id, 0);
    let after = with_override(overrides, id, config);
    assert forall|i: int, j: int| 0 <= i < j < after.len() implies after[i].0 != after[j].0 by {
        match override_index(overrides, id) {
            Some(k) => {
                assert(after[i].0 == overrides[i].0);
                assert(after[j].0 == overrides[j].0);
            },
            None => {
                if j < overrides.len() {
                    assert(overrides[i].0 != overrides[j].0);
                }
            },
        }
    }
}

/// Reading a file keeps the titles distinct.
pub proof fn lemma_with_overrides_unique(
    overrides: Seq<(u32, GameConfigView)>,
    more: Seq<(u32, GameConfigView)>,
)
    requires
        unique_ids(overrides),
    ensures
        unique_ids(with_overrides(overrides, more)),
    decreases more.len(),
{
    if more.len() > 0 {
        lemma_with_overrides_unique(overrides, more.drop_last());
        lemma_with_override_unique(
            with_overrides(overrides, more.drop_last()),
            more.last().0,
            more.last().1,
        );
    }
}

/// Reading any number of files keeps the titles distinct.
pub proof fn lemma_with_files_unique(
    overrides: Seq<(u32, GameConfigView)>,
    files: Seq<Seq<(u32, GameConfigView)>>,
)
    requires
        unique_ids(overrides),
    ensures
        unique_ids(with_files(overrides, files)),
    decreases files.len(),
{
    if files.len() > 0 {
        lemma_with_files_unique(overrides, files.drop_last());
        lemma_with_overrides_unique(with_files(overrides, files.drop_last()), files.last());
    }
}

/// Two lists of overrides that agree on the titles of the first list's
/// positions find a title of the first list at the same position.
pub proof fn lemma_override_index_agrees(
    before: Seq<(u32, GameConfigView)>,
    after: Seq<(u32, GameConfigView)>,
    id: u32,
)
    requires
        before.len() <= after.len(),
        forall|j: int| 0 <= j < before.len() ==> before[j].0 == after[j].0,
        override_index(before, id) is Some,
    ensures
        override_index(after, id) == override_index(before, id),
{
    lemma_override_index(before, id, 0);
    lemma_override_index(after, id, 0);
    let i = override_index(before, id)->0;
    assert(after[i].0 == id);
}

/// Reading one more override moves no title: a title that had an override
/// keeps one, at the same position.
pub proof fn lemma_with_override_keeps(
    overrides: Seq<(u32, GameConfigView)>,
    id: u32,
    config: GameConfigView,
    title: u32,
)
    requires
        override_index(overrides, title) is Some,
    ensures
        override_index(with_override(overrides, id, config), title) == override_index(
            overrides,
            title,
        ),
{
    lemma_override_index(overrides, id, 0);
    lemma_override_index_agrees(overrides, with_override(overrides, id, config), title);
}

/// Reading a file moves no title.
pub proof fn lemma_with_overrides_keeps(
    overrides: Seq<(u32, GameConfigView)>,
    more: Seq<(u32, GameConfigView)>,
    title: u32,
)
    requires
        override_index(overrides, title) is Some,
    ensures
        override_index(with_overrides(overrides, more), title) == override_index(
            overrides,
            title,
        ),
    decreases more.len(),
{
    if more.len() > 0 {
        lemma_with_overrides_keeps(overrides, more.drop_last(), title);
        lemma_with_override_keeps(
            with_overrides(overrides, more.drop_last()),
            more.last().0,
            more.last().1,
            title,
        );
    }
}

/// Reading any number of files moves no title: every title that had an
/// override before loading has one after it, at the same position. So the
/// built-in titles are still there, whatever the files hold.
pub proof fn lemma_with_files_keeps(
    overrides: Seq<(u32, GameConfigView)>,
    files: Seq<Seq<(u32, GameConfigView)>>,
    title: u32,
)
    requires
        override_index(overrides, title) is Some,
    ensures
        override_index(with_files(overrides, files), title) == override_index(overrides, title),
    decreases files.len(),
{
    if files.len() > 0 {
        lemma_with_files_keeps(overrides, files.drop_last(), title);
        lemma_with_overrides_keeps(with_files(overrides, files.drop_last()), files.last(), title);
    }
}

impl Default for BosonConfig {
    fn default() -> (out: Self)
        ensures
            out@ == initial_config(),
    {
        BosonConfig {
            default_compat_config: GameConfig::default(),
            game_overrides: default_game_configs(),
        }
    }
}

impl BosonConfig {
    /// Lays `overlay` over `base`, field by field.
    pub fn merge_config_static(base: &mut GameConfig, overlay: &GameConfig)
        ensures
            final(base)@ == merged(old(base)@, overlay@),
    {
        if base.compat_type != overlay.compat_type {
            base.compat_type = overlay.compat_type;
        }
        if overlay.wrapper_command.is_some() {
            base.wrapper_command = clone_opt(&overlay.wrapper_command);
        }
        append_strings(&mut base.wrapper_args, &overlay.wrapper_args);
        base.env_vars.extend(&overlay.env_vars);
        append_strings(&mut base.append_args, &overlay.append_args);
        append_strings(&mut base.extra_preloads, &overlay.extra_preloads);
        if overlay.compat_tool_dir.is_some() {
            base.compat_tool_dir = clone_opt(&overlay.compat_tool_dir);
        }
        base.disable_steam_overlay = overlay.disable_steam_overlay;
    }

    /// Lays `overlay` over `base`, field by field.
    pub fn merge_config(&self, base: &mut GameConfig, overlay: &GameConfig)
        ensures
            final(base)@ == merged(old(base)@, overlay@),
    {
        Self::merge_config_static(base, overlay);
    }

    fn find_override(&self, app_id: u32) -> (out: Option<usize>)
        ensures
            match out {
                Some(i) => i < self.game_overrides.len() && override_index(
                    self@.game_overrides,
                    app_id,
                ) == Some(i as int),
                None => override_index(self@.game_overrides, app_id) is None,
            },
    {
        let mut i: usize = 0;
        while i < self.game_overrides.len()
            invariant
                i <= self.game_overrides.len(),
                override_index(self@.game_overrides, app_id) == override_index_from(
                    self@.game_overrides,
                    app_id,
                    i as int,
                ),
            decreases self.game_overrides.len() - i,
        {
            if self.game_overrides[i].0 == app_id {
                return Some(i);
            }
            i += 1;
        }
        None
    }

    /// The configuration of the title `app_id`, resolved from the three
    /// layers. Whatever the compatibility type, the tool directory is the
    /// fallback where no layer names one.
    pub fn get_game_config(&self, app_id: u32) -> (out: GameConfig)
        ensures
            out@ == resolved(self@, app_id),
    {
        let mut out = match self.find_override(app_id) {
            Some(i) => {
                let over = &self.game_overrides[i].1;
                let mut layers = over.compat_type.runtime_defaults();
                self.merge_config(&mut layers, &self.default_compat_config);
                self.merge_config(&mut layers, over);
                layers
            },
            None => {
                let mut layers = self.default_compat_config.compat_type.runtime_defaults();
                self.merge_config(&mut layers, &self.default_compat_config);
                layers
            },
        };
        if out.compat_tool_dir.is_none() {
            out.compat_tool_dir = default_compat_tool_dir();
        }
        out
    }

    /// Reads one override for `app_id`: merges it into the override that the
    /// title already has, or adds it.
    pub fn add_override(&mut self, app_id: u32, config: &GameConfig)
        ensures
            final(self)@.default_compat_config == old(self)@.default_compat_config,
            final(self)@.game_overrides == with_override(
                old(self)@.game_overrides,
                app_id,
                config@,
            ),
    {
        let ghost before = self@.game_overrides;
        match self.find_override(app_id) {
            Some(i) => {
                let mut entry = self.game_overrides[i].1.clone();
                Self::merge_config_static(&mut entry, config);
                self.game_overrides[i] = (app_id, entry);
                proof {
                    lemma_override_index(before, app_id, 0);
                    assert(override_views(self.game_overrides@) =~= with_override(
                        before,
                        app_id,
                        config@,
                    ));
                }
            },
            None => {
                self.game_overrides.push((app_id, config.clone()));
                proof {
                    assert(override_views(self.game_overrides@) =~= with_override(
                        before,
                        app_id,
                        config@,
                    ));
                }
            },
        }
    }

    /// Reads the overrides of one configuration file, by rising title.
    pub fn add_file(&mut self, file: &GameConfigFile)
        ensures
            final(self)@.default_compat_config == old(self)@.default_compat_config,
            final(self)@.game_overrides == with_overrides(old(self)@.game_overrides, file@),
    {
        let ghost before = self@;
        let items = file.entries();
        let mut i: usize = 0;
        assert(file@.take(0) =~= Seq::empty());
        while i < items.len()
            invariant
                i <= items.len(),
                override_views(items@) == file@,
                self@.default_compat_config == before.default_compat_config,
                self@.game_overrides == with_overrides(before.game_overrides, file@.take(i as int)),
            decreases items.len() - i,
        {
            proof {
                assert(file@.take(i + 1).drop_last() =~= file@.take(i as int));
                assert(file@.take(i + 1).last() == file@[i as int]);
            }
            self.add_override(items[i].0, &items[i].1);
            i += 1;
        }
        assert(file@.take(items.len() as int) =~= file@);
    }

    /// The configuration that results from reading `files` in order on top
    /// of the built-in overrides. No title has two overrides in it.
    pub fn load(files: &Vec<GameConfigFile>) -> (out: Self)
        ensures
            out@.default_compat_config == blank_config(),
            out@.game_overrides == with_files(builtin_overrides(), file_views(files@)),
            unique_ids(out@.game_overrides),
    {
        let mut out = BosonConfig::default();
        let mut i: usize = 0;
        assert(file_views(files@).take(0) =~= Seq::empty());
        while i < files.len()
            invariant
                i <= files.len(),
                out@.default_compat_config == blank_config(),
                out@.game_overrides == with_files(
                    builtin_overrides(),
                    file_views(files@).take(i as int),
                ),
            decreases files.len() - i,
        {
            proof {
                assert(file_views(files@).take(i + 1).drop_last() =~= file_views(files@).take(
                    i as int,
                ));
                assert(file_views(files@).take(i + 1).last() == files@[i as int]@);
            }
            out.add_file(&files[i]);
            i += 1;
        }
        proof {
            assert(file_views(files@).take(files.len() as int) =~= file_views(files@));
            assert(unique_ids(builtin_overrides()));
            lemma_with_files_unique(builtin_overrides(), file_views(files@));
        }
        out
    }
}

/// What the platform tells a compatibility tool about the launch it asks
/// for. Paths are held as text.
#[derive(Debug)]
pub struct SteamCompatConfig {
    pub app_id: Option<String>,
    pub client_install_path: Option<String>,
    pub data_path: Option<String>,
    pub flags: Vec<String>,
    pub install_path: Option<String>,
    pub launcher_service: Option<String>,
    pub library_paths: Option<String>,
    pub mounts: Option<String>,
    pub runtime_sdl2: Option<String>,
    pub runtime_sdl3: Option<String>,
    pub session_id: Option<String>,
    pub shader_path: Option<String>,
    pub tool_paths: Option<String>,
    pub tracing: Option<String>,
    pub steam_app_id: Option<u32>,
    /// Whether the platform runs in its handheld mode.
    pub steam_deck: Option<bool>,
}

/// The title identifier that the platform's options name: the numeric
/// option if it is set, else the textual one if it spells a number.
pub open spec fn app_id_of(steam_app_id: Option<u32>, app_id: Option<Seq<char>>) -> Option<u32> {
    match steam_app_id {
        Some(id) => Some(id),
        None => match app_id {
            Some(text) => parsed_u32(text),
            None => None,
        },
    }
}

impl Default for SteamCompatConfig {
    fn default() -> (out: Self)
        ensures
            out.app_id is None,
            out.client_install_path is None,
            out.data_path is None,
            out.flags@.len() == 0,
            out.install_path is None,
            out.launcher_service is None,
            out.library_paths is None,
            out.mounts is None,
            out.runtime_sdl2 is None,
            out.runtime_sdl3 is None,
            out.session_id is None,
            out.shader_path is None,
            out.tool_paths is None,
            out.tracing is None,
            out.steam_app_id is None,
            out.steam_deck is None,
    {
        SteamCompatConfig {
            app_id: None,
            client_install_path: None,
            data_path: None,
            flags: Vec::new(),
            install_path: None,
            launcher_service: None,
            library_paths: None,
            mounts: None,
            runtime_sdl2: None,
            runtime_sdl3: None,
            session_id: None,
            shader_path: None,
            tool_paths: None,
            tracing: None,
            steam_app_id: None,
            steam_deck: None,
        }
    }
}

impl SteamCompatConfig {
    /// The identifier of the title to launch, if the options name one.
    pub fn get_app_id(&self) -> (out: Option<u32>)
        ensures
            out == app_id_of(self.steam_app_id, opt_text(self.app_id)),
    {
        if let Some(id) = self.steam_app_id {
            return Some(id);
        }
        match &self.app_id {
            Some(text) => parse_u32(text.as_str()),
            None => None,
        }
    }
}

/// The layers of `layers` laid one over the other, the first at the bottom.
pub open spec fn layered(layers: Seq<GameConfigView>) -> GameConfigView
    decreases layers.len(),
{
    if layers.len() == 0 {
        blank_config()
    } else if layers.len() == 1 {
        layers[0]
    } else {
        merged(layered(layers.drop_last()), layers.last())
    }
}

/// The layers from which the configuration of the title `id` is resolved:
/// runtime defaults, global default and, where the title has one, its
/// override.
pub open spec fn layers_of(store: BosonConfigView, id: u32) -> Seq<GameConfigView> {
    match override_for(store.game_overrides, id) {
        Some(over) => seq![
            runtime_defaults_of(over.compat_type),
            store.default_compat_config,
            over,
        ],
        None => seq![
            runtime_defaults_of(store.default_compat_config.compat_type),
            store.default_compat_config,
        ],
    }
}

/// Resolving a title is laying its layers one over the other and putting
/// in the fallback tool where none of them names a tool.
pub proof fn lemma_resolved_is_layered(store: BosonConfigView, id: u32)
    ensures
        layers_merged(store, id) == layered(layers_of(store, id)),
        resolved(store, id) == with_tool_fallback(layered(layers_of(store, id))),
{
    let layers = layers_of(store, id);
    let global = store.default_compat_config;
    match override_for(store.game_overrides, id) {
        Some(over) => {
            let first = runtime_defaults_of(over.compat_type);
            let two = layers.drop_last();
            assert(layers.len() == 3);
            assert(layers.last() == over);
            assert(two =~= seq![first, global]);
            assert(two.drop_last() =~= seq![first]);
            assert(layered(two.drop_last()) == first);
            assert(layered(two) == merged(first, global));
            assert(layered(layers) == merged(layered(two), over));
        },
        None => {
            let first = runtime_defaults_of(global.compat_type);
            assert(layers.len() == 2);
            assert(layers.last() == global);
            assert(layers.drop_last() =~= seq![first]);
            assert(layered(layers.drop_last()) == first);
            assert(layered(layers) == merged(first, global));
        },
    }
}

/// A title without an override resolves to the two-layer merge of runtime
/// defaults and global default: the third layer contributes only where it
/// exists.
pub proof fn lemma_absent_override(store: BosonConfigView, id: u32)
    requires
        override_for(store.game_overrides, id) is None,
    ensures
        layers_merged(store, id) == merged(
            runtime_defaults_of(store.default_compat_config.compat_type),
            store.default_compat_config,
        ),
        resolved(store, id) == with_tool_fallback(
            merged(
                runtime_defaults_of(store.default_compat_config.compat_type),
                store.default_compat_config,
            ),
        ),
        resolved(store, id).compat_type == store.default_compat_config.compat_type,
{
}

/// A resolved title always names a tool directory: the one of the last
/// layer that sets it, and the fallback exactly where no layer sets one,
/// whatever the compatibility type. Nothing else of the merged layers is
/// changed by that.
pub proof fn lemma_resolved_tool_dir(store: BosonConfigView, id: u32)
    ensures
        resolved(store, id).compat_tool_dir is Some,
        (forall|j: int|
            0 <= j < layers_of(store, id).len() ==> layers_of(store, id)[j].compat_tool_dir
                is None) ==> resolved(store, id).compat_tool_dir == Some(fallback_tool_dir()),
        forall|i: int|
            0 <= i < layers_of(store, id).len() && layers_of(store, id)[i].compat_tool_dir
                is Some && (forall|j: int|
                i < j < layers_of(store, id).len() ==> layers_of(store, id)[j].compat_tool_dir
                    is None) ==> resolved(store, id).compat_tool_dir == layers_of(
                store,
                id,
            )[i].compat_tool_dir,
        resolved(store, id) == (GameConfigView {
            compat_tool_dir: resolved(store, id).compat_tool_dir,
            ..layers_merged(store, id)
        }),
{
    let layers = layers_of(store, id);
    lemma_resolved_is_layered(store, id);
    lemma_last_setter_wins(layers, 0);
    assert forall|i: int|
        0 <= i < layers.len() && layers[i].compat_tool_dir is Some && (forall|j: int|
            i < j < layers.len() ==> layers[j].compat_tool_dir is None) implies resolved(
        store,
        id,
    ).compat_tool_dir == layers[i].compat_tool_dir by {
        lemma_last_setter_wins(layers, i);
    }
}

/// Merging is associative: laying `c` over the merge of `a` and `b` is
/// laying the merge of `b` and `c` over `a`.
pub proof fn lemma_merge_associative(a: GameConfigView, b: GameConfigView, c: GameConfigView)
    ensures
        merged(merged(a, b), c) == merged(a, merged(b, c)),
{
    let left = merged(merged(a, b), c);
    let right = merged(a, merged(b, c));
    assert(left.wrapper_args =~= right.wrapper_args);
    assert(left.append_args =~= right.append_args);
    assert(left.extra_preloads =~= right.extra_preloads);
    assert(left.env_vars =~= right.env_vars);
}

/// Lists and the variable table never shrink under a merge: each list of
/// the result starts with the base's and ends with the overlay's, so it is
/// at least as long as the longer of the two, and the table holds every
/// name that either side holds.
pub proof fn lemma_merge_grows(base: GameConfigView, overlay: GameConfigView)
    ensures
        merged(base, overlay).wrapper_args.len() >= base.wrapper_args.len(),
        merged(base, overlay).wrapper_args.len() >= overlay.wrapper_args.len(),
        merged(base, overlay).append_args.len() >= base.append_args.len(),
        merged(base, overlay).append_args.len() >= overlay.append_args.len(),
        merged(base, overlay).extra_preloads.len() >= base.extra_preloads.len(),
        merged(base, overlay).extra_preloads.len() >= overlay.extra_preloads.len(),
        base.wrapper_args.is_prefix_of(merged(base, overlay).wrapper_args),
        overlay.wrapper_args.is_suffix_of(merged(base, overlay).wrapper_args),
        base.append_args.is_prefix_of(merged(base, overlay).append_args),
        overlay.append_args.is_suffix_of(merged(base, overlay).append_args),
        base.extra_preloads.is_prefix_of(merged(base, overlay).extra_preloads),
        overlay.extra_preloads.is_suffix_of(merged(base, overlay).extra_preloads),
        base.env_vars.dom().subset_of(merged(base, overlay).env_vars.dom()),
        overlay.env_vars.dom().subset_of(merged(base, overlay).env_vars.dom()),
        base.env_vars.dom().finite() && overlay.env_vars.dom().finite() ==> merged(
            base,
            overlay,
        ).env_vars.dom().finite() && merged(base, overlay).env_vars.dom().len()
            >= base.env_vars.dom().len() && merged(base, overlay).env_vars.dom().len()
            >= overlay.env_vars.dom().len(),
{
    let m = merged(base, overlay);
    assert(m.wrapper_args.subrange(0, base.wrapper_args.len() as int) =~= base.wrapper_args);
    assert(m.append_args.subrange(0, base.append_args.len() as int) =~= base.append_args);
    assert(m.extra_preloads.subrange(0, base.extra_preloads.len() as int)
        =~= base.extra_preloads);
    assert(m.wrapper_args.subrange(
        m.wrapper_args.len() - overlay.wrapper_args.len(),
        m.wrapper_args.len() as int,
    ) =~= overlay.wrapper_args);
    assert(m.append_args.subrange(
        m.append_args.len() - overlay.append_args.len(),
        m.append_args.len() as int,
    ) =~= overlay.append_args);
    assert(m.extra_preloads.subrange(
        m.extra_preloads.len() - overlay.extra_preloads.len(),
        m.extra_preloads.len() as int,
    ) =~= overlay.extra_preloads);
    assert(m.env_vars.dom() =~= base.env_vars.dom().union(overlay.env_vars.dom()));
    if base.env_vars.dom().finite() && overlay.env_vars.dom().finite() {
        vstd::set_lib::lemma_len_union(base.env_vars.dom(), overlay.env_vars.dom());
        vstd::set_lib::lemma_len_subset(base.env_vars.dom(), m.env_vars.dom());
        vstd::set_lib::lemma_len_subset(overlay.env_vars.dom(), m.env_vars.dom());
    }
}

/// In a stack of layers, the compatibility type and the overlay switch are
/// those of the top layer, whatever the layers below hold.
pub proof fn lemma_top_layer_wins(layers: Seq<GameConfigView>)
    requires
        layers.len() > 0,
    ensures
        layered(layers).compat_type == layers.last().compat_type,
        layered(layers).disable_steam_overlay == layers.last().disable_steam_overlay,
{
}

/// In a stack of layers, the wrapper command and the tool directory are
/// those of the last layer that sets them, whatever the layers below it
/// hold; they are unset only if no layer sets them.
pub proof fn lemma_last_setter_wins(layers: Seq<GameConfigView>, i: int)
    requires
        0 <= i < layers.len(),
    ensures
        layers[i].wrapper_command is Some && (forall|j: int|
            i < j < layers.len() ==> layers[j].wrapper_command is None) ==> layered(
            layers,
        ).wrapper_command == layers[i].wrapper_command,
        layers[i].compat_tool_dir is Some && (forall|j: int|
            i < j < layers.len() ==> layers[j].compat_tool_dir is None) ==> layered(
            layers,
        ).compat_tool_dir == layers[i].compat_tool_dir,
        (forall|j: int| 0 <= j < layers.len() ==> layers[j].wrapper_command is None) ==> layered(
            layers,
        ).wrapper_command is None,
        (forall|j: int| 0 <= j < layers.len() ==> layers[j].compat_tool_dir is None) ==> layered(
            layers,
        ).compat_tool_dir is None,
    decreases layers.len(),
{
    if layers.len() > 1 {
        let below = layers.drop_last();
        if i < layers.len() - 1 {
            lemma_last_setter_wins(below, i);
        } else {
            lemma_last_setter_wins(below, 0);
        }
        assert(forall|j: int| 0 <= j < below.len() ==> below[j] == layers[j]);
    }
}

} // verus!
