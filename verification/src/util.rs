//! Small helpers around the environment: the Electron executable, the
//! payload location, and library search paths.

use vstd::prelude::*;
use vstd::string::StringExecFns;
use crate::env::{lookup, ProcessEnv, ProcessEnvView};
use crate::path_search;
use crate::text::{join, join_with, split, split_on, texts};

verus! {

/// The Electron executable to use: what `ELECTRON_PATH` names, else
/// `electron`.
pub fn electron_path(env: &ProcessEnv) -> (out: String)
    ensures
        out@ == path_search::electron_of(env@),
{
    path_search::env_electron_path(env)
}

/// The game's directory, given a path to it or to a file in it.
pub fn get_game_path(path: &str, is_file: bool) -> (out: Option<String>)
    ensures
        match out {
            Some(p) => path_search::game_dir_of(path@, is_file) == Some(p@),
            None => path_search::game_dir_of(path@, is_file) is None,
        },
{
    path_search::get_game_path(path, is_file)
}

/// Where the application lies relative to the game's root: what
/// `BOSON_LOAD_PATH` names, else `resources/app`.
pub open spec fn app_path_of(env: ProcessEnvView) -> Seq<char> {
    match lookup(env, "BOSON_LOAD_PATH"@) {
        Some(p) => p,
        None => "resources/app"@,
    }
}

/// Where the application lies relative to the game's root.
pub fn app_path(env: &ProcessEnv) -> (out: String)
    ensures
        out@ == app_path_of(env@),
{
    match env.var("BOSON_LOAD_PATH") {
        Some(p) => p,
        None => String::from_str("resources/app"),
    }
}

/// A library search path: a list of directories.
#[derive(Debug)]
pub struct LDPath {
    pub paths: Vec<String>,
}

impl View for LDPath {
    type V = Seq<Seq<char>>;

    open spec fn view(&self) -> Seq<Seq<char>> {
        texts(self.paths@)
    }
}

/// The value of `LD_LIBRARY_PATH` in `env`, empty when it is not set.
pub open spec fn library_path_of(env: ProcessEnvView) -> Seq<char> {
    match lookup(env, "LD_LIBRARY_PATH"@) {
        Some(p) => p,
        None => Seq::empty(),
    }
}

impl LDPath {
    /// The empty search path.
    pub fn new() -> (out: Self)
        ensures
            out@ == Seq::<Seq<char>>::empty(),
    {
        let out = LDPath { paths: Vec::new() };
        assert(out@ =~= Seq::empty());
        out
    }

    /// Adds `path` at the end.
    pub fn add(&mut self, path: String)
        ensures
            final(self)@ == old(self)@.push(path@),
    {
        self.paths.push(path);
        assert(self@ =~= old(self)@.push(path@));
    }

    /// The directories joined by colons, as the dynamic linker reads them.
    pub fn to_string(&self) -> (out: String)
        ensures
            out@ == join(self@, ':'),
    {
        join_with(&self.paths, ':')
    }

    /// The search path that `LD_LIBRARY_PATH` holds in `env`, cut at the
    /// colons. An unset or empty variable gives one empty directory.
    pub fn from_env(env: &ProcessEnv) -> (out: Self)
        ensures
            out@ == split(library_path_of(env@), ':'),
    {
        let value = match env.var("LD_LIBRARY_PATH") {
            Some(p) => p,
            None => String::new(),
        };
        LDPath { paths: split_on(value.as_str(), ':') }
    }
}

} // verus!
