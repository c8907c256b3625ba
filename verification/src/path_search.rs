//! Where things are looked for: configuration directories, the game's root
//! directory, and the application archive of an Electron title.
//!
//! Nothing here touches the disk. Whether a candidate exists is found out
//! by the caller and handed in as a flag.

use vstd::prelude::*;
use vstd::string::StringExecFns;
use crate::env::{lookup, ProcessEnv, ProcessEnvView};
use crate::paths::{
    ends_with_path,
    join_path,
    joined_path,
    parent_path,
    path_ends_with,
    path_parent,
};
use crate::text::{opt_text, texts};

verus! {

/// The place of the global configuration file below the user's
/// configuration directory, if that directory is known.
pub fn global_config_path(config_dir: Option<&str>) -> (out: Option<String>)
    ensures
        match config_dir {
            Some(dir) => out matches Some(p) && p@ == joined_path(dir@, "boson.toml"@),
            None => out is None,
        },
{
    match config_dir {
        Some(dir) => Some(join_path(dir, "boson.toml")),
        None => None,
    }
}

/// The directories that configuration files are read from, in order: the
/// launcher's directory below the user's configuration directory, then the
/// data directory beside the launcher's executable. A directory whose
/// parent is unknown is left out.
pub open spec fn load_paths(config_dir: Option<Seq<char>>, exec_dir: Option<Seq<char>>) -> Seq<
    Seq<char>,
> {
    let user = match config_dir {
        Some(dir) => seq![joined_path(dir, "boson.d"@)],
        None => Seq::empty(),
    };
    let data = match exec_dir {
        Some(dir) => seq![joined_path(dir, "data"@)],
        None => Seq::empty(),
    };
    user + data
}

/// The directories that configuration files are read from, in the order in
/// which they are read.
pub fn config_load_paths(config_dir: Option<&str>, exec_dir: Option<&str>) -> (out: Vec<String>)
    ensures
        texts(out@) == load_paths(
            match config_dir {
                Some(d) => Some(d@),
                None => None,
            },
            match exec_dir {
                Some(d) => Some(d@),
                None => None,
            },
        ),
{
    let mut out: Vec<String> = Vec::new();
    if let Some(dir) = config_dir {
        out.push(join_path(dir, "boson.d"));
    }
    if let Some(dir) = exec_dir {
        out.push(join_path(dir, "data"));
    }
    assert(texts(out@) =~= load_paths(
        match config_dir {
            Some(d) => Some(d@),
            None => None,
        },
        match exec_dir {
            Some(d) => Some(d@),
            None => None,
        },
    ));
    out
}

/// The payload location that the environment asks for, relative to the
/// game's root.
pub fn env_boson_load_path(env: &ProcessEnv) -> (out: Option<String>)
    ensures
        match out {
            Some(p) => lookup(env@, "BOSON_LOAD_PATH"@) == Some(p@),
            None => lookup(env@, "BOSON_LOAD_PATH"@) is None,
        },
{
    env.var("BOSON_LOAD_PATH")
}

/// The install path that the platform announces in the environment.
pub fn env_install_path(env: &ProcessEnv) -> (out: Option<String>)
    ensures
        match out {
            Some(p) => lookup(env@, "STEAM_COMPAT_INSTALL_PATH"@) == Some(p@),
            None => lookup(env@, "STEAM_COMPAT_INSTALL_PATH"@) is None,
        },
{
    env.var("STEAM_COMPAT_INSTALL_PATH")
}

/// The Electron executable: what `ELECTRON_PATH` names, else `electron`.
pub open spec fn electron_of(env: ProcessEnvView) -> Seq<char> {
    match lookup(env, "ELECTRON_PATH"@) {
        Some(p) => p,
        None => "electron"@,
    }
}

/// The Electron executable to use.
pub fn env_electron_path(env: &ProcessEnv) -> (out: String)
    ensures
        out@ == electron_of(env@),
{
    match env.var("ELECTRON_PATH") {
        Some(p) => p,
        None => String::from_str("electron"),
    }
}

/// The launcher's own directory below the platform's per-title data path,
/// if the environment announces that path.
pub fn compat_data_path(env: &ProcessEnv) -> (out: Option<String>)
    ensures
        match lookup(env@, "STEAM_COMPAT_DATA_PATH"@) {
            Some(p) => out matches Some(q) && q@ == joined_path(p, "boson"@),
            None => out is None,
        },
{
    match env.var("STEAM_COMPAT_DATA_PATH") {
        Some(p) => Some(join_path(p.as_str(), "boson")),
        None => None,
    }
}

/// The directory that a game path stands for: the path itself, or its
/// parent if the path names a file. `None` when a file has no parent.
pub open spec fn game_dir_of(path: Seq<char>, is_file: bool) -> Option<Seq<char>> {
    if is_file {
        path_parent(path)
    } else {
        Some(path)
    }
}

/// The game's directory, given a path to it or to a file in it. The result
/// is not made canonical; that needs the disk.
pub fn get_game_path(path: &str, is_file: bool) -> (out: Option<String>)
    ensures
        match out {
            Some(p) => game_dir_of(path@, is_file) == Some(p@),
            None => game_dir_of(path@, is_file) is None,
        },
{
    if is_file {
        parent_path(path)
    } else {
        Some(String::from_str(path))
    }
}

/// The conventional places of an Electron title's application, relative to
/// the game's root, in the order in which they are tried. The unpacked
/// forms come first, since a title may have been unpacked to look into it
/// or to change it: the unpacked resources and the plain application
/// directory, then the archive at the root and the archive under the
/// resources.
pub open spec fn asar_locations() -> Seq<Seq<char>> {
    seq!["resources/app.asar.unpacked"@, "resources/app"@, "app.asar"@, "resources/app.asar"@]
}

/// The conventional places of an Electron title's application, relative to
/// the game's root, in the order in which they are tried.
pub fn asar_paths() -> (out: Vec<String>)
    ensures
        texts(out@) == asar_locations(),
{
    let mut out: Vec<String> = Vec::new();
    out.push(String::from_str("resources/app.asar.unpacked"));
    out.push(String::from_str("resources/app"));
    out.push(String::from_str("app.asar"));
    out.push(String::from_str("resources/app.asar"));
    assert(texts(out@) =~= asar_locations());
    out
}

/// The root below which the application is looked for: the install path
/// that the platform announces, else the game's directory.
pub open spec fn asar_root_of(env: ProcessEnvView, game_dir: Seq<char>) -> Seq<char> {
    match lookup(env, "STEAM_COMPAT_INSTALL_PATH"@) {
        Some(p) => p,
        None => game_dir,
    }
}

/// The root below which the application is looked for.
pub fn asar_root(env: &ProcessEnv, game_dir: &str) -> (out: String)
    ensures
        out@ == asar_root_of(env@, game_dir@),
{
    match env_install_path(env) {
        Some(p) => p,
        None => String::from_str(game_dir),
    }
}

/// The conventional places below `root`.
pub open spec fn candidates_below(root: Seq<char>) -> Seq<Seq<char>> {
    Seq::new(asar_locations().len(), |i: int| joined_path(root, asar_locations()[i]))
}

/// The paths below `root` whose existence decides where the application
/// is, in the order in which they are tried.
pub fn asar_candidates(root: &str) -> (out: Vec<String>)
    ensures
        texts(out@) == candidates_below(root@),
{
    let places = asar_paths();
    let mut out: Vec<String> = Vec::new();
    let mut i: usize = 0;
    while i < places.len()
        invariant
            i <= places.len(),
            texts(places@) == asar_locations(),
            out.len() == i,
            forall|j: int| 0 <= j < i ==> out@[j]@ == joined_path(root@, asar_locations()[j]),
        decreases places.len() - i,
    {
        assert(texts(places@)[i as int] == places@[i as int]@);
        out.push(join_path(root, places[i].as_str()));
        i += 1;
    }
    assert(texts(places@).len() == places@.len());
    assert(texts(out@) =~= candidates_below(root@));
    out
}

/// Whether `root` already ends with one of the conventional places.
pub open spec fn ends_with_location(root: Seq<char>) -> bool {
    exists|i: int| 0 <= i < asar_locations().len() && path_ends_with(root, asar_locations()[i])
}

/// Whether the candidate at position `i` was found on disk. A position
/// without a flag counts as not found.
pub open spec fn is_present(present: Seq<bool>, i: int) -> bool {
    0 <= i < present.len() && present[i]
}

/// The first of `candidates`, from position `from` on, that was found.
pub open spec fn first_present(candidates: Seq<Seq<char>>, present: Seq<bool>, from: int) -> Option<
    Seq<char>,
>
    decreases candidates.len() - from,
{
    if from < 0 || from >= candidates.len() {
        None
    } else if is_present(present, from) {
        Some(candidates[from])
    } else {
        first_present(candidates, present, from + 1)
    }
}

/// The choice among what the search for the application came up with: the
/// place that was asked for, if one was; else the root itself, if it is
/// already an application; else the first candidate that was found; else
/// nothing.
pub open spec fn picked_payload(
    forced: Option<Seq<char>>,
    root: Seq<char>,
    root_is_payload: bool,
    candidates: Seq<Seq<char>>,
    present: Seq<bool>,
) -> Option<Seq<char>> {
    match forced {
        Some(place) => Some(place),
        None => if root_is_payload {
            Some(root)
        } else {
            first_present(candidates, present, 0)
        },
    }
}

/// The place below `root` that the environment asks for, if it asks for
/// one.
pub open spec fn forced_payload(env: ProcessEnvView, root: Seq<char>) -> Option<Seq<char>> {
    match lookup(env, "BOSON_LOAD_PATH"@) {
        Some(place) => Some(joined_path(root, place)),
        None => None,
    }
}

/// Where the application of an Electron title is: below the root, at the
/// place that the environment asks for if it asks for one; else the root
/// itself if it already ends with a conventional place; else the first
/// conventional place below the root that was found; else nowhere.
pub open spec fn asar_path_of(env: ProcessEnvView, game_dir: Seq<char>, present: Seq<bool>) -> Option<
    Seq<char>,
> {
    let root = asar_root_of(env, game_dir);
    picked_payload(
        forced_payload(env, root),
        root,
        ends_with_location(root),
        candidates_below(root),
        present,
    )
}

/// The first of `candidates` that was found, `present[i]` telling whether
/// `candidates[i]` was.
pub fn first_existing(candidates: &Vec<String>, present: &Vec<bool>) -> (out: Option<String>)
    ensures
        opt_text(out) == first_present(texts(candidates@), present@, 0),
{
    let mut i: usize = 0;
    while i < candidates.len()
        invariant
            i <= candidates.len(),
            first_present(texts(candidates@), present@, 0) == first_present(
                texts(candidates@),
                present@,
                i as int,
            ),
        decreases candidates.len() - i,
    {
        if i < present.len() && present[i] {
            return Some(candidates[i].clone());
        }
        i += 1;
    }
    None
}

/// Chooses among what the search for the application came up with.
/// `forced` is the place that was asked for, `root_is_payload` tells
/// whether the root is itself an application, and `present[i]` whether
/// `candidates[i]` exists.
pub fn pick_asar_path(
    forced: Option<String>,
    root: String,
    root_is_payload: bool,
    candidates: &Vec<String>,
    present: &Vec<bool>,
) -> (out: Option<String>)
    ensures
        opt_text(out) == picked_payload(
            opt_text(forced),
            root@,
            root_is_payload,
            texts(candidates@),
            present@,
        ),
{
    match forced {
        Some(place) => Some(place),
        None => if root_is_payload {
            Some(root)
        } else {
            first_existing(candidates, present)
        },
    }
}

/// Whether `root` already ends with one of the conventional places.
pub fn root_is_payload(root: &str) -> (out: bool)
    ensures
        out == ends_with_location(root@),
{
    let places = asar_paths();
    let mut i: usize = 0;
    while i < places.len()
        invariant
            i <= places.len(),
            texts(places@) == asar_locations(),
            forall|j: int| 0 <= j < i ==> !path_ends_with(root@, asar_locations()[j]),
        decreases places.len() - i,
    {
        assert(texts(places@)[i as int] == places@[i as int]@);
        assert(texts(places@).len() == places@.len());
        if ends_with_path(root, places[i].as_str()) {
            assert(path_ends_with(root@, asar_locations()[i as int]));
            return true;
        }
        i += 1;
    }
    assert(texts(places@).len() == places@.len());
    false
}

/// Finds the application of an Electron title. `game_dir` is the game's
/// directory and `present[i]` tells whether the `i`-th of
/// `asar_candidates(asar_root(env, game_dir))` exists on disk.
pub fn get_asar_path(game_dir: &str, env: &ProcessEnv, present: &Vec<bool>) -> (out: Option<
    String,
>)
    ensures
        opt_text(out) == asar_path_of(env@, game_dir@, present@),
{
    let root = asar_root(env, game_dir);
    let forced = match env_boson_load_path(env) {
        Some(place) => Some(join_path(root.as_str(), place.as_str())),
        None => None,
    };
    let is_payload = root_is_payload(root.as_str());
    let candidates = asar_candidates(root.as_str());
    pick_asar_path(forced, root, is_payload, &candidates, present)
}

/// Among the candidates, the first that was found is chosen, whatever was
/// found after it, unless a place was asked for or the root is itself an
/// application.
pub proof fn lemma_first_found_wins(
    root: Seq<char>,
    candidates: Seq<Seq<char>>,
    present: Seq<bool>,
    first: int,
    from: int,
)
    requires
        0 <= from <= first < candidates.len(),
        is_present(present, first),
        forall|j: int| from <= j < first ==> !is_present(present, j),
    ensures
        first_present(candidates, present, from) == Some(candidates[first]),
        from == 0 ==> picked_payload(None, root, false, candidates, present) == Some(
            candidates[first],
        ),
    decreases first - from,
{
    if from < first {
        lemma_first_found_wins(root, candidates, present, first, from + 1);
    }
}

/// An unpacked form wins over every archive: where an unpacked form of
/// the application exists below the root, the application is the first
/// such form, whichever archives exist beside it. The search gets that far
/// where the environment names no place and the root does not itself end
/// with a conventional place.
pub proof fn lemma_unpacked_before_archive(
    env: ProcessEnvView,
    game_dir: Seq<char>,
    present: Seq<bool>,
)
    requires
        lookup(env, "BOSON_LOAD_PATH"@) is None,
        !ends_with_location(asar_root_of(env, game_dir)),
        is_present(present, 0) || is_present(present, 1),
    ensures
        is_present(present, 0) ==> asar_path_of(env, game_dir, present) == Some(
            joined_path(asar_root_of(env, game_dir), "resources/app.asar.unpacked"@),
        ),
        !is_present(present, 0) ==> asar_path_of(env, game_dir, present) == Some(
            joined_path(asar_root_of(env, game_dir), "resources/app"@),
        ),
{
    let root = asar_root_of(env, game_dir);
    let candidates = candidates_below(root);
    if is_present(present, 0) {
        lemma_first_found_wins(root, candidates, present, 0, 0);
    } else {
        lemma_first_found_wins(root, candidates, present, 1, 0);
    }
}

} // verus!
