//! The dynamic linker's path lists for the title: `LD_PRELOAD` and
//! `LD_LIBRARY_PATH`, made of what the launcher inherited and what the
//! configuration adds, with the platform's overlay renderer taken out where
//! the configuration switches it off.

use vstd::prelude::*;
use vstd::string::StringExecFns;
use crate::config::{append_strings, GameConfig, GameConfigView};
use crate::env::{expanded_all, lookup, ProcessEnv, ProcessEnvView};
use crate::text::{
    contains,
    has_substring,
    join,
    join_with,
    lemma_join_without,
    split,
    split_on,
    texts,
};

verus! {

/// The name of the platform's overlay renderer library.
pub open spec fn overlay_name() -> Seq<char> {
    "gameoverlayrenderer"@
}

/// The overlay renderer's name is not empty and holds no colon.
pub proof fn lemma_overlay_name()
    ensures
        overlay_name().len() == 19,
        forall|k: int| 0 <= k < overlay_name().len() ==> overlay_name()[k] != ':',
{
    reveal_strlit("gameoverlayrenderer");
}

/// Whether an inherited entry is kept: it must not be empty, and where the
/// overlay is switched off it must not name the overlay renderer.
pub open spec fn keeps(entry: Seq<char>, drop_overlay: bool) -> bool {
    entry.len() > 0 && !(drop_overlay && has_substring(entry, overlay_name()))
}

/// The entries of `entries` that are kept, in order.
pub open spec fn kept(entries: Seq<Seq<char>>, drop_overlay: bool) -> Seq<Seq<char>>
    decreases entries.len(),
{
    if entries.len() == 0 {
        Seq::empty()
    } else if keeps(entries.last(), drop_overlay) {
        kept(entries.drop_last(), drop_overlay).push(entries.last())
    } else {
        kept(entries.drop_last(), drop_overlay)
    }
}

/// `entries` without those that name the overlay renderer.
pub open spec fn without_overlay(entries: Seq<Seq<char>>) -> Seq<Seq<char>>
    decreases entries.len(),
{
    if entries.len() == 0 {
        Seq::empty()
    } else if has_substring(entries.last(), overlay_name()) {
        without_overlay(entries.drop_last())
    } else {
        without_overlay(entries.drop_last()).push(entries.last())
    }
}

/// The libraries to preload: of the inherited entries those that are kept,
/// then the configured ones as they are written.
pub open spec fn preload_list(
    inherited: Seq<Seq<char>>,
    extra: Seq<Seq<char>>,
    drop_overlay: bool,
) -> Seq<Seq<char>> {
    kept(inherited, drop_overlay) + extra
}

/// The library search path: the inherited entries that are not empty, then
/// the launcher's own library directory if there is one; where the overlay
/// is switched off, all of that without any entry that names the overlay
/// renderer.
pub open spec fn library_list(
    inherited: Seq<Seq<char>>,
    lib_dir: Option<Seq<char>>,
    drop_overlay: bool,
) -> Seq<Seq<char>> {
    let own = kept(inherited, false);
    let all = match lib_dir {
        Some(dir) => own.push(dir),
        None => own,
    };
    if drop_overlay {
        without_overlay(all)
    } else {
        all
    }
}

/// The pieces of the path list that the variable `name` holds in `env`,
/// each expanded. An unset variable has no pieces.
pub open spec fn inherited_parts(name: Seq<char>, env: ProcessEnvView) -> Seq<Seq<char>> {
    match lookup(env, name) {
        Some(value) => expanded_all(split(value, ':'), env),
        None => Seq::empty(),
    }
}

/// The libraries to preload for a title with the configuration `config`
/// that is launched from `env`.
pub open spec fn preload_entries(env: ProcessEnvView, config: GameConfigView) -> Seq<Seq<char>> {
    preload_list(
        inherited_parts("LD_PRELOAD"@, env),
        config.extra_preloads,
        config.disable_steam_overlay,
    )
}

/// The library search path for a title with the configuration `config`
/// that is launched from `env`.
pub open spec fn library_entries(
    env: ProcessEnvView,
    config: GameConfigView,
    lib_dir: Option<Seq<char>>,
) -> Seq<Seq<char>> {
    library_list(inherited_parts("LD_LIBRARY_PATH"@, env), lib_dir, config.disable_steam_overlay)
}

/// Keeps the entries that are not empty and, where `drop_overlay` is set,
/// do not name the overlay renderer.
pub fn keep_entries(entries: Vec<String>, drop_overlay: bool) -> (out: Vec<String>)
    ensures
        texts(out@) == kept(texts(entries@), drop_overlay),
{
    let mut out: Vec<String> = Vec::new();
    let mut i: usize = 0;
    proof {
        assert(texts(entries@).take(0) =~= Seq::empty());
        assert(texts(out@) =~= Seq::empty());
    }
    while i < entries.len()
        invariant
            i <= entries.len(),
            texts(out@) == kept(texts(entries@).take(i as int), drop_overlay),
        decreases entries.len() - i,
    {
        let ghost before = texts(out@);
        proof {
            assert(texts(entries@).take(i + 1).drop_last() =~= texts(entries@).take(i as int));
            assert(texts(entries@).take(i + 1).last() == entries@[i as int]@);
        }
        let entry = entries[i].as_str();
        let empty = entry.unicode_len() == 0;
        if !empty && !(drop_overlay && contains(entry, "gameoverlayrenderer")) {
            out.push(entries[i].clone());
            proof {
                assert(texts(out@) =~= before.push(entries@[i as int]@));
            }
        }
        i += 1;
    }
    assert(texts(entries@).take(entries.len() as int) =~= texts(entries@));
    out
}

/// Removes the entries that name the overlay renderer.
pub fn drop_overlay_entries(entries: Vec<String>) -> (out: Vec<String>)
    ensures
        texts(out@) == without_overlay(texts(entries@)),
{
    let mut out: Vec<String> = Vec::new();
    let mut i: usize = 0;
    proof {
        assert(texts(entries@).take(0) =~= Seq::empty());
        assert(texts(out@) =~= Seq::empty());
    }
    while i < entries.len()
        invariant
            i <= entries.len(),
            texts(out@) == without_overlay(texts(entries@).take(i as int)),
        decreases entries.len() - i,
    {
        let ghost before = texts(out@);
        proof {
            assert(texts(entries@).take(i + 1).drop_last() =~= texts(entries@).take(i as int));
            assert(texts(entries@).take(i + 1).last() == entries@[i as int]@);
        }
        if !contains(entries[i].as_str(), "gameoverlayrenderer") {
            out.push(entries[i].clone());
            proof {
                assert(texts(out@) =~= before.push(entries@[i as int]@));
            }
        }
        i += 1;
    }
    assert(texts(entries@).take(entries.len() as int) =~= texts(entries@));
    out
}

/// The value of `LD_PRELOAD`, given the expanded pieces of the inherited
/// value and the configured libraries.
pub fn preload_value(inherited: Vec<String>, extra: &Vec<String>, drop_overlay: bool) -> (out:
    String)
    ensures
        out@ == join(preload_list(texts(inherited@), texts(extra@), drop_overlay), ':'),
{
    let mut entries = keep_entries(inherited, drop_overlay);
    append_strings(&mut entries, extra);
    join_with(&entries, ':')
}

/// The value of `LD_LIBRARY_PATH`, given the expanded pieces of the
/// inherited value and the launcher's own library directory if it exists.
pub fn library_path_value(inherited: Vec<String>, lib_dir: Option<&str>, drop_overlay: bool) -> (out:
    String)
    ensures
        out@ == join(
            library_list(
                texts(inherited@),
                match lib_dir {
                    Some(d) => Some(d@),
                    None => None,
                },
                drop_overlay,
            ),
            ':',
        ),
{
    let mut entries = keep_entries(inherited, false);
    if let Some(dir) = lib_dir {
        let ghost before = texts(entries@);
        entries.push(String::from_str(dir));
        assert(texts(entries@) =~= before.push(dir@));
    }
    if drop_overlay {
        entries = drop_overlay_entries(entries);
    }
    join_with(&entries, ':')
}

/// The pieces of the path list that the variable `name` holds, each
/// expanded.
pub fn inherited(name: &str, env: &ProcessEnv) -> (out: Vec<String>)
    ensures
        texts(out@) == inherited_parts(name@, env@),
{
    match env.var(name) {
        Some(value) => {
            let parts = split_on(value.as_str(), ':');
            env.expand_all(&parts)
        },
        None => {
            let out: Vec<String> = Vec::new();
            assert(texts(out@) =~= Seq::empty());
            out
        },
    }
}

/// The value of `LD_PRELOAD` for the title.
pub fn compose_ld_preload(env: &ProcessEnv, config: &GameConfig) -> (out: String)
    ensures
        out@ == join(preload_entries(env@, config@), ':'),
{
    preload_value(inherited("LD_PRELOAD", env), &config.extra_preloads, config.disable_steam_overlay)
}

/// The value of `LD_LIBRARY_PATH` for the title. `lib_dir` is the
/// launcher's own library directory if it exists on disk.
pub fn compose_ld_library_path(env: &ProcessEnv, config: &GameConfig, lib_dir: Option<&str>) -> (out:
    String)
    ensures
        out@ == join(
            library_entries(
                env@,
                config@,
                match lib_dir {
                    Some(d) => Some(d@),
                    None => None,
                },
            ),
            ':',
        ),
{
    library_path_value(inherited("LD_LIBRARY_PATH", env), lib_dir, config.disable_steam_overlay)
}

/// Every entry that is kept where the overlay is switched off is free of
/// the overlay renderer's name.
pub proof fn lemma_kept_without_overlay(entries: Seq<Seq<char>>)
    ensures
        forall|i: int|
            0 <= i < kept(entries, true).len() ==> !has_substring(
                #[trigger] kept(entries, true)[i],
                overlay_name(),
            ),
    decreases entries.len(),
{
    if entries.len() > 0 {
        lemma_kept_without_overlay(entries.drop_last());
        let init = kept(entries.drop_last(), true);
        let all = kept(entries, true);
        assert forall|i: int| 0 <= i < all.len() implies !has_substring(
            #[trigger] all[i],
            overlay_name(),
        ) by {
            if i < init.len() {
                assert(all[i] == init[i]);
            }
        }
    }
}

/// No entry that names the overlay renderer is left by `without_overlay`.
pub proof fn lemma_without_overlay(entries: Seq<Seq<char>>)
    ensures
        forall|i: int|
            0 <= i < without_overlay(entries).len() ==> !has_substring(
                #[trigger] without_overlay(entries)[i],
                overlay_name(),
            ),
    decreases entries.len(),
{
    if entries.len() > 0 {
        lemma_without_overlay(entries.drop_last());
        let init = without_overlay(entries.drop_last());
        let all = without_overlay(entries);
        assert forall|i: int| 0 <= i < all.len() implies !has_substring(
            #[trigger] all[i],
            overlay_name(),
        ) by {
            if i < init.len() {
                assert(all[i] == init[i]);
            }
        }
    }
}

/// With the overlay switched off, no library to preload names the overlay
/// renderer, whatever was inherited, and so the composed value does not
/// hold the name anywhere. This is so where the configured libraries
/// themselves do not name it: those are passed on as they are written.
pub proof fn lemma_preload_without_overlay(inherited: Seq<Seq<char>>, extra: Seq<Seq<char>>)
    requires
        forall|i: int| 0 <= i < extra.len() ==> !has_substring(#[trigger] extra[i], overlay_name()),
    ensures
        forall|i: int|
            0 <= i < preload_list(inherited, extra, true).len() ==> !has_substring(
                #[trigger] preload_list(inherited, extra, true)[i],
                overlay_name(),
            ),
        !has_substring(join(preload_list(inherited, extra, true), ':'), overlay_name()),
{
    let own = kept(inherited, true);
    let all = preload_list(inherited, extra, true);
    lemma_kept_without_overlay(inherited);
    assert forall|i: int| 0 <= i < all.len() implies !has_substring(
        #[trigger] all[i],
        overlay_name(),
    ) by {
        if i < own.len() {
            assert(all[i] == own[i]);
        } else {
            assert(all[i] == extra[i - own.len()]);
        }
    }
    lemma_overlay_name();
    lemma_join_without(all, ':', overlay_name());
}

/// With the overlay switched off, no directory of the library search path
/// names the overlay renderer, whatever was inherited and wherever the
/// launcher's own library directory lies, and so the composed value does
/// not hold the name anywhere.
pub proof fn lemma_library_path_without_overlay(
    inherited: Seq<Seq<char>>,
    lib_dir: Option<Seq<char>>,
)
    ensures
        forall|i: int|
            0 <= i < library_list(inherited, lib_dir, true).len() ==> !has_substring(
                #[trigger] library_list(inherited, lib_dir, true)[i],
                overlay_name(),
            ),
        !has_substring(join(library_list(inherited, lib_dir, true), ':'), overlay_name()),
{
    let own = kept(inherited, false);
    let all = match lib_dir {
        Some(dir) => own.push(dir),
        None => own,
    };
    lemma_without_overlay(all);
    lemma_overlay_name();
    lemma_join_without(library_list(inherited, lib_dir, true), ':', overlay_name());
}

/// With the overlay switched off in its configuration, the `LD_PRELOAD`
/// composed for a title does not hold the overlay renderer's name, even if
/// the inherited value does, provided that no configured preload holds it.
pub proof fn lemma_ld_preload_without_overlay(env: ProcessEnvView, config: GameConfigView)
    requires
        config.disable_steam_overlay,
        forall|i: int|
            0 <= i < config.extra_preloads.len() ==> !has_substring(
                #[trigger] config.extra_preloads[i],
                overlay_name(),
            ),
    ensures
        forall|i: int|
            0 <= i < preload_entries(env, config).len() ==> !has_substring(
                #[trigger] preload_entries(env, config)[i],
                overlay_name(),
            ),
        !has_substring(join(preload_entries(env, config), ':'), overlay_name()),
{
    lemma_preload_without_overlay(inherited_parts("LD_PRELOAD"@, env), config.extra_preloads);
}

/// With the overlay switched off in its configuration, the
/// `LD_LIBRARY_PATH` composed for a title does not hold the overlay
/// renderer's name, even if the inherited value does.
pub proof fn lemma_ld_library_path_without_overlay(
    env: ProcessEnvView,
    config: GameConfigView,
    lib_dir: Option<Seq<char>>,
)
    requires
        config.disable_steam_overlay,
    ensures
        forall|i: int|
            0 <= i < library_entries(env, config, lib_dir).len() ==> !has_substring(
                #[trigger] library_entries(env, config, lib_dir)[i],
                overlay_name(),
            ),
        !has_substring(join(library_entries(env, config, lib_dir), ':'), overlay_name()),
{
    lemma_library_path_without_overlay(inherited_parts("LD_LIBRARY_PATH"@, env), lib_dir);
}

} // verus!
