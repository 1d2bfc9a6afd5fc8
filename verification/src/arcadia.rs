//! The management-UI side: the per-mod metadata entry shown to the user, and
//! the preset updates the UI session requests.
//!
//! The UI itself (the web session, the dialogs, reading each mod's sidecar
//! descriptor file) is an external collaborator; this module holds the
//! decisions it relies on: how a descriptor merges with the defaults into the
//! displayed entry, and how each session message rewrites the set of enabled
//! mods.

use std::collections::HashSet;
use vstd::prelude::*;
use vstd::string::StrSliceExecFns;
use vstd::string::StringExecFns;

use crate::hash40::hash40;
use crate::hash40::hash40_spec;

verus! {

/// The byte separating a mods root from a folder name in a preset path.
pub const PATH_SEPARATOR_BYTE: u8 = 47;

/// What the UI shows: the entries of every discovered mod folder, and the
/// name of the workspace whose preset is being edited.
pub struct Information {
    pub entries: Vec<Entry>,
    pub workspace: String,
}

/// One mod folder's displayed metadata. Every field the sidecar descriptor
/// may carry is optional; `make_entry` fills the defaults.
pub struct Entry {
    pub id: Option<u32>,
    pub folder_name: Option<String>,
    pub is_disabled: Option<bool>,
    pub display_name: Option<String>,
    pub author: Option<String>,
    pub version: Option<String>,
    pub description: Option<String>,
    pub category: Option<String>,
}

impl Default for Entry {
    /// An entry with nothing filled in.
    fn default() -> (entry: Entry)
        ensures
            entry.id is None,
            entry.folder_name is None,
            entry.is_disabled is None,
            entry.display_name is None,
            entry.author is None,
            entry.version is None,
            entry.description is None,
            entry.category is None,
    {
        Entry {
            id: None,
            folder_name: None,
            is_disabled: None,
            display_name: None,
            author: None,
            version: None,
            description: None,
            category: None,
        }
    }
}

/// A request the UI session sends while it is open.
pub enum ArcadiaMessage {
    ToggleMod { id: usize, state: bool },
    ChangeAll { state: bool },
    ChangeIndexes { state: bool, indexes: Vec<usize> },
    DebugPrint { message: String },
    GetModSize,
    Closure,
}

/// A newline becomes the line-break markup the UI renders; every other
/// character passes through.
pub open spec fn replaced_char(c: char) -> Seq<char> {
    if c == '\n' {
        "<br />"@
    } else {
        seq![c]
    }
}

/// `s` with every newline replaced by line-break markup.
pub open spec fn replace_newlines_spec(s: Seq<char>) -> Seq<char>
    decreases s.len(),
{
    if s.len() == 0 {
        Seq::empty()
    } else {
        replace_newlines_spec(s.drop_last()) + replaced_char(s.last())
    }
}

/// Replace every newline of a description with the UI's line-break markup.
pub fn replace_newlines(s: &str) -> (r: String)
    ensures
        r@ == replace_newlines_spec(s@),
{
    let mut r = String::new();
    let n = s.unicode_len();
    let mut i: usize = 0;
    while i < n
        invariant
            i <= n,
            n == s@.len(),
            r@ == replace_newlines_spec(s@.take(i as int)),
        decreases n - i,
    {
        let c = s.get_char(i);
        if c == '\n' {
            r.append("<br />");
        } else {
            let piece = s.substring_char(i, i + 1);
            proof {
                assert(piece@ =~= seq![s@[i as int]]);
            }
            r.append(piece);
        }
        proof {
            assert(s@.take(i + 1).drop_last() =~= s@.take(i as int));
            assert(s@.take(i + 1).last() == s@[i as int]);
        }
        i = i + 1;
    }
    proof {
        assert(s@.take(s@.len() as int) =~= s@);
    }
    r
}

/// Build the entry the UI displays for one mod folder, merging what the
/// folder's sidecar descriptor supplied (`parsed`, `None` when the descriptor
/// was missing or unreadable) with the defaults: the folder name stands in
/// for a missing display name (and overrides a supplied one when
/// `use_folder_name` is set), author and version fall back to "???", the
/// category falls back to "Miscellaneous" with "Music" renamed to "Sound",
/// and the description's newlines become line-break markup.
pub fn make_entry(
    id: u32,
    folder_name: String,
    disabled: bool,
    use_folder_name: bool,
    parsed: Option<Entry>,
) -> (entry: Entry)
    ensures
        entry.id == Some(id),
        entry.folder_name matches Some(f) && f@ == folder_name@,
        entry.is_disabled == Some(disabled),
        parsed is None ==> {
            &&& entry.display_name is None
            &&& entry.author is None
            &&& entry.version matches Some(v) && v@ == "???"@
            &&& entry.description is None
            &&& entry.category matches Some(c) && c@ == "Miscellaneous"@
        },
        parsed matches Some(res) ==> {
            &&& entry.display_name matches Some(d) && d@ == (if use_folder_name {
                folder_name@
            } else {
                match res.display_name {
                    Some(given) => given@,
                    None => folder_name@,
                }
            })
            &&& entry.author matches Some(a) && a@ == (match res.author {
                Some(given) => given@,
                None => "???"@,
            })
            &&& entry.version matches Some(v) && v@ == (match res.version {
                Some(given) => given@,
                None => "???"@,
            })
            &&& entry.category matches Some(c) && c@ == (match res.category {
                Some(given) => if given@ == "Music"@ {
                    "Sound"@
                } else {
                    given@
                },
                None => "Miscellaneous"@,
            })
            &&& entry.description matches Some(d) && d@ == (match res.description {
                Some(given) => replace_newlines_spec(given@),
                None => Seq::<char>::empty(),
            })
        },
{
    match parsed {
        None => Entry {
            id: Some(id),
            folder_name: Some(folder_name),
            is_disabled: Some(disabled),
            display_name: None,
            author: None,
            version: Some(String::from_str("???")),
            description: None,
            category: Some(String::from_str("Miscellaneous")),
        },
        Some(res) => {
            let display_name = if use_folder_name {
                Some(folder_name.clone())
            } else {
                match res.display_name {
                    Some(given) => Some(given),
                    None => Some(folder_name.clone()),
                }
            };
            let author = match res.author {
                Some(given) => Some(given),
                None => Some(String::from_str("???")),
            };
            let version = match res.version {
                Some(given) => Some(given),
                None => Some(String::from_str("???")),
            };
            let category = match res.category {
                Some(given) => {
                    let music = String::from_str("Music");
                    if given == music {
                        Some(String::from_str("Sound"))
                    } else {
                        Some(given)
                    }
                },
                None => Some(String::from_str("Miscellaneous")),
            };
            let description = match res.description {
                Some(given) => Some(replace_newlines(given.as_str())),
                None => Some(String::new()),
            };
            Entry {
                id: Some(id),
                folder_name: Some(folder_name),
                is_disabled: Some(disabled),
                display_name,
                author,
                version,
                description,
                category,
            }
        },
    }
}

/// The hash under which a mod folder is recorded in a preset: the hash of
/// "<mods root>/<folder name>".
pub fn mod_path_hash(mods_root: &Vec<u8>, folder_name: &Vec<u8>) -> (h: u64)
    requires
        mods_root@.len() + 1 + folder_name@.len() <= usize::MAX,
    ensures
        h == hash40_spec(mods_root@ + seq![PATH_SEPARATOR_BYTE] + folder_name@),
{
    let ghost full = mods_root@ + seq![PATH_SEPARATOR_BYTE] + folder_name@;
    let mut path: Vec<u8> = Vec::new();
    let mut i: usize = 0;
    while i < mods_root.len()
        invariant
            i <= mods_root@.len(),
            path@ == mods_root@.take(i as int),
        decreases mods_root@.len() - i,
    {
        path.push(mods_root[i]);
        proof {
            assert(mods_root@.take(i + 1) =~= mods_root@.take(i as int).push(
                mods_root@[i as int],
            ));
        }
        i = i + 1;
    }
    proof {
        assert(mods_root@.take(mods_root@.len() as int) =~= mods_root@);
    }
    path.push(PATH_SEPARATOR_BYTE);
    let mut j: usize = 0;
    while j < folder_name.len()
        invariant
            j <= folder_name@.len(),
            path@ == mods_root@ + seq![PATH_SEPARATOR_BYTE] + folder_name@.take(j as int),
        decreases folder_name@.len() - j,
    {
        path.push(folder_name[j]);
        proof {
            assert(mods_root@ + seq![PATH_SEPARATOR_BYTE] + folder_name@.take(j + 1) =~= (
            mods_root@ + seq![PATH_SEPARATOR_BYTE] + folder_name@.take(j as int)).push(
                folder_name@[j as int],
            ));
        }
        j = j + 1;
    }
    proof {
        assert(folder_name@.take(folder_name@.len() as int) =~= folder_name@);
        assert(path@ == full);
    }
    hash40(path.as_slice())
}

/// The preset after every hash of `hashes` is enabled, in order.
pub open spec fn insert_all_spec(s: Set<u64>, hashes: Seq<u64>) -> Set<u64>
    decreases hashes.len(),
{
    if hashes.len() == 0 {
        s
    } else {
        insert_all_spec(s, hashes.drop_last()).insert(hashes.last())
    }
}

/// The preset after the mods at `indexes` are all enabled or all disabled, in
/// order.
pub open spec fn apply_toggles_spec(
    s: Set<u64>,
    hashes: Seq<u64>,
    indexes: Seq<usize>,
    state: bool,
) -> Set<u64>
    decreases indexes.len(),
{
    if indexes.len() == 0 {
        s
    } else {
        let prev = apply_toggles_spec(s, hashes, indexes.drop_last(), state);
        if state {
            prev.insert(hashes[indexes.last() as int])
        } else {
            prev.remove(hashes[indexes.last() as int])
        }
    }
}

/// Every mod index a message names exists.
pub open spec fn message_valid(message: ArcadiaMessage, mod_count: int) -> bool {
    match message {
        ArcadiaMessage::ToggleMod { id, state } => id < mod_count,
        ArcadiaMessage::ChangeIndexes { state, indexes } => forall|i: int|
            0 <= i < indexes@.len() ==> #[trigger] indexes@[i] < mod_count,
        _ => true,
    }
}

/// The preset a message leaves behind, given the preset-path hash of each
/// displayed mod: a toggle enables or disables one mod, `ChangeAll` enables
/// every mod or empties the preset, `ChangeIndexes` toggles the named mods,
/// and the rest leave the preset alone.
pub open spec fn apply_message_spec(
    s: Set<u64>,
    message: ArcadiaMessage,
    hashes: Seq<u64>,
) -> Set<u64> {
    match message {
        ArcadiaMessage::ToggleMod { id, state } => if state {
            s.insert(hashes[id as int])
        } else {
            s.remove(hashes[id as int])
        },
        ArcadiaMessage::ChangeAll { state } => if state {
            insert_all_spec(s, hashes)
        } else {
            Set::empty()
        },
        ArcadiaMessage::ChangeIndexes { state, indexes } => apply_toggles_spec(
            s,
            hashes,
            indexes@,
            state,
        ),
        _ => s,
    }
}

/// Whether the session goes on after a message: only `Closure` ends it.
pub open spec fn session_continues(message: ArcadiaMessage) -> bool {
    !(message is Closure)
}

/// Rewrite the enabled-mods preset as one session message asks, given the
/// preset-path hash of each displayed mod. Returns whether the session goes
/// on. The messages that change no preset (a debug print, a size query) have
/// their side effects at the boundary; here they leave the set alone.
pub fn apply_message(
    presets: &mut HashSet<u64>,
    message: &ArcadiaMessage,
    mod_hashes: &Vec<u64>,
) -> (continues: bool)
    requires
        message_valid(*message, mod_hashes@.len() as int),
    ensures
        final(presets)@ == apply_message_spec(old(presets)@, *message, mod_hashes@),
        continues == session_continues(*message),
{
    match message {
        ArcadiaMessage::ToggleMod { id, state } => {
            let h = mod_hashes[*id];
            if *state {
                presets.insert(h);
            } else {
                presets.remove(&h);
            }
            true
        },
        ArcadiaMessage::ChangeAll { state } => {
            if !*state {
                presets.clear();
            } else {
                let mut i: usize = 0;
                while i < mod_hashes.len()
                    invariant
                        i <= mod_hashes@.len(),
                        presets@ == insert_all_spec(old(presets)@, mod_hashes@.take(i as int)),
                    decreases mod_hashes@.len() - i,
                {
                    presets.insert(mod_hashes[i]);
                    proof {
                        assert(mod_hashes@.take(i + 1).drop_last() =~= mod_hashes@.take(i as int));
                    }
                    i = i + 1;
                }
                proof {
                    assert(mod_hashes@.take(mod_hashes@.len() as int) =~= mod_hashes@);
                }
            }
            true
        },
        ArcadiaMessage::ChangeIndexes { state, indexes } => {
            let mut i: usize = 0;
            while i < indexes.len()
                invariant
                    i <= indexes@.len(),
                    forall|v: int| 0 <= v < indexes@.len() ==> #[trigger] indexes@[v]
                        < mod_hashes@.len(),
                    presets@ == apply_toggles_spec(
                        old(presets)@,
                        mod_hashes@,
                        indexes@.take(i as int),
                        *state,
                    ),
                decreases indexes@.len() - i,
            {
                let idx = indexes[i];
                let h = mod_hashes[idx];
                if *state {
                    presets.insert(h);
                } else {
                    presets.remove(&h);
                }
                proof {
                    assert(indexes@.take(i + 1).drop_last() =~= indexes@.take(i as int));
                    assert(indexes@.take(i + 1).last() == indexes@[i as int]);
                }
                i = i + 1;
            }
            proof {
                assert(indexes@.take(indexes@.len() as int) =~= indexes@);
            }
            true
        },
        ArcadiaMessage::DebugPrint { message: _ } => true,
        ArcadiaMessage::GetModSize => true,
        ArcadiaMessage::Closure => false,
    }
}

} // verus!
