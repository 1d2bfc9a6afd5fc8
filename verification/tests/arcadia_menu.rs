use std::collections::HashSet;

use arc_replace::arcadia::apply_message;
use arc_replace::arcadia::make_entry;
use arc_replace::arcadia::mod_path_hash;
use arc_replace::arcadia::replace_newlines;
use arc_replace::arcadia::ArcadiaMessage;
use arc_replace::arcadia::Entry;
use arc_replace::hash40::hash40;

#[test]
fn missing_descriptor_gets_the_default_entry() {
    let e = make_entry(4, "coolmod".to_string(), true, false, None);
    assert_eq!(e.id, Some(4));
    assert_eq!(e.folder_name.as_deref(), Some("coolmod"));
    assert_eq!(e.is_disabled, Some(true));
    assert_eq!(e.display_name, None);
    assert_eq!(e.author, None);
    assert_eq!(e.version.as_deref(), Some("???"));
    assert_eq!(e.description, None);
    assert_eq!(e.category.as_deref(), Some("Miscellaneous"));
}

fn descriptor(
    display_name: Option<&str>,
    author: Option<&str>,
    version: Option<&str>,
    description: Option<&str>,
    category: Option<&str>,
) -> Entry {
    Entry {
        id: None,
        folder_name: None,
        is_disabled: None,
        display_name: display_name.map(str::to_string),
        author: author.map(str::to_string),
        version: version.map(str::to_string),
        description: description.map(str::to_string),
        category: category.map(str::to_string),
    }
}

#[test]
fn descriptor_fields_survive_and_gaps_get_defaults() {
    let parsed = descriptor(Some("Cool Mod"), None, Some("1.2"), None, None);
    let e = make_entry(0, "coolmod".to_string(), false, false, Some(parsed));
    assert_eq!(e.id, Some(0));
    assert_eq!(e.folder_name.as_deref(), Some("coolmod"));
    assert_eq!(e.is_disabled, Some(false));
    assert_eq!(e.display_name.as_deref(), Some("Cool Mod"));
    assert_eq!(e.author.as_deref(), Some("???"));
    assert_eq!(e.version.as_deref(), Some("1.2"));
    assert_eq!(e.description.as_deref(), Some(""));
    assert_eq!(e.category.as_deref(), Some("Miscellaneous"));
}

#[test]
fn folder_name_overrides_display_name_when_asked() {
    let parsed = descriptor(Some("Fancy Name"), None, None, None, None);
    let e = make_entry(1, "plain_folder".to_string(), false, true, Some(parsed));
    assert_eq!(e.display_name.as_deref(), Some("plain_folder"));

    let parsed = descriptor(None, None, None, None, None);
    let e = make_entry(1, "plain_folder".to_string(), false, false, Some(parsed));
    assert_eq!(e.display_name.as_deref(), Some("plain_folder"));
}

#[test]
fn music_category_is_renamed_to_sound() {
    let parsed = descriptor(None, None, None, None, Some("Music"));
    let e = make_entry(0, "m".to_string(), false, false, Some(parsed));
    assert_eq!(e.category.as_deref(), Some("Sound"));

    let parsed = descriptor(None, None, None, None, Some("Fighter"));
    let e = make_entry(0, "m".to_string(), false, false, Some(parsed));
    assert_eq!(e.category.as_deref(), Some("Fighter"));
}

#[test]
fn description_newlines_become_line_breaks() {
    let parsed = descriptor(None, Some("someone"), None, Some("line one\nline two"), None);
    let e = make_entry(0, "m".to_string(), false, false, Some(parsed));
    assert_eq!(e.author.as_deref(), Some("someone"));
    assert_eq!(e.description.as_deref(), Some("line one<br />line two"));
    assert_eq!(replace_newlines("a\n\nb"), "a<br /><br />b");
    assert_eq!(replace_newlines(""), "");
}

#[test]
fn mod_path_hash_matches_the_joined_path() {
    let root = b"sd:/ultimate/mods".to_vec();
    let folder = b"recolor".to_vec();
    assert_eq!(
        mod_path_hash(&root, &folder),
        hash40(b"sd:/ultimate/mods/recolor")
    );
}

fn hashes_of(names: &[&str]) -> Vec<u64> {
    names
        .iter()
        .map(|n| {
            let mut p = b"sd:/ultimate/mods".to_vec();
            p.push(b'/');
            p.extend_from_slice(n.as_bytes());
            hash40(&p)
        })
        .collect()
}

#[test]
fn toggle_mod_enables_and_disables_one_mod() {
    let hashes = hashes_of(&["a", "b"]);
    let mut presets: HashSet<u64> = HashSet::new();

    let on = ArcadiaMessage::ToggleMod { id: 1, state: true };
    assert!(apply_message(&mut presets, &on, &hashes));
    assert!(presets.contains(&hashes[1]));
    assert!(!presets.contains(&hashes[0]));

    let off = ArcadiaMessage::ToggleMod { id: 1, state: false };
    assert!(apply_message(&mut presets, &off, &hashes));
    assert!(presets.is_empty());
}

#[test]
fn change_all_fills_or_empties_the_preset() {
    let hashes = hashes_of(&["a", "b", "c"]);
    let mut presets: HashSet<u64> = HashSet::new();

    assert!(apply_message(&mut presets, &ArcadiaMessage::ChangeAll { state: true }, &hashes));
    assert_eq!(presets.len(), 3);
    for h in &hashes {
        assert!(presets.contains(h));
    }

    assert!(apply_message(&mut presets, &ArcadiaMessage::ChangeAll { state: false }, &hashes));
    assert!(presets.is_empty());
}

#[test]
fn change_indexes_toggles_the_named_mods() {
    let hashes = hashes_of(&["a", "b", "c"]);
    let mut presets: HashSet<u64> = HashSet::new();

    let enable = ArcadiaMessage::ChangeIndexes { state: true, indexes: vec![0, 2] };
    assert!(apply_message(&mut presets, &enable, &hashes));
    assert!(presets.contains(&hashes[0]));
    assert!(!presets.contains(&hashes[1]));
    assert!(presets.contains(&hashes[2]));

    let disable = ArcadiaMessage::ChangeIndexes { state: false, indexes: vec![0] };
    assert!(apply_message(&mut presets, &disable, &hashes));
    assert!(!presets.contains(&hashes[0]));
    assert!(presets.contains(&hashes[2]));
}

#[test]
fn closure_ends_the_session_and_changes_nothing() {
    let hashes = hashes_of(&["a"]);
    let mut presets: HashSet<u64> = HashSet::new();
    presets.insert(hashes[0]);

    assert!(!apply_message(&mut presets, &ArcadiaMessage::Closure, &hashes));
    assert!(presets.contains(&hashes[0]));
    assert_eq!(presets.len(), 1);

    let chatter = ArcadiaMessage::DebugPrint { message: "hi".to_string() };
    assert!(apply_message(&mut presets, &chatter, &hashes));
    assert!(apply_message(&mut presets, &ArcadiaMessage::GetModSize, &hashes));
    assert_eq!(presets.len(), 1);
}

#[test]
fn default_entry_is_empty() {
    let e = Entry::default();
    assert_eq!(e.id, None);
    assert_eq!(e.folder_name, None);
    assert_eq!(e.is_disabled, None);
    assert_eq!(e.display_name, None);
    assert_eq!(e.author, None);
    assert_eq!(e.version, None);
    assert_eq!(e.description, None);
    assert_eq!(e.category, None);
}
