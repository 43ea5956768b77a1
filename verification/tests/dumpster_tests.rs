use yeet::dumpster::{DirEntry, Dumpster};
use yeet::path::{get_absolute_path, AbsPath};
use yeet::YeetError;

fn abs(s: &str) -> AbsPath {
    get_absolute_path(&s.as_bytes().to_vec(), &AbsPath::root())
}

fn engine(home: &str) -> Dumpster {
    Dumpster::with_location(abs(home))
}

fn names(list: &[&str]) -> Vec<Vec<u8>> {
    list.iter().map(|s| s.as_bytes().to_vec()).collect()
}

#[test]
fn dumpster_location_is_fixed_name_under_home() {
    let d = engine("/home/u");
    assert_eq!(d.dumpster_location().to_bytes(), b"/home/u/.dumpster".to_vec());
}

#[test]
fn default_location_ends_with_fixed_name() {
    match Dumpster::with_default_location() {
        Ok(d) => {
            let loc = d.dumpster_location().to_bytes();
            assert!(loc.ends_with(b"/.dumpster"));
        },
        Err(e) => assert!(matches!(e, YeetError::HomeDirectoryUnavailable)),
    }
}

#[test]
fn get_filename_returns_last_component() {
    let p = abs("/a/b/c.txt");
    assert_eq!(Dumpster::get_filename(&p).unwrap(), &b"c.txt".to_vec());
}

#[test]
fn get_filename_of_root_is_missing() {
    let r = AbsPath::root();
    assert!(matches!(Dumpster::get_filename(&r), Err(YeetError::MissingFilename)));
}

#[test]
fn generate_filename_keeps_free_name() {
    let d = engine("/home/u");
    let got = d.generate_filename(&b"f".to_vec(), &names(&[])).unwrap();
    assert_eq!(got, b"f".to_vec());
}

#[test]
fn generate_filename_suffixes_taken_name() {
    let d = engine("/home/u");
    let got = d.generate_filename(&b"f".to_vec(), &names(&["f"])).unwrap();
    assert_eq!(got, b"f.0".to_vec());
}

#[test]
fn generate_filename_takes_first_free_suffix() {
    let d = engine("/home/u");
    let got = d.generate_filename(&b"f".to_vec(), &names(&["f", "f.0", "f.1"])).unwrap();
    assert_eq!(got, b"f.2".to_vec());
}

#[test]
fn generate_filename_skips_only_taken_suffixes() {
    let d = engine("/home/u");
    let got = d.generate_filename(&b"f".to_vec(), &names(&["f", "f.1"])).unwrap();
    assert_eq!(got, b"f.0".to_vec());
}

#[test]
fn generate_filename_renders_multi_digit_suffix() {
    let d = engine("/home/u");
    let occupied = names(
        &["f", "f.0", "f.1", "f.2", "f.3", "f.4", "f.5", "f.6", "f.7", "f.8", "f.9"],
    );
    let got = d.generate_filename(&b"f".to_vec(), &occupied).unwrap();
    assert_eq!(got, b"f.10".to_vec());
}

#[test]
fn yeet_mirrors_path_under_dumpster_root() {
    let d = engine("/home/u");
    let dest = d.yeet(&abs("/home/u/docs/note.txt"), &names(&[])).unwrap();
    assert_eq!(dest.to_bytes(), b"/home/u/.dumpster/docs/note.txt".to_vec());
}

#[test]
fn yeet_destination_is_mirrored_parent_directory() {
    let d = engine("/home/u");
    let dir = d.yeet_destination(&abs("/home/u/docs/note.txt")).unwrap();
    assert_eq!(dir.to_bytes(), b"/home/u/.dumpster/docs".to_vec());
}

#[test]
fn yeet_rejects_path_already_in_dumpster() {
    let d = engine("/home/u");
    let r = d.yeet(&abs("/home/u/.dumpster/docs/note.txt"), &names(&[]));
    assert!(matches!(r, Err(YeetError::AlreadyInDumpster)));
}

#[test]
fn yeet_destination_rejects_path_already_in_dumpster() {
    let d = engine("/home/u");
    let r = d.yeet_destination(&abs("/home/u/.dumpster/x"));
    assert!(matches!(r, Err(YeetError::AlreadyInDumpster)));
}

#[test]
fn yeet_rejects_path_outside_home() {
    let d = engine("/home/u");
    let r = d.yeet(&abs("/etc/passwd"), &names(&[]));
    assert!(matches!(r, Err(YeetError::OutsideHomeDirectory)));
}

#[test]
fn yeet_of_root_under_root_home_is_missing_filename() {
    let d = engine("/");
    let r = d.yeet(&AbsPath::root(), &names(&[]));
    assert!(matches!(r, Err(YeetError::MissingFilename)));
}

#[test]
fn yeet_of_home_itself_targets_a_slot_inside_home() {
    // The home directory is its own mirrored parent: stripping the home
    // prefix leaves nothing, so the destination directory is home itself
    // and the computed target lies outside the dumpster root. The actual
    // rename then fails at the filesystem. This mirrors the engine's
    // treatment of the one accepted input whose target is not under the
    // root.
    let d = engine("/home/u");
    let dest = d.yeet(&abs("/home/u"), &names(&[".dumpster", "docs"])).unwrap();
    assert_eq!(dest.to_bytes(), b"/home/u/u".to_vec());
}

#[test]
fn restore_maps_dumpster_path_back_under_home() {
    let d = engine("/home/u");
    let dest = d.restore(&abs("/home/u/.dumpster/docs/note.txt")).unwrap();
    assert_eq!(dest.to_bytes(), b"/home/u/docs/note.txt".to_vec());
}

#[test]
fn restore_rejects_path_not_in_dumpster() {
    let d = engine("/home/u");
    let r = d.restore(&abs("/home/u/docs/note.txt"));
    assert!(matches!(r, Err(YeetError::NotInDumpster)));
}

#[test]
fn restore_of_dumpster_root_targets_home() {
    let d = engine("/home/u");
    let dest = d.restore(&abs("/home/u/.dumpster")).unwrap();
    assert_eq!(dest.to_bytes(), b"/home/u".to_vec());
}

#[test]
fn yeet_then_restore_round_trips() {
    let d = engine("/home/u");
    let original = abs("/home/u/a/b/c.txt");
    let yeeted = d.yeet(&original, &names(&[])).unwrap();
    let restored = d.restore(&yeeted).unwrap();
    assert_eq!(restored.to_bytes(), original.to_bytes());
}

#[test]
fn empty_plans_one_removal_per_entry() {
    let d = engine("/home/u");
    let entries = vec![
        DirEntry { name: b"a.txt".to_vec(), is_dir: false },
        DirEntry { name: b"docs".to_vec(), is_dir: true },
    ];
    let actions = d.empty(&entries);
    assert_eq!(actions.len(), 2);
    assert_eq!(actions[0].path.to_bytes(), b"/home/u/.dumpster/a.txt".to_vec());
    assert!(!actions[0].is_dir);
    assert_eq!(actions[1].path.to_bytes(), b"/home/u/.dumpster/docs".to_vec());
    assert!(actions[1].is_dir);
}

#[test]
fn empty_of_empty_listing_plans_nothing() {
    let d = engine("/home/u");
    let actions = d.empty(&Vec::new());
    assert_eq!(actions.len(), 0);
}

#[test]
fn scenario_note_txt_then_second_note_txt() {
    let d = engine("/home/u");
    assert_eq!(d.dumpster_location().to_bytes(), b"/home/u/.dumpster".to_vec());

    let first = d.yeet(&abs("/home/u/docs/note.txt"), &names(&[])).unwrap();
    assert_eq!(first.to_bytes(), b"/home/u/.dumpster/docs/note.txt".to_vec());

    let second = d.yeet(&abs("/home/u/docs/note.txt"), &names(&["note.txt"])).unwrap();
    assert_eq!(second.to_bytes(), b"/home/u/.dumpster/docs/note.txt.0".to_vec());
}
