use std::path::PathBuf;

use brume::patch_store::{
    check_version, default_factory_roots, initial_tags, is_safe_name, is_untouched_seed, json_stem, migrate_tags,
    parse_factory_path, save_tags, stamp_for_save, temp_path, PatchError, PatchLibrary, PatchSource,
    SCHEMA_VERSION,
};
use brume::time_fmt::{
    auto_name, format_iso8601, new_auto_name, new_perf_name, now_iso8601, perf_name, secs_or_epoch,
};

fn s(v: &str) -> String {
    v.to_string()
}

fn names(v: &[&str]) -> Vec<String> {
    v.iter().map(|x| x.to_string()).collect()
}

#[test]
fn parse_factory_path_splits_colon_separated() {
    let to_paths = |v: Vec<String>| v.into_iter().map(PathBuf::from).collect::<Vec<_>>();
    assert_eq!(
        to_paths(parse_factory_path("/tmp/a:/tmp/b")),
        vec![PathBuf::from("/tmp/a"), PathBuf::from("/tmp/b")]
    );
    assert_eq!(to_paths(parse_factory_path("")), Vec::<PathBuf>::new());
    assert_eq!(
        to_paths(parse_factory_path("::/tmp/a::")),
        vec![PathBuf::from("/tmp/a")]
    );
}

#[test]
fn iso8601_format_is_well_formed() {
    let s = now_iso8601();
    assert_eq!(s.len(), 20, "iso8601 string should be 20 chars: got {s:?}");
    assert!(s.ends_with('Z'));
    assert_eq!(&s[4..5], "-");
    assert_eq!(&s[7..8], "-");
    assert_eq!(&s[10..11], "T");
    assert_eq!(&s[13..14], ":");
    assert_eq!(&s[16..17], ":");
}

#[test]
fn iso8601_known_instants() {
    assert_eq!(format_iso8601(0), "1970-01-01T00:00:00Z");
    assert_eq!(format_iso8601(86_399), "1970-01-01T23:59:59Z");
    assert_eq!(format_iso8601(951_782_400), "2000-02-29T00:00:00Z");
    assert_eq!(format_iso8601(1_709_251_199), "2024-02-29T23:59:59Z");
    assert_eq!(format_iso8601(1_777_478_400), "2026-04-29T16:00:00Z");
    assert_eq!(format_iso8601(253_402_300_799), "9999-12-31T23:59:59Z");
}

#[test]
fn roundtrip_of_split_and_join() {
    let parts = ["/usr/share/brume/factory", "/opt/presets", "rel"];
    let joined = parts.join(":");
    assert_eq!(parse_factory_path(&joined), names(&parts));
}

#[test]
fn default_factory_roots_fall_back() {
    assert_eq!(default_factory_roots(None), names(&["/usr/share/brume/factory"]));
    assert_eq!(default_factory_roots(Some("::")), names(&["/usr/share/brume/factory"]));
    assert_eq!(default_factory_roots(Some("/a:/b")), names(&["/a", "/b"]));
}

#[test]
fn safe_names() {
    assert!(is_safe_name("warm-pad"));
    assert!(is_safe_name("Carillon Bell"));
    assert!(is_safe_name("my_patch_01"));
    assert!(is_safe_name("café"));
    assert!(!is_safe_name(""));
    assert!(!is_safe_name("../etc"));
    assert!(!is_safe_name("a/b"));
    assert!(!is_safe_name("a\\b"));
    assert!(!is_safe_name("a.json"));
    assert!(!is_safe_name("semi;colon"));
}

#[test]
fn json_stems() {
    assert_eq!(json_stem("warm-pad.json"), Some(s("warm-pad")));
    assert_eq!(json_stem("a.b.json"), Some(s("a.b")));
    assert_eq!(json_stem(".json"), None);
    assert_eq!(json_stem("notes.txt"), None);
    assert_eq!(json_stem("json"), None);
}

#[test]
fn library_paths() {
    let lib = PatchLibrary::open_with_factory_roots("/home/u/.brume/library", vec![s("/f1"), s("/f2/")]);
    assert_eq!(lib.root(), "/home/u/.brume/library");
    assert_eq!(lib.factory_roots(), &[s("/f1"), s("/f2/")][..]);
    assert_eq!(lib.user_path("fm", "warm-pad"), Ok(s("/home/u/.brume/library/fm/warm-pad.json")));
    assert_eq!(lib.user_path("f/m", "x"), Err(PatchError::InvalidName(s("f/m"))));
    assert_eq!(lib.user_path("fm", ".."), Err(PatchError::InvalidName(s(".."))));
    assert_eq!(lib.perf_path("evening"), Ok(s("/home/u/.brume/library/perf/evening.json")));
    assert_eq!(lib.perf_dir(), s("/home/u/.brume/library/perf"));
    assert_eq!(
        lib.factory_candidates("fm", "Bell"),
        names(&["/f1/fm/Bell.json", "/f2/fm/Bell.json"])
    );
    assert_eq!(lib.list_dirs("fm"), names(&["/home/u/.brume/library/fm", "/f1/fm", "/f2/fm"]));
    assert_eq!(temp_path("/x/fm/a.json"), s("/x/fm/a.json.tmp"));
}

#[test]
fn open_reads_factory_override() {
    let lib = PatchLibrary::open("/lib", Some("/a::/b"));
    assert_eq!(lib.factory_roots(), &names(&["/a", "/b"])[..]);
    let lib = PatchLibrary::open("/lib", None);
    assert_eq!(lib.factory_roots(), &names(&["/usr/share/brume/factory"])[..]);
}

#[test]
fn list_sorted_and_merged() {
    let lib = PatchLibrary::open_with_factory_roots("/lib", vec![s("/factory")]);
    let listings = vec![
        names(&["zebra.json", "alpha.json", "middle.json", "._alpha.json", "readme.txt"]),
        names(&["Carillon Bell.json", "alpha.json"]),
    ];
    assert_eq!(lib.list("timbral", &listings), names(&["Carillon Bell", "alpha", "middle", "zebra"]));
    assert!(lib.list("../x", &listings).is_empty());
    assert!(lib.list("fm", &vec![]).is_empty());
}

#[test]
fn list_perfs_sorted() {
    let lib = PatchLibrary::open_with_factory_roots("/lib", vec![]);
    let found = names(&["zebra.json", "alpha.json", "middle.json", "x.json.tmp"]);
    assert_eq!(lib.list_perfs(&found), names(&["alpha", "middle", "zebra"]));
}

#[test]
fn patch_source_distinguishes_layers() {
    let lib = PatchLibrary::open_with_factory_roots("/lib", vec![s("/f1"), s("/f2")]);
    assert_eq!(lib.patch_source("fm", "Carillon Bell", false, &vec![false, true]), Some(PatchSource::Factory));
    assert_eq!(lib.patch_source("fm", "Nonexistent", false, &vec![false, false]), None);
    assert_eq!(lib.patch_source("fm", "Mine", true, &vec![false, false]), Some(PatchSource::User));
    assert_eq!(lib.patch_source("fm", "Shadow", true, &vec![true, true]), Some(PatchSource::User));
    assert_eq!(lib.patch_source("fm", "a/b", true, &vec![true, true]), None);
}

#[test]
fn load_resolution_prefers_user_then_first_factory() {
    let lib = PatchLibrary::open_with_factory_roots("/lib", vec![s("/f1"), s("/f2")]);
    assert_eq!(lib.resolve_load("fm", "Bell", true, &vec![true, true]), Ok(s("/lib/fm/Bell.json")));
    assert_eq!(lib.resolve_load("fm", "Bell", false, &vec![false, true]), Ok(s("/f2/fm/Bell.json")));
    assert_eq!(lib.factory_path("fm", "Bell", &vec![true, true]), Some(s("/f1/fm/Bell.json")));
    assert_eq!(
        lib.resolve_load("fm", "Bell", false, &vec![false, false]),
        Err(PatchError::Io(s("/lib/fm/Bell.json"), s("patch not found")))
    );
}

#[test]
fn delete_refuses_factory_entries() {
    let lib = PatchLibrary::open_with_factory_roots("/lib", vec![s("/f")]);
    assert_eq!(
        lib.resolve_delete("fm", "Carillon Bell", false, &vec![true]),
        Err(PatchError::ReadOnlyFactory(s("Carillon Bell")))
    );
    assert_eq!(lib.resolve_delete("fm", "Disposable", true, &vec![false]), Ok(s("/lib/fm/Disposable.json")));
    assert_eq!(
        lib.resolve_delete("fm", "Gone", false, &vec![false]),
        Err(PatchError::Io(s("/lib/fm/Gone.json"), s("patch not found")))
    );
    assert_eq!(lib.resolve_delete("fm", "", false, &vec![false]), Err(PatchError::InvalidName(s(""))));
}

#[test]
fn load_rejects_future_schema_version() {
    match check_version("future.json", 99) {
        Err(PatchError::UnsupportedVersion { found, supported, .. }) => {
            assert_eq!(found, 99);
            assert_eq!(supported, SCHEMA_VERSION);
        }
        other => panic!("expected UnsupportedVersion, got {other:?}"),
    }
    assert_eq!(check_version("current.json", SCHEMA_VERSION), Ok(()));
}

#[test]
fn save_refreshes_modified_at_and_preserves_created_at() {
    let mut created = s("2026-01-01T00:00:00Z");
    let mut modified = s("2026-01-01T00:00:00Z");
    let mut version = s("");
    stamp_for_save(&mut created, &mut modified, &mut version, "2026-02-02T10:00:00Z", "0.9.0");
    assert_eq!(created, "2026-01-01T00:00:00Z");
    assert_eq!(modified, "2026-02-02T10:00:00Z");
    assert_eq!(version, "0.9.0");
    let mut created = s("");
    stamp_for_save(&mut created, &mut modified, &mut version, "2026-03-03T10:00:00Z", "1.0.0");
    assert_eq!(created, "2026-03-03T10:00:00Z");
    assert_eq!(version, "0.9.0");
}

#[test]
fn complex_tags_become_fm() {
    let t = |v: &[&str]| v.iter().map(|x| Some(x.to_string())).collect::<Vec<_>>();
    assert_eq!(migrate_tags(&t(&["complex", "user"])), t(&["fm", "user"]));
    assert_eq!(migrate_tags(&t(&["user"])), t(&["user", "fm"]));
    assert_eq!(migrate_tags(&t(&["fm", "x"])), t(&["fm", "x"]));
    assert_eq!(migrate_tags(&vec![None, Some(s("complex"))]), vec![None, Some(s("fm"))]);
}

#[test]
fn seeded_copies_are_recognised() {
    assert!(is_untouched_seed(Some("Brume Factory"), true));
    assert!(!is_untouched_seed(Some("Brume Factory"), false));
    assert!(!is_untouched_seed(Some("Someone"), true));
    assert!(!is_untouched_seed(None, true));
}

#[test]
fn perf_names_use_last_four_digits_of_the_time() {
    assert_eq!(perf_name(1_700_001_234), "PERF-1234");
    assert_eq!(perf_name(7), "PERF-0007");
    assert_eq!(perf_name(10_000), "PERF-0000");
    let now = new_perf_name();
    assert!(now.starts_with("PERF-"));
    assert_eq!(now.len(), 9);
}

#[test]
fn new_patch_is_tagged_with_its_mode() {
    assert_eq!(initial_tags("fm"), vec![s("fm")]);
    assert!(initial_tags("").is_empty());
}

#[test]
fn open_provisions_mode_and_perf_directories() {
    let lib = PatchLibrary::open_with_factory_roots("/srv/lib", vec![]);
    assert_eq!(
        lib.provision_dirs(),
        vec![
            s("/srv/lib/fm"),
            s("/srv/lib/harmonic"),
            s("/srv/lib/timbral"),
            s("/srv/lib/granular"),
            s("/srv/lib/fx"),
            s("/srv/lib/perf"),
        ]
    );
}

#[test]
fn patch_names_carry_the_mode_label() {
    assert_eq!(auto_name("HARMONIC", 1_700_000_042), "HARMONIC-0042");
    assert_eq!(auto_name("FM", 99_999), "FM-9999");
    let now = new_auto_name("GRANULAR");
    assert!(now.starts_with("GRANULAR-"));
    assert_eq!(now.len(), 13);
}

#[test]
fn saving_adds_the_mode_tag_and_keeps_the_rest() {
    assert_eq!(save_tags("fm", &names(&[])), names(&["fm"]));
    assert_eq!(save_tags("fm", &names(&["bass", "dark"])), names(&["bass", "dark", "fm"]));
    assert_eq!(save_tags("fm", &names(&["fm", "bass"])), names(&["fm", "bass"]));
    assert!(save_tags("", &names(&[])).is_empty());
}

#[test]
fn clock_reading_before_epoch_counts_as_epoch() {
    assert_eq!(secs_or_epoch(None), 0);
    assert_eq!(secs_or_epoch(Some(1_700_000_000)), 1_700_000_000);
}

#[test]
fn missing_patches_are_reported_not_found() {
    let lib = PatchLibrary::open_with_factory_roots("/lib", vec![s("/fac")]);
    match lib.resolve_load("fm", "ghost", false, &vec![false]) {
        Err(PatchError::Io(p, m)) => {
            assert_eq!(p, "/lib/fm/ghost.json");
            assert_eq!(m, "patch not found");
        }
        other => panic!("expected not found, got {other:?}"),
    }
    assert_eq!(
        lib.resolve_delete("fm", "ghost", false, &vec![false]),
        Err(PatchError::Io(s("/lib/fm/ghost.json"), s("patch not found")))
    );
}
