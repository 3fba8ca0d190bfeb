use brume::persist::{DebounceAction, DebounceEvent, Debouncer, Wait};
use brume::scripting::{
    fx_script_path, is_safe_script_name, list_fx_scripts, list_scripts, parse_command, script_path,
    ScriptCommand, ScriptError,
};
use brume::settings::default_path;

#[test]
fn load_script_rejects_unsafe_names() {
    let bad_names = [
        "",
        "../etc/passwd",
        "..",
        "studies/..",
        "studies/../leak",
        "/abs/path",
        "studies//double",
        "trailing/",
        r"foo\bar",
        "name with spaces",
        "name;with;semicolons",
        "name`with`backticks",
        "name$(injection)",
        "name.with.dots",
        "name|pipe",
        "café",
    ];
    for bad in bad_names {
        match script_path("/scripts", bad) {
            Err(ScriptError::InvalidName(_)) => {}
            other => panic!("expected InvalidName for {bad:?}, got {other:?}"),
        }
    }
}

#[test]
fn is_safe_script_name_accepts_typical_names() {
    for ok in [
        "diffuser",
        "study_01_metronome",
        "clock-driver",
        "FX42",
        "_underscore_lead",
        "studies/01_metronome",
        "user_scripts/drone",
        "deep/nested/path",
    ] {
        assert!(is_safe_script_name(ok), "{ok:?} should be safe");
    }
}

#[test]
fn script_name_length_limits() {
    let seg64 = "a".repeat(64);
    let seg65 = "a".repeat(65);
    assert!(is_safe_script_name(&seg64));
    assert!(!is_safe_script_name(&seg65));
    assert!(is_safe_script_name(&format!("{seg64}/{seg64}")));
    let long = vec!["abc"; 65].join("/");
    assert!(long.len() > 256);
    assert!(!is_safe_script_name(&long));
}

#[test]
fn script_paths() {
    assert_eq!(script_path("/s", "studies/01").unwrap(), "/s/studies/01.lua");
    assert_eq!(fx_script_path("/s", "diffuser").unwrap(), "/s/fx/diffuser.lua");
}

#[test]
fn command_file_parsing() {
    assert_eq!(parse_command("load drone\n"), ScriptCommand::Load("drone".to_string()));
    assert_eq!(parse_command("\t load   studies/x  extra"), ScriptCommand::Load("studies/x".to_string()));
    assert_eq!(parse_command("unload"), ScriptCommand::Unload);
    assert_eq!(parse_command("   \n"), ScriptCommand::Reject("err empty command".to_string()));
    assert_eq!(parse_command("load"), ScriptCommand::Reject("err load requires a script name".to_string()));
    assert_eq!(parse_command("reboot now"), ScriptCommand::Reject("err unknown action: reboot".to_string()));
}

#[test]
fn settings_default_path() {
    assert_eq!(default_path(Some("/home/pi")), "/home/pi/.brume/settings.json");
    assert_eq!(default_path(None), "./.brume/settings.json");
}

#[test]
fn debounce_coalesces_and_flushes() {
    let mut d: Debouncer<u32> = Debouncer::new();
    assert_eq!(d.wait(), Wait::Forever);
    assert!(matches!(d.step(DebounceEvent::Edit(1)), DebounceAction::Idle));
    assert!(matches!(d.step(DebounceEvent::Edit(2)), DebounceAction::Idle));
    assert_eq!(d.wait(), Wait::Debounce);
    assert!(matches!(d.step(DebounceEvent::Timeout), DebounceAction::Write(2)));
    assert_eq!(d.wait(), Wait::Forever);
    assert!(matches!(d.step(DebounceEvent::Timeout), DebounceAction::Idle));
    assert!(matches!(d.step(DebounceEvent::Edit(3)), DebounceAction::Idle));
    assert!(matches!(d.step(DebounceEvent::Disconnected), DebounceAction::FlushAndStop(Some(3))));
    assert!(matches!(d.step(DebounceEvent::Disconnected), DebounceAction::FlushAndStop(None)));
}

fn names(v: &[&str]) -> Vec<String> {
    v.iter().map(|s| s.to_string()).collect()
}

#[test]
fn script_listing_keeps_lua_stems_sorted() {
    let found = names(&["studies/study-2.lua", "arp.lua", "README.md", "studies/study-1.lua", ".lua"]);
    assert_eq!(list_scripts(&found), names(&["arp", "studies/study-1", "studies/study-2"]));
}

#[test]
fn fx_script_listing_ignores_other_files() {
    let found = names(&["tape.lua", "bitcrush.lua", "notes.txt", "tape.lua.bak"]);
    assert_eq!(list_fx_scripts(&found), names(&["bitcrush", "tape"]));
    assert!(list_fx_scripts(&Vec::new()).is_empty());
}
