//! Where the user's application settings live.

use vstd::prelude::*;
use crate::patch_store::{join_path, path_join};

verus! {

/// The settings file under a home directory: `<home>/.brume/settings.json`,
/// with `.` standing in for an unset home.
pub open spec fn settings_path(home: Option<Seq<char>>) -> Seq<char> {
    let base = match home {
        Some(h) => h,
        None => "."@,
    };
    path_join(path_join(base, ".brume"@), "settings.json"@)
}

/// The default settings file path given the value of `$HOME`, if set.
pub fn default_path(home: Option<&str>) -> (p: String)
    ensures
        p@ == settings_path(match home {
            Some(h) => Some(h@),
            None => None,
        }),
{
    let base = match home {
        Some(h) => h,
        None => ".",
    };
    let dir = join_path(base, ".brume");
    join_path(dir.as_str(), "settings.json")
}

} // verus!
