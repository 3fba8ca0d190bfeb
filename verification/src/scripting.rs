//! Script-side rules that do not need the Lua VM: which script names
//! are safe to turn into file paths, and how the external command file
//! is read.

use vstd::prelude::*;
use crate::text::{char_is_whitespace, chars_of, concat_str, is_ascii_alnum, owned, string_from_chars, str_eq, strictly_sorted, unicode_whitespace, views};
use crate::patch_store::{collect_stems, listed_with};

verus! {

/// `c` may appear in a script name (the `/` separates segments).
pub open spec fn script_name_char(c: char) -> bool {
    is_ascii_alnum(c) || c == '-' || c == '_' || c == '/'
}

/// Some `/` lies in the 65-character window of `s` starting at `i`.
pub open spec fn slash_within(s: Seq<char>, i: int) -> bool {
    exists|k: int| i <= k <= i + 64 && #[trigger] s[k] == '/'
}

/// A script name is safe: 1..=256 characters; `/`-separated segments
/// that are each non-empty, at most 64 characters, and made of ASCII
/// alphanumerics, `-` and `_`.
pub open spec fn safe_script_name(s: Seq<char>) -> bool {
    &&& 0 < s.len() <= 256
    &&& forall|i: int| 0 <= i < s.len() ==> script_name_char(#[trigger] s[i])
    &&& s[0] != '/'
    &&& s[s.len() - 1] != '/'
    &&& forall|i: int| 0 <= i < s.len() - 1 ==> !(#[trigger] s[i] == '/' && s[i + 1] == '/')
    &&& forall|i: int| 0 <= i && i + 64 < s.len() ==> #[trigger] slash_within(s, i)
}

/// Whether `name` is safe to use as the stem of a script file name.
pub fn is_safe_script_name(name: &str) -> (b: bool)
    ensures
        b == safe_script_name(name@),
{
    let v = chars_of(name);
    let n = v.len();
    if n == 0 || n > 256 {
        return false;
    }
    if v[0] == '/' || v[n - 1] == '/' {
        return false;
    }
    let mut run: usize = 0;
    let mut i: usize = 0;
    while i < n
        invariant
            v@ == name@,
            n == v.len(),
            0 < n <= 256,
            v@[0] != '/',
            i <= n,
            run <= 64,
            run <= i,
            forall|j: int| 0 <= j < i ==> script_name_char(#[trigger] v@[j]),
            forall|j: int| 0 <= j < i - 1 ==> !(#[trigger] v@[j] == '/' && v@[j + 1] == '/'),
            forall|j: int| i - run <= j < i ==> #[trigger] v@[j] != '/',
            run < i ==> v@[i - run - 1] == '/',
            forall|j: int| 0 <= j && j + 64 < i ==> #[trigger] slash_within(v@, j),
        decreases n - i,
    {
        let c = v[i];
        let ok = (c >= '0' && c <= '9') || (c >= 'a' && c <= 'z') || (c >= 'A' && c <= 'Z') || c == '-'
            || c == '_' || c == '/';
        if !ok {
            assert(!script_name_char(v@[i as int]));
            return false;
        }
        if c == '/' {
            if i > 0 && v[i - 1] == '/' {
                assert(v@[i - 1] == '/' && v@[(i - 1) + 1] == '/');
                return false;
            }
            run = 0;
        } else {
            if run == 64 {
                proof {
                    let j = i - 64;
                    assert(!slash_within(v@, j as int)) by {
                        assert forall|k: int| j <= k <= j + 64 implies v@[k] != '/' by {}
                    }
                }
                return false;
            }
            run = run + 1;
        }
        proof {
            assert forall|j: int| 0 <= j && j + 64 < i + 1 implies #[trigger] slash_within(v@, j) by {
                if j + 64 == i {
                    if c == '/' {
                        assert(v@[i as int] == '/');
                    } else {
                        assert(v@[i - run] == '/');
                    }
                }
            }
        }
        i = i + 1;
    }
    true
}

} // verus!

verus! {

/// Scanning `s` left to right, splitting at whitespace: the tokens
/// completed so far and the token being read.
pub open spec fn token_scan(s: Seq<char>) -> (Seq<Seq<char>>, Seq<char>)
    decreases s.len(),
{
    if s.len() == 0 {
        (Seq::empty(), Seq::empty())
    } else {
        let (done, cur) = token_scan(s.drop_last());
        if unicode_whitespace(s.last()) {
            (
                if cur.len() > 0 {
                    done.push(cur)
                } else {
                    done
                },
                Seq::empty(),
            )
        } else {
            (done, cur.push(s.last()))
        }
    }
}

/// The whitespace-separated tokens of `s`, in order (what
/// `str::split_whitespace` yields).
pub open spec fn tokens(s: Seq<char>) -> Seq<Seq<char>> {
    let (done, cur) = token_scan(s);
    if cur.len() > 0 {
        done.push(cur)
    } else {
        done
    }
}

/// The whitespace-separated tokens of `s`.
pub fn split_tokens(s: &str) -> (r: Vec<String>)
    ensures
        views(r@) == tokens(s@),
{
    let v = chars_of(s);
    let mut done: Vec<String> = Vec::new();
    let mut cur: Vec<char> = Vec::new();
    let mut i: usize = 0;
    assert(v@.take(0) =~= Seq::<char>::empty());
    while i < v.len()
        invariant
            v@ == s@,
            i <= v.len(),
            views(done@) == token_scan(v@.take(i as int)).0,
            cur@ == token_scan(v@.take(i as int)).1,
        decreases v.len() - i,
    {
        let c = v[i];
        assert(v@.take(i + 1).drop_last() =~= v@.take(i as int));
        if char_is_whitespace(c) {
            if cur.len() > 0 {
                let t = string_from_chars(&cur);
                done.push(t);
                assert(views(done@) =~= token_scan(v@.take(i + 1)).0);
            }
            cur = Vec::new();
        } else {
            cur.push(c);
        }
        i = i + 1;
    }
    assert(v@.take(v.len() as int) =~= v@);
    if cur.len() > 0 {
        let t = string_from_chars(&cur);
        done.push(t);
        assert(views(done@) =~= tokens(s@));
    }
    done
}

/// A command read from the external command file.
#[derive(Debug, PartialEq, Eq)]
pub enum ScriptCommand {
    /// Load (after unloading any loaded script) the named script.
    Load(String),
    /// Unload the loaded script, if any.
    Unload,
    /// The command is refused; the text is the result line to write.
    Reject(String),
}

/// Reads the command file's contents: its first token is the action
/// (`load <name>` or `unload`), anything after the name is ignored.
pub fn parse_command(contents: &str) -> (c: ScriptCommand)
    ensures
        ({
            let t = tokens(contents@);
            &&& t.len() == 0 ==> (c matches ScriptCommand::Reject(m) && m@ == "err empty command"@)
            &&& t.len() > 0 && t[0] == "load"@ && t.len() < 2 ==> (c matches ScriptCommand::Reject(m)
                && m@ == "err load requires a script name"@)
            &&& t.len() >= 2 && t[0] == "load"@ ==> (c matches ScriptCommand::Load(n) && n@ == t[1])
            &&& t.len() > 0 && t[0] == "unload"@ ==> c is Unload
            &&& t.len() > 0 && t[0] != "load"@ && t[0] != "unload"@ ==> (c matches ScriptCommand::Reject(
                m,
            ) && m@ == "err unknown action: "@ + t[0])
        }),
{
    let toks = split_tokens(contents);
    if toks.len() == 0 {
        return ScriptCommand::Reject(owned("err empty command"));
    }
    assert(toks@[0]@ == tokens(contents@)[0]);
    proof {
        reveal_strlit("load");
        reveal_strlit("unload");
        assert("load"@.len() != "unload"@.len());
    }
    if str_eq(toks[0].as_str(), "load") {
        if toks.len() < 2 {
            return ScriptCommand::Reject(owned("err load requires a script name"));
        }
        assert(toks@[1]@ == tokens(contents@)[1]);
        return ScriptCommand::Load(owned(toks[1].as_str()));
    }
    if str_eq(toks[0].as_str(), "unload") {
        return ScriptCommand::Unload;
    }
    ScriptCommand::Reject(concat_str("err unknown action: ", toks[0].as_str()))
}

/// Errors from the scripting engine.
#[derive(Debug, PartialEq, Eq)]
pub enum ScriptError {
    /// The VM could not be set up.
    Init(String),
    /// A script file could not be read: its path and the reason.
    Load(String, String),
    /// A script raised an error.
    Runtime(String),
    /// A script name failed `is_safe_script_name`.
    InvalidName(String),
}

/// Path of script `name` (a `/`-separated stem) under `dir`:
/// `<dir>/<name>.lua`; unsafe names are refused.
pub fn script_path(dir: &str, name: &str) -> (r: Result<String, ScriptError>)
    ensures
        !safe_script_name(name@) ==> (r matches Err(ScriptError::InvalidName(n)) && n@ == name@),
        safe_script_name(name@) ==> (r matches Ok(p) && p@ == crate::patch_store::path_join(
            dir@,
            name@ + ".lua"@,
        )),
{
    if !is_safe_script_name(name) {
        return Err(ScriptError::InvalidName(owned(name)));
    }
    let file = concat_str(name, ".lua");
    Ok(crate::patch_store::join_path(dir, file.as_str()))
}

/// Path of FX script `name` under the scripts directory `dir`:
/// `<dir>/fx/<name>.lua`; unsafe names are refused.
pub fn fx_script_path(dir: &str, name: &str) -> (r: Result<String, ScriptError>)
    ensures
        !safe_script_name(name@) ==> (r matches Err(ScriptError::InvalidName(n)) && n@ == name@),
        safe_script_name(name@) ==> (r matches Ok(p) && p@ == crate::patch_store::path_join(
            crate::patch_store::path_join(dir@, "fx"@),
            name@ + ".lua"@,
        )),
{
    let fx = crate::patch_store::join_path(dir, "fx");
    script_path(fx.as_str(), name)
}

/// The control scripts found, sorted: the stem of every `*.lua` path in
/// `paths` (paths relative to the scripts directory, so a script in a
/// subdirectory is named `sub/name`).
pub fn list_scripts(paths: &Vec<String>) -> (r: Vec<String>)
    ensures
        strictly_sorted(views(r@)),
        forall|y: Seq<char>| views(r@).contains(y) <==> listed_with(views(paths@), y, ".lua"@, false),
{
    let mut out: Vec<String> = Vec::new();
    assert(views(out@) =~= Seq::<Seq<char>>::empty());
    collect_stems(&mut out, paths, ".lua", false);
    out
}

/// The FX scripts found, sorted: the stem of every `*.lua` name among
/// the file names `names` of the `fx` directory.
pub fn list_fx_scripts(names: &Vec<String>) -> (r: Vec<String>)
    ensures
        strictly_sorted(views(r@)),
        forall|y: Seq<char>| views(r@).contains(y) <==> listed_with(views(names@), y, ".lua"@, false),
{
    list_scripts(names)
}

/// Law: a safe script name never climbs out of the scripts directory:
/// it holds no `.`, no `\`, does not start with `/`, and every segment
/// is non-empty.
pub proof fn lemma_safe_script_name_stays_inside(s: Seq<char>)
    requires
        safe_script_name(s),
    ensures
        !s.contains('.'),
        !s.contains('\\'),
        s[0] != '/',
        forall|i: int| 0 <= i < s.len() - 1 ==> !(#[trigger] s[i] == '/' && s[i + 1] == '/'),
{
    if s.contains('.') {
        let k = choose|k: int| 0 <= k < s.len() && s[k] == '.';
        assert(script_name_char(s[k]));
    }
    if s.contains('\\') {
        let k = choose|k: int| 0 <= k < s.len() && s[k] == '\\';
        assert(script_name_char(s[k]));
    }
}

} // verus!
