//! The patch library's rules: which names are safe file names, how the
//! user root and the read-only factory roots are layered, how entries
//! are listed, resolved, stamped and versioned.
//!
//! The library layout on disk is
//!
//! ```text
//! <root>/
//!   fm/  harmonic/  timbral/  granular/  fx/   single-mode patches
//!   perf/                                       whole-instrument snapshots
//! ```
//!
//! Reading and writing files is the caller's part: the functions here
//! take what the file system reported (directory listings, which
//! candidate files exist) and decide what to read, write or return.

use vstd::prelude::*;
use crate::text::{chars_eq, str_eq, owned, concat_str, is_suffix, matches_at, insert_sorted, strictly_sorted, views, string_from_chars, chars_of, char_is_alphanumeric, contains_chars, contains_seq, unicode_alphanumeric};

verus! {

/// Current schema version. Files declaring a newer one are refused.
pub const SCHEMA_VERSION: u32 = 1;

/// Author tag stamped onto every factory preset.
pub const FACTORY_AUTHOR: &'static str = "Brume Factory";

/// Default install path for the factory presets.
pub const DEFAULT_FACTORY_ROOT: &'static str = "/usr/share/brume/factory";

/// Directory name for whole-instrument snapshots.
pub const PERF_SUBDIR: &'static str = "perf";

/// Legacy marker file left by an earlier seeding model.
pub const LEGACY_FACTORY_MARKER: &'static str = ".factory_seeded_1";

/// The per-mode directories of a library.
pub const LIBRARY_MODES: [&'static str; 5] = ["fm", "harmonic", "timbral", "granular", "fx"];

/// Provenance of a library entry: the writable user root or one of the
/// read-only factory roots.
#[derive(Debug, Clone, Copy, PartialEq, Eq, Structural)]
pub enum PatchSource {
    User,
    Factory,
}

/// Errors from patch operations.
#[derive(Debug, PartialEq, Eq)]
pub enum PatchError {
    /// A file-system failure on the given path, with its description.
    Io(String, String),
    /// A JSON (de)serialization failure, with its description.
    Parse(String),
    /// A mode or name that is not a safe file-name component.
    InvalidName(String),
    /// The file declares a schema version newer than this build reads.
    UnsupportedVersion { path: String, found: u32, supported: u32 },
    /// Deleting an entry that exists only under a factory root.
    ReadOnlyFactory(String),
}

/// `c` may appear in a patch or mode name.
pub open spec fn safe_name_char(c: char) -> bool {
    unicode_alphanumeric(c) || c == '-' || c == '_' || c == ' '
}

/// A name is safe as a file-name component: non-empty, no path
/// separators, no `..`, and only alphanumerics, `-`, `_` and spaces.
pub open spec fn safe_name(s: Seq<char>) -> bool {
    &&& s.len() > 0
    &&& !s.contains('/')
    &&& !s.contains('\\')
    &&& !contains_seq(s, seq!['.', '.'])
    &&& forall|i: int| 0 <= i < s.len() ==> safe_name_char(#[trigger] s[i])
}

/// Whether a name is safe for use as a file-name component.
pub fn is_safe_name(name: &str) -> (b: bool)
    ensures
        b == safe_name(name@),
{
    let v = chars_of(name);
    if v.len() == 0 {
        return false;
    }
    let mut i: usize = 0;
    while i < v.len()
        invariant
            i <= v.len(),
            v@ == name@,
            forall|j: int| 0 <= j < i ==> safe_name_char(#[trigger] v@[j]),
            forall|j: int| 0 <= j < i ==> v@[j] != '/' && v@[j] != '\\',
        decreases v.len() - i,
    {
        let c = v[i];
        let ok = char_is_alphanumeric(c) || c == '-' || c == '_' || c == ' ';
        if !ok || c == '/' || c == '\\' {
            proof {
                if !ok {
                    assert(!safe_name_char(name@[i as int]));
                } else {
                    assert(name@.contains(c));
                }
            }
            return false;
        }
        i = i + 1;
    }
    let dots: Vec<char> = vec!['.', '.'];
    assert(dots@ =~= seq!['.', '.']);
    !contains_chars(&v, &dots)
}

} // verus!

verus! {

/// Scanning `s` left to right, splitting at `sep`: the non-empty fields
/// completed so far and the field still being read.
pub open spec fn split_scan(s: Seq<char>, sep: char) -> (Seq<Seq<char>>, Seq<char>)
    decreases s.len(),
{
    if s.len() == 0 {
        (Seq::empty(), Seq::empty())
    } else {
        let (done, cur) = split_scan(s.drop_last(), sep);
        if s.last() == sep {
            (
                if cur.len() > 0 {
                    done.push(cur)
                } else {
                    done
                },
                Seq::empty(),
            )
        } else {
            (done, cur.push(s.last()))
        }
    }
}

/// The non-empty `sep`-separated fields of `s`, in order.
pub open spec fn split_nonempty(s: Seq<char>, sep: char) -> Seq<Seq<char>> {
    let (done, cur) = split_scan(s, sep);
    if cur.len() > 0 {
        done.push(cur)
    } else {
        done
    }
}

/// `parts` joined with `sep` between consecutive elements.
pub open spec fn join_with(parts: Seq<Seq<char>>, sep: char) -> Seq<char>
    decreases parts.len(),
{
    if parts.len() == 0 {
        Seq::empty()
    } else if parts.len() == 1 {
        parts[0]
    } else {
        join_with(parts.drop_last(), sep) + seq![sep] + parts.last()
    }
}

/// Parses a colon-separated list of factory roots, dropping empty
/// entries.
pub fn parse_factory_path(input: &str) -> (r: Vec<String>)
    ensures
        r@.map_values(|x: String| x@) == split_nonempty(input@, ':'),
{
    let v = chars_of(input);
    let mut done: Vec<String> = Vec::new();
    let mut cur: Vec<char> = Vec::new();
    let mut i: usize = 0;
    assert(v@.take(0) =~= Seq::<char>::empty());
    while i < v.len()
        invariant
            v@ == input@,
            i <= v.len(),
            done@.map_values(|x: String| x@) == split_scan(v@.take(i as int), ':').0,
            cur@ == split_scan(v@.take(i as int), ':').1,
        decreases v.len() - i,
    {
        let c = v[i];
        assert(v@.take(i + 1).drop_last() =~= v@.take(i as int));
        if c == ':' {
            if cur.len() > 0 {
                let f = string_from_chars(&cur);
                done.push(f);
                assert(done@.map_values(|x: String| x@) =~= split_scan(v@.take(i + 1), ':').0);
            }
            cur = Vec::new();
        } else {
            cur.push(c);
        }
        i = i + 1;
    }
    assert(v@.take(v.len() as int) =~= v@);
    if cur.len() > 0 {
        let f = string_from_chars(&cur);
        done.push(f);
        assert(done@.map_values(|x: String| x@) =~= split_nonempty(input@, ':'));
    }
    done
}

/// Scanning further text free of `sep` only extends the open field.
proof fn lemma_split_scan_append_field(y: Seq<char>, q: Seq<char>, sep: char)
    requires
        !q.contains(sep),
    ensures
        split_scan(y + q, sep) == (split_scan(y, sep).0, split_scan(y, sep).1 + q),
    decreases q.len(),
{
    if q.len() == 0 {
        assert(y + q =~= y);
        assert(split_scan(y, sep).1 + q =~= split_scan(y, sep).1);
    } else {
        let q0 = q.drop_last();
        assert(!q0.contains(sep)) by {
            if q0.contains(sep) {
                let k = choose|k: int| 0 <= k < q0.len() && q0[k] == sep;
                assert(q[k] == sep);
            }
        }
        lemma_split_scan_append_field(y, q0, sep);
        assert((y + q).drop_last() =~= y + q0);
        assert((y + q).last() == q.last());
        assert(q.last() != sep) by {
            assert(q[q.len() - 1] == q.last());
        }
        assert((split_scan(y, sep).1 + q0).push(q.last()) =~= split_scan(y, sep).1 + q);
    }
}

/// Law: splitting undoes joining. Joining non-empty fields that do not
/// contain the separator, then splitting, gives back the fields.
#[verifier::spinoff_prover]
#[verifier::rlimit(40)]
pub proof fn lemma_split_join_roundtrip(parts: Seq<Seq<char>>, sep: char)
    requires
        forall|i: int| 0 <= i < parts.len() ==> (#[trigger] parts[i]).len() > 0 && !parts[i].contains(sep),
    ensures
        split_nonempty(join_with(parts, sep), sep) == parts,
    decreases parts.len(),
{
    if parts.len() == 0 {
        assert(split_nonempty(join_with(parts, sep), sep) =~= parts);
    } else if parts.len() == 1 {
        let p = parts[0];
        lemma_split_scan_append_field(Seq::empty(), p, sep);
        assert(Seq::<char>::empty() + p =~= p);
        assert(Seq::<char>::empty() + p =~= p);
        assert(split_nonempty(p, sep) =~= seq![p]);
        assert(parts =~= seq![p]);
    } else {
        let init = parts.drop_last();
        let p = parts.last();
        assert(p == parts[parts.len() - 1]);
        lemma_split_join_roundtrip(init, sep);
        let j = join_with(init, sep);
        let jp = j.push(sep);
        assert(jp.drop_last() =~= j);
        lemma_split_scan_append_field(jp, p, sep);
        assert(j + seq![sep] + p =~= jp + p);
        assert(Seq::<char>::empty() + p =~= p);
        assert(split_nonempty(join_with(parts, sep), sep) =~= init.push(p));
        assert(init.push(p) =~= parts);
    }
}

/// Law: every field that splitting yields is non-empty and free of the
/// separator.
pub proof fn lemma_split_fields_clean(s: Seq<char>, sep: char)
    ensures
        forall|i: int|
            0 <= i < split_nonempty(s, sep).len() ==> (#[trigger] split_nonempty(s, sep)[i]).len()
                > 0 && !split_nonempty(s, sep)[i].contains(sep),
{
    lemma_split_scan_clean(s, sep);
}

proof fn lemma_split_scan_clean(s: Seq<char>, sep: char)
    ensures
        forall|i: int|
            0 <= i < split_scan(s, sep).0.len() ==> (#[trigger] split_scan(s, sep).0[i]).len() > 0
                && !split_scan(s, sep).0[i].contains(sep),
        !split_scan(s, sep).1.contains(sep),
    decreases s.len(),
{
    if s.len() > 0 {
        lemma_split_scan_clean(s.drop_last(), sep);
        let cur = split_scan(s.drop_last(), sep).1;
        if s.last() != sep {
            assert(!cur.push(s.last()).contains(sep)) by {
                if cur.push(s.last()).contains(sep) {
                    let k = choose|k: int| 0 <= k < cur.push(s.last()).len() && cur.push(s.last())[k] == sep;
                    if k < cur.len() {
                        assert(cur[k] == sep);
                    }
                }
            }
        }
    }
}

} // verus!

verus! {

/// The `.json` extension.
pub open spec fn json_ext() -> Seq<char> {
    seq!['.', 'j', 's', 'o', 'n']
}

/// The stem of a file name with extension `ext` (the name without the
/// extension), or `None` when the name does not end in `ext` or is
/// nothing but `ext`.
pub open spec fn stem_of(name: Seq<char>, ext: Seq<char>) -> Option<Seq<char>> {
    if ext.len() >= 1 && name.len() > ext.len() && is_suffix(ext, name) {
        Some(name.subrange(0, name.len() - ext.len()))
    } else {
        None
    }
}

/// The stem of a `*.json` file name, or `None` for any other name.
pub open spec fn json_stem_of(name: Seq<char>) -> Option<Seq<char>> {
    stem_of(name, json_ext())
}

/// The stem of file name `name` with extension `ext`, or `None`.
pub fn file_stem(name: &str, ext: &str) -> (r: Option<String>)
    ensures
        r matches Some(s) ==> stem_of(name@, ext@) == Some(s@),
        r is None ==> stem_of(name@, ext@) is None,
{
    let v = chars_of(name);
    let e = chars_of(ext);
    if e.len() == 0 || v.len() <= e.len() {
        return None;
    }
    let at = v.len() - e.len();
    if !matches_at(&v, &e, at) {
        proof {
            if is_suffix(e@, v@) {
                assert(v@.subrange(at as int, v@.len() as int) == e@);
                assert forall|j: int| 0 <= j < e@.len() implies v@[at + j] == e@[j] by {
                    assert(v@.subrange(at as int, v@.len() as int)[j] == v@[at + j]);
                }
            }
        }
        return None;
    }
    proof {
        assert(v@.subrange(at as int, v@.len() as int) =~= e@);
    }
    let mut stem: Vec<char> = Vec::new();
    let mut i: usize = 0;
    while i < at
        invariant
            i <= at,
            at == v.len() - e.len(),
            stem@ == v@.subrange(0, i as int),
        decreases at - i,
    {
        stem.push(v[i]);
        assert(v@.subrange(0, i + 1) =~= v@.subrange(0, i as int).push(v@[i as int]));
        i = i + 1;
    }
    Some(string_from_chars(&stem))
}

/// The stem of a `*.json` file name, or `None` for any other name.
pub fn json_stem(name: &str) -> (r: Option<String>)
    ensures
        r matches Some(s) ==> json_stem_of(name@) == Some(s@),
        r is None ==> json_stem_of(name@) is None,
{
    proof {
        reveal_strlit(".json");
    }
    assert(".json"@ =~= json_ext());
    file_stem(name, ".json")
}

/// `name` is a file with extension `ext` and stem `y`, and — when
/// `skip_dot` — not a dot-file.
pub open spec fn stem_hit(name: Seq<char>, y: Seq<char>, ext: Seq<char>, skip_dot: bool) -> bool {
    stem_of(name, ext) == Some(y) && (skip_dot ==> y[0] != '.')
}

/// `y` is the stem of some qualifying file name in the listing `names`.
pub open spec fn listed_with(names: Seq<Seq<char>>, y: Seq<char>, ext: Seq<char>, skip_dot: bool) -> bool {
    exists|b: int| 0 <= b < names.len() && stem_hit(#[trigger] names[b], y, ext, skip_dot)
}

/// `y` is the stem of some qualifying `*.json` file name in `names`.
pub open spec fn listed_in(names: Seq<Seq<char>>, y: Seq<char>, skip_dot: bool) -> bool {
    listed_with(names, y, json_ext(), skip_dot)
}

/// Extending a listing by one name adds exactly that name's stem.
proof fn lemma_listed_step(nv: Seq<Seq<char>>, b: int, y: Seq<char>, ext: Seq<char>, skip_dot: bool)
    requires
        0 <= b < nv.len(),
    ensures
        listed_with(nv.take(b + 1), y, ext, skip_dot) <==> (listed_with(nv.take(b), y, ext, skip_dot)
            || stem_hit(nv[b], y, ext, skip_dot)),
{
    if listed_with(nv.take(b + 1), y, ext, skip_dot) {
        let k = choose|k: int|
            0 <= k < nv.take(b + 1).len() && stem_hit(#[trigger] nv.take(b + 1)[k], y, ext, skip_dot);
        if k < b {
            assert(nv.take(b)[k] == nv.take(b + 1)[k]);
        } else {
            assert(nv.take(b + 1)[k] == nv[b]);
        }
    }
    if listed_with(nv.take(b), y, ext, skip_dot) {
        let k = choose|k: int| 0 <= k < nv.take(b).len() && stem_hit(#[trigger] nv.take(b)[k], y, ext, skip_dot);
        assert(nv.take(b)[k] == nv.take(b + 1)[k]);
    }
    if stem_hit(nv[b], y, ext, skip_dot) {
        assert(nv.take(b + 1)[b] == nv[b]);
    }
}

/// `cur` holds exactly the strings of `o` and the stems found among the
/// first `b` names of `nv`.
pub open spec fn stems_match(
    cur: Seq<Seq<char>>,
    o: Seq<Seq<char>>,
    nv: Seq<Seq<char>>,
    b: int,
    ext: Seq<char>,
    skip_dot: bool,
) -> bool {
    forall|y: Seq<char>|
        #![trigger cur.contains(y)]
        cur.contains(y) <==> (o.contains(y) || listed_with(nv.take(b), y, ext, skip_dot))
}

/// Inserts into `out` the stem of every file name in `names` with
/// extension `ext` (skipping dot-files when `skip_dot`).
pub fn collect_stems(out: &mut Vec<String>, names: &Vec<String>, ext: &str, skip_dot: bool)
    requires
        strictly_sorted(views(old(out)@)),
    ensures
        strictly_sorted(views(final(out)@)),
        forall|y: Seq<char>|
            views(final(out)@).contains(y) <==> (views(old(out)@).contains(y) || listed_with(
                views(names@),
                y,
                ext@,
                skip_dot,
            )),
{
    let ghost o = views(out@);
    let ghost nv = views(names@);
    let mut b: usize = 0;
    assert(stems_match(views(out@), o, nv, 0, ext@, skip_dot)) by {
        assert forall|y: Seq<char>| !listed_with(nv.take(0), y, ext@, skip_dot) by {}
    }
    while b < names.len()
        invariant
            b <= names.len(),
            nv == views(names@),
            strictly_sorted(views(out@)),
            stems_match(views(out@), o, nv, b as int, ext@, skip_dot),
        decreases names.len() - b,
    {
        let ghost before = views(out@);
        assert(nv[b as int] == names@[b as int]@);
        match file_stem(names[b].as_str(), ext) {
            Some(stem) => {
                let sv = chars_of(stem.as_str());
                let keep = !skip_dot || sv[0] != '.';
                let ghost sview = stem@;
                if keep {
                    insert_sorted(out, stem);
                }
                assert(stem_of(nv[b as int], ext@) == Some(sview));
                assert(keep == (!skip_dot || sview[0] != '.'));
                assert(stems_match(views(out@), o, nv, b + 1, ext@, skip_dot)) by {
                    assert forall|y: Seq<char>|
                        views(out@).contains(y) <==> (o.contains(y) || listed_with(
                            nv.take(b + 1),
                            y,
                            ext@,
                            skip_dot,
                        )) by {
                        lemma_listed_step(nv, b as int, y, ext@, skip_dot);
                        assert(before.contains(y) <==> (o.contains(y) || listed_with(
                            nv.take(b as int),
                            y,
                            ext@,
                            skip_dot,
                        )));
                        assert(stem_hit(nv[b as int], y, ext@, skip_dot) <==> (keep && y == sview));
                    }
                }
            },
            None => {
                assert(stem_of(nv[b as int], ext@) is None);
                assert(stems_match(views(out@), o, nv, b + 1, ext@, skip_dot)) by {
                    assert forall|y: Seq<char>|
                        views(out@).contains(y) <==> (o.contains(y) || listed_with(
                            nv.take(b + 1),
                            y,
                            ext@,
                            skip_dot,
                        )) by {
                        lemma_listed_step(nv, b as int, y, ext@, skip_dot);
                        assert(before.contains(y) <==> (o.contains(y) || listed_with(
                            nv.take(b as int),
                            y,
                            ext@,
                            skip_dot,
                        )));
                    }
                }
            },
        }
        b = b + 1;
    }
    assert(nv.take(names.len() as int) =~= nv);
}

} // verus!

verus! {

/// `comp` appended to the path `base` as a new component: `base/comp`,
/// without doubling a trailing `/`, and just `comp` when `base` is
/// empty. (For a component without separators this is what
/// `Path::join` produces.)
pub open spec fn path_join(base: Seq<char>, comp: Seq<char>) -> Seq<char> {
    if base.len() == 0 {
        comp
    } else if base.last() == '/' {
        base + comp
    } else {
        base + seq!['/'] + comp
    }
}

/// Appends the component `comp` to the path `base`.
pub fn join_path(base: &str, comp: &str) -> (r: String)
    ensures
        r@ == path_join(base@, comp@),
{
    let b = chars_of(base);
    if b.len() == 0 {
        return owned(comp);
    }
    if b[b.len() - 1] == '/' {
        assert(b@.last() == b@[b.len() - 1]);
        return concat_str(base, comp);
    }
    let with_sep = concat_str(base, "/");
    proof {
        reveal_strlit("/");
    }
    assert("/"@ =~= seq!['/']);
    concat_str(with_sep.as_str(), comp)
}

/// The user-root path of entry `name` in directory `dir`:
/// `<root>/<dir>/<name>.json`.
pub open spec fn entry_path(root: Seq<char>, dir: Seq<char>, name: Seq<char>) -> Seq<char> {
    path_join(path_join(root, dir), name + json_ext())
}

/// Builds `<base>/<dir>/<name>.json`.
fn entry_file(base: &str, dir: &str, name: &str) -> (r: String)
    ensures
        r@ == entry_path(base@, dir@, name@),
{
    let d = join_path(base, dir);
    let f = concat_str(name, ".json");
    proof {
        reveal_strlit(".json");
    }
    assert(".json"@ =~= json_ext());
    join_path(d.as_str(), f.as_str())
}

/// The default factory roots: the colon-separated list in the
/// override value when it names at least one root, otherwise the
/// system install path.
pub open spec fn default_roots(env: Option<Seq<char>>) -> Seq<Seq<char>> {
    match env {
        Some(v) if split_nonempty(v, ':').len() > 0 => split_nonempty(v, ':'),
        _ => seq![DEFAULT_FACTORY_ROOT@],
    }
}

/// Resolves the factory root list from the value of the
/// `BRUME_FACTORY_DIR` override, if it is set.
pub fn default_factory_roots(env: Option<&str>) -> (r: Vec<String>)
    ensures
        views(r@) == default_roots(match env {
            Some(v) => Some(v@),
            None => None,
        }),
{
    if let Some(v) = env {
        let parts = parse_factory_path(v);
        if parts.len() > 0 {
            assert(views(parts@) =~= parts@.map_values(|x: String| x@));
            return parts;
        }
    }
    let mut r: Vec<String> = Vec::new();
    r.push(owned(DEFAULT_FACTORY_ROOT));
    assert(views(r@) =~= seq![DEFAULT_FACTORY_ROOT@]);
    r
}

/// The patch library: one writable user root and zero or more
/// read-only factory roots, searched in order.
pub struct PatchLibrary {
    root: String,
    factory_roots: Vec<String>,
}

impl PatchLibrary {
    /// The user root.
    pub closed spec fn user_root(&self) -> Seq<char> {
        self.root@
    }

    /// The factory roots, in search order.
    pub closed spec fn factory_root_list(&self) -> Seq<Seq<char>> {
        views(self.factory_roots@)
    }

    /// A library over `root` with an explicit factory root list.
    pub fn open_with_factory_roots(root: &str, factory_roots: Vec<String>) -> (lib: Self)
        ensures
            lib.user_root() == root@,
            lib.factory_root_list() == views(factory_roots@),
    {
        PatchLibrary { root: owned(root), factory_roots }
    }

    /// A library over `root` whose factory roots come from the
    /// override value `factory_env` (see `default_factory_roots`).
    pub fn open(root: &str, factory_env: Option<&str>) -> (lib: Self)
        ensures
            lib.user_root() == root@,
            lib.factory_root_list() == default_roots(match factory_env {
                Some(v) => Some(v@),
                None => None,
            }),
    {
        let roots = default_factory_roots(factory_env);
        PatchLibrary { root: owned(root), factory_roots: roots }
    }

    /// The user root path.
    pub fn root(&self) -> (r: &str)
        ensures
            r@ == self.user_root(),
    {
        self.root.as_str()
    }

    /// The configured factory roots.
    pub fn factory_roots(&self) -> (r: &[String])
        ensures
            views(r@) == self.factory_root_list(),
    {
        self.factory_roots.as_slice()
    }

    /// Path of `mode/name` under the user root; refuses unsafe names,
    /// the mode first.
    pub fn user_path(&self, mode: &str, name: &str) -> (r: Result<String, PatchError>)
        ensures
            !safe_name(mode@) ==> (r matches Err(PatchError::InvalidName(n)) && n@ == mode@),
            safe_name(mode@) && !safe_name(name@) ==> (r matches Err(PatchError::InvalidName(n)) && n@ == name@),
            safe_name(mode@) && safe_name(name@) ==> (r matches Ok(p) && p@ == entry_path(self.user_root(), mode@, name@)),
    {
        if !is_safe_name(mode) {
            return Err(PatchError::InvalidName(owned(mode)));
        }
        if !is_safe_name(name) {
            return Err(PatchError::InvalidName(owned(name)));
        }
        Ok(entry_file(self.root.as_str(), mode, name))
    }

    /// Paths at which the factory layer could hold `mode/name`, one per
    /// factory root in search order; empty for unsafe names.
    pub fn factory_candidates(&self, mode: &str, name: &str) -> (r: Vec<String>)
        ensures
            views(r@) == (if safe_name(mode@) && safe_name(name@) {
                factory_candidates_of(self.factory_root_list(), mode@, name@)
            } else {
                Seq::empty()
            }),
    {
        let mut r: Vec<String> = Vec::new();
        if !is_safe_name(mode) || !is_safe_name(name) {
            assert(views(r@) =~= Seq::<Seq<char>>::empty());
            return r;
        }
        let ghost roots = self.factory_root_list();
        let mut i: usize = 0;
        while i < self.factory_roots.len()
            invariant
                i <= self.factory_roots.len(),
                roots == views(self.factory_roots@),
                views(r@) =~= factory_candidates_of(roots, mode@, name@).take(i as int),
            decreases self.factory_roots.len() - i,
        {
            let p = entry_file(self.factory_roots[i].as_str(), mode, name);
            let ghost pv = p@;
            let ghost before = views(r@);
            r.push(p);
            proof {
                assert(views(r@) =~= before.push(pv));
                assert(factory_candidates_of(roots, mode@, name@).take(i + 1) =~= factory_candidates_of(
                    roots,
                    mode@,
                    name@,
                ).take(i as int).push(pv));
            }
            i = i + 1;
        }
        r
    }

    /// The first factory candidate for `mode/name` that exists, given
    /// `present[i]`: whether the candidate under factory root `i` is a
    /// file.
    pub fn factory_path(&self, mode: &str, name: &str, present: &Vec<bool>) -> (r: Option<String>)
        requires
            present.len() == self.factory_root_list().len(),
        ensures
            r is None <==> !(safe_name(mode@) && safe_name(name@) && present@.contains(true)),
            r matches Some(p) ==> p@ == factory_candidates_of(
                self.factory_root_list(),
                mode@,
                name@,
            )[first_true(present@)],
    {
        if !is_safe_name(mode) || !is_safe_name(name) {
            return None;
        }
        let mut i: usize = 0;
        while i < present.len()
            invariant
                i <= present.len(),
                present.len() == self.factory_roots.len(),
                safe_name(mode@) && safe_name(name@),
                forall|j: int| 0 <= j < i ==> !present@[j],
            decreases present.len() - i,
        {
            if present[i] {
                proof {
                    lemma_first_true(present@, i as int);
                }
                return Some(entry_file(self.factory_roots[i].as_str(), mode, name));
            }
            i = i + 1;
        }
        None
    }

    /// Which layer holds `mode/name`, given whether the user-root file
    /// exists and which factory candidates exist. The user copy wins.
    pub fn patch_source(
        &self,
        mode: &str,
        name: &str,
        user_exists: bool,
        present: &Vec<bool>,
    ) -> (r: Option<PatchSource>)
        requires
            present.len() == self.factory_root_list().len(),
        ensures
            r == source_of(safe_name(mode@) && safe_name(name@), user_exists, present@),
    {
        if self.user_path(mode, name).is_err() {
            return None;
        }
        if user_exists {
            return Some(PatchSource::User);
        }
        if self.factory_path(mode, name, present).is_some() {
            return Some(PatchSource::Factory);
        }
        None
    }

    /// The file to read for `mode/name`: the user copy when it exists,
    /// else the first factory copy; otherwise a not-found error on the
    /// user path. Unsafe names are refused.
    pub fn resolve_load(
        &self,
        mode: &str,
        name: &str,
        user_exists: bool,
        present: &Vec<bool>,
    ) -> (r: Result<String, PatchError>)
        requires
            present.len() == self.factory_root_list().len(),
        ensures
            !safe_name(mode@) ==> (r matches Err(PatchError::InvalidName(n)) && n@ == mode@),
            safe_name(mode@) && !safe_name(name@) ==> (r matches Err(PatchError::InvalidName(n)) && n@ == name@),
            safe_name(mode@) && safe_name(name@) && user_exists ==> (r matches Ok(p) && p@
                == entry_path(self.user_root(), mode@, name@)),
            safe_name(mode@) && safe_name(name@) && !user_exists && present@.contains(true) ==> (
            r matches Ok(p) && p@ == factory_candidates_of(
                self.factory_root_list(),
                mode@,
                name@,
            )[first_true(present@)]),
            safe_name(mode@) && safe_name(name@) && !user_exists && !present@.contains(true) ==> (
            r matches Err(PatchError::Io(p, m)) && p@ == entry_path(self.user_root(), mode@, name@) && m@
                == "patch not found"@),
    {
        let user = self.user_path(mode, name)?;
        if user_exists {
            return Ok(user);
        }
        if let Some(f) = self.factory_path(mode, name, present) {
            return Ok(f);
        }
        Err(PatchError::Io(user, owned("patch not found")))
    }

    /// The user-root file to remove for `mode/name`. Entries that exist
    /// only in the factory layer are read-only; missing entries are a
    /// not-found error; unsafe names are refused.
    pub fn resolve_delete(
        &self,
        mode: &str,
        name: &str,
        user_exists: bool,
        present: &Vec<bool>,
    ) -> (r: Result<String, PatchError>)
        requires
            present.len() == self.factory_root_list().len(),
        ensures
            !safe_name(mode@) ==> (r matches Err(PatchError::InvalidName(n)) && n@ == mode@),
            safe_name(mode@) && !safe_name(name@) ==> (r matches Err(PatchError::InvalidName(n)) && n@ == name@),
            safe_name(mode@) && safe_name(name@) && user_exists ==> (r matches Ok(p) && p@
                == entry_path(self.user_root(), mode@, name@)),
            safe_name(mode@) && safe_name(name@) && !user_exists && present@.contains(true) ==> (
            r matches Err(PatchError::ReadOnlyFactory(n)) && n@ == name@),
            safe_name(mode@) && safe_name(name@) && !user_exists && !present@.contains(true) ==> (
            r matches Err(PatchError::Io(p, m)) && p@ == entry_path(self.user_root(), mode@, name@) && m@
                == "patch not found"@),
    {
        match self.patch_source(mode, name, user_exists, present) {
            Some(PatchSource::Factory) => Err(PatchError::ReadOnlyFactory(owned(name))),
            None => {
                let user = self.user_path(mode, name)?;
                Err(PatchError::Io(user, owned("patch not found")))
            },
            Some(PatchSource::User) => self.user_path(mode, name),
        }
    }

    /// The directories `open` makes sure exist under the user root:
    /// one per library mode, then the snapshot directory.
    pub fn provision_dirs(&self) -> (r: Vec<String>)
        ensures
            r@.len() == LIBRARY_MODES@.len() + 1,
            forall|i: int|
                0 <= i < LIBRARY_MODES@.len() ==> (#[trigger] r@[i])@ == path_join(
                    self.user_root(),
                    LIBRARY_MODES@[i]@,
                ),
            r@[LIBRARY_MODES@.len() as int]@ == path_join(self.user_root(), PERF_SUBDIR@),
    {
        let mut r: Vec<String> = Vec::new();
        let mut i: usize = 0;
        while i < 5
            invariant
                i <= 5,
                r@.len() == i,
                forall|k: int| 0 <= k < i ==> (#[trigger] r@[k])@ == path_join(self.root@, LIBRARY_MODES@[k]@),
            decreases 5 - i,
        {
            r.push(join_path(self.root.as_str(), LIBRARY_MODES[i]));
            i = i + 1;
        }
        r.push(join_path(self.root.as_str(), PERF_SUBDIR));
        r
    }

    /// Directory of the user root holding snapshots.
    pub fn perf_dir(&self) -> (r: String)
        ensures
            r@ == path_join(self.user_root(), PERF_SUBDIR@),
    {
        join_path(self.root.as_str(), PERF_SUBDIR)
    }

    /// Path of snapshot `name`; refuses unsafe names.
    pub fn perf_path(&self, name: &str) -> (r: Result<String, PatchError>)
        ensures
            !safe_name(name@) ==> (r matches Err(PatchError::InvalidName(n)) && n@ == name@),
            safe_name(name@) ==> (r matches Ok(p) && p@ == entry_path(self.user_root(), PERF_SUBDIR@, name@)),
    {
        if !is_safe_name(name) {
            return Err(PatchError::InvalidName(owned(name)));
        }
        Ok(entry_file(self.root.as_str(), PERF_SUBDIR, name))
    }

    /// The directories whose listings `list` merges for `mode`: the
    /// user root's, then each factory root's, in search order.
    pub fn list_dirs(&self, mode: &str) -> (r: Vec<String>)
        ensures
            r@.len() == self.factory_root_list().len() + 1,
            r@[0]@ == path_join(self.user_root(), mode@),
            forall|i: int|
                0 <= i < self.factory_root_list().len() ==> (#[trigger] r@[i + 1])@ == path_join(
                    self.factory_root_list()[i],
                    mode@,
                ),
    {
        let mut r: Vec<String> = Vec::new();
        r.push(join_path(self.root.as_str(), mode));
        let mut i: usize = 0;
        while i < self.factory_roots.len()
            invariant
                i <= self.factory_roots.len(),
                r@.len() == i + 1,
                r@[0]@ == path_join(self.root@, mode@),
                forall|k: int|
                    0 <= k < i ==> (#[trigger] r@[k + 1])@ == path_join(self.factory_roots@[k]@, mode@),
            decreases self.factory_roots.len() - i,
        {
            r.push(join_path(self.factory_roots[i].as_str(), mode));
            i = i + 1;
        }
        r
    }

    /// Every entry name for `mode`, merged across the user root and the
    /// factory roots, sorted, each once. `listings[k]` holds the file
    /// names found in the `k`-th directory of `list_dirs(mode)` (empty
    /// for a directory that does not exist). Only `*.json` files count,
    /// and dot-files are skipped. Unsafe modes list nothing.
    pub fn list(&self, mode: &str, listings: &Vec<Vec<String>>) -> (r: Vec<String>)
        ensures
            strictly_sorted(views(r@)),
            forall|y: Seq<char>|
                views(r@).contains(y) <==> (safe_name(mode@) && exists|k: int|
                    0 <= k < listings@.len() && listed_in(views(#[trigger] listings@[k]@), y, true)),
    {
        let mut out: Vec<String> = Vec::new();
        if !is_safe_name(mode) {
            assert(views(out@) =~= Seq::<Seq<char>>::empty());
            return out;
        }
        assert(views(out@) =~= Seq::<Seq<char>>::empty());
        let mut k: usize = 0;
        while k < listings.len()
            invariant
                k <= listings.len(),
                safe_name(mode@),
                strictly_sorted(views(out@)),
                forall|y: Seq<char>|
                    views(out@).contains(y) <==> exists|a: int|
                        0 <= a < k && listed_in(views(#[trigger] listings@[a]@), y, true),
            decreases listings.len() - k,
        {
            let ghost before = views(out@);
            proof {
                reveal_strlit(".json");
                assert(".json"@ =~= json_ext());
            }
            collect_stems(&mut out, &listings[k], ".json", true);
            assert forall|y: Seq<char>|
                views(out@).contains(y) <==> exists|a: int|
                    0 <= a < k + 1 && listed_in(views(#[trigger] listings@[a]@), y, true) by {
                if exists|a: int| 0 <= a < k + 1 && listed_in(views(#[trigger] listings@[a]@), y, true) {
                    let a = choose|a: int| 0 <= a < k + 1 && listed_in(views(#[trigger] listings@[a]@), y, true);
                    if a < k {
                        assert(before.contains(y));
                    }
                }
            }
            k = k + 1;
        }
        out
    }

    /// Every snapshot name, sorted: the stems of the `*.json` files in
    /// the snapshot directory, whose file names are `names`.
    pub fn list_perfs(&self, names: &Vec<String>) -> (r: Vec<String>)
        ensures
            strictly_sorted(views(r@)),
            forall|y: Seq<char>| views(r@).contains(y) <==> listed_in(views(names@), y, false),
    {
        let mut out: Vec<String> = Vec::new();
        assert(views(out@) =~= Seq::<Seq<char>>::empty());
        proof {
            reveal_strlit(".json");
            assert(".json"@ =~= json_ext());
        }
        collect_stems(&mut out, names, ".json", false);
        out
    }
}

/// The candidate paths of `mode/name` under each factory root.
pub open spec fn factory_candidates_of(roots: Seq<Seq<char>>, mode: Seq<char>, name: Seq<char>) -> Seq<Seq<char>> {
    Seq::new(roots.len(), |i: int| entry_path(roots[i], mode, name))
}

/// Index of the first `true` in `p` (meaningful when there is one).
pub open spec fn first_true(p: Seq<bool>) -> int {
    choose|i: int| 0 <= i < p.len() && p[i] && forall|j: int| 0 <= j < i ==> !p[j]
}

proof fn lemma_first_true(p: Seq<bool>, i: int)
    requires
        0 <= i < p.len(),
        p[i],
        forall|j: int| 0 <= j < i ==> !p[j],
    ensures
        first_true(p) == i,
        p.contains(true),
{
    let f = first_true(p);
    assert(0 <= f < p.len() && p[f] && forall|j: int| 0 <= j < f ==> !p[j]);
    if f < i {
        assert(!p[f]);
    } else if f > i {
        assert(!p[i]);
    }
}

/// Which layer holds an entry: none for unsafe names, the user root
/// when its copy exists, else the factory layer when any factory root
/// holds a copy.
pub open spec fn source_of(safe: bool, user_exists: bool, present: Seq<bool>) -> Option<PatchSource> {
    if !safe {
        None
    } else if user_exists {
        Some(PatchSource::User)
    } else if present.contains(true) {
        Some(PatchSource::Factory)
    } else {
        None
    }
}

} // verus!

verus! {

/// Accepts a file read from `path` that declares schema `version`,
/// unless the version is newer than this build supports.
pub fn check_version(path: &str, version: u32) -> (r: Result<(), PatchError>)
    ensures
        version <= SCHEMA_VERSION ==> r is Ok,
        version > SCHEMA_VERSION ==> (r matches Err(
            PatchError::UnsupportedVersion { path: p, found, supported },
        ) && p@ == path@ && found == version && supported == SCHEMA_VERSION),
{
    if version > SCHEMA_VERSION {
        return Err(
            PatchError::UnsupportedVersion {
                path: owned(path),
                found: version,
                supported: SCHEMA_VERSION,
            },
        );
    }
    Ok(())
}

/// The temporary file written before the atomic rename onto `path`
/// (`<path>.tmp`, which for a `*.json` path is what replacing its
/// extension with `json.tmp` gives).
pub fn temp_path(path: &str) -> (r: String)
    ensures
        r@ == path@ + seq!['.', 't', 'm', 'p'],
{
    let r = concat_str(path, ".tmp");
    proof {
        reveal_strlit(".tmp");
    }
    assert(".tmp"@ =~= seq!['.', 't', 'm', 'p']);
    r
}

/// Refreshes the metadata stamps of an entry about to be saved:
/// `modified_at` becomes `now`; `created_at` and `brume_version` are
/// backfilled with `now` and `version` when empty and kept otherwise.
pub fn stamp_for_save(
    created_at: &mut String,
    modified_at: &mut String,
    brume_version: &mut String,
    now: &str,
    version: &str,
)
    ensures
        final(created_at)@ == (if old(created_at)@.len() == 0 {
            now@
        } else {
            old(created_at)@
        }),
        final(modified_at)@ == now@,
        final(brume_version)@ == (if old(brume_version)@.len() == 0 {
            version@
        } else {
            old(brume_version)@
        }),
{
    if created_at.as_str().is_empty() {
        *created_at = owned(now);
    }
    *modified_at = owned(now);
    if brume_version.as_str().is_empty() {
        *brume_version = owned(version);
    }
}

/// The tag list of a legacy `complex` patch moved to `fm`: each
/// `"complex"` tag becomes `"fm"`, and `"fm"` is appended when the list
/// held neither. `None` stands for a tag that is not a string, which is
/// kept as it is.
pub open spec fn migrated_tags(tags: Seq<Option<Seq<char>>>) -> Seq<Option<Seq<char>>> {
    let mapped = tags.map_values(
        |t: Option<Seq<char>>|
            if t == Some(complex_tag()) {
                Some(fm_tag())
            } else {
                t
            },
    );
    if tags.contains(Some(complex_tag())) || tags.contains(Some(fm_tag())) {
        mapped
    } else {
        mapped.push(Some(fm_tag()))
    }
}

/// The tags a new patch starts with: its mode, when it has one, so
/// tag filters work from the first save.
pub fn initial_tags(mode: &str) -> (r: Vec<String>)
    ensures
        r@.len() == (if mode@.len() == 0 { 0int } else { 1int }),
        mode@.len() > 0 ==> r@[0]@ == mode@,
{
    let mut tags: Vec<String> = Vec::new();
    if !mode.is_empty() {
        tags.push(owned(mode));
    }
    tags
}

/// The tags a patch of mode `mode` is saved with: its own tags, with
/// the mode appended when it is not among them (an empty mode adds
/// nothing).
pub open spec fn saved_tags(mode: Seq<char>, tags: Seq<Seq<char>>) -> Seq<Seq<char>> {
    if mode.len() == 0 || tags.contains(mode) {
        tags
    } else {
        tags.push(mode)
    }
}

/// The tags to write when saving a patch of mode `mode` that carries
/// `tags`: the engine mode is always among them, and every given tag
/// is kept in its place.
pub fn save_tags(mode: &str, tags: &Vec<String>) -> (r: Vec<String>)
    ensures
        views(r@) == saved_tags(mode@, views(tags@)),
        mode@.len() > 0 ==> views(r@).contains(mode@),
        views(tags@).contains(mode@) ==> views(r@) == views(tags@),
        forall|i: int| 0 <= i < tags@.len() ==> (#[trigger] r@[i])@ == tags@[i]@,
{
    let mut out: Vec<String> = Vec::new();
    let mut found = false;
    let mut i: usize = 0;
    while i < tags.len()
        invariant
            i <= tags.len(),
            views(out@) == views(tags@).take(i as int),
            found == views(tags@).take(i as int).contains(mode@),
        decreases tags.len() - i,
    {
        let t = owned(tags[i].as_str());
        let same = str_eq(tags[i].as_str(), mode);
        let ghost before = views(tags@).take(i as int);
        out.push(t);
        proof {
            assert(views(tags@).take(i + 1) =~= before.push(tags@[i as int]@));
            assert(views(out@) =~= views(tags@).take(i + 1));
            if same {
                assert(views(tags@).take(i + 1)[i as int] == mode@);
            }
            if views(tags@).take(i + 1).contains(mode@) && !same {
                let k = choose|k: int| 0 <= k < i + 1 && #[trigger] views(tags@).take(i + 1)[k] == mode@;
                assert(before[k] == mode@);
            }
            if before.contains(mode@) {
                let k = choose|k: int| 0 <= k < i && #[trigger] before[k] == mode@;
                assert(views(tags@).take(i + 1)[k] == mode@);
            }
        }
        found = found || same;
        i = i + 1;
    }
    proof {
        assert(views(tags@).take(tags.len() as int) =~= views(tags@));
    }
    if !mode.is_empty() && !found {
        let ghost before = views(out@);
        out.push(owned(mode));
        proof {
            assert(views(out@) =~= before.push(mode@));
            assert(views(out@)[before.len() as int] == mode@);
        }
    }
    proof {
        assert forall|i: int| 0 <= i < tags@.len() implies (#[trigger] out@[i])@ == tags@[i]@ by {
            assert(views(out@)[i] == out@[i]@);
            assert(views(tags@)[i] == tags@[i]@);
        }
        if mode@.len() > 0 && found {
            let k = choose|k: int| 0 <= k < views(tags@).len() && #[trigger] views(tags@)[k] == mode@;
            assert(views(out@)[k] == mode@);
        }
    }
    out
}

/// Law: saving never duplicates the mode tag. Tags that already hold
/// the mode are saved as they are; otherwise the mode is added once, at
/// the end, and nothing else changes; so saving again changes nothing.
pub proof fn lemma_save_tags_idempotent(mode: Seq<char>, tags: Seq<Seq<char>>)
    ensures
        tags.contains(mode) ==> saved_tags(mode, tags) == tags,
        !tags.contains(mode) && mode.len() > 0 ==> saved_tags(mode, tags).len() == tags.len() + 1
            && saved_tags(mode, tags).last() == mode && saved_tags(mode, tags).drop_last() == tags,
        saved_tags(mode, saved_tags(mode, tags)) == saved_tags(mode, tags),
{
    if !tags.contains(mode) && mode.len() > 0 {
        assert(tags.push(mode).drop_last() =~= tags);
        assert(tags.push(mode)[tags.len() as int] == mode);
    }
}

/// The legacy mode name.
pub open spec fn complex_tag() -> Seq<char> {
    seq!['c', 'o', 'm', 'p', 'l', 'e', 'x']
}

/// The FM mode name.
pub open spec fn fm_tag() -> Seq<char> {
    seq!['f', 'm']
}

/// Views of an optional string list.
pub open spec fn opt_views(v: Seq<Option<String>>) -> Seq<Option<Seq<char>>> {
    v.map_values(
        |t: Option<String>|
            match t {
                Some(s) => Some(s@),
                None => None,
            },
    )
}

/// Rewrites the tags of a legacy `complex` patch for its move to `fm`.
pub fn migrate_tags(tags: &Vec<Option<String>>) -> (r: Vec<Option<String>>)
    ensures
        opt_views(r@) == migrated_tags(opt_views(tags@)),
{
    let complex: Vec<char> = vec!['c', 'o', 'm', 'p', 'l', 'e', 'x'];
    let fm: Vec<char> = vec!['f', 'm'];
    assert(complex@ =~= complex_tag());
    assert(fm@ =~= fm_tag());
    let ghost tv = opt_views(tags@);
    let mut out: Vec<Option<String>> = Vec::new();
    let mut has_fm = false;
    let mut i: usize = 0;
    while i < tags.len()
        invariant
            i <= tags.len(),
            tv == opt_views(tags@),
            complex@ == complex_tag(),
            fm@ == fm_tag(),
            opt_views(out@) =~= migrated_tags_prefix(tv, i as int),
            has_fm == (tv.take(i as int).contains(Some(complex_tag())) || tv.take(i as int).contains(
                Some(fm_tag()),
            )),
        decreases tags.len() - i,
    {
        let ghost before = opt_views(out@);
        let ghost t = tv[i as int];
        assert(t == match tags@[i as int] {
            Some(s) => Some(s@),
            None => None::<Seq<char>>,
        });
        match &tags[i] {
            Some(s) => {
                let cv = chars_of(s.as_str());
                if chars_eq(&cv, &complex) {
                    out.push(Some(string_from_chars(&fm)));
                    has_fm = true;
                } else {
                    if chars_eq(&cv, &fm) {
                        has_fm = true;
                    }
                    out.push(Some(owned(s.as_str())));
                }
            },
            None => {
                out.push(None);
            },
        }
        proof {
            assert(tv.take(i + 1) =~= tv.take(i as int).push(t));
            assert(opt_views(out@) =~= before.push(
                if t == Some(complex_tag()) {
                    Some(fm_tag())
                } else {
                    t
                },
            ));
            lemma_contains_push(tv.take(i as int), t, Some(complex_tag()));
            lemma_contains_push(tv.take(i as int), t, Some(fm_tag()));
        }
        i = i + 1;
    }
    assert(tv.take(tags.len() as int) =~= tv);
    if !has_fm {
        out.push(Some(string_from_chars(&fm)));
    }
    out
}

/// `migrated_tags` before the final append, over the first `n` tags.
pub open spec fn migrated_tags_prefix(tags: Seq<Option<Seq<char>>>, n: int) -> Seq<Option<Seq<char>>> {
    tags.take(n).map_values(
        |t: Option<Seq<char>>|
            if t == Some(complex_tag()) {
                Some(fm_tag())
            } else {
                t
            },
    )
}

proof fn lemma_contains_push<A>(s: Seq<A>, x: A, y: A)
    ensures
        s.push(x).contains(y) <==> (s.contains(y) || x == y),
{
    if s.push(x).contains(y) {
        let k = choose|k: int| 0 <= k < s.push(x).len() && s.push(x)[k] == y;
        if k < s.len() {
            assert(s[k] == y);
        }
    }
    if s.contains(y) {
        let k = choose|k: int| 0 <= k < s.len() && s[k] == y;
        assert(s.push(x)[k] == y);
    }
    if x == y {
        assert(s.push(x)[s.len() as int] == y);
    }
}

/// Whether a user copy left by the old seed-on-first-run model should
/// be removed: it is stamped with the factory author and its parameters
/// equal those of the factory copy.
pub fn is_untouched_seed(author: Option<&str>, params_equal: bool) -> (r: bool)
    ensures
        r == (params_equal && (author matches Some(a) && a@ == FACTORY_AUTHOR@)),
{
    match author {
        Some(a) => params_equal && str_eq(a, FACTORY_AUTHOR),
        None => false,
    }
}

} // verus!
