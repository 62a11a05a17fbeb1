//! Finding the crates to build from their manifests, and the files that show
//! whether the Windows import libraries are in place.

use vstd::prelude::*;
use crate::config::opt_view;
use crate::text::{chars_of, contains, spec_contains, str_eq, string_views};

verus! {

/// The string at `package.name` in the TOML document `content`, if it parses
/// and holds one there, as the `toml` crate reads it.
pub uninterp spec fn toml_package_name(content: Seq<char>) -> Option<Seq<char>>;

/// Parses `content` with `toml::from_str` into a `toml::Value` and reads
/// `package.name` with `Value::get` and `Value::as_str`. What the parser
/// accepts is not stated; the result is named by `toml_package_name`, a
/// function of `content` alone.
#[verifier::external_body]
fn read_package_name(content: &str) -> (r: Option<String>)
    ensures
        opt_view(r) == toml_package_name(content@),
{
    toml::from_str::<toml::Value>(content).ok().and_then(
        |v| v.get("package").and_then(|p| p.get("name")).and_then(|n| n.as_str()).map(String::from),
    )
}

/// The package name in a crate manifest, whether or not it builds a
/// `cdylib`.
pub fn manifest_package_name(content: &str) -> (r: Option<String>)
    ensures
        opt_view(r) == toml_package_name(content@),
{
    read_package_name(content)
}

/// The package name of a manifest that builds a `cdylib`.
pub open spec fn cdylib_name_spec(content: Seq<char>) -> Option<Seq<char>> {
    if spec_contains(content, "\"cdylib\""@) {
        toml_package_name(content)
    } else {
        None
    }
}

/// The package name of `content` when the manifest mentions `"cdylib"`.
pub fn cdylib_package_name(content: &str) -> (r: Option<String>)
    ensures
        opt_view(r) == cdylib_name_spec(content@),
{
    if contains(content, "\"cdylib\"") {
        read_package_name(content)
    } else {
        None
    }
}

/// A manifest whose text holds `"cdylib"` anywhere names its package as the
/// crate to build.
pub proof fn lemma_cdylib_marker_anywhere_selects(a: Seq<char>, b: Seq<char>)
    ensures
        cdylib_name_spec(a + "\"cdylib\""@ + b) == toml_package_name(a + "\"cdylib\""@ + b),
{
    let m = "\"cdylib\""@;
    let c = a + m + b;
    reveal_strlit("\"cdylib\"");
    assert(c.subrange(a.len() as int, (a.len() + m.len()) as int) =~= m);
    assert(spec_contains(c, m));
}

/// A manifest whose text nowhere holds `"cdylib"` is not built.
pub proof fn lemma_no_cdylib_marker_no_crate(c: Seq<char>)
    requires
        forall|i: int| 0 <= i && i + 8 <= c.len() ==> #[trigger] c.subrange(i, i + 8)
            != "\"cdylib\""@,
    ensures
        cdylib_name_spec(c) is None,
{
    reveal_strlit("\"cdylib\"");
}

/// The names that are present, in order.
pub open spec fn present_names(found: Seq<Option<Seq<char>>>) -> Seq<Seq<char>>
    decreases found.len(),
{
    if found.len() == 0 {
        Seq::empty()
    } else {
        present_names(found.drop_last()) + match found.last() {
            Some(n) => seq![n],
            None => Seq::<Seq<char>>::empty(),
        }
    }
}

/// The crates to build: the `cdylib` crates found in subdirectories, or, if
/// there are none, the root package.
pub open spec fn crate_choice(found: Seq<Option<Seq<char>>>, root: Option<Seq<char>>) -> Seq<
    Seq<char>,
> {
    if present_names(found).len() > 0 {
        present_names(found)
    } else {
        match root {
            Some(n) => seq![n],
            None => Seq::empty(),
        }
    }
}

proof fn lemma_present_names(found: Seq<Option<Seq<char>>>)
    ensures
        forall|i: int|
            0 <= i < found.len() && #[trigger] found[i] is Some ==> present_names(found).contains(
                found[i]->0,
            ),
        forall|k: int|
            0 <= k < present_names(found).len() ==> exists|i: int|
                0 <= i < found.len() && found[i] == Some(#[trigger] present_names(found)[k]),
        present_names(found).len() == 0 <==> forall|i: int| 0 <= i < found.len() ==> found[i] is None,
    decreases found.len(),
{
    if found.len() > 0 {
        let init = found.drop_last();
        lemma_present_names(init);
        let tail = match found.last() {
            Some(n) => seq![n],
            None => Seq::<Seq<char>>::empty(),
        };
        let all = present_names(found);
        assert(all == present_names(init) + tail);
        assert forall|i: int| 0 <= i < found.len() && #[trigger] found[i] is Some implies all.contains(
            found[i]->0,
        ) by {
            if i < init.len() {
                assert(init[i] == found[i]);
                let k = choose|k: int| 0 <= k < present_names(init).len() && present_names(init)[k]
                    == found[i]->0;
                assert(all[k] == found[i]->0);
            } else {
                assert(all[all.len() - 1] == found[i]->0);
            }
        }
        assert forall|k: int| 0 <= k < all.len() implies exists|i: int|
            0 <= i < found.len() && found[i] == Some(#[trigger] all[k]) by {
            if k < present_names(init).len() {
                assert(all[k] == present_names(init)[k]);
                let i = choose|i: int| 0 <= i < init.len() && init[i] == Some(present_names(init)[k]);
                assert(found[i] == init[i]);
            } else {
                assert(found[found.len() - 1] == Some(all[k]));
            }
        }
        if all.len() == 0 {
            assert forall|i: int| 0 <= i < found.len() implies found[i] is None by {
                if i < init.len() {
                    assert(init[i] == found[i]);
                }
            }
        }
        if forall|i: int| 0 <= i < found.len() ==> found[i] is None {
            assert forall|i: int| 0 <= i < init.len() implies init[i] is None by {
                assert(init[i] == found[i]);
            }
            assert(found[found.len() - 1] is None);
        }
    }
}

/// Every subcrate name found is built; nothing else is built while any is
/// found; the root package is built only when none is found, and then it is
/// the only crate built.
pub proof fn lemma_crate_choice_builds_found_crates(
    found: Seq<Option<Seq<char>>>,
    root: Option<Seq<char>>,
)
    ensures
        forall|i: int|
            0 <= i < found.len() && #[trigger] found[i] is Some ==> crate_choice(found, root).contains(
                found[i]->0,
            ),
        (exists|i: int| 0 <= i < found.len() && #[trigger] found[i] is Some) ==> forall|k: int|
            0 <= k < crate_choice(found, root).len() ==> exists|i: int|
                0 <= i < found.len() && found[i] == Some(#[trigger] crate_choice(found, root)[k]),
        (forall|i: int| 0 <= i < found.len() ==> found[i] is None) ==> crate_choice(found, root)
            == match root {
            Some(n) => seq![n],
            None => Seq::<Seq<char>>::empty(),
        },
{
    lemma_present_names(found);
}

/// Optional strings as optional character sequences.
pub open spec fn opt_views(v: Seq<Option<String>>) -> Seq<Option<Seq<char>>> {
    v.map_values(|o: Option<String>| opt_view(o))
}

/// The crates to build, from the names found in subdirectory manifests
/// (`None` where a manifest builds no `cdylib` or names no package) and the
/// root package's name.
pub fn select_crate_names(found: Vec<Option<String>>, root_name: Option<String>) -> (r: Vec<
    String,
>)
    ensures
        string_views(r@) == crate_choice(opt_views(found@), opt_view(root_name)),
{
    let ghost fv = opt_views(found@);
    let mut r: Vec<String> = Vec::new();
    let mut i: usize = 0;
    while i < found.len()
        invariant
            fv == opt_views(found@),
            i <= found.len(),
            string_views(r@) == present_names(fv.take(i as int)),
        decreases found.len() - i,
    {
        let ghost before = r@;
        assert(fv.take(i + 1).drop_last() =~= fv.take(i as int));
        assert(fv[i as int] == opt_view(found@[i as int]));
        match &found[i] {
            Some(name) => {
                r.push(name.clone());
                assert(string_views(r@) =~= string_views(before) + seq![name@]);
            },
            None => {
                assert(string_views(r@) =~= string_views(before) + Seq::<Seq<char>>::empty());
            },
        }
        i = i + 1;
    }
    assert(fv.take(found.len() as int) =~= fv);
    if r.len() > 0 {
        r
    } else {
        let mut out: Vec<String> = Vec::new();
        match root_name {
            Some(name) => {
                out.push(name);
                assert(string_views(out@) =~= seq![opt_view(root_name)->0]);
            },
            None => {
                assert(string_views(out@) =~= Seq::<Seq<char>>::empty());
            },
        }
        out
    }
}

/// The crates to build, from the manifests of the project's subdirectories
/// (those that could be read) and the root manifest.
pub open spec fn discovered_crates(sub_manifests: Seq<Seq<char>>, root_manifest: Option<
    Seq<char>,
>) -> Seq<Seq<char>> {
    crate_choice(
        sub_manifests.map_values(|c: Seq<char>| cdylib_name_spec(c)),
        match root_manifest {
            Some(c) => toml_package_name(c),
            None => None,
        },
    )
}

/// The crates to build: the `cdylib` packages among the subdirectory
/// manifests, or, if there are none, the root manifest's package.
pub fn discover_cdylib_crates(sub_manifests: &Vec<String>, root_manifest: Option<&str>) -> (r: Vec<
    String,
>)
    ensures
        string_views(r@) == discovered_crates(
            string_views(sub_manifests@),
            match root_manifest {
                Some(c) => Some(c@),
                None => None,
            },
        ),
{
    let ghost sv = string_views(sub_manifests@);
    let ghost want = sv.map_values(|c: Seq<char>| cdylib_name_spec(c));
    let mut found: Vec<Option<String>> = Vec::new();
    let mut any = false;
    let mut i: usize = 0;
    while i < sub_manifests.len()
        invariant
            i <= sub_manifests.len(),
            sv == string_views(sub_manifests@),
            want == sv.map_values(|c: Seq<char>| cdylib_name_spec(c)),
            opt_views(found@) == want.take(i as int),
            any == (present_names(want.take(i as int)).len() > 0),
        decreases sub_manifests.len() - i,
    {
        let name = cdylib_package_name(sub_manifests[i].as_str());
        let ghost before = found@;
        if name.is_some() {
            any = true;
        }
        assert(want[i as int] == opt_view(name));
        found.push(name);
        assert(opt_views(found@) =~= opt_views(before).push(want[i as int]));
        assert(want.take(i + 1) =~= want.take(i as int).push(want[i as int]));
        assert(want.take(i + 1).drop_last() =~= want.take(i as int));
        i = i + 1;
    }
    assert(want.take(sub_manifests.len() as int) =~= want);
    let root_name = if any {
        None
    } else {
        match root_manifest {
            Some(c) => read_package_name(c),
            None => None,
        }
    };
    select_crate_names(found, root_name)
}

/// Index of the last occurrence of `c` in `s`, or -1.
pub open spec fn last_index_of(s: Seq<char>, c: char) -> int
    decreases s.len(),
{
    if s.len() == 0 {
        -1
    } else if s.last() == c {
        s.len() - 1
    } else {
        last_index_of(s.drop_last(), c)
    }
}

/// The extension of a directory entry named `name`, as std's
/// `Path::extension` documents it: none if there is no `.` in the name, or
/// the name begins with `.` and has no other; else what follows the last `.`.
pub open spec fn extension_spec(name: Seq<char>) -> Option<Seq<char>> {
    let d = last_index_of(name, '.');
    if name == ".."@ || d <= 0 {
        None
    } else {
        Some(name.subrange(d + 1, name.len() as int))
    }
}

proof fn lemma_last_index_bounds(s: Seq<char>, c: char)
    ensures
        -1 <= last_index_of(s, c) < s.len(),
        last_index_of(s, c) >= 0 ==> s[last_index_of(s, c)] == c,
        forall|j: int| last_index_of(s, c) < j < s.len() ==> s[j] != c,
    decreases s.len(),
{
    if s.len() > 0 && s.last() != c {
        lemma_last_index_bounds(s.drop_last(), c);
        assert forall|j: int| last_index_of(s, c) < j < s.len() implies s[j] != c by {
            if j < s.len() - 1 {
                assert(s[j] == s.drop_last()[j]);
            }
        }
    }
}

/// The extension of the directory entry named `name`.
pub fn file_extension(name: &str) -> (r: Option<String>)
    ensures
        opt_view(r) == extension_spec(name@),
{
    if str_eq(name, "..") {
        return None;
    }
    let v = chars_of(name);
    let mut k: usize = v.len();
    while k > 0 && v[k - 1] != '.'
        invariant
            v@ == name@,
            k <= v.len(),
            forall|j: int| k <= j < v.len() ==> v@[j] != '.',
        decreases k,
    {
        k = k - 1;
    }
    proof {
        lemma_last_index_bounds(name@, '.');
        let d = last_index_of(name@, '.');
        if d >= k {
            assert(name@[d] == '.');
        }
        if k > 0 {
            assert(v@[k - 1] == '.');
        }
        assert(d == k - 1);
    }
    if k <= 1 {
        return None;
    }
    let mut ext = String::new();
    let mut j: usize = k;
    while j < v.len()
        invariant
            k <= j <= v.len(),
            ext@ == v@.subrange(k as int, j as int),
        decreases v.len() - j,
    {
        crate::text::push_char(&mut ext, v[j]);
        assert(v@.subrange(k as int, j + 1) =~= v@.subrange(k as int, j as int).push(v@[j as int]));
        j = j + 1;
    }
    Some(ext)
}

/// One of the entries named `names` has the extension `a`.
pub open spec fn has_import_library_spec(names: Seq<Seq<char>>) -> bool {
    exists|i: int| 0 <= i < names.len() && #[trigger] extension_spec(names[i]) == Some("a"@)
}

/// An import library anywhere among the entries counts, and only one of
/// them counts.
pub proof fn lemma_any_entry_is_an_import_library(names: Seq<Seq<char>>, i: int)
    ensures
        0 <= i < names.len() && extension_spec(names[i]) == Some("a"@)
            ==> has_import_library_spec(names),
        has_import_library_spec(names) ==> exists|j: int|
            0 <= j < names.len() && extension_spec(names[j]) == Some("a"@),
{
}

/// An entry's extension, when it has one, is the text after the last `.` of
/// its name, where that `.` is not the first character and the name is not
/// `..`; and a name other than `..` with a `.` after its first character
/// has one.
pub proof fn lemma_extension_is_text_after_last_dot(n: Seq<char>)
    ensures
        extension_spec(n) is Some ==> n != ".."@ && exists|d: int|
            0 < d < n.len() && n[d] == '.' && (forall|k: int| d < k < n.len() ==> n[k] != '.')
                && extension_spec(n)->0 == n.subrange(d + 1, n.len() as int),
        (exists|d: int| 0 < d < n.len() && n[d] == '.') && n != ".."@ ==> extension_spec(n) is Some,
{
    lemma_last_index_bounds(n, '.');
    let d = last_index_of(n, '.');
    if exists|e: int| 0 < e < n.len() && n[e] == '.' {
        let e = choose|e: int| 0 < e < n.len() && n[e] == '.';
        assert(e <= d);
    }
}

/// Any entry named `<stem>.a` with a non-empty stem is an import library.
pub proof fn lemma_dot_a_entry_is_an_import_library(names: Seq<Seq<char>>, i: int, stem: Seq<char>)
    requires
        0 <= i < names.len(),
        stem.len() > 0,
        names[i] == stem + ".a"@,
    ensures
        extension_spec(names[i]) == Some("a"@),
        has_import_library_spec(names),
{
    reveal_strlit(".a");
    reveal_strlit("a");
    reveal_strlit("..");
    let n = names[i];
    assert(n.last() == 'a');
    assert(n.drop_last() =~= stem + seq!['.']);
    assert(n.drop_last().last() == '.');
    assert(last_index_of(n.drop_last(), '.') == stem.len());
    assert(last_index_of(n, '.') == stem.len());
    assert(n.subrange(stem.len() as int + 1, n.len() as int) =~= "a"@);
    assert(n.len() != ".."@.len());
}

/// Whether a directory with the entries `names` holds an import library
/// (a file with the extension `a`).
pub fn has_import_library(names: &Vec<String>) -> (r: bool)
    ensures
        r == has_import_library_spec(string_views(names@)),
{
    let ghost nv = string_views(names@);
    let mut i: usize = 0;
    while i < names.len()
        invariant
            i <= names.len(),
            nv == string_views(names@),
            forall|j: int| 0 <= j < i ==> #[trigger] extension_spec(nv[j]) != Some("a"@),
        decreases names.len() - i,
    {
        let e = file_extension(names[i].as_str());
        assert(nv[i as int] == names@[i as int]@);
        let is_a = match &e {
            Some(x) => str_eq(x.as_str(), "a"),
            None => false,
        };
        if is_a {
            return true;
        }
        i = i + 1;
    }
    false
}

} // verus!
