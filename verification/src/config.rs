//! The build tool's settings: the plugin configuration file, how command-line
//! options and configured values combine, and the small files and paths it
//! rewrites or derives.

use vstd::prelude::*;
use crate::manifest::last_index_of;
use crate::text::{
    ends_with_cr, join_strings, lemma_lines_have_no_newline, lemma_lines_last,
    lemma_lines_of_terminated_join, no_newline, spec_contains, spec_join, spec_lines, spec_starts_with,
    split_lines, starts_with, string_views,
};

verus! {

/// The `[build]` table of the plugin configuration file.
pub struct BuildConfig {
    pub targets: Vec<String>,
    pub dist_dir: Option<String>,
    pub deploy_to_game: Option<String>,
}

/// The plugin configuration file.
pub struct PluginConfig {
    pub build: BuildConfig,
}

impl Default for BuildConfig {
    fn default() -> (r: Self)
        ensures
            r.targets@.len() == 0,
            r.dist_dir is None,
            r.deploy_to_game is None,
    {
        BuildConfig { targets: Vec::new(), dist_dir: None, deploy_to_game: None }
    }
}

impl Default for PluginConfig {
    fn default() -> (r: Self)
        ensures
            r.build.targets@.len() == 0,
            r.build.dist_dir is None,
            r.build.deploy_to_game is None,
    {
        PluginConfig { build: BuildConfig::default() }
    }
}

/// The configuration in force: the parsed file, or the defaults when the
/// file could not be read or parsed.
pub fn plugin_config_or_default(parsed: Option<PluginConfig>) -> (r: PluginConfig)
    ensures
        parsed is Some ==> r == parsed->0,
        parsed is None ==> r.build.targets@.len() == 0 && r.build.dist_dir is None
            && r.build.deploy_to_game is None,
{
    match parsed {
        Some(c) => c,
        None => PluginConfig::default(),
    }
}

/// The targets built when none are asked for on the command line or in the
/// configuration: Windows alone in watch mode, all three systems otherwise.
pub open spec fn default_targets_spec(watch: bool) -> Seq<Seq<char>> {
    if watch {
        seq!["windows"@]
    } else {
        seq!["windows"@, "linux"@, "mac"@]
    }
}

/// The targets to build: those given on the command line, else those in the
/// configuration, else the defaults.
pub fn resolve_targets(cli: Vec<String>, configured: Vec<String>, watch: bool) -> (r: Vec<String>)
    ensures
        cli@.len() > 0 ==> r@ == cli@,
        cli@.len() == 0 && configured@.len() > 0 ==> r@ == configured@,
        cli@.len() == 0 && configured@.len() == 0 ==> string_views(r@) == default_targets_spec(
            watch,
        ),
{
    if cli.len() > 0 {
        cli
    } else if configured.len() > 0 {
        configured
    } else {
        let mut r: Vec<String> = Vec::new();
        r.push(String::from_str("windows"));
        if !watch {
            r.push(String::from_str("linux"));
            r.push(String::from_str("mac"));
        }
        assert(string_views(r@) =~= default_targets_spec(watch));
        r
    }
}

/// Where the distribution goes: a path given as it is, or a path relative
/// to the project root.
pub enum DistDir<P> {
    Given(P),
    UnderRoot(String),
}

/// The distribution directory: the one given on the command line, else the
/// configured one under the project root, else `dist` under the root.
pub fn resolve_dist_dir<P>(cli: Option<P>, configured: Option<String>) -> (r: DistDir<P>)
    ensures
        cli is Some ==> r == DistDir::<P>::Given(cli->0),
        cli is None && configured is Some ==> r == DistDir::<P>::UnderRoot(configured->0),
        cli is None && configured is None ==> (r matches DistDir::UnderRoot(d) && d@ == "dist"@),
{
    match cli {
        Some(p) => DistDir::Given(p),
        None => match configured {
            Some(d) => DistDir::UnderRoot(d),
            None => DistDir::UnderRoot(String::from_str("dist")),
        },
    }
}

/// The game to deploy to: a path given on the command line, or the
/// configured one.
pub enum Deploy<P> {
    Given(P),
    Configured(String),
}

/// The game to deploy to: the one given on the command line, else the
/// configured one unless it is empty, else none.
pub fn resolve_deploy<P>(cli: Option<P>, configured: Option<String>) -> (r: Option<Deploy<P>>)
    ensures
        cli is Some ==> r == Some(Deploy::<P>::Given(cli->0)),
        cli is None && configured is Some && configured->0@.len() > 0 ==> r == Some(
            Deploy::<P>::Configured(configured->0),
        ),
        cli is None && (configured is None || configured->0@.len() == 0) ==> r is None,
{
    match cli {
        Some(p) => Some(Deploy::Given(p)),
        None => match configured {
            Some(s) => {
                if s.as_str().is_empty() {
                    None
                } else {
                    Some(Deploy::Configured(s))
                }
            },
            None => None,
        },
    }
}

/// A line of the Windows PyO3 configuration after it is pointed at the
/// bundled import libraries.
pub open spec fn rewrite_config_line(l: Seq<char>) -> Seq<char> {
    if spec_starts_with(l, "lib_dir="@) {
        "lib_dir=renpy_includes"@
    } else {
        l
    }
}

/// The Windows PyO3 configuration with every `lib_dir=` line replaced by
/// `lib_dir=renpy_includes`, other lines kept, each line ended by `'\n'`.
pub open spec fn rewrite_windows_config_spec(content: Seq<char>) -> Seq<char> {
    spec_join(spec_lines(content).map_values(|l: Seq<char>| rewrite_config_line(l)), "\n"@)
        + "\n"@
}

proof fn lemma_replacement_line_is_fixed()
    ensures
        spec_starts_with("lib_dir=renpy_includes"@, "lib_dir="@),
        rewrite_config_line("lib_dir=renpy_includes"@) == "lib_dir=renpy_includes"@,
        no_newline("lib_dir=renpy_includes"@),
        !ends_with_cr("lib_dir=renpy_includes"@),
{
    reveal_strlit("lib_dir=renpy_includes");
    reveal_strlit("lib_dir=");
    assert("lib_dir=renpy_includes"@.subrange(0, 8) =~= "lib_dir="@);
}

/// Rewriting the configuration a second time changes nothing, unless a line
/// other than a `lib_dir=` line ends in a carriage return that the line
/// splitting kept.
pub proof fn lemma_rewrite_is_stable(content: Seq<char>)
    requires
        forall|k: int|
            0 <= k < spec_lines(content).len() && ends_with_cr(#[trigger] spec_lines(content)[k])
                ==> spec_starts_with(spec_lines(content)[k], "lib_dir="@),
    ensures
        rewrite_windows_config_spec(rewrite_windows_config_spec(content))
            == rewrite_windows_config_spec(content),
{
    lemma_replacement_line_is_fixed();
    reveal_strlit("\n");
    reveal_strlit("lib_dir=");
    let lines = spec_lines(content);
    let out = lines.map_values(|l: Seq<char>| rewrite_config_line(l));
    let once = rewrite_windows_config_spec(content);
    if lines.len() == 0 {
        assert(out =~= Seq::<Seq<char>>::empty());
        assert(once =~= seq!['\n']);
        let again = spec_lines(once);
        lemma_lines_last(Seq::<char>::empty());
        crate::text::lemma_lines_newline(Seq::<char>::empty(), Seq::empty());
        assert(once =~= Seq::<char>::empty() + seq!['\n'] + Seq::<char>::empty());
        assert(again =~= seq![Seq::<char>::empty()]);
        let out2 = again.map_values(|l: Seq<char>| rewrite_config_line(l));
        assert(!spec_starts_with(Seq::<char>::empty(), "lib_dir="@));
        assert(rewrite_config_line(Seq::<char>::empty()) == Seq::<char>::empty());
        assert(out2 =~= seq![Seq::<char>::empty()]);
        assert(spec_join(out2, "\n"@) =~= Seq::<char>::empty());
        assert(rewrite_windows_config_spec(once) =~= once);
    } else {
        lemma_lines_have_no_newline(content);
        assert forall|k: int| 0 <= k < out.len() implies no_newline(#[trigger] out[k])
            && !ends_with_cr(out[k]) by {
            assert(no_newline(lines[k]));
        }
        lemma_lines_of_terminated_join(out);
        assert(spec_lines(once) == out);
        let out2 = out.map_values(|l: Seq<char>| rewrite_config_line(l));
        assert(out2 =~= out);
    }
}

/// The lines of `content` with each `lib_dir=` line replaced by
/// `lib_dir=renpy_includes` and every other line as it is.
pub open spec fn lines_with_lib_dir_replaced(content: Seq<char>) -> Seq<Seq<char>> {
    Seq::new(
        spec_lines(content).len(),
        |k: int|
            if spec_starts_with(spec_lines(content)[k], "lib_dir="@) {
                "lib_dir=renpy_includes"@
            } else {
                spec_lines(content)[k]
            },
    )
}

/// The rewrite is the input's lines, each `lib_dir=` line replaced and every
/// other line kept unchanged, each ended by `'\n'`.
pub proof fn lemma_rewrite_keeps_all_other_lines(content: Seq<char>)
    ensures
        rewrite_windows_config_spec(content) == spec_join(
            lines_with_lib_dir_replaced(content),
            "\n"@,
        ) + "\n"@,
{
    assert(spec_lines(content).map_values(|l: Seq<char>| rewrite_config_line(l))
        =~= lines_with_lib_dir_replaced(content));
}

/// Reading the rewrite back line by line gives the input's lines in order,
/// each `lib_dir=` line replaced and every other line unchanged, as long as
/// the input has a line and no kept line ends in a carriage return.
pub proof fn lemma_rewritten_config_reads_back(content: Seq<char>)
    requires
        spec_lines(content).len() > 0,
        forall|k: int|
            0 <= k < spec_lines(content).len() && ends_with_cr(#[trigger] spec_lines(content)[k])
                ==> spec_starts_with(spec_lines(content)[k], "lib_dir="@),
    ensures
        spec_lines(rewrite_windows_config_spec(content)).len() == spec_lines(content).len(),
        forall|k: int|
            0 <= k < spec_lines(content).len() && !spec_starts_with(spec_lines(content)[k], "lib_dir="@)
                ==> #[trigger] spec_lines(rewrite_windows_config_spec(content))[k] == spec_lines(
                content,
            )[k],
        forall|k: int|
            0 <= k < spec_lines(content).len() && spec_starts_with(spec_lines(content)[k], "lib_dir="@)
                ==> #[trigger] spec_lines(rewrite_windows_config_spec(content))[k]
                == "lib_dir=renpy_includes"@,
{
    lemma_replacement_line_is_fixed();
    lemma_rewrite_keeps_all_other_lines(content);
    let lines = spec_lines(content);
    let out = lines_with_lib_dir_replaced(content);
    lemma_lines_have_no_newline(content);
    assert forall|k: int| 0 <= k < out.len() implies no_newline(#[trigger] out[k])
        && !ends_with_cr(out[k]) by {
        assert(no_newline(lines[k]));
    }
    lemma_lines_of_terminated_join(out);
}

/// Points the Windows PyO3 configuration `content` at the bundled import
/// libraries.
pub fn rewrite_windows_pyo3_config(content: &str) -> (r: String)
    ensures
        r@ == rewrite_windows_config_spec(content@),
{
    let lines = split_lines(content);
    let ghost want = spec_lines(content@).map_values(|l: Seq<char>| rewrite_config_line(l));
    let mut out: Vec<String> = Vec::new();
    let mut i: usize = 0;
    while i < lines.len()
        invariant
            i <= lines.len(),
            string_views(lines@) == spec_lines(content@),
            want == spec_lines(content@).map_values(|l: Seq<char>| rewrite_config_line(l)),
            string_views(out@) == want.take(i as int),
        decreases lines.len() - i,
    {
        let ghost before = out@;
        assert(string_views(lines@)[i as int] == lines@[i as int]@);
        if starts_with(lines[i].as_str(), "lib_dir=") {
            out.push(String::from_str("lib_dir=renpy_includes"));
        } else {
            out.push(lines[i].clone());
        }
        assert(string_views(out@) =~= string_views(before).push(want[i as int]));
        assert(want.take(i + 1) =~= want.take(i as int).push(want[i as int]));
        i = i + 1;
    }
    assert(want.take(lines.len() as int) =~= want);
    let mut r = join_strings(&out, "\n");
    r.append("\n");
    r
}

/// An optional string as an optional character sequence.
pub open spec fn opt_view(o: Option<String>) -> Option<Seq<char>> {
    match o {
        Some(s) => Some(s@),
        None => None,
    }
}

/// The project root for a build tool whose manifest lies in `manifest`: its
/// parent when the directory is named `xtask`, else the directory itself.
pub open spec fn root_choice(
    manifest: Seq<char>,
    file_name: Option<Seq<char>>,
    parent: Option<Seq<char>>,
) -> Seq<char> {
    if file_name == Some("xtask"@) {
        match parent {
            Some(q) => q,
            None => manifest,
        }
    } else {
        manifest
    }
}

/// The project root, given the manifest directory, its final component and
/// its parent as std's `Path` reports them.
pub fn choose_project_root(manifest_dir: &str, file_name: Option<String>, parent: Option<String>) -> (r:
    String)
    ensures
        r@ == root_choice(manifest_dir@, opt_view(file_name), opt_view(parent)),
{
    let is_xtask = match &file_name {
        Some(n) => crate::text::str_eq(n.as_str(), "xtask"),
        None => false,
    };
    if is_xtask {
        match parent {
            Some(q) => q,
            None => String::from_str(manifest_dir),
        }
    } else {
        String::from_str(manifest_dir)
    }
}

/// `p` is an absolute path that every platform's `Path` reads alike: it
/// starts with a single `/`, holds no `\` and no `:`, does not end in `/`,
/// and has no empty, `.` or `..` component.
pub open spec fn plain_absolute_path(p: Seq<char>) -> bool {
    &&& p.len() >= 2
    &&& p[0] == '/'
    &&& p.last() != '/'
    &&& forall|i: int| 0 <= i < p.len() ==> #[trigger] p[i] != '\\' && p[i] != ':'
    &&& forall|i: int| 0 <= i < p.len() - 1 ==> !(#[trigger] p[i] == '/' && p[i + 1] == '/')
    &&& forall|i: int, j: int|
        0 <= i < j <= p.len() && p[i] == '/' && (j == p.len() || p[j] == '/') && (forall|k: int|
            i < k < j ==> p[k] != '/') ==> #[trigger] p.subrange(i + 1, j) != "."@ && p.subrange(
            i + 1,
            j,
        ) != ".."@
}

/// The final component of a plain absolute path: what follows its last `/`.
pub open spec fn last_component(p: Seq<char>) -> Seq<char> {
    p.subrange(last_index_of(p, '/') + 1, p.len() as int)
}

/// The parent of a plain absolute path: what precedes its last `/`, or `/`
/// when that is the root.
pub open spec fn parent_path(p: Seq<char>) -> Seq<char> {
    let d = last_index_of(p, '/');
    if d <= 0 {
        "/"@
    } else {
        p.subrange(0, d)
    }
}

/// std's `Path::file_name`, as a string: the final component of the path,
/// which is a piece of `p`. For a plain absolute path it is what follows the
/// last `/`; for other paths which piece it is depends on the platform's path
/// syntax and is not stated.
#[verifier::external_body]
fn path_file_name(p: &str) -> (r: Option<String>)
    ensures
        r matches Some(n) ==> spec_contains(p@, n@),
        plain_absolute_path(p@) ==> opt_view(r) == Some(last_component(p@)),
{
    std::path::Path::new(p).file_name().and_then(|n| n.to_str()).map(String::from)
}

/// std's `Path::parent`, as a string: the path without its final component,
/// a strictly shorter prefix of `p`. For a plain absolute path it is what
/// precedes the last `/` (`/` for a component right under the root); for
/// other paths where the final component starts depends on the platform's
/// path syntax and is not stated.
#[verifier::external_body]
fn path_parent(p: &str) -> (r: Option<String>)
    ensures
        r matches Some(q) ==> q@.len() < p@.len() && q@ == p@.subrange(0, q@.len() as int),
        plain_absolute_path(p@) ==> opt_view(r) == Some(parent_path(p@)),
{
    std::path::Path::new(p).parent().and_then(|q| q.to_str()).map(String::from)
}

/// The project root for a build tool whose manifest lies in `manifest_dir`:
/// the parent directory when the final component is `xtask`, else the
/// directory itself. For a plain absolute path this is stated exactly; for
/// any path, a root other than `manifest_dir` is a strictly shorter prefix of
/// it, and only a path that mentions `xtask` has one.
pub fn project_root(manifest_dir: &str) -> (r: String)
    ensures
        plain_absolute_path(manifest_dir@) ==> r@ == (if last_component(manifest_dir@)
            == "xtask"@ {
            parent_path(manifest_dir@)
        } else {
            manifest_dir@
        }),
        r@ == manifest_dir@ || (r@.len() < manifest_dir@.len() && r@ == manifest_dir@.subrange(
            0,
            r@.len() as int,
        )),
        r@ != manifest_dir@ ==> spec_contains(manifest_dir@, "xtask"@),
{
    let file_name = path_file_name(manifest_dir);
    let is_xtask = match &file_name {
        Some(n) => crate::text::str_eq(n.as_str(), "xtask"),
        None => false,
    };
    let parent = if is_xtask {
        path_parent(manifest_dir)
    } else {
        None
    };
    choose_project_root(manifest_dir, file_name, parent)
}

/// `current` search path with `dir` put in front, joined by the platform's
/// separator (`;` on Windows, `:` elsewhere).
pub open spec fn search_path_spec(dir: Seq<char>, current: Seq<char>, windows: bool) -> Seq<char> {
    dir + (if windows { ";"@ } else { ":"@ }) + current
}

/// Puts `dir` in front of the search path `current`.
pub fn prepend_search_path(dir: &str, current: &str, windows: bool) -> (r: String)
    ensures
        r@ == search_path_spec(dir@, current@, windows),
{
    let mut r = String::from_str(dir);
    if windows {
        r.append(";");
    } else {
        r.append(":");
    }
    r.append(current);
    r
}

} // verus!
