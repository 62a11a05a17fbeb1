//! The platforms the build tool cross-compiles for, which of them a list of
//! requested targets selects, and the names of what a build produces.

use vstd::prelude::*;
use crate::text::{
    contains, spec_contains, spec_starts_with, starts_with, str_eq, string_views,
};

verus! {

/// One build target: how to build for it and how its artifacts are named.
pub struct PlatformConfig {
    pub key: &'static str,
    pub name: &'static str,
    pub triple: &'static str,
    pub config_file: &'static str,
    pub renpy_lib: &'static str,
    pub py_abi_suffix: &'static str,
    pub py_ext: &'static str,
    pub lib_ext: &'static str,
    pub lib_prefix: &'static str,
    pub use_zig: bool,
}

/// A platform's fields as character sequences.
pub struct PlatformView {
    pub key: Seq<char>,
    pub name: Seq<char>,
    pub triple: Seq<char>,
    pub config_file: Seq<char>,
    pub renpy_lib: Seq<char>,
    pub py_abi_suffix: Seq<char>,
    pub py_ext: Seq<char>,
    pub lib_ext: Seq<char>,
    pub lib_prefix: Seq<char>,
    pub use_zig: bool,
}

impl View for PlatformConfig {
    type V = PlatformView;

    open spec fn view(&self) -> PlatformView {
        PlatformView {
            key: self.key@,
            name: self.name@,
            triple: self.triple@,
            config_file: self.config_file@,
            renpy_lib: self.renpy_lib@,
            py_abi_suffix: self.py_abi_suffix@,
            py_ext: self.py_ext@,
            lib_ext: self.lib_ext@,
            lib_prefix: self.lib_prefix@,
            use_zig: self.use_zig,
        }
    }
}

/// The number of supported platforms.
pub const PLATFORM_COUNT: usize = 5;

/// The supported platforms, in build order.
pub open spec fn platform_spec(i: int) -> PlatformView {
    if i == 0 {
        PlatformView {
            key: "windows"@,
            name: "Windows (x86_64)"@,
            triple: "x86_64-pc-windows-gnu"@,
            config_file: "win.txt"@,
            renpy_lib: "py3-windows-x86_64"@,
            py_abi_suffix: "cp312-win_amd64.pyd"@,
            py_ext: ".pyd"@,
            lib_ext: ".dll"@,
            lib_prefix: ""@,
            use_zig: false,
        }
    } else if i == 1 {
        PlatformView {
            key: "linux"@,
            name: "Linux (x86_64)"@,
            triple: "x86_64-unknown-linux-gnu"@,
            config_file: "linux.txt"@,
            renpy_lib: "py3-linux-x86_64"@,
            py_abi_suffix: "cpython-312-x86_64-linux-gnu.so"@,
            py_ext: ".so"@,
            lib_ext: ".so"@,
            lib_prefix: "lib"@,
            use_zig: true,
        }
    } else if i == 2 {
        PlatformView {
            key: "linux"@,
            name: "Linux (aarch64)"@,
            triple: "aarch64-unknown-linux-gnu"@,
            config_file: "linux-aarch64.txt"@,
            renpy_lib: "py3-linux-aarch64"@,
            py_abi_suffix: "cpython-312-aarch64-linux-gnu.so"@,
            py_ext: ".so"@,
            lib_ext: ".so"@,
            lib_prefix: "lib"@,
            use_zig: true,
        }
    } else if i == 3 {
        PlatformView {
            key: "mac"@,
            name: "macOS (Apple Silicon - aarch64)"@,
            triple: "aarch64-apple-darwin"@,
            config_file: "mac-arm.txt"@,
            renpy_lib: "py3-mac-arm64"@,
            py_abi_suffix: "cpython-312-darwin.so"@,
            py_ext: ".so"@,
            lib_ext: ".dylib"@,
            lib_prefix: "lib"@,
            use_zig: true,
        }
    } else {
        PlatformView {
            key: "mac"@,
            name: "macOS (Intel - x86_64)"@,
            triple: "x86_64-apple-darwin"@,
            config_file: "mac-x86_64.txt"@,
            renpy_lib: "py3-mac-x86_64"@,
            py_abi_suffix: "cpython-312-darwin-x86_64.so"@,
            py_ext: ".so"@,
            lib_ext: ".dylib"@,
            lib_prefix: "lib"@,
            use_zig: true,
        }
    }
}

/// The `i`-th supported platform.
pub fn platform(i: usize) -> (p: PlatformConfig)
    requires
        i < PLATFORM_COUNT,
    ensures
        p@ == platform_spec(i as int),
{
    if i == 0 {
        PlatformConfig {
            key: "windows",
            name: "Windows (x86_64)",
            triple: "x86_64-pc-windows-gnu",
            config_file: "win.txt",
            renpy_lib: "py3-windows-x86_64",
            py_abi_suffix: "cp312-win_amd64.pyd",
            py_ext: ".pyd",
            lib_ext: ".dll",
            lib_prefix: "",
            use_zig: false,
        }
    } else if i == 1 {
        PlatformConfig {
            key: "linux",
            name: "Linux (x86_64)",
            triple: "x86_64-unknown-linux-gnu",
            config_file: "linux.txt",
            renpy_lib: "py3-linux-x86_64",
            py_abi_suffix: "cpython-312-x86_64-linux-gnu.so",
            py_ext: ".so",
            lib_ext: ".so",
            lib_prefix: "lib",
            use_zig: true,
        }
    } else if i == 2 {
        PlatformConfig {
            key: "linux",
            name: "Linux (aarch64)",
            triple: "aarch64-unknown-linux-gnu",
            config_file: "linux-aarch64.txt",
            renpy_lib: "py3-linux-aarch64",
            py_abi_suffix: "cpython-312-aarch64-linux-gnu.so",
            py_ext: ".so",
            lib_ext: ".so",
            lib_prefix: "lib",
            use_zig: true,
        }
    } else if i == 3 {
        PlatformConfig {
            key: "mac",
            name: "macOS (Apple Silicon - aarch64)",
            triple: "aarch64-apple-darwin",
            config_file: "mac-arm.txt",
            renpy_lib: "py3-mac-arm64",
            py_abi_suffix: "cpython-312-darwin.so",
            py_ext: ".so",
            lib_ext: ".dylib",
            lib_prefix: "lib",
            use_zig: true,
        }
    } else {
        PlatformConfig {
            key: "mac",
            name: "macOS (Intel - x86_64)",
            triple: "x86_64-apple-darwin",
            config_file: "mac-x86_64.txt",
            renpy_lib: "py3-mac-x86_64",
            py_abi_suffix: "cpython-312-darwin-x86_64.so",
            py_ext: ".so",
            lib_ext: ".dylib",
            lib_prefix: "lib",
            use_zig: true,
        }
    }
}

/// Whether the lower-cased target name `t` asks for platform `p`.
pub open spec fn target_matches_spec(t: Seq<char>, p: PlatformView) -> bool {
    ||| t == p.key
    ||| t == p.triple
    ||| spec_starts_with(t, "win"@) && p.key == "windows"@
    ||| t == "linux"@ && p.key == "linux"@
    ||| t == "linux-x86_64"@ && p.triple == "x86_64-unknown-linux-gnu"@
    ||| (t == "linux-aarch64"@ || t == "linux-arm64"@) && p.triple == "aarch64-unknown-linux-gnu"@
    ||| (spec_starts_with(t, "mac"@) || t == "darwin"@) && p.key == "mac"@ && (t == "mac"@ || t
        == "macos"@ || t == "darwin"@ || ((spec_contains(t, "arm"@) || spec_contains(t, "aarch64"@))
        && p.triple == "aarch64-apple-darwin"@) || ((spec_contains(t, "x86"@) || spec_contains(
        t,
        "intel"@,
    )) && p.triple == "x86_64-apple-darwin"@))
}

/// Whether the lower-cased target name `t_lower` asks for platform `p`.
pub fn target_matches(t_lower: &str, p: &PlatformConfig) -> (r: bool)
    ensures
        r == target_matches_spec(t_lower@, p@),
{
    if str_eq(t_lower, p.key) || str_eq(t_lower, p.triple) {
        return true;
    }
    if starts_with(t_lower, "win") && str_eq(p.key, "windows") {
        return true;
    }
    if str_eq(t_lower, "linux") && str_eq(p.key, "linux") {
        return true;
    }
    if str_eq(t_lower, "linux-x86_64") && str_eq(p.triple, "x86_64-unknown-linux-gnu") {
        return true;
    }
    if (str_eq(t_lower, "linux-aarch64") || str_eq(t_lower, "linux-arm64")) && str_eq(
        p.triple,
        "aarch64-unknown-linux-gnu",
    ) {
        return true;
    }
    if (starts_with(t_lower, "mac") || str_eq(t_lower, "darwin")) && str_eq(p.key, "mac") {
        if str_eq(t_lower, "mac") || str_eq(t_lower, "macos") || str_eq(t_lower, "darwin") {
            return true;
        }
        if (contains(t_lower, "arm") || contains(t_lower, "aarch64")) && str_eq(
            p.triple,
            "aarch64-apple-darwin",
        ) {
            return true;
        }
        if (contains(t_lower, "x86") || contains(t_lower, "intel")) && str_eq(
            p.triple,
            "x86_64-apple-darwin",
        ) {
            return true;
        }
    }
    false
}

/// Unicode lower-casing of `s` as std's `str::to_lowercase` performs it.
pub uninterp spec fn str_lowercase(s: Seq<char>) -> Seq<char>;

/// std's `str::to_lowercase`: the result is named by `str_lowercase`, a
/// function of the characters of `s` alone; the Unicode case tables it
/// follows are not stated here.
#[verifier::external_body]
fn to_lowercase(s: &str) -> (r: String)
    ensures
        r@ == str_lowercase(s@),
{
    s.to_lowercase()
}

/// The request names every platform: no target given, or `all` or `default`
/// among them.
pub open spec fn requests_all(selected: Seq<Seq<char>>) -> bool {
    selected.len() == 0 || exists|i: int|
        0 <= i < selected.len() && (#[trigger] selected[i] == "all"@ || selected[i]
            == "default"@)
}

/// Platform `p` is built for the request `selected`, whose lower-cased
/// names are `lowered`.
pub open spec fn selected_with(
    selected: Seq<Seq<char>>,
    lowered: Seq<Seq<char>>,
    p: PlatformView,
) -> bool {
    requests_all(selected) || exists|i: int|
        0 <= i < lowered.len() && #[trigger] target_matches_spec(lowered[i], p)
}

/// Platform `p` is built for the request `selected`.
pub open spec fn should_build_spec(selected: Seq<Seq<char>>, p: PlatformView) -> bool {
    selected_with(selected, selected.map_values(|t: Seq<char>| str_lowercase(t)), p)
}

/// When no target is named, or `all` or `default` is among the names, every
/// platform is built.
pub proof fn lemma_request_for_all_builds_every_platform(selected: Seq<Seq<char>>, p: PlatformView)
    requires
        requests_all(selected),
    ensures
        should_build_spec(selected, p),
{
}

proof fn lemma_platform_literals()
    ensures
        "mac"@ != "windows"@,
        "mac"@ != "linux"@,
        "aarch64-apple-darwin"@ != "x86_64-unknown-linux-gnu"@,
        "aarch64-apple-darwin"@ != "aarch64-unknown-linux-gnu"@,
        "aarch64-apple-darwin"@ != "x86_64-apple-darwin"@,
        "x86_64-apple-darwin"@ != "x86_64-unknown-linux-gnu"@,
        "x86_64-apple-darwin"@ != "aarch64-unknown-linux-gnu"@,
        "x86_64-apple-darwin"@ != "aarch64-apple-darwin"@,
        "windows"@ != "linux"@,
        "x86_64-pc-windows-gnu"@ != "x86_64-unknown-linux-gnu"@,
        "x86_64-pc-windows-gnu"@ != "aarch64-unknown-linux-gnu"@,
        "x86_64-unknown-linux-gnu"@ != "aarch64-unknown-linux-gnu"@,
{
    reveal_strlit("mac");
    reveal_strlit("windows");
    reveal_strlit("linux");
    reveal_strlit("aarch64-apple-darwin");
    reveal_strlit("x86_64-apple-darwin");
    reveal_strlit("x86_64-unknown-linux-gnu");
    reveal_strlit("aarch64-unknown-linux-gnu");
    assert("mac"@.len() != "windows"@.len());
    assert("mac"@.len() != "linux"@.len());
    assert("aarch64-apple-darwin"@.len() != "x86_64-unknown-linux-gnu"@.len());
    assert("aarch64-apple-darwin"@.len() != "aarch64-unknown-linux-gnu"@.len());
    assert("aarch64-apple-darwin"@.len() != "x86_64-apple-darwin"@.len());
    assert("x86_64-apple-darwin"@.len() != "x86_64-unknown-linux-gnu"@.len());
    assert("x86_64-apple-darwin"@.len() != "aarch64-unknown-linux-gnu"@.len());
    reveal_strlit("x86_64-pc-windows-gnu");
    assert("windows"@.len() != "linux"@.len());
    assert("x86_64-pc-windows-gnu"@.len() != "x86_64-unknown-linux-gnu"@.len());
    assert("x86_64-pc-windows-gnu"@.len() != "aarch64-unknown-linux-gnu"@.len());
    assert("x86_64-unknown-linux-gnu"@.len() != "aarch64-unknown-linux-gnu"@.len());
}

/// Windows is chosen exactly by a name that starts with `win` or is its
/// triple.
pub proof fn lemma_windows_is_chosen_by_win_names(t: Seq<char>)
    ensures
        target_matches_spec(t, platform_spec(0)) <==> (spec_starts_with(t, "win"@) || t
            == "x86_64-pc-windows-gnu"@),
{
    lemma_platform_literals();
    reveal_strlit("windows");
    reveal_strlit("win");
    if t == "windows"@ {
        assert(t.subrange(0, 3) =~= "win"@);
    }
}

/// Linux on x86_64 is chosen exactly by `linux`, `linux-x86_64` and its
/// triple.
pub proof fn lemma_linux_x86_64_is_chosen_by_its_names(t: Seq<char>)
    ensures
        target_matches_spec(t, platform_spec(1)) <==> (t == "linux"@ || t == "linux-x86_64"@ || t
            == "x86_64-unknown-linux-gnu"@),
{
    lemma_platform_literals();
}

/// Linux on aarch64 is chosen exactly by `linux`, `linux-aarch64`,
/// `linux-arm64` and its triple.
pub proof fn lemma_linux_aarch64_is_chosen_by_its_names(t: Seq<char>)
    ensures
        target_matches_spec(t, platform_spec(2)) <==> (t == "linux"@ || t == "linux-aarch64"@ || t
            == "linux-arm64"@ || t == "aarch64-unknown-linux-gnu"@),
{
    lemma_platform_literals();
}

/// macOS on Apple Silicon is chosen exactly by `darwin`, its triple, or a
/// name starting with `mac` that is `mac` or `macos` or mentions `arm` or
/// `aarch64`. A `mac` name that mentions neither, such as `mac-x86_64`, never
/// builds for Apple Silicon.
pub proof fn lemma_apple_silicon_is_chosen_by_arm_names(t: Seq<char>)
    ensures
        target_matches_spec(t, platform_spec(3)) <==> (t == "darwin"@ || t
            == "aarch64-apple-darwin"@ || (spec_starts_with(t, "mac"@) && (t == "mac"@ || t
            == "macos"@ || spec_contains(t, "arm"@) || spec_contains(t, "aarch64"@)))),
{
    lemma_platform_literals();
    reveal_strlit("mac");
    if t == "mac"@ {
        assert(t.subrange(0, 3) =~= "mac"@);
    }
}

/// macOS on Intel is chosen exactly by `darwin`, its triple, or a name
/// starting with `mac` that is `mac` or `macos` or mentions `x86` or
/// `intel`.
pub proof fn lemma_mac_intel_is_chosen_by_intel_names(t: Seq<char>)
    ensures
        target_matches_spec(t, platform_spec(4)) <==> (t == "darwin"@ || t == "x86_64-apple-darwin"@
            || (spec_starts_with(t, "mac"@) && (t == "mac"@ || t == "macos"@ || spec_contains(
            t,
            "x86"@,
        ) || spec_contains(t, "intel"@)))),
{
    lemma_platform_literals();
    reveal_strlit("mac");
    if t == "mac"@ {
        assert(t.subrange(0, 3) =~= "mac"@);
    }
}

/// A platform is selected by its own key and by its own target triple.
pub proof fn lemma_platform_selected_by_key_and_triple(p: PlatformView)
    ensures
        target_matches_spec(p.key, p),
        target_matches_spec(p.triple, p),
{
}

/// The lower-cased names `mac`, `macos` and `darwin` select the two macOS
/// platforms and no other.
pub proof fn lemma_mac_names_select_macos_platforms(i: int)
    requires
        0 <= i < PLATFORM_COUNT,
    ensures
        target_matches_spec("mac"@, platform_spec(i)) <==> (i == 3 || i == 4),
        target_matches_spec("macos"@, platform_spec(i)) <==> (i == 3 || i == 4),
        target_matches_spec("darwin"@, platform_spec(i)) <==> (i == 3 || i == 4),
{
    reveal_strlit("mac");
    reveal_strlit("macos");
    reveal_strlit("darwin");
    reveal_strlit("win");
    reveal_strlit("linux");
    reveal_strlit("linux-x86_64");
    reveal_strlit("linux-aarch64");
    reveal_strlit("linux-arm64");
    reveal_strlit("windows");
    reveal_strlit("x86_64-pc-windows-gnu");
    reveal_strlit("x86_64-unknown-linux-gnu");
    reveal_strlit("aarch64-unknown-linux-gnu");
    reveal_strlit("aarch64-apple-darwin");
    reveal_strlit("x86_64-apple-darwin");
    assert("mac"@.subrange(0, 3) =~= "mac"@);
    assert("macos"@.subrange(0, 3) =~= "mac"@);
    assert("mac"@.subrange(0, 3)[0] != "win"@[0]);
    assert("macos"@.subrange(0, 3)[0] != "win"@[0]);
    assert("darwin"@.subrange(0, 3)[0] != "win"@[0]);
}

fn requests_all_exec(selected: &Vec<String>) -> (r: bool)
    ensures
        r == requests_all(string_views(selected@)),
{
    let ghost sv = string_views(selected@);
    if selected.len() == 0 {
        return true;
    }
    let mut i: usize = 0;
    while i < selected.len()
        invariant
            i <= selected.len(),
            sv == string_views(selected@),
            forall|j: int| 0 <= j < i ==> !(#[trigger] sv[j] == "all"@ || sv[j] == "default"@),
        decreases selected.len() - i,
    {
        if str_eq(selected[i].as_str(), "all") || str_eq(selected[i].as_str(), "default") {
            assert(sv[i as int] == selected@[i as int]@);
            return true;
        }
        i = i + 1;
    }
    false
}

/// Whether platform `p` is built for the request `selected`, given the
/// lower-cased request names `lowered`.
pub fn platform_selected(selected: &Vec<String>, lowered: &Vec<String>, p: &PlatformConfig) -> (r:
    bool)
    ensures
        r == selected_with(string_views(selected@), string_views(lowered@), p@),
{
    if requests_all_exec(selected) {
        return true;
    }
    let ghost lv = string_views(lowered@);
    let mut i: usize = 0;
    while i < lowered.len()
        invariant
            i <= lowered.len(),
            lv == string_views(lowered@),
            forall|j: int| 0 <= j < i ==> !#[trigger] target_matches_spec(lv[j], p@),
        decreases lowered.len() - i,
    {
        if target_matches(lowered[i].as_str(), p) {
            assert(lv[i as int] == lowered@[i as int]@);
            return true;
        }
        i = i + 1;
    }
    false
}

/// The lower-cased forms of `names`.
pub fn lowercase_all(names: &Vec<String>) -> (r: Vec<String>)
    ensures
        string_views(r@) == string_views(names@).map_values(|t: Seq<char>| str_lowercase(t)),
{
    let mut r: Vec<String> = Vec::new();
    let ghost want = string_views(names@).map_values(|t: Seq<char>| str_lowercase(t));
    let mut i: usize = 0;
    while i < names.len()
        invariant
            i <= names.len(),
            want == string_views(names@).map_values(|t: Seq<char>| str_lowercase(t)),
            string_views(r@) == want.take(i as int),
        decreases names.len() - i,
    {
        let l = to_lowercase(names[i].as_str());
        let ghost before = r@;
        r.push(l);
        assert(string_views(r@) =~= string_views(before).push(l@));
        assert(want[i as int] == str_lowercase(names@[i as int]@));
        assert(want.take(i + 1) =~= want.take(i as int).push(want[i as int]));
        assert(string_views(r@) =~= want.take(i + 1));
        i = i + 1;
    }
    assert(want.take(names.len() as int) =~= want);
    r
}

/// Whether platform `p` is built for the request `selected`.
pub fn should_build(selected: &Vec<String>, p: &PlatformConfig) -> (r: bool)
    ensures
        r == should_build_spec(string_views(selected@), p@),
{
    let lowered = lowercase_all(selected);
    platform_selected(selected, &lowered, p)
}

/// The indices of the platforms built for the request `selected`, in the
/// order of the platform table.
pub fn platforms_to_build(selected: &Vec<String>) -> (r: Vec<usize>)
    ensures
        forall|k: int| 0 <= k < r@.len() ==> #[trigger] r@[k] < PLATFORM_COUNT,
        forall|k: int, l: int| 0 <= k < l < r@.len() ==> r@[k] < r@[l],
        forall|i: int|
            0 <= i < PLATFORM_COUNT ==> (r@.contains(i as usize) <==> should_build_spec(
                string_views(selected@),
                platform_spec(i),
            )),
{
    let lowered = lowercase_all(selected);
    let mut r: Vec<usize> = Vec::new();
    let mut i: usize = 0;
    while i < PLATFORM_COUNT
        invariant
            i <= PLATFORM_COUNT,
            string_views(lowered@) == string_views(selected@).map_values(
                |t: Seq<char>| str_lowercase(t),
            ),
            forall|k: int| 0 <= k < r@.len() ==> #[trigger] r@[k] < i,
            forall|k: int, l: int| 0 <= k < l < r@.len() ==> r@[k] < r@[l],
            forall|j: int|
                0 <= j < i ==> (r@.contains(j as usize) <==> should_build_spec(
                    string_views(selected@),
                    platform_spec(j),
                )),
        decreases PLATFORM_COUNT - i,
    {
        let p = platform(i);
        let ghost before = r@;
        if platform_selected(selected, &lowered, &p) {
            r.push(i);
            assert forall|j: int| 0 <= j < i + 1 implies (r@.contains(j as usize)
                <==> should_build_spec(string_views(selected@), platform_spec(j))) by {
                if j < i {
                    if before.contains(j as usize) {
                        let k = choose|k: int| 0 <= k < before.len() && before[k] == j as usize;
                        assert(r@[k] == j as usize);
                    }
                    if r@.contains(j as usize) {
                        let k = choose|k: int| 0 <= k < r@.len() && r@[k] == j as usize;
                        if k == before.len() {
                        } else {
                            assert(before[k] == j as usize);
                        }
                    }
                } else {
                    assert(r@[before.len() as int] == i);
                }
            }
        } else {
            proof {
                if r@.contains(i) {
                    let k = choose|k: int| 0 <= k < r@.len() && r@[k] == i;
                    assert(r@[k] < i);
                }
            }
        }
        i = i + 1;
    }
    r
}

/// `-p <crate>` for each crate, in order.
pub open spec fn crate_flags(crates: Seq<Seq<char>>) -> Seq<Seq<char>>
    decreases crates.len(),
{
    if crates.len() == 0 {
        Seq::empty()
    } else {
        crate_flags(crates.drop_last()) + seq!["-p"@, crates.last()]
    }
}

/// The arguments given to `cargo` to build `crates` for platform `p`.
pub open spec fn cargo_build_args_spec(p: PlatformView, crates: Seq<Seq<char>>) -> Seq<Seq<char>> {
    seq![if p.use_zig { "zigbuild"@ } else { "build"@ }] + crate_flags(crates) + seq![
        "--target"@,
        p.triple,
        "--release"@,
    ]
}

/// The arguments given to `cargo` to build `crates` for platform `p`.
pub fn cargo_build_args(p: &PlatformConfig, crates: &Vec<String>) -> (r: Vec<String>)
    ensures
        string_views(r@) == cargo_build_args_spec(p@, string_views(crates@)),
{
    let mut r: Vec<String> = Vec::new();
    if p.use_zig {
        r.push(String::from_str("zigbuild"));
    } else {
        r.push(String::from_str("build"));
    }
    let ghost head = string_views(r@);
    let ghost cv = string_views(crates@);
    let mut i: usize = 0;
    assert(string_views(r@) =~= head + crate_flags(cv.take(0)));
    while i < crates.len()
        invariant
            i <= crates.len(),
            cv == string_views(crates@),
            string_views(r@) == head + crate_flags(cv.take(i as int)),
        decreases crates.len() - i,
    {
        let ghost before = string_views(r@);
        r.push(String::from_str("-p"));
        r.push(crates[i].clone());
        assert(cv.take(i + 1).drop_last() =~= cv.take(i as int));
        assert(string_views(r@) =~= before + seq!["-p"@, cv[i as int]]);
        assert(string_views(r@) =~= head + crate_flags(cv.take(i + 1)));
        i = i + 1;
    }
    assert(cv.take(crates.len() as int) =~= cv);
    let ghost before = string_views(r@);
    r.push(String::from_str("--target"));
    r.push(String::from_str(p.triple));
    r.push(String::from_str("--release"));
    assert(string_views(r@) =~= before + seq!["--target"@, p.triple@, "--release"@]);
    r
}

/// The file names under which a build of `crate_name` may appear, in the
/// order they are looked for.
pub open spec fn binary_candidates_spec(c: Seq<char>) -> Seq<Seq<char>> {
    seq![c + ".dll"@, "lib"@ + c + ".so"@, c + ".so"@, "lib"@ + c + ".dylib"@, c + ".dylib"@]
}

fn concat3(a: &str, b: &str, c: &str) -> (r: String)
    ensures
        r@ == a@ + b@ + c@,
{
    let mut r = String::from_str(a);
    r.append(b);
    r.append(c);
    r
}

/// The file names under which a build of `crate_name` may appear, in the
/// order they are looked for.
pub fn binary_candidates(crate_name: &str) -> (r: Vec<String>)
    ensures
        string_views(r@) == binary_candidates_spec(crate_name@),
{
    let mut r: Vec<String> = Vec::new();
    r.push(concat3("", crate_name, ".dll"));
    r.push(concat3("lib", crate_name, ".so"));
    r.push(concat3("", crate_name, ".so"));
    r.push(concat3("lib", crate_name, ".dylib"));
    r.push(concat3("", crate_name, ".dylib"));
    proof {
        reveal_strlit("");
        assert(""@ =~= Seq::<char>::empty());
        assert(string_views(r@) =~= binary_candidates_spec(crate_name@));
    }
    r
}

/// The names a built crate is copied under for one platform.
pub struct ArtifactNames {
    /// The platform's ordinary shared-library name.
    pub library: String,
    /// The module name the Python import finds in the engine's `lib/`.
    pub python_module: String,
    /// The ABI-tagged module name for `python-packages/`.
    pub abi_module: String,
}

/// The names a build of `crate_name` is copied under for platform `p`.
pub fn artifact_names(p: &PlatformConfig, crate_name: &str) -> (r: ArtifactNames)
    ensures
        r.library@ == p.lib_prefix@ + crate_name@ + p.lib_ext@,
        r.python_module@ == crate_name@ + p.py_ext@,
        r.abi_module@ == crate_name@ + "."@ + p.py_abi_suffix@,
{
    let library = concat3(p.lib_prefix, crate_name, p.lib_ext);
    let mut python_module = String::from_str(crate_name);
    python_module.append(p.py_ext);
    let abi_module = concat3(crate_name, ".", p.py_abi_suffix);
    ArtifactNames { library, python_module, abi_module }
}

} // verus!
