use vstd::prelude::*;
use vstd::utf8::{encode_utf8, is_char_boundary};

use crate::devices::{android_major, android_major_of, patch_month_bytes, prop, prop_value, security_patch_month, string_map_view};
use crate::paths::{join, join_str};
use crate::strmap::StrMap;
use crate::text::{str_eq, str_is_empty};
use crate::versions::{normalized_result_version, same_os_version, same_suite_os_version, suite_version_from_result_version};

verus! {

pub proof fn lemma_suite_names_differ()
    ensures
        "CTS"@ != "GTS"@,
        "CTS"@ != "STS"@,
        "GTS"@ != "STS"@,
{
    reveal_strlit("CTS");
    reveal_strlit("GTS");
    reveal_strlit("STS");
    assert("CTS"@[0] != "GTS"@[0]);
    assert("CTS"@[0] != "STS"@[0]);
    assert("GTS"@[0] != "STS"@[0]);
}

/// The tradefed launcher of a suite inside its tools directory.
pub open spec fn tool_rel(suite: Seq<char>) -> Option<Seq<char>> {
    if suite == "CTS"@ {
        Some("tools/cts-tradefed"@)
    } else if suite == "GTS"@ {
        Some("tools/gts-tradefed"@)
    } else if suite == "STS"@ {
        Some("tools/sts-tradefed"@)
    } else {
        None
    }
}

pub fn tradefed_tool_for_suite(suite_root: &str, suite: &str) -> (r: Result<String, String>)
    ensures
        match r {
            Ok(p) => tool_rel(suite@) matches Some(rel) && p@ == join(suite_root@, rel),
            Err(e) => tool_rel(suite@) is None && e@ == "Unknown suite: "@ + suite@,
        },
{
    if str_eq(suite, "CTS") {
        Ok(join_str(suite_root, "tools/cts-tradefed"))
    } else if str_eq(suite, "GTS") {
        Ok(join_str(suite_root, "tools/gts-tradefed"))
    } else if str_eq(suite, "STS") {
        Ok(join_str(suite_root, "tools/sts-tradefed"))
    } else {
        let mut e = "Unknown suite: ".to_string();
        e.append(suite);
        Err(e)
    }
}

/// The Android release a device's suites are chosen by: One UI `80500`
/// runs on 16.1; otherwise the major of `ro.build.version.release`.
pub open spec fn cts_hint(p: Map<Seq<char>, Seq<char>>) -> Seq<char> {
    if prop_value(p, "ro.build.version.oneui"@) == "80500"@ {
        "16.1"@
    } else {
        android_major_of(prop_value(p, "ro.build.version.release"@))
    }
}

pub fn cts_version_hint(props: &StrMap<String>) -> (r: String)
    ensures
        r@ == cts_hint(string_map_view(props.view())),
{
    let oneui = prop(props, "ro.build.version.oneui");
    if str_eq(oneui.as_str(), "80500") {
        "16.1".to_string()
    } else {
        android_major(prop(props, "ro.build.version.release").as_str())
    }
}

/// Whether a patch level can be cut at its bytes 5 and 7 where it is long enough.
pub open spec fn month_slicable(s: Seq<char>) -> bool {
    encode_utf8(s).len() >= 7 ==> is_char_boundary(encode_utf8(s), 5) && is_char_boundary(encode_utf8(s), 7)
}

pub open spec fn device_patch(p: Map<Seq<char>, Seq<char>>) -> Seq<char> {
    prop_value(p, "ro.build.version.security_patch"@)
}

/// Where a suite's tools are found.
pub enum SuiteRootPlan {
    /// Among the version directories of `suite`, each holding `suite_dir`, by `hint`.
    Versioned { suite: String, suite_dir: String, hint: String },
    /// `STS/<month>/<android>/android-sts`.
    Sts { month: String, android: String },
}

pub open spec fn is_versioned(p: SuiteRootPlan, suite: Seq<char>, suite_dir: Seq<char>, hint: Seq<char>) -> bool {
    p matches SuiteRootPlan::Versioned { suite: s, suite_dir: d, hint: h } && s@ == suite && d@ == suite_dir && h@ == hint
}

pub open spec fn is_sts(p: SuiteRootPlan, patch: Seq<char>, android: Seq<char>) -> bool {
    p matches SuiteRootPlan::Sts { month: m, android: a } && encode_utf8(m@) == patch_month_bytes(patch) && a@ == android
}

fn patch_month(props: &StrMap<String>) -> (r: String)
    requires
        month_slicable(device_patch(string_map_view(props.view()))),
    ensures
        encode_utf8(r@) == patch_month_bytes(device_patch(string_map_view(props.view()))),
{
    let spl = prop(props, "ro.build.version.security_patch");
    security_patch_month(spl.as_str())
}

/// Where the tools of `suite` are for a device with these properties: CTS
/// by the device's release, GTS by the default version, STS by the month of
/// its patch level and its release.
pub fn suite_root_plan(suite: &str, props: &StrMap<String>) -> (r: Result<SuiteRootPlan, String>)
    requires
        month_slicable(device_patch(string_map_view(props.view()))),
    ensures
        suite@ == "CTS"@ ==> (r matches Ok(p) && is_versioned(p, "CTS"@, "android-cts"@, cts_hint(string_map_view(props.view())))),
        suite@ == "GTS"@ ==> (r matches Ok(p) && is_versioned(p, "GTS"@, "android-gts"@, seq![])),
        suite@ == "STS"@ ==> (r matches Ok(p) && is_sts(p, device_patch(string_map_view(props.view())), cts_hint(string_map_view(props.view())))),
        suite@ != "CTS"@ && suite@ != "GTS"@ && suite@ != "STS"@ ==> (r matches Err(e) && e@ == "Unknown suite: "@ + suite@),
{
    proof {
        lemma_suite_names_differ();
    }
    if str_eq(suite, "CTS") {
        Ok(SuiteRootPlan::Versioned { suite: "CTS".to_string(), suite_dir: "android-cts".to_string(), hint: cts_version_hint(props) })
    } else if str_eq(suite, "GTS") {
        let h = String::new();
        Ok(SuiteRootPlan::Versioned { suite: "GTS".to_string(), suite_dir: "android-gts".to_string(), hint: h })
    } else if str_eq(suite, "STS") {
        Ok(SuiteRootPlan::Sts { month: patch_month(props), android: cts_version_hint(props) })
    } else {
        let mut e = "Unknown suite: ".to_string();
        e.append(suite);
        Err(e)
    }
}

/// Where the tools to retry one laundry result are: for CTS and GTS the
/// version the result names, when it names one; otherwise as for a device.
pub fn laundry_suite_root_plan(suite: &str, result_version: &Option<String>, props: &StrMap<String>) -> (r: Result<SuiteRootPlan, String>)
    requires
        month_slicable(device_patch(string_map_view(props.view()))),
    ensures
        (suite@ == "CTS"@ || suite@ == "GTS"@) && result_version is Some ==> (r matches Ok(p) && is_versioned(
            p,
            suite@,
            if suite@ == "CTS"@ { "android-cts"@ } else { "android-gts"@ },
            result_version->0@,
        )),
        !((suite@ == "CTS"@ || suite@ == "GTS"@) && result_version is Some) ==> {
            &&& suite@ == "CTS"@ ==> (r matches Ok(p) && is_versioned(p, "CTS"@, "android-cts"@, cts_hint(string_map_view(props.view()))))
            &&& suite@ == "GTS"@ ==> (r matches Ok(p) && is_versioned(p, "GTS"@, "android-gts"@, seq![]))
            &&& suite@ == "STS"@ ==> (r matches Ok(p) && is_sts(p, device_patch(string_map_view(props.view())), cts_hint(string_map_view(props.view()))))
            &&& suite@ != "CTS"@ && suite@ != "GTS"@ && suite@ != "STS"@ ==> (r matches Err(e) && e@ == "Unknown suite: "@ + suite@)
        },
{
    proof {
        lemma_suite_names_differ();
    }
    match result_version {
        Some(v) => {
            if str_eq(suite, "CTS") {
                return Ok(SuiteRootPlan::Versioned { suite: "CTS".to_string(), suite_dir: "android-cts".to_string(), hint: v.clone() });
            }
            if str_eq(suite, "GTS") {
                return Ok(SuiteRootPlan::Versioned { suite: "GTS".to_string(), suite_dir: "android-gts".to_string(), hint: v.clone() });
            }
        },
        None => {},
    }
    suite_root_plan(suite, props)
}

/// The STS tools for a device to run STS on: by the month of its patch
/// level and the major of its release.
pub fn sts_run_plan(props: &StrMap<String>) -> (r: SuiteRootPlan)
    requires
        month_slicable(device_patch(string_map_view(props.view()))),
    ensures
        is_sts(r, device_patch(string_map_view(props.view())), android_major_of(prop_value(string_map_view(props.view()), "ro.build.version.release"@))),
{
    SuiteRootPlan::Sts { month: patch_month(props), android: android_major(prop(props, "ro.build.version.release").as_str()) }
}

/// `root/STS/<month>/<android>/android-sts`.
pub open spec fn sts_root_text(root: Seq<char>, month: Seq<char>, android: Seq<char>) -> Seq<char> {
    join(join(join(join(root, "STS"@), month), android), "android-sts"@)
}

pub fn sts_root_path(root: &str, month: &str, android: &str) -> (r: String)
    ensures
        r@ == sts_root_text(root@, month@, android@),
{
    let a = join_str(root, "STS");
    let b = join_str(a.as_str(), month);
    let c = join_str(b.as_str(), android);
    join_str(c.as_str(), "android-sts")
}

} // verus!

verus! {

/// Whether a laundry retry needs the suite's tools: GTS always (its first
/// run makes the deviceinfo), CTS and STS when the zip holds their results.
pub open spec fn suite_needed_spec(suite: Seq<char>, cts_results: nat, sts_results: nat) -> bool {
    if suite == "CTS"@ {
        cts_results > 0
    } else if suite == "GTS"@ {
        true
    } else if suite == "STS"@ {
        sts_results > 0
    } else {
        false
    }
}

pub fn suite_needed(suite: &str, cts_results: usize, sts_results: usize) -> (r: bool)
    ensures
        r == suite_needed_spec(suite@, cts_results as nat, sts_results as nat),
{
    if str_eq(suite, "CTS") {
        cts_results > 0
    } else if str_eq(suite, "GTS") {
        true
    } else if str_eq(suite, "STS") {
        sts_results > 0
    } else {
        false
    }
}

/// How a laundry result's build compares with the local tools.
pub enum VersionCheck {
    /// The result has no readable suite info.
    Unchecked,
    /// The builds agree (or one is unknown): the line to log.
    Matched(String),
    /// The builds differ but the versions agree: the warning to log.
    WarnOnly(String),
    /// The builds differ: the error to stop with.
    Mismatch(String),
}

/// A differing build is only warned about when the local tools' version
/// folder is the result's version, or for CTS names the same OS release.
pub open spec fn warn_only(suite: Seq<char>, version: Seq<char>, folder: Seq<char>) -> bool {
    let n = normalized_result_version(version);
    folder.len() > 0 && (n == Some(folder) || (suite == "CTS"@ && n is Some && same_os_version(folder, n->0)))
}

pub open spec fn laundry_line(name: Seq<char>, version: Seq<char>, build: Seq<char>, local: Seq<char>) -> Seq<char> {
    "(laundry: "@ + name + " "@ + version + " / "@ + build + ", local tool: "@ + local + ")"@
}

pub open spec fn warn_text(suite: Seq<char>, name: Seq<char>, version: Seq<char>, build: Seq<char>, local: Seq<char>) -> Seq<char> {
    "[preflight][WARN] "@ + suite + ": ignoring "@ + (match normalized_result_version(version) {
        Some(v) => v,
        None => "version"@,
    }) + " build mismatch "@ + laundry_line(name, version, build, local) + "."@
}

pub open spec fn matched_text(suite: Seq<char>, name: Seq<char>, version: Seq<char>, build: Seq<char>, local: Seq<char>) -> Seq<char> {
    "[preflight] "@ + suite + ": version checked and matched "@ + laundry_line(name, version, build, local)
}

pub open spec fn versions_body(name: Seq<char>, version: Seq<char>, build: Seq<char>, local: Seq<char>) -> Seq<char> {
    ":\nLaundry file has version: "@ + name + " "@ + version + " ("@ + build + ")\nLocal tool has version: ("@ + local
        + ")\nPlease align laundry file and local tools."@
}

pub open spec fn mismatch_text(suite: Seq<char>, name: Seq<char>, version: Seq<char>, build: Seq<char>, local: Seq<char>) -> Seq<char> {
    "Mismatched tools version for "@ + suite + versions_body(name, version, build, local)
}

/// The builds differ: both known and not equal.
pub open spec fn builds_differ(build: Seq<char>, local: Seq<char>) -> bool {
    local.len() > 0 && build.len() > 0 && build != local
}

fn laundry_line_exec(out: &mut String, name: &str, version: &str, build: &str, local: &str)
    ensures
        final(out)@ == old(out)@ + laundry_line(name@, version@, build@, local@),
{
    out.append("(laundry: ");
    out.append(name);
    out.append(" ");
    out.append(version);
    out.append(" / ");
    out.append(build);
    out.append(", local tool: ");
    out.append(local);
    out.append(")");
}

fn versions_body_exec(out: &mut String, name: &str, version: &str, build: &str, local: &str)
    ensures
        final(out)@ == old(out)@ + versions_body(name@, version@, build@, local@),
{
    out.append(":\nLaundry file has version: ");
    out.append(name);
    out.append(" ");
    out.append(version);
    out.append(" (");
    out.append(build);
    out.append(")\nLocal tool has version: (");
    out.append(local);
    out.append(")\nPlease align laundry file and local tools.");
}

/// Compares a laundry result's suite info (name, version, build) with the
/// local tools' build and the name of their version folder.
pub fn laundry_version_check(
    suite: &str,
    info: &Option<(String, String, String)>,
    local_version: &str,
    folder_version: &str,
) -> (r: VersionCheck)
    ensures
        match *info {
            None => r is Unchecked,
            Some((name, version, build)) => if builds_differ(build@, local_version@) {
                if warn_only(suite@, version@, folder_version@) {
                    r matches VersionCheck::WarnOnly(l) && l@ == warn_text(suite@, name@, version@, build@, local_version@)
                } else {
                    r matches VersionCheck::Mismatch(e) && e@ == mismatch_text(suite@, name@, version@, build@, local_version@)
                }
            } else {
                r matches VersionCheck::Matched(l) && l@ == matched_text(suite@, name@, version@, build@, local_version@)
            },
        },
        (*info matches Some((name, version, build)) && builds_differ(build@, local_version@)
            && folder_version@.len() > 0 && normalized_result_version(version@) == Some(folder_version@))
            ==> r is WarnOnly,
{
    match info {
        None => VersionCheck::Unchecked,
        Some((name, version, build)) => {
            let differ = !str_is_empty(local_version) && !str_is_empty(build.as_str()) && !str_eq(build.as_str(), local_version);
            if differ {
                let normalized = suite_version_from_result_version(version.as_str());
                let warn = !str_is_empty(folder_version) && (match &normalized {
                    Some(v) => str_eq(v.as_str(), folder_version) || (str_eq(suite, "CTS")
                        && same_suite_os_version(folder_version, v.as_str())),
                    None => false,
                });
                if warn {
                    let mut l = "[preflight][WARN] ".to_string();
                    l.append(suite);
                    l.append(": ignoring ");
                    match &normalized {
                        Some(v) => l.append(v.as_str()),
                        None => l.append("version"),
                    }
                    l.append(" build mismatch ");
                    laundry_line_exec(&mut l, name.as_str(), version.as_str(), build.as_str(), local_version);
                    l.append(".");
                    VersionCheck::WarnOnly(l)
                } else {
                    let mut e = "Mismatched tools version for ".to_string();
                    e.append(suite);
                    versions_body_exec(&mut e, name.as_str(), version.as_str(), build.as_str(), local_version);
                    VersionCheck::Mismatch(e)
                }
            } else {
                let mut l = "[preflight] ".to_string();
                l.append(suite);
                l.append(": version checked and matched ");
                laundry_line_exec(&mut l, name.as_str(), version.as_str(), build.as_str(), local_version);
                VersionCheck::Matched(l)
            }
        },
    }
}

pub open spec fn bool_text(b: bool) -> Seq<char> {
    if b { "true"@ } else { "false"@ }
}

/// The warning a zip check gives for a result whose build differs from the
/// local tools: whether it would be ignored is said, for the version folder
/// alone.
pub open spec fn mismatch_warning_text(
    suite: Seq<char>,
    name: Seq<char>,
    version: Seq<char>,
    build: Seq<char>,
    local: Seq<char>,
    folder: Seq<char>,
) -> Option<Seq<char>> {
    if builds_differ(build, local) {
        let ignored = folder.len() > 0 && normalized_result_version(version) == Some(folder);
        Some("Mismatched tools version for "@ + suite + " (ignored: "@ + bool_text(ignored) + ")"@
            + versions_body(name, version, build, local))
    } else {
        None
    }
}

pub fn mismatch_warning(suite: &str, name: &str, version: &str, build: &str, local_version: &str, folder_version: &str) -> (r: Option<String>)
    ensures
        match r {
            Some(w) => mismatch_warning_text(suite@, name@, version@, build@, local_version@, folder_version@) == Some(w@),
            None => mismatch_warning_text(suite@, name@, version@, build@, local_version@, folder_version@) is None,
        },
{
    let differ = !str_is_empty(local_version) && !str_is_empty(build) && !str_eq(build, local_version);
    if !differ {
        return None;
    }
    let normalized = suite_version_from_result_version(version);
    let ignored = !str_is_empty(folder_version) && match &normalized {
        Some(v) => str_eq(v.as_str(), folder_version),
        None => false,
    };
    let mut w = "Mismatched tools version for ".to_string();
    w.append(suite);
    w.append(" (ignored: ");
    if ignored {
        w.append("true");
    } else {
        w.append("false");
    }
    w.append(")");
    versions_body_exec(&mut w, name, version, build, local_version);
    Some(w)
}

/// For every suite, a build that differs from the local tools is only warned
/// about, never refused, when the result's version is the name of the local
/// tools' version folder.
pub proof fn law_own_version_folder_only_warns(
    suite: Seq<char>,
    version: Seq<char>,
    build: Seq<char>,
    local: Seq<char>,
    folder: Seq<char>,
)
    requires
        builds_differ(build, local),
        folder.len() > 0,
        normalized_result_version(version) == Some(folder),
    ensures
        warn_only(suite, version, folder),
{
}

} // verus!

verus! {

/// Where a zip check looks for the local tools of a result: for CTS and
/// GTS the version the result names, when it names one; `None` sends it to
/// the suite's own folder.
pub fn mismatch_root_plan(suite: &str, result_version: &Option<String>) -> (r: Option<SuiteRootPlan>)
    ensures
        (suite@ == "CTS"@ || suite@ == "GTS"@) && result_version is Some ==> (r matches Some(p) && is_versioned(
            p,
            suite@,
            if suite@ == "CTS"@ { "android-cts"@ } else { "android-gts"@ },
            result_version->0@,
        )),
        !((suite@ == "CTS"@ || suite@ == "GTS"@) && result_version is Some) ==> r is None,
{
    proof {
        lemma_suite_names_differ();
    }
    match result_version {
        Some(v) => {
            if str_eq(suite, "CTS") {
                Some(SuiteRootPlan::Versioned { suite: "CTS".to_string(), suite_dir: "android-cts".to_string(), hint: v.clone() })
            } else if str_eq(suite, "GTS") {
                Some(SuiteRootPlan::Versioned { suite: "GTS".to_string(), suite_dir: "android-gts".to_string(), hint: v.clone() })
            } else {
                None
            }
        },
        None => None,
    }
}

/// Why a laundry run cannot start without a suite's launcher: the zip asks
/// for it, or the run does.
pub fn missing_tool_error(suite: &str, tool: &str, from_zip: bool) -> (r: String)
    ensures
        r@ == suite@ + (if from_zip { " tool required by laundry zip but not found: "@ } else {
            " tool required but not found: "@
        }) + tool@,
{
    let mut r = suite.to_string();
    if from_zip {
        r.append(" tool required by laundry zip but not found: ");
    } else {
        r.append(" tool required but not found: ");
    }
    r.append(tool);
    r
}

/// `[preflight] <suite>: tool ready <tool>`.
pub fn tool_ready_line(suite: &str, tool: &str) -> (r: String)
    ensures
        r@ == "[preflight] "@ + suite@ + ": tool ready "@ + tool@,
{
    let mut r = "[preflight] ".to_string();
    r.append(suite);
    r.append(": tool ready ");
    r.append(tool);
    r
}

/// `[preflight] <suite>: skipped; not found in laundry zip.`
pub fn suite_skipped_line(suite: &str) -> (r: String)
    ensures
        r@ == "[preflight] "@ + suite@ + ": skipped; not found in laundry zip."@,
{
    let mut r = "[preflight] ".to_string();
    r.append(suite);
    r.append(": skipped; not found in laundry zip.");
    r
}

/// The screen settings a device gets: woken and bright for a long while,
/// or dim with a short timeout.
pub struct LampPlan {
    pub wake: bool,
    pub brightness: u32,
    pub screen_off_timeout_ms: u32,
}

pub fn lamp_plan(brighten: bool) -> (r: LampPlan)
    ensures
        r.wake == brighten,
        r.brightness == (if brighten { 255u32 } else { 10u32 }),
        r.screen_off_timeout_ms == (if brighten { 600000u32 } else { 60000u32 }),
{
    if brighten {
        LampPlan { wake: true, brightness: 255, screen_off_timeout_ms: 600000 }
    } else {
        LampPlan { wake: false, brightness: 10, screen_off_timeout_ms: 60000 }
    }
}

/// What a finished command gives: its output trimmed on success; else its
/// error output trimmed, or its exit status when that is blank.
pub fn command_result(success: bool, stdout: &str, stderr: &str, status: &str) -> (r: Result<String, String>)
    ensures
        success ==> (r matches Ok(o) && o@ == crate::text::trim(stdout@)),
        !success && crate::text::trim(stderr@).len() > 0 ==> (r matches Err(e) && e@ == crate::text::trim(stderr@)),
        !success && crate::text::trim(stderr@).len() == 0 ==> (r matches Err(e) && e@ == "Command failed with status "@ + status@),
{
    if success {
        return Ok(crate::text::string_of(&crate::text::trim_vec(&crate::text::chars_of(stdout))));
    }
    let err = crate::text::trim_vec(&crate::text::chars_of(stderr));
    if err.len() == 0 {
        let mut e = "Command failed with status ".to_string();
        e.append(status);
        Err(e)
    } else {
        Err(crate::text::string_of(&err))
    }
}

} // verus!

verus! {

/// Whether a patch level can be cut at its bytes 5 and 7 (or is shorter).
pub fn month_slicable_text(spl: &str) -> (r: bool)
    ensures
        r == month_slicable(spl@),
{
    let n = spl.as_bytes().len();
    if n >= 7 {
        spl.is_char_boundary(5) && spl.is_char_boundary(7)
    } else {
        true
    }
}

} // verus!
