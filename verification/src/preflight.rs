use vstd::prelude::*;

use crate::names::{append_decimal, lemma_back_char, lemma_skip_char, name_char, sanitize_name, sanitized, skip_char};
use crate::num::{all_digits, fmt_base, in_base};
use crate::paths::{file_name, file_name_exec, join, join_str};
use crate::summary::{first_line_with, lemma_first_line_with};
use crate::text::{
    chars_of, contains, contains_exec, is_blank, lines, lines_exec, split_once, split_once_exec,
    starts_with, starts_with_exec, str_eq, str_is_empty, string_of, trim, trim_vec, views, words,
    words_exec,
};

verus! {

/// `OK command: <name>` or `MISSING command: <name>`.
pub fn check_command(name: &str, found: bool) -> (r: String)
    ensures
        r@ == (if found { "OK command: "@ } else { "MISSING command: "@ }) + name@,
{
    let mut r = if found { "OK command: ".to_string() } else { "MISSING command: ".to_string() };
    r.append(name);
    r
}

/// `OK file: <name>`, or `MISSING file: <name> (<path>)`.
pub fn check_file(name: &str, path: &str, is_file: bool) -> (r: String)
    ensures
        r@ == (if is_file { "OK file: "@ + name@ } else { "MISSING file: "@ + name@ + " ("@ + path@ + ")"@ }),
{
    if is_file {
        let mut r = "OK file: ".to_string();
        r.append(name);
        r
    } else {
        let mut r = "MISSING file: ".to_string();
        r.append(name);
        r.append(" (");
        r.append(path);
        r.append(")");
        r
    }
}

/// `OK dir: <name>`, or `MISSING dir: <name> (<path>)`.
pub fn check_dir(name: &str, path: &str, is_dir: bool) -> (r: String)
    ensures
        r@ == (if is_dir { "OK dir: "@ + name@ } else { "MISSING dir: "@ + name@ + " ("@ + path@ + ")"@ }),
{
    if is_dir {
        let mut r = "OK dir: ".to_string();
        r.append(name);
        r
    } else {
        let mut r = "MISSING dir: ".to_string();
        r.append(name);
        r.append(" (");
        r.append(path);
        r.append(")");
        r
    }
}

/// The preflight line on Ghidra: its updater's message trimmed, or why it failed.
pub fn ghidra_line(outcome: &Result<String, String>) -> (r: String)
    ensures
        r@ == (match *outcome {
            Ok(m) => "OK Ghidra: "@ + trim(m@),
            Err(e) => "MISS Ghidra: "@ + e@,
        }),
{
    match outcome {
        Ok(m) => {
            let mut r = "OK Ghidra: ".to_string();
            r.append(string_of(&trim_vec(&chars_of(m.as_str()))).as_str());
            r
        },
        Err(e) => {
            let mut r = "MISS Ghidra: ".to_string();
            r.append(e.as_str());
            r
        },
    }
}

/// The root the runner works under: the value given when it is not blank,
/// else the default.
pub open spec fn configured_root(value: Option<Seq<char>>, default: Seq<char>) -> Seq<char> {
    match value {
        Some(v) => if trim(v).len() > 0 { v } else { default },
        None => default,
    }
}

pub fn configured_auto_root(value: &Option<String>, default: &str) -> (r: String)
    ensures
        r@ == configured_root(crate::registry::opt_view(*value), default@),
{
    match value {
        Some(v) => {
            if !is_blank(&chars_of(v.as_str())) {
                return v.clone();
            }
        },
        None => {},
    }
    default.to_string()
}

/// The configured root when it is a directory, else the default when that
/// is one, else an error naming the configured root.
pub fn auto_root_result(configured: &str, configured_is_dir: bool, fallback: &str, fallback_is_dir: bool) -> (r: Result<String, String>)
    ensures
        configured_is_dir ==> (r matches Ok(p) && p@ == configured@),
        !configured_is_dir && fallback_is_dir ==> (r matches Ok(p) && p@ == fallback@),
        !configured_is_dir && !fallback_is_dir ==> (r matches Err(e) && e@ == "AUTO root does not exist: "@ + configured@),
{
    if configured_is_dir {
        Ok(configured.to_string())
    } else if fallback_is_dir {
        Ok(fallback.to_string())
    } else {
        let mut e = "AUTO root does not exist: ".to_string();
        e.append(configured);
        Err(e)
    }
}

/// The retry session a `l r` listing gives for a result directory: the
/// leading number of the first non-blank line that names the directory and
/// starts with a number.
pub open spec fn session_from(ls: Seq<Seq<char>>, name: Seq<char>, i: int) -> Option<Seq<char>>
    decreases ls.len() - i,
{
    if i < 0 || i >= ls.len() {
        None
    } else {
        let t = trim(ls[i]);
        if t.len() == 0 || !contains(t, name) || words(t).len() == 0 || !all_digits(words(t)[0]) {
            session_from(ls, name, i + 1)
        } else {
            Some(words(t)[0])
        }
    }
}

fn all_digits_exec(v: &Vec<char>) -> (r: bool)
    ensures
        r == all_digits(v@),
{
    let mut i: usize = 0;
    while i < v.len()
        invariant
            i <= v.len(),
            forall|k: int| 0 <= k < i ==> crate::text::is_digit(#[trigger] v@[k]),
        decreases v.len() - i,
    {
        if !crate::num::is_digit_exec(v[i]) {
            return false;
        }
        i = i + 1;
    }
    true
}

pub fn parse_retry_session_id(output: &str, result_dir_name: &str) -> (r: Option<String>)
    ensures
        crate::registry::opt_view(r) == session_from(lines(output@), result_dir_name@, 0),
{
    let ls = lines_exec(&chars_of(output));
    let name = chars_of(result_dir_name);
    let mut i: usize = 0;
    while i < ls.len()
        invariant
            i <= ls.len(),
            views(ls@) == lines(output@),
            name@ == result_dir_name@,
            session_from(views(ls@), name@, 0) == session_from(views(ls@), name@, i as int),
        decreases ls.len() - i,
    {
        assert(views(ls@)[i as int] == ls@[i as int]@);
        let t = trim_vec(&ls[i]);
        if t.len() > 0 && contains_exec(&t, &name) {
            let ws = words_exec(&t);
            if ws.len() > 0 {
                assert(crate::text::views(ws@)[0] == ws@[0]@);
                if all_digits_exec(&ws[0]) {
                    return Some(string_of(&ws[0]));
                }
            }
        }
        i = i + 1;
    }
    None
}

/// Why a retry session could not be found for a result directory.
pub fn retry_session_error(suite: &str, result_dir_name: &str, log_file: &str, output_bytes: usize) -> (r: String)
    ensures
        r@ == suite@ + ": cannot find retry session for result directory "@ + result_dir_name@ + ". Check "@
            + log_file@ + ". Last l r output had "@ + crate::num::decimal(output_bytes as nat) + " bytes."@,
{
    let mut r = suite.to_string();
    r.append(": cannot find retry session for result directory ");
    r.append(result_dir_name);
    r.append(". Check ");
    r.append(log_file);
    r.append(". Last l r output had ");
    append_decimal(&mut r, output_bytes as u64);
    r.append(" bytes.");
    r
}

/// The Ghidra version an archive's name gives: between `ghidra_` and the
/// first `_PUBLIC`.
pub open spec fn ghidra_version_spec(name: Seq<char>) -> Option<Seq<char>> {
    if starts_with(name, "ghidra_"@) {
        match split_once(name.skip(7), "_PUBLIC"@) {
            Some((v, _)) => Some(v),
            None => None,
        }
    } else {
        None
    }
}

pub fn ghidra_version(name: &str) -> (r: Result<String, String>)
    ensures
        match r {
            Ok(v) => ghidra_version_spec(name@) == Some(v@),
            Err(e) => ghidra_version_spec(name@) is None && e@ == "Cannot derive Ghidra version from "@ + name@,
        },
{
    let n = chars_of(name);
    let prefix = chars_of("ghidra_");
    proof {
        reveal_strlit("ghidra_");
    }
    if starts_with_exec(&n, &prefix) {
        let rest = crate::text::slice_vec(&n, 7, n.len());
        assert(rest@ =~= n@.skip(7));
        match split_once_exec(&rest, &chars_of("_PUBLIC")) {
            Some((v, _)) => {
                return Ok(string_of(&v));
            },
            None => {},
        }
    }
    let mut e = "Cannot derive Ghidra version from ".to_string();
    e.append(name);
    Err(e)
}

pub open spec fn ghidra_cache_base() -> Seq<char> {
    "/tmp/ghidra_cache/https:/github.com/NationalSecurityAgency/ghidra/releases/download"@
}

/// Where Ghidra's cache expects an archive: `<base>/Ghidra_<version>_build/<name>`.
pub fn ghidra_cache_path(version: &str, name: &str) -> (r: String)
    ensures
        r@ == join(join(ghidra_cache_base(), "Ghidra_"@ + version@ + "_build"@), name@),
{
    let mut d = "Ghidra_".to_string();
    d.append(version);
    d.append("_build");
    let a = join_str("/tmp/ghidra_cache/https:/github.com/NationalSecurityAgency/ghidra/releases/download", d.as_str());
    join_str(a.as_str(), name)
}

/// `.<name>.<nonce>.tmp`, where an archive is copied before it is put in place.
pub fn ghidra_temp_name(name: &str, nonce: u128) -> (r: String)
    ensures
        r@ == "."@ + name@ + "."@ + crate::num::decimal(nonce as nat) + ".tmp"@,
{
    let mut r = ".".to_string();
    r.append(name);
    r.append(".");
    r.append(string_of(&crate::num::fmt_decimal_u128(nonce)).as_str());
    r.append(".tmp");
    r
}

/// Why the Ghidra updater failed, with what it printed when it did.
pub fn ghidra_updater_error(stderr: &str) -> (r: String)
    ensures
        r@ == "Ghidra updater failed"@ + (if trim(stderr@).len() == 0 { seq![] } else { ": "@ + trim(stderr@) }),
{
    let detail = trim_vec(&chars_of(stderr));
    let mut r = "Ghidra updater failed".to_string();
    if detail.len() > 0 {
        r.append(": ");
        r.append(string_of(&detail).as_str());
    }
    assert(r@ =~= "Ghidra updater failed"@ + (if trim(stderr@).len() == 0 { seq![] } else { ": "@ + trim(stderr@) }));
    r
}

/// What a run's copy of a suite does with each entry of the suite's root.
#[derive(PartialEq, Eq, Structural, Clone, Copy, Debug)]
pub enum WorkspaceEntry {
    /// An empty directory of its own (`results`, `logs`).
    FreshDir,
    /// A copy of the whole tree (`subplans`).
    CopyTree,
    /// A directory whose launchers are copied and the rest linked (`tools`).
    ToolsDir,
    /// A link to the shared entry.
    Link,
}

pub open spec fn workspace_entry_spec(name: Seq<char>, is_dir: bool) -> WorkspaceEntry {
    if name == "results"@ || name == "logs"@ {
        WorkspaceEntry::FreshDir
    } else if name == "subplans"@ && is_dir {
        WorkspaceEntry::CopyTree
    } else if name == "tools"@ && is_dir {
        WorkspaceEntry::ToolsDir
    } else {
        WorkspaceEntry::Link
    }
}

pub fn workspace_entry(name: &str, is_dir: bool) -> (r: WorkspaceEntry)
    ensures
        r == workspace_entry_spec(name@, is_dir),
{
    if str_eq(name, "results") || str_eq(name, "logs") {
        WorkspaceEntry::FreshDir
    } else if str_eq(name, "subplans") && is_dir {
        WorkspaceEntry::CopyTree
    } else if str_eq(name, "tools") && is_dir {
        WorkspaceEntry::ToolsDir
    } else {
        WorkspaceEntry::Link
    }
}

/// The tools a run copies rather than links: the launchers it runs.
pub fn tool_is_copied(name: &str) -> (r: bool)
    ensures
        r == (name@ == "cts-tradefed"@ || name@ == "gts-tradefed"@ || name@ == "sts-tradefed"@
            || name@ == "test-utils-script"@),
{
    str_eq(name, "cts-tradefed") || str_eq(name, "gts-tradefed") || str_eq(name, "sts-tradefed")
        || str_eq(name, "test-utils-script")
}

/// `root/.gba-workspaces/<run id>`, the run's own copies of the suites.
pub open spec fn run_workspaces_text(root: Seq<char>, run_id: Seq<char>) -> Seq<char> {
    join(join(root, ".gba-workspaces"@), sanitized(run_id))
}

pub fn run_workspaces(root: &str, run_id: &str) -> (r: String)
    ensures
        r@ == run_workspaces_text(root@, run_id@),
{
    let a = join_str(root, ".gba-workspaces");
    join_str(a.as_str(), sanitize_name(run_id).as_str())
}

/// Where a run's copy of a suite root is installed:
/// `root/.gba-workspaces/<run id>/suite_<hash>/<name of the suite root>`.
pub fn workspace_install_path(root: &str, run_id: &str, suite_hash: u64, suite_root: &str) -> (r: String)
    ensures
        r@ == join(
            join(run_workspaces_text(root@, run_id@), "suite_"@ + in_base(suite_hash as nat, 16)),
            match file_name(suite_root@) {
                Some(n) => n,
                None => seq![],
            },
        ),
{
    let base = run_workspaces(root, run_id);
    let mut d = "suite_".to_string();
    d.append(string_of(&fmt_base(suite_hash, 16)).as_str());
    let w = join_str(base.as_str(), d.as_str());
    let name = match file_name_exec(&chars_of(suite_root)) {
        Some(n) => string_of(&n),
        None => String::new(),
    };
    join_str(w.as_str(), name.as_str())
}

/// Every character of a sanitized name is a name character, so it holds no `/`.
proof fn lemma_sanitized_has_no_slash(s: Seq<char>)
    ensures
        forall|i: int| 0 <= i < sanitized(s).len() ==> #[trigger] sanitized(s)[i] != '/',
{
    let m = s.map_values(|c: char| name_char(c));
    let t = m.subrange(skip_char(m, '_', 0), m.len() as int);
    lemma_skip_char(m, '_', 0);
    lemma_back_char(t, '_', t.len() as int);
    assert forall|i: int| 0 <= i < sanitized(s).len() implies #[trigger] sanitized(s)[i] != '/' by {
        assert(sanitized(s)[i] == m[skip_char(m, '_', 0) + i]);
    }
}

/// Runs whose ids differ once sanitized get workspace folders of their own.
pub proof fn law_workspaces_differ_per_run(root: Seq<char>, a: Seq<char>, b: Seq<char>)
    requires
        sanitized(a) != sanitized(b),
    ensures
        run_workspaces_text(root, a) != run_workspaces_text(root, b),
{
    let p = join(root, ".gba-workspaces"@);
    reveal_strlit(".gba-workspaces");
    assert(p.len() > 0 && p.last() == 's');
    lemma_sanitized_has_no_slash(a);
    lemma_sanitized_has_no_slash(b);
    let x = sanitized(a);
    let y = sanitized(b);
    assert(join(p, x) == p + seq!['/'] + x);
    assert(join(p, y) == p + seq!['/'] + y);
    if join(p, x) == join(p, y) {
        assert(x =~= (p + seq!['/'] + x).subrange(p.len() + 1int, (p + seq!['/'] + x).len() as int));
        assert(y =~= (p + seq!['/'] + y).subrange(p.len() + 1int, (p + seq!['/'] + y).len() as int));
    }
}

} // verus!
