use vstd::prelude::*;

use crate::num::{is_digit_exec, parse_unsigned, parse_unsigned_exec};
use crate::paths::{join, join_exec};
use crate::text::{
    chars_of, contains, contains_exec, eq_chars, find_from, is_digit, matches_at, replace, replace_exec, slice_vec,
    split_char, split_char_exec, split_once, split_once_exec, starts_with, starts_with_exec,
    string_of, trim, trim_vec, views, words, words_exec,
};

verus! {

pub open spec fn underscore_r() -> Seq<char> {
    seq!['_', 'r']
}

/// A parsed `u32`, or zero where the text is not one.
pub open spec fn u32_or_zero(s: Seq<char>) -> nat {
    match parse_unsigned(s, u32::MAX as nat) {
        Some(v) => v,
        None => 0,
    }
}

/// The sort key of a suite version directory name such as `16.1_r3`:
/// (major, minor, revision), each zero where it is missing or not a number.
pub open spec fn version_rank(v: Seq<char>) -> (nat, nat, nat) {
    let (base, rev) = match split_once(v, underscore_r()) {
        Some(p) => p,
        None => (v, seq!['0']),
    };
    let parts = split_char(base, '.');
    (u32_or_zero(parts[0]), if parts.len() > 1 { u32_or_zero(parts[1]) } else { 0 }, u32_or_zero(rev))
}

/// Lexicographic order on version ranks.
pub open spec fn rank_lt(a: (nat, nat, nat), b: (nat, nat, nat)) -> bool {
    a.0 < b.0 || (a.0 == b.0 && (a.1 < b.1 || (a.1 == b.1 && a.2 < b.2)))
}

pub fn u32_or_zero_exec(s: &Vec<char>) -> (r: u32)
    ensures
        r as nat == u32_or_zero(s@),
{
    match parse_unsigned_exec(s, 4294967295u64) {
        Some(v) => v as u32,
        None => 0,
    }
}

/// (major, minor, revision) of a suite version name.
pub fn suite_version_rank(version: &str) -> (r: (u32, u32, u32))
    ensures
        (r.0 as nat, r.1 as nat, r.2 as nat) == version_rank(version@),
{
    let v = chars_of(version);
    rank_of_chars(&v)
}

pub fn rank_of_chars(v: &Vec<char>) -> (r: (u32, u32, u32))
    ensures
        (r.0 as nat, r.1 as nat, r.2 as nat) == version_rank(v@),
{
    let pat = vec!['_', 'r'];
    assert(pat@ =~= underscore_r());
    let (base, rev) = match split_once_exec(v, &pat) {
        Some((a, b)) => (a, b),
        None => {
            let zero = vec!['0'];
            assert(zero@ =~= seq!['0']);
            (slice_vec(v, 0, v.len()), zero)
        },
    };
    assert(v@.subrange(0, v@.len() as int) =~= v@);
    let ghost pair = match split_once(v@, underscore_r()) {
        Some(p) => p,
        None => (v@, seq!['0']),
    };
    assert(pair.0 == base@ && pair.1 == rev@);
    let parts = split_char_exec(&base, '.');
    assert(views(parts@)[0] == parts@[0]@);
    assert(parts.len() > 1 ==> views(parts@)[1] == parts@[1]@);
    let major = u32_or_zero_exec(&parts[0]);
    let minor = if parts.len() > 1 { u32_or_zero_exec(&parts[1]) } else { 0 };
    let revision = u32_or_zero_exec(&rev);
    (major, minor, revision)
}

/// Two suite versions name the same OS release when major and minor agree.
pub open spec fn same_os_version(a: Seq<char>, b: Seq<char>) -> bool {
    version_rank(a).0 == version_rank(b).0 && version_rank(a).1 == version_rank(b).1
}

pub fn same_suite_os_version(left: &str, right: &str) -> (r: bool)
    ensures
        r == same_os_version(left@, right@),
{
    let (lmaj, lmin, _) = suite_version_rank(left);
    let (rmaj, rmin, _) = suite_version_rank(right);
    lmaj == rmaj && lmin == rmin
}

/// A version directory answers a hint when it is the hint itself, or, for a
/// hint without a revision, the hint followed by `_r` and anything.
pub open spec fn matches_hint(version: Seq<char>, hint: Seq<char>) -> bool {
    version == hint || (!contains(hint, underscore_r()) && starts_with(version, hint)
        && starts_with(version.skip(hint.len() as int), underscore_r()))
}

pub fn matches_hint_exec(version: &Vec<char>, hint: &Vec<char>) -> (r: bool)
    ensures
        r == matches_hint(version@, hint@),
{
    if eq_chars(version, hint) {
        return true;
    }
    let pat = vec!['_', 'r'];
    assert(pat@ =~= underscore_r());
    if contains_exec(hint, &pat) {
        return false;
    }
    if !starts_with_exec(version, hint) {
        return false;
    }
    let rest = slice_vec(version, hint.len(), version.len());
    assert(rest@ =~= version@.skip(hint@.len() as int));
    starts_with_exec(&rest, &pat)
}

pub fn suite_version_matches_hint(version: &str, hint: &str) -> (r: bool)
    ensures
        r == matches_hint(version@, hint@),
{
    let v = chars_of(version);
    let h = chars_of(hint);
    matches_hint_exec(&v, &h)
}

} // verus!

verus! {

pub open spec fn is_version_char(c: char) -> bool {
    is_digit(c) || c == '.' || c == '_' || c == 'r' || c == 'R'
}

/// First ASCII digit at or after `i` (or the length).
pub open spec fn skip_non_digits(s: Seq<char>, i: int) -> int
    decreases s.len() - i,
{
    if 0 <= i < s.len() && !is_digit(s[i]) {
        skip_non_digits(s, i + 1)
    } else {
        i
    }
}

/// End of the run of version characters that starts at `i`.
pub open spec fn version_run_end(s: Seq<char>, i: int) -> int
    decreases s.len() - i,
{
    if 0 <= i < s.len() && is_version_char(s[i]) {
        version_run_end(s, i + 1)
    } else {
        i
    }
}

pub proof fn lemma_skip_non_digits(s: Seq<char>, i: int)
    requires
        0 <= i <= s.len(),
    ensures
        i <= skip_non_digits(s, i) <= s.len(),
    decreases s.len() - i,
{
    if i < s.len() && !is_digit(s[i]) {
        lemma_skip_non_digits(s, i + 1);
    }
}

pub proof fn lemma_version_run_end(s: Seq<char>, i: int)
    requires
        0 <= i <= s.len(),
    ensures
        i <= version_run_end(s, i) <= s.len(),
    decreases s.len() - i,
{
    if i < s.len() && is_version_char(s[i]) {
        lemma_version_run_end(s, i + 1);
    }
}

pub open spec fn underscore_upper_r() -> Seq<char> {
    seq!['_', 'R']
}

/// The version directory name read off a result's `suite_version` attribute:
/// first word of the trimmed text, from its first digit, as long as digits,
/// `.`, `_`, `r` or `R` follow, with `_R` written `_r`; none unless it starts
/// with a digit.
pub open spec fn normalized_result_version(version: Seq<char>) -> Option<Seq<char>> {
    let clean = trim(version);
    if clean.len() == 0 {
        None
    } else {
        let prefix = if words(clean).len() > 0 { words(clean)[0] } else { clean };
        let a = skip_non_digits(prefix, 0);
        let n = replace(prefix.subrange(a, version_run_end(prefix, a)), underscore_upper_r(), underscore_r());
        if n.len() > 0 && is_digit(n[0]) {
            Some(n)
        } else {
            None
        }
    }
}

pub fn is_version_char_exec(c: char) -> (r: bool)
    ensures
        r == is_version_char(c),
{
    is_digit_exec(c) || c == '.' || c == '_' || c == 'r' || c == 'R'
}

pub fn suite_version_from_result_version(version: &str) -> (r: Option<String>)
    ensures
        match r {
            Some(v) => normalized_result_version(version@) == Some(v@),
            None => normalized_result_version(version@) is None,
        },
{
    let raw = chars_of(version);
    let clean = trim_vec(&raw);
    if clean.len() == 0 {
        return None;
    }
    let ws = words_exec(&clean);
    let prefix = if ws.len() > 0 {
        assert(views(ws@)[0] == ws@[0]@);
        slice_vec(&ws[0], 0, ws[0].len())
    } else {
        slice_vec(&clean, 0, clean.len())
    };
    assert(ws@.len() > 0 ==> prefix@ =~= words(clean@)[0]);
    assert(ws@.len() == 0 ==> prefix@ =~= clean@);
    let mut a: usize = 0;
    while a < prefix.len() && !is_digit_exec(prefix[a])
        invariant
            a <= prefix.len(),
            skip_non_digits(prefix@, 0) == skip_non_digits(prefix@, a as int),
        decreases prefix.len() - a,
    {
        a = a + 1;
    }
    let mut b: usize = a;
    while b < prefix.len() && is_version_char_exec(prefix[b])
        invariant
            a <= b <= prefix.len(),
            version_run_end(prefix@, a as int) == version_run_end(prefix@, b as int),
        decreases prefix.len() - b,
    {
        b = b + 1;
    }
    let run = slice_vec(&prefix, a, b);
    let from = vec!['_', 'R'];
    let to = vec!['_', 'r'];
    assert(from@ =~= underscore_upper_r());
    assert(to@ =~= underscore_r());
    let n = replace_exec(&run, &from, &to);
    if n.len() > 0 && is_digit_exec(n[0]) {
        Some(string_of(&n))
    } else {
        None
    }
}

/// The names of a list of strings.
pub open spec fn str_views(v: Seq<String>) -> Seq<Seq<char>> {
    v.map_values(|s: String| s@)
}

/// A listed version is considered when there is no hint, or it answers the hint.
pub open spec fn is_candidate(v: Seq<char>, hint: Seq<char>) -> bool {
    hint.len() == 0 || matches_hint(v, hint)
}

/// Among the first `n` listed versions, the index of the first candidate of
/// least rank (what `Iterator::min_by_key` picks).
pub open spec fn best_candidate(vs: Seq<Seq<char>>, hint: Seq<char>, n: int) -> Option<int>
    decreases n,
{
    if n <= 0 {
        None
    } else {
        let b = best_candidate(vs, hint, n - 1);
        if !is_candidate(vs[n - 1], hint) {
            b
        } else {
            match b {
                None => Some(n - 1),
                Some(m) => if rank_lt(version_rank(vs[n - 1]), version_rank(vs[m])) {
                    Some(n - 1)
                } else {
                    b
                },
            }
        }
    }
}

/// The chosen version is a candidate, no candidate ranks below it, and every
/// candidate listed before it ranks strictly above it.
pub proof fn lemma_best_candidate(vs: Seq<Seq<char>>, hint: Seq<char>, n: int)
    requires
        0 <= n <= vs.len(),
    ensures
        best_candidate(vs, hint, n) matches Some(m) ==> {
            &&& 0 <= m < n
            &&& is_candidate(vs[m], hint)
            &&& forall|j: int| 0 <= j < n && is_candidate(vs[j], hint) ==> !rank_lt(version_rank(vs[j]), version_rank(vs[m]))
            &&& forall|j: int| 0 <= j < m && is_candidate(vs[j], hint) ==> rank_lt(version_rank(vs[m]), version_rank(vs[j]))
        },
        best_candidate(vs, hint, n) is None ==> forall|j: int| 0 <= j < n ==> !is_candidate(vs[j], hint),
    decreases n,
{
    if n > 0 {
        lemma_best_candidate(vs, hint, n - 1);
    }
}

pub fn best_candidate_exec(versions: &Vec<String>, hint: &Vec<char>) -> (r: Option<usize>)
    ensures
        match r {
            Some(m) => best_candidate(str_views(versions@), hint@, versions.len() as int) == Some(m as int),
            None => best_candidate(str_views(versions@), hint@, versions.len() as int) is None,
        },
        hint@.len() == 0 ==> (r is Some <==> versions.len() > 0),
        r matches Some(m) ==> {
            &&& m < versions.len()
            &&& hint@.len() == 0 ==> forall|j: int|
                0 <= j < versions.len() ==> !rank_lt(
                    version_rank(#[trigger] versions@[j]@),
                    version_rank(versions@[m as int]@),
                )
            &&& hint@.len() == 0 ==> forall|j: int|
                0 <= j < m ==> rank_lt(version_rank(versions@[m as int]@), version_rank(#[trigger] versions@[j]@))
        },
{
    let mut best: Option<usize> = None;
    let mut best_rank: (u32, u32, u32) = (0, 0, 0);
    let mut i: usize = 0;
    while i < versions.len()
        invariant
            i <= versions.len(),
            match best {
                Some(m) => best_candidate(str_views(versions@), hint@, i as int) == Some(m as int)
                    && m < i
                    && (best_rank.0 as nat, best_rank.1 as nat, best_rank.2 as nat) == version_rank(versions@[m as int]@),
                None => best_candidate(str_views(versions@), hint@, i as int) is None,
            },
        decreases versions.len() - i,
    {
        let v = chars_of(versions[i].as_str());
        assert(str_views(versions@)[i as int] == v@);
        let cand = hint.len() == 0 || matches_hint_exec(&v, hint);
        if cand {
            let rk = rank_of_chars(&v);
            match best {
                None => {
                    best = Some(i);
                    best_rank = rk;
                },
                Some(m) => {
                    assert(str_views(versions@)[m as int] == versions@[m as int]@);
                    if rk.0 < best_rank.0 || (rk.0 == best_rank.0 && (rk.1 < best_rank.1 || (rk.1
                        == best_rank.1 && rk.2 < best_rank.2))) {
                        best = Some(i);
                        best_rank = rk;
                    }
                },
            }
        }
        i = i + 1;
    }
    proof {
        let vs = str_views(versions@);
        lemma_best_candidate(vs, hint@, versions.len() as int);
        if hint@.len() == 0 {
            if versions.len() > 0 {
                assert(is_candidate(vs[0], hint@));
            }
            if let Some(m) = best {
                assert(vs[m as int] == versions@[m as int]@);
                assert forall|j: int| 0 <= j < versions.len() implies !rank_lt(
                    version_rank(#[trigger] versions@[j]@),
                    version_rank(versions@[m as int]@),
                ) by {
                    assert(vs[j] == versions@[j]@);
                    assert(is_candidate(vs[j], hint@));
                }
                assert forall|j: int| 0 <= j < m implies rank_lt(
                    version_rank(versions@[m as int]@),
                    version_rank(#[trigger] versions@[j]@),
                ) by {
                    assert(vs[j] == versions@[j]@);
                    assert(is_candidate(vs[j], hint@));
                }
            }
        }
    }
    best
}

pub open spec fn suite_base(root: Seq<char>, suite: Seq<char>) -> Seq<char> {
    join(root, suite)
}

/// Where a suite's tools for one version live: `root/suite/version/suite_dir`.
pub open spec fn versioned_root(root: Seq<char>, suite: Seq<char>, version: Seq<char>, suite_dir: Seq<char>) -> Seq<char> {
    join(join(join(root, suite), version), suite_dir)
}

pub open spec fn default_hint_text() -> Seq<char> {
    seq!['<', 'd', 'e', 'f', 'a', 'u', 'l', 't', '>']
}

/// `"{suite} tools for version {hint or <default>} not found under {root/suite}"`.
pub open spec fn tools_not_found_message(root: Seq<char>, suite: Seq<char>, hint: Seq<char>) -> Seq<char> {
    suite + " tools for version "@ + (if hint.len() == 0 { default_hint_text() } else { hint })
        + " not found under "@ + suite_base(root, suite)
}

/// The tools directory for `suite`, given whether the directory that names the
/// trimmed hint exactly exists, and the version directories that hold
/// `suite_dir`, in listing order. The exact directory wins; otherwise the
/// lowest-ranked listed version that answers the hint (the first of equals).
pub open spec fn resolved_suite_root(
    root: Seq<char>,
    suite: Seq<char>,
    suite_dir: Seq<char>,
    version_hint: Seq<char>,
    exact_is_dir: bool,
    versions: Seq<Seq<char>>,
) -> Result<Seq<char>, Seq<char>> {
    let hint = trim(version_hint);
    if hint.len() > 0 && exact_is_dir {
        Ok(versioned_root(root, suite, hint, suite_dir))
    } else {
        match best_candidate(versions, hint, versions.len() as int) {
            Some(m) => Ok(versioned_root(root, suite, versions[m], suite_dir)),
            None => Err(tools_not_found_message(root, suite, hint)),
        }
    }
}

/// The directory whose existence decides an exact match, when the hint is not blank.
pub fn exact_suite_root(root: &str, suite: &str, suite_dir: &str, version_hint: &str) -> (r: Option<String>)
    ensures
        match r {
            Some(p) => trim(version_hint@).len() > 0 && p@ == versioned_root(root@, suite@, trim(version_hint@), suite_dir@),
            None => trim(version_hint@).len() == 0,
        },
{
    let hint = trim_vec(&chars_of(version_hint));
    if hint.len() == 0 {
        return None;
    }
    let base = join_exec(&chars_of(root), &chars_of(suite));
    let with_version = join_exec(&base, &hint);
    Some(string_of(&join_exec(&with_version, &chars_of(suite_dir))))
}

pub fn resolve_versioned_suite_root(
    root: &str,
    suite: &str,
    suite_dir: &str,
    version_hint: &str,
    exact_is_dir: bool,
    versions: &Vec<String>,
) -> (r: Result<String, String>)
    ensures
        match r {
            Ok(p) => resolved_suite_root(root@, suite@, suite_dir@, version_hint@, exact_is_dir, str_views(versions@)) == Ok::<Seq<char>, Seq<char>>(p@),
            Err(e) => resolved_suite_root(root@, suite@, suite_dir@, version_hint@, exact_is_dir, str_views(versions@)) == Err::<Seq<char>, Seq<char>>(e@),
        },
{
    let hint = trim_vec(&chars_of(version_hint));
    let root_c = chars_of(root);
    let suite_c = chars_of(suite);
    let dir_c = chars_of(suite_dir);
    let base = join_exec(&root_c, &suite_c);
    if hint.len() > 0 && exact_is_dir {
        let with_version = join_exec(&base, &hint);
        return Ok(string_of(&join_exec(&with_version, &dir_c)));
    }
    match best_candidate_exec(versions, &hint) {
        Some(m) => {
            proof {
                lemma_best_candidate(str_views(versions@), hint@, versions.len() as int);
            }
            let v = chars_of(versions[m].as_str());
            assert(str_views(versions@)[m as int] == v@);
            let with_version = join_exec(&base, &v);
            Ok(string_of(&join_exec(&with_version, &dir_c)))
        },
        None => {
            let mut msg = string_of(&suite_c);
            msg.append(" tools for version ");
            if hint.len() == 0 {
                msg.append("<default>");
            } else {
                msg.append(string_of(&hint).as_str());
            }
            msg.append(" not found under ");
            msg.append(string_of(&base).as_str());
            proof {
                reveal_strlit(" tools for version ");
                reveal_strlit("<default>");
                reveal_strlit(" not found under ");
            }
            assert(msg@ =~= tools_not_found_message(root@, suite@, hint@));
            Err(msg)
        },
    }
}

} // verus!

verus! {

/// Listing positions ordered by (rank, position): a stable sort by rank.
pub open spec fn before_in_rank_order(vs: Seq<Seq<char>>, i: int, j: int) -> bool {
    rank_lt(version_rank(vs[i]), version_rank(vs[j])) || (version_rank(vs[i]) == version_rank(vs[j]) && i < j)
}

/// `p` lists every position of `vs` once, in stable rank order.
pub open spec fn is_stable_rank_order(vs: Seq<Seq<char>>, p: Seq<int>) -> bool {
    &&& p.len() == vs.len()
    &&& forall|k: int| 0 <= k < p.len() ==> 0 <= #[trigger] p[k] < vs.len()
    &&& forall|a: int, b: int| 0 <= a < b < p.len() ==> before_in_rank_order(vs, #[trigger] p[a], #[trigger] p[b])
}

pub open spec fn usize_ints(p: Seq<usize>) -> Seq<int> {
    p.map_values(|x: usize| x as int)
}

fn rank_le_exec(a: (u32, u32, u32), b: (u32, u32, u32)) -> (r: bool)
    ensures
        r == !rank_lt((b.0 as nat, b.1 as nat, b.2 as nat), (a.0 as nat, a.1 as nat, a.2 as nat)),
{
    !(b.0 < a.0 || (b.0 == a.0 && (b.1 < a.1 || (b.1 == a.1 && b.2 < a.2))))
}

/// The order in which versions are listed: by rank, equal ranks as found.
pub fn version_order(versions: &Vec<String>) -> (p: Vec<usize>)
    ensures
        is_stable_rank_order(str_views(versions@), usize_ints(p@)),
{
    let ghost vs = str_views(versions@);
    let mut ranks: Vec<(u32, u32, u32)> = Vec::new();
    let mut k: usize = 0;
    while k < versions.len()
        invariant
            k <= versions.len(),
            vs == str_views(versions@),
            ranks.len() == k,
            forall|j: int| 0 <= j < k ==> (#[trigger] ranks@[j].0 as nat, ranks@[j].1 as nat, ranks@[j].2 as nat) == version_rank(vs[j]),
        decreases versions.len() - k,
    {
        let v = chars_of(versions[k].as_str());
        assert(vs[k as int] == v@);
        ranks.push(rank_of_chars(&v));
        k = k + 1;
    }
    let mut p: Vec<usize> = Vec::new();
    let mut i: usize = 0;
    while i < versions.len()
        invariant
            i <= versions.len() == ranks.len(),
            vs == str_views(versions@),
            ranks.len() == vs.len(),
            forall|j: int| 0 <= j < ranks.len() ==> (#[trigger] ranks@[j].0 as nat, ranks@[j].1 as nat, ranks@[j].2 as nat) == version_rank(vs[j]),
            p.len() == i,
            forall|q: int| 0 <= q < p.len() ==> #[trigger] p@[q] < i,
            forall|a: int, b: int| 0 <= a < b < p.len() ==> before_in_rank_order(vs, #[trigger] p@[a] as int, #[trigger] p@[b] as int),
        decreases versions.len() - i,
    {
        let ri = ranks[i];
        let mut q: usize = 0;
        while q < p.len() && rank_le_exec(ranks[p[q]], ri)
            invariant
                q <= p.len(),
                forall|c: int| 0 <= c < p.len() ==> #[trigger] p@[c] < i,
                i < ranks.len(),
                forall|j: int| 0 <= j < ranks.len() ==> (#[trigger] ranks@[j].0 as nat, ranks@[j].1 as nat, ranks@[j].2 as nat) == version_rank(vs[j]),
                forall|c: int| 0 <= c < q ==> before_in_rank_order(vs, #[trigger] p@[c] as int, i as int),
                ranks.len() == vs.len(),
                ri == ranks@[i as int],
            decreases p.len() - q,
        {
            let ghost pq = p@[q as int] as int;
            assert((ranks@[pq].0 as nat, ranks@[pq].1 as nat, ranks@[pq].2 as nat) == version_rank(vs[pq]));
            assert((ranks@[i as int].0 as nat, ranks@[i as int].1 as nat, ranks@[i as int].2 as nat) == version_rank(vs[i as int]));
            q = q + 1;
        }
        proof {
            if q < p.len() {
                let pq = p@[q as int] as int;
                assert((ranks@[pq].0 as nat, ranks@[pq].1 as nat, ranks@[pq].2 as nat) == version_rank(vs[pq]));
                assert((ranks@[i as int].0 as nat, ranks@[i as int].1 as nat, ranks@[i as int].2 as nat) == version_rank(vs[i as int]));
                assert(rank_lt(version_rank(vs[i as int]), version_rank(vs[p@[q as int] as int])));
                assert forall|c: int| q <= c < p.len() implies before_in_rank_order(vs, i as int, #[trigger] p@[c] as int) by {
                    if c > q {
                        assert(before_in_rank_order(vs, p@[q as int] as int, p@[c] as int));
                    }
                }
            }
        }
        let ghost old_p = p@;
        p.insert(q, i);
        assert forall|a: int, b: int| 0 <= a < b < p.len() implies before_in_rank_order(vs, #[trigger] p@[a] as int, #[trigger] p@[b] as int) by {
            if b < q {
                assert(p@[a] == old_p[a] && p@[b] == old_p[b]);
            } else if b == q {
                assert(p@[a] == old_p[a]);
            } else if a == q {
                assert(p@[b] == old_p[b - 1]);
            } else if a < q {
                assert(p@[a] == old_p[a] && p@[b] == old_p[b - 1]);
            } else {
                assert(p@[a] == old_p[a - 1] && p@[b] == old_p[b - 1]);
            }
        }
        i = i + 1;
    }
    assert(usize_ints(p@).len() == p@.len());
    assert forall|a: int, b: int| 0 <= a < b < p.len() implies before_in_rank_order(vs, #[trigger] usize_ints(p@)[a], #[trigger] usize_ints(p@)[b]) by {
        assert(before_in_rank_order(vs, p@[a] as int, p@[b] as int));
    }
    p
}

/// Version names sorted by rank, equal ranks kept in the order given
/// (`sort_by_key` with `suite_version_rank`).
pub fn sort_versions_by_rank(versions: &Vec<String>) -> (r: Vec<String>)
    ensures
        r.len() == versions.len(),
        exists|p: Seq<int>| is_stable_rank_order(str_views(versions@), p)
            && forall|k: int| 0 <= k < r.len() ==> #[trigger] r@[k]@ == versions@[p[k]]@,
{
    let p = version_order(versions);
    let mut r: Vec<String> = Vec::new();
    let mut k: usize = 0;
    while k < p.len()
        invariant
            k <= p.len() == versions.len(),
            is_stable_rank_order(str_views(versions@), usize_ints(p@)),
            r.len() == k,
            forall|j: int| 0 <= j < k ==> #[trigger] r@[j]@ == versions@[p@[j] as int]@,
        decreases p.len() - k,
    {
        assert(usize_ints(p@)[k as int] == p@[k as int] as int);
        let s = versions[p[k]].clone();
        r.push(s);
        k = k + 1;
    }
    assert forall|j: int| 0 <= j < r.len() implies #[trigger] r@[j]@ == versions@[usize_ints(p@)[j]]@ by {
        assert(usize_ints(p@)[j] == p@[j] as int);
    }
    r
}

} // verus!

verus! {

/// Naming the same OS release is an equivalence between suite versions.
pub proof fn law_same_os_version_is_equivalence(a: Seq<char>, b: Seq<char>, c: Seq<char>)
    ensures
        same_os_version(a, a),
        same_os_version(a, b) == same_os_version(b, a),
        same_os_version(a, b) && same_os_version(b, c) ==> same_os_version(a, c),
{
}

/// Revisions of one release name the same OS release: `<base>_r<x>` and
/// `<base>_r<y>` agree whatever the revisions, for a base without `_r`.
pub proof fn law_revisions_keep_os_version(base: Seq<char>, x: Seq<char>, y: Seq<char>)
    requires
        !contains(base, underscore_r()),
    ensures
        same_os_version(base + underscore_r() + x, base + underscore_r() + y),
{
    lemma_split_at_revision(base, x);
    lemma_split_at_revision(base, y);
}

/// A version `<base>_r<rev>` splits at the `_r` that ends its base.
pub proof fn lemma_split_at_revision(base: Seq<char>, rev: Seq<char>)
    requires
        !contains(base, underscore_r()),
    ensures
        split_once(base + underscore_r() + rev, underscore_r()) == Some((base, rev)),
{
    let v = base + underscore_r() + rev;
    let n = base.len() as int;
    assert(v.subrange(n, n + 2) =~= underscore_r());
    assert(matches_at(v, underscore_r(), n));
    assert forall|k: int| 0 <= k < n implies !matches_at(v, underscore_r(), k) by {
        if matches_at(v, underscore_r(), k) {
            if k + 2 <= n {
                assert(base.subrange(k, k + 2) =~= v.subrange(k, k + 2));
                assert(matches_at(base, underscore_r(), k));
            } else {
                assert(v.subrange(k, k + 2)[1] == v[n]);
                assert(v[n] == '_');
            }
        }
    }
    lemma_find_first(v, underscore_r(), 0, n);
    assert(v.take(n) =~= base);
    assert(v.skip(n + 2) =~= rev);
}

/// When nothing matches before `n` and `n` matches, the search from `i` finds `n`.
pub proof fn lemma_find_first(s: Seq<char>, pat: Seq<char>, i: int, n: int)
    requires
        0 <= i <= n,
        matches_at(s, pat, n),
        forall|k: int| i <= k < n ==> !matches_at(s, pat, k),
    ensures
        find_from(s, pat, i) == Some(n),
    decreases n - i,
{
    if i < n {
        lemma_find_first(s, pat, i + 1, n);
    }
}

/// The directory that names the hint exactly wins over every other version.
pub proof fn law_exact_version_wins(
    root: Seq<char>,
    suite: Seq<char>,
    suite_dir: Seq<char>,
    hint: Seq<char>,
    versions: Seq<Seq<char>>,
)
    requires
        trim(hint).len() > 0,
    ensures
        resolved_suite_root(root, suite, suite_dir, hint, true, versions) == Ok::<Seq<char>, Seq<char>>(
            versioned_root(root, suite, trim(hint), suite_dir),
        ),
{
}

/// With a blank hint every listed version is a candidate: when some version
/// is listed, the tools directory is found, under the first listed version
/// of least rank.
pub proof fn law_blank_hint_takes_lowest_rank(
    root: Seq<char>,
    suite: Seq<char>,
    suite_dir: Seq<char>,
    hint: Seq<char>,
    exact_is_dir: bool,
    versions: Seq<Seq<char>>,
)
    requires
        trim(hint).len() == 0,
        versions.len() > 0,
    ensures
        exists|m: int|
            #![trigger versions[m]]
            0 <= m < versions.len() && resolved_suite_root(root, suite, suite_dir, hint, exact_is_dir, versions)
                == Ok::<Seq<char>, Seq<char>>(versioned_root(root, suite, versions[m], suite_dir)) && (forall|j: int|
                0 <= j < versions.len() ==> !rank_lt(version_rank(#[trigger] versions[j]), version_rank(versions[m])))
                && (forall|j: int|
                0 <= j < m ==> rank_lt(version_rank(versions[m]), version_rank(#[trigger] versions[j]))),
{
    let h = trim(hint);
    lemma_best_candidate(versions, h, versions.len() as int);
    assert(is_candidate(versions[0], h));
    let m = best_candidate(versions, h, versions.len() as int)->0;
    assert forall|j: int| 0 <= j < versions.len() implies is_candidate(versions[j], h) by {}
    assert(versions[m] == versions[m]);
}

} // verus!

verus! {

/// Sorting versions by rank keeps every version once.
pub proof fn law_rank_order_is_permutation(vs: Seq<Seq<char>>, p: Seq<int>)
    requires
        is_stable_rank_order(vs, p),
    ensures
        p.no_duplicates(),
        forall|i: int| 0 <= i < vs.len() ==> p.contains(i),
{
    assert forall|a: int, b: int| 0 <= a < p.len() && 0 <= b < p.len() && a != b implies p[a] != p[b] by {
        let x = if a < b { a } else { b };
        let y = if a < b { b } else { a };
        assert(before_in_rank_order(vs, p[x], p[y]));
    }
    p.unique_seq_to_set();
    vstd::set_lib::lemma_int_range(0, vs.len() as int);
    let range = vstd::set_lib::set_int_range(0, vs.len() as int);
    assert(p.to_set().subset_of(range));
    vstd::seq_lib::seq_to_set_is_finite(p);
    vstd::set_lib::lemma_subset_equality(p.to_set(), range);
    assert forall|i: int| 0 <= i < vs.len() implies p.contains(i) by {
        assert(range.contains(i));
        assert(p.to_set().contains(i));
    }
}

} // verus!
