use vstd::prelude::*;

use crate::strmap::StrMap;

verus! {

/// How far before the start of a run a result zip may be dated and still
/// count as its own (three seconds, in nanoseconds).
pub const ZIP_CLOCK_SLACK_NANOS: u128 = 3_000_000_000;

/// The earliest modification time a run's zip may have.
pub open spec fn zip_threshold(since: u128) -> u128 {
    if since >= ZIP_CLOCK_SLACK_NANOS { (since - ZIP_CLOCK_SLACK_NANOS) as u128 } else { 0 }
}

/// Scanning the zips found, in order, against the zips that were there
/// before the run (path to modification time): `None` once a time cannot
/// be read; otherwise the newest new or changed zip so far (time and
/// position, the first of equals), if any.
pub open spec fn newest_scan(
    before: Map<Seq<char>, u128>,
    found: Seq<(Seq<char>, Option<u128>)>,
    threshold: u128,
    n: int,
) -> Option<Option<(u128, int)>>
    decreases n,
{
    if n <= 0 || n > found.len() {
        Some(None)
    } else {
        match newest_scan(before, found, threshold, n - 1) {
            None => None,
            Some(cur) => {
                let (path, time) = found[n - 1];
                match time {
                    None => None,
                    Some(t) => if t < threshold || (before.contains_key(path) && before[path] == t) {
                        Some(cur)
                    } else {
                        match cur {
                            Some((ct, ci)) => if t <= ct { Some(cur) } else { Some(Some((t, n - 1))) },
                            None => Some(Some((t, n - 1))),
                        }
                    },
                }
            },
        }
    }
}

pub proof fn lemma_newest_scan(before: Map<Seq<char>, u128>, found: Seq<(Seq<char>, Option<u128>)>, threshold: u128, n: int)
    requires
        0 <= n <= found.len(),
    ensures
        newest_scan(before, found, threshold, n) matches Some(Some((t, i))) ==> 0 <= i < n,
    decreases n,
{
    if n > 0 {
        lemma_newest_scan(before, found, threshold, n - 1);
    }
}

pub open spec fn found_views(v: Seq<(String, Option<u128>)>) -> Seq<(Seq<char>, Option<u128>)> {
    v.map_values(|p: (String, Option<u128>)| (p.0@, p.1))
}

/// The zip a run produced among the zips found after it: the newest one
/// dated from three seconds before `since` on that was not there before
/// with the same time. Times are nanoseconds since the epoch.
pub fn newest_zip(before: &StrMap<u128>, found: &Vec<(String, Option<u128>)>, since: u128) -> (r: Option<String>)
    ensures
        match r {
            Some(p) => newest_scan(before.view(), found_views(found@), zip_threshold(since), found.len() as int) matches Some(Some((t, i)))
                && p@ == found_views(found@)[i].0,
            None => !(newest_scan(before.view(), found_views(found@), zip_threshold(since), found.len() as int) matches Some(Some(_))),
        },
{
    let threshold: u128 = if since >= ZIP_CLOCK_SLACK_NANOS { since - ZIP_CLOCK_SLACK_NANOS } else { 0 };
    let ghost fv = found_views(found@);
    let mut newest: Option<(u128, usize)> = None;
    let mut i: usize = 0;
    while i < found.len()
        invariant
            i <= found.len(),
            fv == found_views(found@),
            threshold == zip_threshold(since),
            newest_scan(before.view(), fv, threshold, i as int) == Some(match newest {
                Some((t, k)) => Some((t, k as int)),
                None => None::<(u128, int)>,
            }),
        decreases found.len() - i,
    {
        let t = match found[i].1 {
            None => {
                assert(newest_scan(before.view(), fv, threshold, i + 1) is None);
                proof {
                    lemma_none_stays(before.view(), fv, threshold, i + 1, found.len() as int);
                }
                return None;
            },
            Some(t) => t,
        };
        if t >= threshold {
            let unchanged = match before.get(found[i].0.as_str()) {
                Some(prev) => *prev == t,
                None => false,
            };
            if !unchanged {
                match newest {
                    Some((ct, _)) => {
                        if t > ct {
                            newest = Some((t, i));
                        }
                    },
                    None => {
                        newest = Some((t, i));
                    },
                }
            }
        }
        i = i + 1;
    }
    proof {
        lemma_newest_scan(before.view(), fv, threshold, found.len() as int);
    }
    match newest {
        Some((_, k)) => {
            assert(fv[k as int].0 == found@[k as int].0@);
            Some(found[k].0.clone())
        },
        None => None,
    }
}

proof fn lemma_none_stays(before: Map<Seq<char>, u128>, found: Seq<(Seq<char>, Option<u128>)>, threshold: u128, m: int, n: int)
    requires
        0 < m <= n <= found.len(),
        newest_scan(before, found, threshold, m) is None,
    ensures
        newest_scan(before, found, threshold, n) is None,
    decreases n - m,
{
    if m < n {
        lemma_none_stays(before, found, threshold, m, n - 1);
    }
}

} // verus!
