use vstd::prelude::*;

use crate::order::{
    lemma_text_lt_irreflexive, lemma_text_lt_total, lemma_text_lt_transitive, str_lt,
    strictly_sorted, text_lt,
};
use crate::registry::contains_string;
use crate::text::{chars_of, str_eq, text_views};

verus! {

/// Adds `x` to a strictly sorted list, at its place, unless it is there.
pub fn insert_sorted(v: &mut Vec<String>, x: String)
    requires
        strictly_sorted(text_views(old(v)@)),
    ensures
        strictly_sorted(text_views(final(v)@)),
        text_views(final(v)@).to_set() == text_views(old(v)@).to_set().insert(x@),
{
    let ghost old_v = text_views(v@);
    let mut p: usize = 0;
    while p < v.len() && str_lt(v[p].as_str(), x.as_str())
        invariant
            p <= v.len(),
            old_v == text_views(v@),
            forall|j: int| 0 <= j < p ==> text_lt(#[trigger] old_v[j], x@),
        decreases v.len() - p,
    {
        p = p + 1;
    }
    if p < v.len() && str_eq(v[p].as_str(), x.as_str()) {
        assert(old_v[p as int] == x@);
        assert(old_v.to_set().insert(x@) =~= old_v.to_set());
        return;
    }
    let ghost xv = x@;
    proof {
        if p < old_v.len() {
            lemma_text_lt_total(old_v[p as int], xv);
        }
    }
    v.insert(p, x);
    let ghost w = text_views(v@);
    assert(w =~= old_v.subrange(0, p as int) + seq![xv] + old_v.subrange(p as int, old_v.len() as int));
    assert forall|i: int, j: int| 0 <= i < j < w.len() implies text_lt(#[trigger] w[i], #[trigger] w[j]) by {
        if j < p {
            assert(w[i] == old_v[i] && w[j] == old_v[j]);
        } else if j == p {
            assert(w[i] == old_v[i] && w[j] == xv);
        } else if i < p {
            assert(w[i] == old_v[i] && w[j] == old_v[j - 1]);
            assert(text_lt(old_v[i], xv));
            assert(text_lt(xv, old_v[p as int]));
            if j - 1 > p {
                lemma_text_lt_transitive(xv, old_v[p as int], old_v[j - 1]);
            }
            lemma_text_lt_transitive(old_v[i], xv, old_v[j - 1]);
        } else if i == p {
            assert(w[i] == xv && w[j] == old_v[j - 1]);
            if j - 1 > p {
                lemma_text_lt_transitive(xv, old_v[p as int], old_v[j - 1]);
            }
        } else {
            assert(w[i] == old_v[i - 1] && w[j] == old_v[j - 1]);
        }
    }
    assert forall|y: Seq<char>| #[trigger] w.to_set().contains(y) == old_v.to_set().insert(xv).contains(y) by {
        if w.contains(y) {
            let k = choose|k: int| 0 <= k < w.len() && w[k] == y;
            if k < p {
                assert(old_v[k] == y);
            } else if k > p {
                assert(old_v[k - 1] == y);
            }
        }
        if old_v.contains(y) {
            let k = choose|k: int| 0 <= k < old_v.len() && old_v[k] == y;
            if k < p {
                assert(w[k] == y);
            } else {
                assert(w[k + 1] == y);
            }
        }
        if y == xv {
            assert(w[p as int] == y);
        }
    }
    assert(w.to_set() =~= old_v.to_set().insert(xv));
}

} // verus!

verus! {

/// The state of the runs in progress, as the laws see it: whether any is
/// running, the processes by run, the root, the held devices, and the log
/// being followed.
pub struct ActiveView {
    pub running: bool,
    pub pids: Seq<(Seq<char>, u32)>,
    pub root: Option<Seq<char>>,
    pub busy: Set<Seq<char>>,
    pub log_file: Option<Seq<char>>,
}

pub open spec fn opt_text(o: Option<String>) -> Option<Seq<char>> {
    match o {
        Some(s) => Some(s@),
        None => None,
    }
}

pub open spec fn pid_views(p: Seq<(String, u32)>) -> Seq<(Seq<char>, u32)> {
    p.map_values(|e: (String, u32)| (e.0@, e.1))
}

/// A run starting on devices: running, at its root, holding them too.
pub open spec fn started(a: ActiveView, root: Seq<char>, selected: Seq<Seq<char>>) -> ActiveView {
    ActiveView { running: true, root: Some(root), busy: a.busy.union(selected.to_set()), ..a }
}

/// A run ending: its devices are released; nothing runs once no device is
/// held and no process is left, and then the root is dropped (and the log,
/// when asked).
pub open spec fn finished(a: ActiveView, serials: Seq<Seq<char>>, forget_log: bool) -> ActiveView {
    let busy = a.busy.difference(serials.to_set());
    let running = busy != Set::<Seq<char>>::empty() || a.pids.len() > 0;
    ActiveView {
        running,
        pids: a.pids,
        root: if running { a.root } else { None },
        busy,
        log_file: if !running && forget_log { None } else { a.log_file },
    }
}

/// The processes to stop on a cancel: none when nothing runs; else those of
/// the run asked for, or all.
pub open spec fn pid_targets(pids: Seq<(Seq<char>, u32)>, run_id: Option<Seq<char>>) -> Seq<u32>
    decreases pids.len(),
{
    if pids.len() == 0 {
        seq![]
    } else {
        let rest = pid_targets(pids.drop_last(), run_id);
        match run_id {
            Some(r) => if pids.last().0 == r { rest.push(pids.last().1) } else { rest },
            None => rest.push(pids.last().1),
        }
    }
}

pub open spec fn without_pid(pids: Seq<(Seq<char>, u32)>, pid: u32) -> Seq<(Seq<char>, u32)>
    decreases pids.len(),
{
    if pids.len() == 0 {
        seq![]
    } else {
        let rest = without_pid(pids.drop_last(), pid);
        if pids.last().1 == pid { rest } else { rest.push(pids.last()) }
    }
}

/// The runs in progress: whether any runs, their processes, the root, the
/// devices they hold (sorted, once each), and the log being followed.
pub struct ActiveRun {
    running: bool,
    pids: Vec<(String, u32)>,
    root: Option<String>,
    busy_serials: Vec<String>,
    log_file: Option<String>,
}

impl ActiveRun {
    #[verifier::type_invariant]
    spec fn wf(self) -> bool {
        strictly_sorted(text_views(self.busy_serials@))
    }

    pub closed spec fn view(self) -> ActiveView {
        ActiveView {
            running: self.running,
            pids: pid_views(self.pids@),
            root: opt_text(self.root),
            busy: text_views(self.busy_serials@).to_set(),
            log_file: opt_text(self.log_file),
        }
    }

    /// The held devices in sorted order.
    pub closed spec fn busy_list(self) -> Seq<Seq<char>> {
        text_views(self.busy_serials@)
    }

    pub fn new() -> (r: Self)
        ensures
            !r.view().running,
            r.view().pids.len() == 0,
            r.view().root is None,
            r.view().busy == Set::<Seq<char>>::empty(),
            r.view().log_file is None,
    {
        let r = ActiveRun { running: false, pids: Vec::new(), root: None, busy_serials: Vec::new(), log_file: None };
        assert(text_views(r.busy_serials@) =~= Seq::<Seq<char>>::empty());
        assert(r.view().busy =~= Set::<Seq<char>>::empty());
        assert(r.view().pids =~= Seq::<(Seq<char>, u32)>::empty());
        r
    }

    pub fn running(&self) -> (r: bool)
        ensures
            r == self.view().running,
    {
        self.running
    }

    pub fn root(&self) -> (r: Option<String>)
        ensures
            opt_text(r) == self.view().root,
    {
        match &self.root {
            Some(s) => Some(s.clone()),
            None => None,
        }
    }

    pub fn log_file(&self) -> (r: Option<String>)
        ensures
            opt_text(r) == self.view().log_file,
    {
        match &self.log_file {
            Some(s) => Some(s.clone()),
            None => None,
        }
    }

    /// The held devices, sorted, each once.
    pub fn busy_serials(&self) -> (r: Vec<String>)
        ensures
            text_views(r@) == self.busy_list(),
            strictly_sorted(text_views(r@)),
            text_views(r@).to_set() == self.view().busy,
    {
        proof {
            use_type_invariant(self);
        }
        crate::request::clone_strings(&self.busy_serials)
    }

    /// A run starts on `selected` from `root`.
    pub fn start_run(&mut self, root: String, selected: &Vec<String>)
        ensures
            final(self).view() == started(old(self).view(), root@, text_views(selected@)),
    {
        proof {
            use_type_invariant(&*self);
        }
        let ghost a = self.view();
        let ghost sv = text_views(selected@);
        let mut busy: Vec<String> = Vec::new();
        std::mem::swap(&mut busy, &mut self.busy_serials);
        let mut i: usize = 0;
        while i < selected.len()
            invariant
                i <= selected.len(),
                sv == text_views(selected@),
                strictly_sorted(text_views(busy@)),
                text_views(busy@).to_set() == a.busy.union(sv.take(i as int).to_set()),
            decreases selected.len() - i,
        {
            insert_sorted(&mut busy, selected[i].clone());
            proof {
                assert(sv.take(i + 1) =~= sv.take(i as int).push(sv[i as int]));
                sv.take(i as int).lemma_push_to_set_commute(sv[i as int]);
                assert(a.busy.union(sv.take(i as int).to_set()).insert(sv[i as int]) =~= a.busy.union(
                    sv.take(i + 1).to_set(),
                ));
            }
            i = i + 1;
        }
        assert(sv.take(selected.len() as int) =~= sv);
        self.busy_serials = busy;
        self.running = true;
        self.root = Some(root);
    }

    /// Follows `path` as the log of the runs.
    pub fn set_log_file(&mut self, path: String)
        ensures
            final(self).view() == (ActiveView { log_file: Some(path@), ..old(self).view() }),
    {
        proof {
            use_type_invariant(&*self);
        }
        self.log_file = Some(path);
    }

    /// A process of the run `run_id` started.
    pub fn register_pid(&mut self, run_id: String, pid: u32)
        ensures
            final(self).view() == (ActiveView { pids: old(self).view().pids.push((run_id@, pid)), ..old(self).view() }),
    {
        proof {
            use_type_invariant(&*self);
        }
        let ghost before = self.pids@;
        let ghost k = run_id@;
        let mut pids: Vec<(String, u32)> = Vec::new();
        std::mem::swap(&mut pids, &mut self.pids);
        pids.push((run_id, pid));
        assert(pid_views(pids@) =~= pid_views(before).push((k, pid)));
        self.pids = pids;
    }

    /// The process `pid` ended.
    pub fn unregister_pid(&mut self, pid: u32)
        ensures
            final(self).view() == (ActiveView { pids: without_pid(old(self).view().pids, pid), ..old(self).view() }),
    {
        proof {
            use_type_invariant(&*self);
        }
        let ghost pv = pid_views(self.pids@);
        let mut kept: Vec<(String, u32)> = Vec::new();
        let mut i: usize = 0;
        while i < self.pids.len()
            invariant
                i <= self.pids.len(),
                pv == pid_views(self.pids@),
                pid_views(kept@) == without_pid(pv.take(i as int), pid),
            decreases self.pids.len() - i,
        {
            proof {
                assert(pv.take(i + 1).drop_last() =~= pv.take(i as int));
                assert(pv.take(i + 1).last() == pv[i as int]);
            }
            if self.pids[i].1 != pid {
                let ghost before = kept@;
                kept.push((self.pids[i].0.clone(), self.pids[i].1));
                assert(pid_views(kept@) =~= pid_views(before).push(pv[i as int]));
            }
            i = i + 1;
        }
        assert(pv.take(self.pids.len() as int) =~= pv);
        self.pids = kept;
    }

    /// The processes a cancel stops: `None` when nothing runs.
    pub fn cancel_targets(&self, run_id: &Option<String>) -> (r: Option<Vec<u32>>)
        ensures
            !self.view().running <==> r is None,
            r matches Some(v) ==> v@ == pid_targets(self.view().pids, opt_text(*run_id)),
    {
        if !self.running {
            return None;
        }
        let ghost pv = pid_views(self.pids@);
        let ghost rv = opt_text(*run_id);
        let mut out: Vec<u32> = Vec::new();
        let mut i: usize = 0;
        while i < self.pids.len()
            invariant
                i <= self.pids.len(),
                pv == pid_views(self.pids@),
                rv == opt_text(*run_id),
                out@ == pid_targets(pv.take(i as int), rv),
            decreases self.pids.len() - i,
        {
            proof {
                assert(pv.take(i + 1).drop_last() =~= pv.take(i as int));
                assert(pv.take(i + 1).last() == pv[i as int]);
            }
            match run_id {
                Some(r) => {
                    if str_eq(self.pids[i].0.as_str(), r.as_str()) {
                        out.push(self.pids[i].1);
                    }
                },
                None => {
                    out.push(self.pids[i].1);
                },
            }
            i = i + 1;
        }
        assert(pv.take(self.pids.len() as int) =~= pv);
        Some(out)
    }

    /// Ends every run after a cancel; gives back the root and the devices
    /// that were held, for the registry to be cleared.
    pub fn cancel_all(&mut self) -> (r: (Option<String>, Vec<String>))
        ensures
            opt_text(r.0) == old(self).view().root,
            text_views(r.1@).to_set() == old(self).view().busy,
            final(self).view() == (ActiveView {
                running: false,
                pids: Seq::empty(),
                root: None,
                busy: Set::empty(),
                log_file: old(self).view().log_file,
            }),
    {
        proof {
            use_type_invariant(&*self);
        }
        let mut root: Option<String> = None;
        std::mem::swap(&mut root, &mut self.root);
        let mut busy: Vec<String> = Vec::new();
        std::mem::swap(&mut busy, &mut self.busy_serials);
        self.running = false;
        self.pids = Vec::new();
        assert(text_views(self.busy_serials@) =~= Seq::<Seq<char>>::empty());
        assert(text_views(self.busy_serials@).to_set() =~= Set::<Seq<char>>::empty());
        assert(pid_views(self.pids@) =~= Seq::<(Seq<char>, u32)>::empty());
        (root, busy)
    }

    /// Forgets every run (the registry file is removed beside this).
    pub fn reset(&mut self)
        ensures
            final(self).view() == (ActiveView {
                running: false,
                pids: Seq::empty(),
                root: None,
                busy: Set::empty(),
                log_file: None,
            }),
    {
        proof {
            use_type_invariant(&*self);
        }
        self.running = false;
        self.busy_serials = Vec::new();
        self.pids = Vec::new();
        self.root = None;
        self.log_file = None;
        assert(text_views(self.busy_serials@) =~= Seq::<Seq<char>>::empty());
        assert(text_views(self.busy_serials@).to_set() =~= Set::<Seq<char>>::empty());
        assert(pid_views(self.pids@) =~= Seq::<(Seq<char>, u32)>::empty());
    }
}


impl ActiveRun {
    /// A run on `serials` ended: its devices are released and, once nothing
    /// runs, the root (and the log, when `forget_log`) is dropped. Gives the
    /// log that was followed before.
    pub fn finish_run(&mut self, serials: &Vec<String>, forget_log: bool) -> (r: Option<String>)
        ensures
            opt_text(r) == old(self).view().log_file,
            final(self).view() == finished(old(self).view(), text_views(serials@), forget_log),
    {
        proof {
            use_type_invariant(&*self);
        }
        let ghost a = self.view();
        let ghost ov = text_views(self.busy_serials@);
        let ghost sv = text_views(serials@);
        let mut kept: Vec<String> = Vec::new();
        let mut i: usize = 0;
        while i < self.busy_serials.len()
            invariant
                i <= self.busy_serials.len(),
                ov == text_views(self.busy_serials@),
                strictly_sorted(ov),
                sv == text_views(serials@),
                strictly_sorted(text_views(kept@)),
                forall|x: int| #![trigger text_views(kept@)[x]] 0 <= x < kept.len() ==> exists|k: int| 0 <= k < i && #[trigger] ov[k] == text_views(kept@)[x],
                text_views(kept@).to_set() == ov.take(i as int).to_set().difference(sv.to_set()),
            decreases self.busy_serials.len() - i,
        {
            let ghost before = text_views(kept@);
            let ghost y = ov[i as int];
            proof {
                assert(ov.take(i + 1) =~= ov.take(i as int).push(y));
                ov.take(i as int).lemma_push_to_set_commute(y);
            }
            if !contains_string(serials, &chars_of(self.busy_serials[i].as_str())) {
                kept.push(self.busy_serials[i].clone());
                proof {
                    let kv = text_views(kept@);
                    assert(kv =~= before.push(y));
                    before.lemma_push_to_set_commute(y);
                    assert(crate::request::string_views(serials@) =~= sv);
                    assert forall|p: int, q: int| 0 <= p < q < kv.len() implies text_lt(#[trigger] kv[p], #[trigger] kv[q]) by {
                        if q == kv.len() - 1 {
                            let k = choose|k: int| 0 <= k < i && #[trigger] ov[k] == before[p];
                            assert(text_lt(ov[k], ov[i as int]));
                        } else {
                            assert(kv[p] == before[p] && kv[q] == before[q]);
                        }
                    }
                    assert forall|x: int| #![trigger kv[x]] 0 <= x < kv.len() implies exists|k: int| 0 <= k < i + 1 && #[trigger] ov[k] == kv[x] by {
                        if x == kv.len() - 1 {
                            assert(ov[i as int] == kv[x]);
                        } else {
                            let k = choose|k: int| 0 <= k < i && #[trigger] ov[k] == before[x];
                            assert(ov[k] == kv[x]);
                        }
                    }
                    assert(kv.to_set() =~= ov.take(i + 1).to_set().difference(sv.to_set()));
                }
            } else {
                proof {
                    assert(text_views(kept@).to_set() =~= ov.take(i + 1).to_set().difference(sv.to_set()));
                    assert forall|x: int| #![trigger text_views(kept@)[x]] 0 <= x < kept.len() implies exists|k: int| 0 <= k < i + 1 && #[trigger] ov[k] == text_views(kept@)[x] by {
                        let k = choose|k: int| 0 <= k < i && #[trigger] ov[k] == text_views(kept@)[x];
                    }
                }
            }
            i = i + 1;
        }
        assert(ov.take(ov.len() as int) =~= ov);
        let ghost nb = text_views(kept@).to_set();
        assert(nb == a.busy.difference(sv.to_set()));
        proof {
            if kept.len() > 0 {
                assert(nb.contains(text_views(kept@)[0]));
            } else {
                assert(nb =~= Set::<Seq<char>>::empty());
            }
        }
        self.busy_serials = kept;
        self.running = self.busy_serials.len() > 0 || self.pids.len() > 0;
        let log = match &self.log_file {
            Some(s) => Some(s.clone()),
            None => None,
        };
        if !self.running {
            self.root = None;
            if forget_log {
                self.log_file = None;
            }
        }
        log
    }
}

/// Ending a run on every device it held, once no process is left, stops
/// the runner and drops its root: the state `start_run` set up is undone.
pub proof fn law_finish_releases_start(a: ActiveView, root: Seq<char>, selected: Seq<Seq<char>>, forget_log: bool)
    requires
        a.busy.subset_of(selected.to_set()),
        a.pids.len() == 0,
    ensures
        !finished(started(a, root, selected), selected, forget_log).running,
        finished(started(a, root, selected), selected, forget_log).root is None,
        finished(started(a, root, selected), selected, forget_log).busy == Set::<Seq<char>>::empty(),
{
    let b = started(a, root, selected).busy.difference(selected.to_set());
    assert(b =~= Set::<Seq<char>>::empty());
}

/// A run that ends releases exactly its own devices: those of other runs
/// stay held.
pub proof fn law_finish_keeps_other_devices(a: ActiveView, serials: Seq<Seq<char>>, forget_log: bool, d: Seq<char>)
    requires
        a.busy.contains(d),
        !serials.contains(d),
    ensures
        finished(a, serials, forget_log).busy.contains(d),
        finished(a, serials, forget_log).running,
{
    assert(!serials.to_set().contains(d));
    assert(finished(a, serials, forget_log).busy.contains(d));
    assert(!Set::<Seq<char>>::empty().contains(d));
}

} // verus!
