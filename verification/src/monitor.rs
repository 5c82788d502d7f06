use vstd::prelude::*;

use crate::names::append_decimal;
use crate::num::decimal;
use crate::text::{
    chars_of, contains, contains_exec, join_sep, join_strings, lines, lines_exec, str_eq, string_of,
    text_views, trim, trim_vec, views,
};

verus! {

/// How long a suite waits for a lost device to come back.
pub const DEVICE_RECONNECT_TIMEOUT_SECS: u64 = 300;

/// How often the devices of a running suite are checked, in seconds.
pub const DEVICE_CHECK_INTERVAL_SECS: u64 = 5;

/// What polling the tradefed process gave.
pub enum ChildPoll {
    Exited(i32),
    Running,
    WaitFailed(String),
}

/// Something the monitor reports while a suite runs.
pub enum MonitorEffect {
    Log(String),
    Status { status: String, elapsed_secs: u64 },
}

/// What the caller does next.
#[derive(PartialEq, Eq, Structural, Clone, Copy, Debug)]
pub enum MonitorNext {
    /// Read the suite log and report whether it holds a completion marker.
    ReadMarker,
    /// Ask each device for its state and report the ones that are missing.
    CheckDevices,
    /// Sleep a second, then poll the process again.
    Sleep,
    /// Stop with `code`; terminate the process tree first when asked, and
    /// then wait for it when asked.
    Finish { code: i32, terminate: bool, wait_child: bool },
}

/// A log line (no elapsed time) or a status with its elapsed seconds.
pub type EffectView = (Seq<char>, Option<u64>);

pub open spec fn effect_view(e: MonitorEffect) -> EffectView {
    match e {
        MonitorEffect::Log(l) => (l@, None),
        MonitorEffect::Status { status, elapsed_secs } => (status@, Some(elapsed_secs)),
    }
}

pub open spec fn effects_view(v: Seq<MonitorEffect>) -> Seq<EffectView> {
    v.map_values(|e: MonitorEffect| effect_view(e))
}

/// The watch kept over one running suite; times are milliseconds since it started.
pub struct Monitor {
    pub suite: String,
    pub timeout_secs: u64,
    pub publish: bool,
    pub disconnected_since_ms: Option<u64>,
    pub last_check_ms: Option<u64>,
}

/// The devices are due a check when none was made yet, or five seconds have passed.
pub open spec fn check_due(last_check_ms: Option<u64>, now_ms: u64) -> bool {
    match last_check_ms {
        None => true,
        Some(t) => t <= now_ms && (now_ms - t) / 1000 >= DEVICE_CHECK_INTERVAL_SECS,
    }
}

/// After the checks of a tick: past the timeout the suite stops with 124,
/// else it keeps running.
pub open spec fn tail_step(publish: bool, timeout_secs: u64, now_ms: u64) -> (Seq<EffectView>, MonitorNext) {
    let elapsed = now_ms / 1000;
    if elapsed > timeout_secs {
        (
            if publish { seq![("Timeout"@, Some(elapsed as u64))] } else { seq![] },
            MonitorNext::Finish { code: 124, terminate: true, wait_child: false },
        )
    } else {
        (if publish { seq![("Running"@, Some(elapsed as u64))] } else { seq![] }, MonitorNext::Sleep)
    }
}

pub open spec fn tagged(suite: Seq<char>, text: Seq<char>) -> Seq<char> {
    "["@ + suite + "] "@ + text
}

pub open spec fn runner_line(suite: Seq<char>, text: Seq<char>) -> Seq<char> {
    "[runner] "@ + suite + text
}

impl Monitor {
    pub fn new(suite: String, timeout_secs: u64, publish: bool) -> (m: Self)
        ensures
            m.suite == suite,
            m.timeout_secs == timeout_secs,
            m.publish == publish,
            m.disconnected_since_ms is None,
            m.last_check_ms is None,
    {
        Monitor { suite, timeout_secs, publish, disconnected_since_ms: None, last_check_ms: None }
    }

    fn tail(&self, now_ms: u64, effects: &mut Vec<MonitorEffect>) -> (next: MonitorNext)
        ensures
            effects_view(final(effects)@) == effects_view(old(effects)@) + tail_step(self.publish, self.timeout_secs, now_ms).0,
            next == tail_step(self.publish, self.timeout_secs, now_ms).1,
    {
        let elapsed = now_ms / 1000;
        let ghost before = old(effects)@;
        if elapsed > self.timeout_secs {
            if self.publish {
                effects.push(MonitorEffect::Status { status: "Timeout".to_string(), elapsed_secs: elapsed });
            }
            assert(effects_view(effects@) =~= effects_view(before) + tail_step(self.publish, self.timeout_secs, now_ms).0);
            MonitorNext::Finish { code: 124, terminate: true, wait_child: false }
        } else {
            if self.publish {
                effects.push(MonitorEffect::Status { status: "Running".to_string(), elapsed_secs: elapsed });
            }
            assert(effects_view(effects@) =~= effects_view(before) + tail_step(self.publish, self.timeout_secs, now_ms).0);
            MonitorNext::Sleep
        }
    }

    /// The process was polled: it exited with its code (or 1 when the wait
    /// itself failed), or the log is read next.
    pub fn on_child(&mut self, poll: ChildPoll) -> (r: (Vec<MonitorEffect>, MonitorNext))
        ensures
            *final(self) == *old(self),
            match poll {
                ChildPoll::Exited(code) => effects_view(r.0@) == Seq::<EffectView>::empty()
                    && r.1 == (MonitorNext::Finish { code: code, terminate: false, wait_child: false }),
                ChildPoll::WaitFailed(err) => effects_view(r.0@) == seq![
                    (tagged(old(self).suite@, "wait failed: "@ + err@), None::<u64>)]
                    && r.1 == (MonitorNext::Finish { code: 1, terminate: false, wait_child: false }),
                ChildPoll::Running => effects_view(r.0@) == Seq::<EffectView>::empty()
                    && r.1 == MonitorNext::ReadMarker,
            },
    {
        let mut effects: Vec<MonitorEffect> = Vec::new();
        match poll {
            ChildPoll::Exited(code) => {
                assert(effects_view(effects@) =~= Seq::<EffectView>::empty());
                (effects, MonitorNext::Finish { code, terminate: false, wait_child: false })
            },
            ChildPoll::WaitFailed(err) => {
                let mut l = "[".to_string();
                l.append(self.suite.as_str());
                l.append("] ");
                l.append("wait failed: ");
                l.append(err.as_str());
                assert(l@ =~= tagged(self.suite@, "wait failed: "@ + err@));
                effects.push(MonitorEffect::Log(l));
                assert(effects_view(effects@) =~= seq![(tagged(self.suite@, "wait failed: "@ + err@), None::<u64>)]);
                (effects, MonitorNext::Finish { code: 1, terminate: false, wait_child: false })
            },
            ChildPoll::Running => {
                assert(effects_view(effects@) =~= Seq::<EffectView>::empty());
                (effects, MonitorNext::ReadMarker)
            },
        }
    }

    /// The log was read: a completion marker closes the console with 0;
    /// otherwise the devices are checked when due, and the timeout after.
    pub fn on_marker(&mut self, now_ms: u64, found: bool) -> (r: (Vec<MonitorEffect>, MonitorNext))
        ensures
            final(self).suite == old(self).suite,
            final(self).timeout_secs == old(self).timeout_secs,
            final(self).publish == old(self).publish,
            final(self).disconnected_since_ms == old(self).disconnected_since_ms,
            found ==> effects_view(r.0@) == seq![
                (tagged(old(self).suite@, "completion marker detected; closing tradefed console."@), None::<u64>)]
                && r.1 == (MonitorNext::Finish { code: 0, terminate: true, wait_child: true })
                && final(self).last_check_ms == old(self).last_check_ms,
            !found && check_due(old(self).last_check_ms, now_ms) ==> effects_view(r.0@) == Seq::<EffectView>::empty()
                && r.1 == MonitorNext::CheckDevices && final(self).last_check_ms == Some(now_ms),
            !found && !check_due(old(self).last_check_ms, now_ms) ==>
                effects_view(r.0@) == tail_step(old(self).publish, old(self).timeout_secs, now_ms).0
                && r.1 == tail_step(old(self).publish, old(self).timeout_secs, now_ms).1
                && final(self).last_check_ms == old(self).last_check_ms,
    {
        let mut effects: Vec<MonitorEffect> = Vec::new();
        if found {
            let mut l = "[".to_string();
            l.append(self.suite.as_str());
            l.append("] ");
            l.append("completion marker detected; closing tradefed console.");
            effects.push(MonitorEffect::Log(l));
            assert(effects_view(effects@) =~= seq![
                (tagged(self.suite@, "completion marker detected; closing tradefed console."@), None::<u64>)]);
            return (effects, MonitorNext::Finish { code: 0, terminate: true, wait_child: true });
        }
        let due = match self.last_check_ms {
            None => true,
            Some(t) => t <= now_ms && (now_ms - t) / 1000 >= DEVICE_CHECK_INTERVAL_SECS,
        };
        if due {
            self.last_check_ms = Some(now_ms);
            assert(effects_view(effects@) =~= Seq::<EffectView>::empty());
            return (effects, MonitorNext::CheckDevices);
        }
        assert(effects_view(effects@) =~= Seq::<EffectView>::empty());
        let next = self.tail(now_ms, &mut effects);
        assert(effects_view(effects@) =~= tail_step(self.publish, self.timeout_secs, now_ms).0);
        (effects, next)
    }
}

/// What the monitor reports and decides once the missing devices are known.
pub open spec fn devices_step(
    m: Monitor,
    now_ms: u64,
    missing: Seq<Seq<char>>,
) -> (Seq<EffectView>, MonitorNext, Option<u64>) {
    let el = (now_ms / 1000) as u64;
    if missing.len() == 0 {
        let pre: Seq<EffectView> = if m.disconnected_since_ms is Some {
            seq![(runner_line(m.suite@, ": device reconnected; continuing monitor."@), None::<u64>)] + (if m.publish {
                seq![("Running"@, Some(el))]
            } else {
                seq![]
            })
        } else {
            seq![]
        };
        (pre + tail_step(m.publish, m.timeout_secs, now_ms).0, tail_step(m.publish, m.timeout_secs, now_ms).1, None)
    } else {
        let since = match m.disconnected_since_ms {
            Some(t) => t,
            None => now_ms,
        };
        let waited = if since <= now_ms { (now_ms - since) / 1000 } else { 0 };
        let pre: Seq<EffectView> = seq![(
            runner_line(m.suite@, ": waiting device reconnect ("@) + decimal(waited as nat) + "/300s): "@
                + join_sep(missing, ","@),
            None::<u64>,
        )] + (if m.publish { seq![("Waiting device reconnect"@, Some(el))] } else { seq![] });
        if waited > DEVICE_RECONNECT_TIMEOUT_SECS {
            (
                pre + seq![(runner_line(m.suite@, ": reconnect timeout; terminating tradefed."@), None::<u64>)],
                MonitorNext::Finish { code: 125, terminate: true, wait_child: true },
                Some(since),
            )
        } else {
            (pre + tail_step(m.publish, m.timeout_secs, now_ms).0, tail_step(m.publish, m.timeout_secs, now_ms).1, Some(since))
        }
    }
}

impl Monitor {
    /// The devices were checked: a device back clears the wait; devices
    /// missing for more than the reconnect timeout stop the suite with 125;
    /// otherwise the timeout is checked.
    pub fn on_devices(&mut self, now_ms: u64, missing: &Vec<String>) -> (r: (Vec<MonitorEffect>, MonitorNext))
        ensures
            final(self).suite == old(self).suite,
            final(self).timeout_secs == old(self).timeout_secs,
            final(self).publish == old(self).publish,
            final(self).last_check_ms == old(self).last_check_ms,
            effects_view(r.0@) == devices_step(*old(self), now_ms, text_views(missing@)).0,
            r.1 == devices_step(*old(self), now_ms, text_views(missing@)).1,
            final(self).disconnected_since_ms == devices_step(*old(self), now_ms, text_views(missing@)).2,
    {
        let ghost m0 = *self;
        let el = now_ms / 1000;
        let mut effects: Vec<MonitorEffect> = Vec::new();
        if missing.len() == 0 {
            if self.disconnected_since_ms.is_some() {
                self.disconnected_since_ms = None;
                let mut l = "[runner] ".to_string();
                l.append(self.suite.as_str());
                l.append(": device reconnected; continuing monitor.");
                effects.push(MonitorEffect::Log(l));
                if self.publish {
                    effects.push(MonitorEffect::Status { status: "Running".to_string(), elapsed_secs: el });
                }
            }
            let ghost pre = effects_view(effects@);
            let next = self.tail(now_ms, &mut effects);
            assert(effects_view(effects@) =~= devices_step(m0, now_ms, text_views(missing@)).0);
            (effects, next)
        } else {
            let since = match self.disconnected_since_ms {
                Some(t) => t,
                None => now_ms,
            };
            self.disconnected_since_ms = Some(since);
            let waited = if since <= now_ms { (now_ms - since) / 1000 } else { 0 };
            let mut l = "[runner] ".to_string();
            l.append(self.suite.as_str());
            l.append(": waiting device reconnect (");
            append_decimal(&mut l, waited);
            l.append("/300s): ");
            l.append(join_strings(missing, ",").as_str());
            effects.push(MonitorEffect::Log(l));
            if self.publish {
                effects.push(MonitorEffect::Status { status: "Waiting device reconnect".to_string(), elapsed_secs: el });
            }
            if waited > DEVICE_RECONNECT_TIMEOUT_SECS {
                let mut t = "[runner] ".to_string();
                t.append(self.suite.as_str());
                t.append(": reconnect timeout; terminating tradefed.");
                effects.push(MonitorEffect::Log(t));
                assert(effects_view(effects@) =~= devices_step(m0, now_ms, text_views(missing@)).0);
                return (effects, MonitorNext::Finish { code: 125, terminate: true, wait_child: true });
            }
            let next = self.tail(now_ms, &mut effects);
            assert(effects_view(effects@) =~= devices_step(m0, now_ms, text_views(missing@)).0);
            (effects, next)
        }
    }
}

} // verus!

verus! {

/// `adb get-state` output as a state: trimmed, `unknown` when blank.
pub open spec fn state_text(output: Seq<char>) -> Seq<char> {
    if trim(output).len() == 0 { "unknown"@ } else { trim(output) }
}

pub fn adb_device_state(output: &str) -> (r: String)
    ensures
        r@ == state_text(output@),
{
    let t = trim_vec(&chars_of(output));
    if t.len() == 0 { "unknown".to_string() } else { string_of(&t) }
}

pub open spec fn result_view(r: Result<String, String>) -> Result<Seq<char>, Seq<char>> {
    match r {
        Ok(s) => Ok(s@),
        Err(e) => Err(e@),
    }
}

/// The devices whose state is not `device`, as `serial:state` (or
/// `serial:error` when the state could not be read).
pub open spec fn missing_list(checks: Seq<(Seq<char>, Result<Seq<char>, Seq<char>>)>) -> Seq<Seq<char>>
    decreases checks.len(),
{
    if checks.len() == 0 {
        seq![]
    } else {
        let rest = missing_list(checks.drop_last());
        let (serial, state) = checks.last();
        match state {
            Ok(s) => if s == "device"@ { rest } else { rest.push(serial + ":"@ + s) },
            Err(e) => rest.push(serial + ":"@ + e),
        }
    }
}

pub open spec fn checks_view(v: Seq<(String, Result<String, String>)>) -> Seq<(Seq<char>, Result<Seq<char>, Seq<char>>)> {
    v.map_values(|p: (String, Result<String, String>)| (p.0@, result_view(p.1)))
}

pub fn disconnected_devices(checks: &Vec<(String, Result<String, String>)>) -> (r: Vec<String>)
    ensures
        text_views(r@) == missing_list(checks_view(checks@)),
{
    let ghost cv = checks_view(checks@);
    let mut r: Vec<String> = Vec::new();
    let mut i: usize = 0;
    while i < checks.len()
        invariant
            i <= checks.len(),
            cv == checks_view(checks@),
            text_views(r@) == missing_list(cv.take(i as int)),
        decreases checks.len() - i,
    {
        proof {
            assert(cv.take(i + 1).drop_last() =~= cv.take(i as int));
            assert(cv.take(i + 1).last() == cv[i as int]);
        }
        let ghost before = r@;
        let serial = &checks[i].0;
        match &checks[i].1 {
            Ok(s) => {
                if !str_eq(s.as_str(), "device") {
                    let mut e = serial.clone();
                    e.append(":");
                    e.append(s.as_str());
                    r.push(e);
                    assert(text_views(r@) =~= text_views(before).push(serial@ + ":"@ + s@));
                }
            },
            Err(err) => {
                let mut e = serial.clone();
                e.append(":");
                e.append(err.as_str());
                r.push(e);
                assert(text_views(r@) =~= text_views(before).push(serial@ + ":"@ + err@));
            },
        }
        i = i + 1;
    }
    assert(cv.take(checks.len() as int) =~= cv);
    r
}

/// A line that tradefed prints once a suite is over.
pub open spec fn marker_line(l: Seq<char>) -> bool {
    contains(l, "Result/Log Location"@) || contains(l, "=============== Summary ==============="@)
}

/// One of the last 120 lines of the log is a marker line.
pub open spec fn has_completion_marker(content: Seq<char>) -> bool {
    let ls = lines(content);
    exists|i: int| ls.len() - 120 <= i < ls.len() && 0 <= i && #[trigger] marker_line(ls[i])
}

pub fn suite_log_has_completion_marker(content: &str) -> (r: bool)
    ensures
        r == has_completion_marker(content@),
{
    let ls = lines_exec(&chars_of(content));
    let ghost lv = views(ls@);
    let a = chars_of("Result/Log Location");
    let b = chars_of("=============== Summary ===============");
    let start: usize = if ls.len() > 120 { ls.len() - 120 } else { 0 };
    let mut i = start;
    while i < ls.len()
        invariant
            start <= i <= ls.len(),
            start as int == (if ls.len() > 120 { ls.len() - 120 } else { 0 }),
            lv == views(ls@),
            lv == lines(content@),
            a@ == "Result/Log Location"@,
            b@ == "=============== Summary ==============="@,
            forall|j: int| start <= j < i ==> !marker_line(lv[j]),
        decreases ls.len() - i,
    {
        assert(lv[i as int] == ls@[i as int]@);
        if contains_exec(&ls[i], &a) || contains_exec(&ls[i], &b) {
            assert(marker_line(lv[i as int]));
            return true;
        }
        i = i + 1;
    }
    false
}

} // verus!

verus! {

/// Past the timeout a suite stops with 124; before it, it keeps running.
pub proof fn law_timeout_stops_suite(publish: bool, timeout_secs: u64, now_ms: u64)
    ensures
        now_ms / 1000 > timeout_secs ==> tail_step(publish, timeout_secs, now_ms).1 == (MonitorNext::Finish {
            code: 124,
            terminate: true,
            wait_child: false,
        }),
        now_ms / 1000 <= timeout_secs ==> tail_step(publish, timeout_secs, now_ms).1 == MonitorNext::Sleep,
{
}

/// Devices that are all present never stop a suite: only its own timeout can.
pub proof fn law_present_devices_keep_suite(m: Monitor, now_ms: u64, missing: Seq<Seq<char>>)
    requires
        missing.len() == 0,
    ensures
        devices_step(m, now_ms, missing).1 == tail_step(m.publish, m.timeout_secs, now_ms).1,
        devices_step(m, now_ms, missing).2 is None,
{
}

/// A suite is stopped for lost devices (125) only when devices are missing
/// and were already missing at a check more than the reconnect timeout ago.
pub proof fn law_reconnect_timeout_needs_long_absence(m: Monitor, now_ms: u64, missing: Seq<Seq<char>>)
    requires
        devices_step(m, now_ms, missing).1 == (MonitorNext::Finish { code: 125, terminate: true, wait_child: true }),
    ensures
        missing.len() > 0,
        m.disconnected_since_ms matches Some(t) && t <= now_ms && (now_ms - t) / 1000 > DEVICE_RECONNECT_TIMEOUT_SECS,
{
    if missing.len() == 0 {
        assert(devices_step(m, now_ms, missing).1 == tail_step(m.publish, m.timeout_secs, now_ms).1);
    }
}

} // verus!
