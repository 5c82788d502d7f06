use vstd::prelude::*;

verus! {

/// What `serde_json` reads from a text: `None` when it is not JSON;
/// otherwise the `exit_code` field as an `i64`, when there is one.
pub uninterp spec fn json_exit_code(text: Seq<char>) -> Option<Option<i64>>;

/// Parses the text as a `serde_json::Value` and reads its `exit_code` with
/// `Value::get` and `Value::as_i64`. What JSON a text holds is not restated
/// here: the result is named by `json_exit_code`, a function of the text.
#[verifier::external_body]
fn last_run_exit_code(text: &str) -> (r: Option<Option<i64>>)
    ensures
        r == json_exit_code(text@),
{
    match serde_json::from_str::<serde_json::Value>(text) {
        Ok(value) => Some(value.get("exit_code").and_then(serde_json::Value::as_i64)),
        Err(_) => None,
    }
}

/// What the runner reports of itself.
#[derive(PartialEq, Eq, Structural, Clone, Copy, Debug)]
pub enum RunnerStatus {
    Running,
    Done,
    Failed,
    Idle,
}

impl RunnerStatus {
    pub open spec fn text_of(self) -> Seq<char> {
        match self {
            RunnerStatus::Running => "RUNNING"@,
            RunnerStatus::Done => "DONE"@,
            RunnerStatus::Failed => "FAILED"@,
            RunnerStatus::Idle => "IDLE"@,
        }
    }

    pub fn as_text(&self) -> (r: String)
        ensures
            r@ == self.text_of(),
    {
        match self {
            RunnerStatus::Running => "RUNNING".to_string(),
            RunnerStatus::Done => "DONE".to_string(),
            RunnerStatus::Failed => "FAILED".to_string(),
            RunnerStatus::Idle => "IDLE".to_string(),
        }
    }
}

/// The state a finished run left, from what its status file parsed to:
/// idle when it was not JSON; done when its exit code is 0 or missing;
/// failed otherwise.
pub open spec fn status_of_parsed(parsed: Option<Option<i64>>) -> RunnerStatus {
    match parsed {
        None => RunnerStatus::Idle,
        Some(code) => if (match code {
            Some(c) => c,
            None => 0,
        }) == 0 {
            RunnerStatus::Done
        } else {
            RunnerStatus::Failed
        },
    }
}

pub fn status_from_exit_code(parsed: Option<Option<i64>>) -> (r: RunnerStatus)
    ensures
        r == status_of_parsed(parsed),
{
    match parsed {
        None => RunnerStatus::Idle,
        Some(code) => {
            let c = match code {
                Some(c) => c,
                None => 0,
            };
            if c == 0 { RunnerStatus::Done } else { RunnerStatus::Failed }
        },
    }
}

/// The runner's status: running while a device is held; else what the last
/// run's status file says, or idle without one.
pub fn runner_status(any_busy: bool, last_status: &Option<String>) -> (r: RunnerStatus)
    ensures
        any_busy ==> r == RunnerStatus::Running,
        !any_busy ==> r == (match *last_status {
            None => RunnerStatus::Idle,
            Some(t) => status_of_parsed(json_exit_code(t@)),
        }),
{
    if any_busy {
        return RunnerStatus::Running;
    }
    match last_status {
        None => RunnerStatus::Idle,
        Some(t) => status_from_exit_code(last_run_exit_code(t.as_str())),
    }
}

} // verus!
