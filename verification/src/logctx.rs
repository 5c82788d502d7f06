use vstd::prelude::*;

use crate::text::{chars_of, replace, replace_exec, string_of};

verus! {

/// Which run the log lines of a thread belong to.
pub struct RunLogContext {
    pub current_run_id: Option<String>,
}

impl RunLogContext {
    pub fn new() -> (r: Self)
        ensures
            r.current_run_id is None,
    {
        RunLogContext { current_run_id: None }
    }
}

/// From now on the thread's log lines belong to `run_id` (to none for `None`).
pub fn set_current_run_id(context: &mut RunLogContext, run_id: Option<String>)
    ensures
        final(context).current_run_id == run_id,
{
    context.current_run_id = run_id;
}

/// A log line as it is shown and kept: `[runner]` reads `[AI Worker]`.
pub fn worker_line(line: &str) -> (r: String)
    ensures
        r@ == replace(line@, "[runner]"@, "[AI Worker]"@),
{
    let pat = chars_of("[runner]");
    proof {
        reveal_strlit("[runner]");
    }
    string_of(&replace_exec(&chars_of(line), &pat, &chars_of("[AI Worker]")))
}

} // verus!
