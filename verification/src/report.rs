use crate::text::{push_decimal, spec_decimal};
use crate::worker::TaskResult;
use vstd::prelude::*;
use vstd::string::StringExecFns;

verus! {

/// The report line for one received result:
/// `Worker-<worker>: Task-<task>: processed <payload>`.
pub open spec fn spec_result_line(worker_id: nat, task_id: nat, payload: Seq<char>) -> Seq<char> {
    ("Worker-")@ + spec_decimal(worker_id) + (": Task-")@ + spec_decimal(task_id) + (
    ": processed ")@ + payload
}

/// The report line for one task whose result never arrived:
/// `Timeout: Task-<task>`.
pub open spec fn spec_timeout_line(task_id: nat) -> Seq<char> {
    ("Timeout: Task-")@ + spec_decimal(task_id)
}

/// Renders the report line for one received result.
pub fn render_result_line(r: &TaskResult) -> (s: String)
    ensures
        s@ == spec_result_line(r.worker_id as nat, r.task_id as nat, r.payload@),
{
    let mut s = String::new();
    s.append("Worker-");
    push_decimal(&mut s, r.worker_id);
    s.append(": Task-");
    push_decimal(&mut s, r.task_id);
    s.append(": processed ");
    s.append(r.payload.as_str());
    proof {
        assert(Seq::<char>::empty() + ("Worker-")@ + spec_decimal(r.worker_id as nat) + (
        ": Task-")@ + spec_decimal(r.task_id as nat) + (": processed ")@ + r.payload@
            =~= spec_result_line(r.worker_id as nat, r.task_id as nat, r.payload@));
    }
    s
}

/// Renders the report line for one missing task identifier.
pub fn render_timeout_line(task_id: u32) -> (s: String)
    ensures
        s@ == spec_timeout_line(task_id as nat),
{
    let mut s = String::new();
    s.append("Timeout: Task-");
    push_decimal(&mut s, task_id);
    proof {
        assert(Seq::<char>::empty() + ("Timeout: Task-")@ + spec_decimal(task_id as nat)
            =~= spec_timeout_line(task_id as nat));
    }
    s
}

} // verus!
