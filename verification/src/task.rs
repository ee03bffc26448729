use crate::text::{push_decimal, spec_decimal};
use vstd::prelude::*;
use vstd::string::StringExecFns;

verus! {

/// A unit of work: a unique identifier together with its input payload.
pub struct Task {
    pub id: u32,
    pub payload: String,
}

/// The payload text that the task set derives from a task identifier.
pub open spec fn spec_payload(id: nat) -> Seq<char> {
    ("Payload-")@ + spec_decimal(id)
}

impl Task {
    /// Builds a task from its identifier and payload text.
    pub fn create_task(id: u32, payload: &str) -> (t: Task)
        ensures
            t.id == id,
            t.payload@ == payload@,
    {
        Task { id, payload: payload.to_owned() }
    }
}

/// The payload the task set assigns to `id`, as an owned string.
pub fn payload_text(id: u32) -> (s: String)
    ensures
        s@ == spec_payload(id as nat),
{
    let mut s = String::new();
    s.append("Payload-");
    push_decimal(&mut s, id);
    proof {
        assert(Seq::<char>::empty() + ("Payload-")@ + spec_decimal(id as nat) =~= spec_payload(
            id as nat,
        ));
    }
    s
}

/// Produces the ordered batch of `n` tasks, with the dense identifier range
/// `0..n` and the payload derived from each identifier.
pub fn generate(n: u32) -> (ts: Vec<Task>)
    ensures
        ts@.len() == n as nat,
        forall|i: int|
            0 <= i < n ==> (#[trigger] ts@[i]).id == i && ts@[i].payload@ == spec_payload(i as nat),
{
    let mut ts: Vec<Task> = Vec::new();
    let mut i: u32 = 0;
    while i < n
        invariant
            i <= n,
            ts@.len() == i as nat,
            forall|j: int|
                0 <= j < i ==> (#[trigger] ts@[j]).id == j && ts@[j].payload@ == spec_payload(
                    j as nat,
                ),
        decreases n - i,
    {
        let payload = payload_text(i);
        let task = Task::create_task(i, payload.as_str());
        ts.push(task);
        i = i + 1;
    }
    ts
}

} // verus!
