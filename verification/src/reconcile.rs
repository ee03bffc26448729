use crate::worker::TaskResult;
use vstd::prelude::*;

verus! {

/// Whether some collected result bears task identifier `id`.
pub open spec fn id_received(s: Seq<TaskResult>, id: u32) -> bool {
    exists|k: int| 0 <= k < s.len() && s[k].task_id == id
}

/// The identifiers below `n` that appear in the collected results, in
/// increasing order.
pub open spec fn spec_received_ids(n: nat, s: Seq<TaskResult>) -> Seq<u32>
    decreases n,
{
    if n == 0 {
        Seq::empty()
    } else {
        let prev = spec_received_ids((n - 1) as nat, s);
        if id_received(s, (n - 1) as u32) {
            prev.push((n - 1) as u32)
        } else {
            prev
        }
    }
}

/// The identifiers below `n` that appear in no collected result, in increasing
/// order.
pub open spec fn spec_missing_ids(n: nat, s: Seq<TaskResult>) -> Seq<u32>
    decreases n,
{
    if n == 0 {
        Seq::empty()
    } else {
        let prev = spec_missing_ids((n - 1) as nat, s);
        if id_received(s, (n - 1) as u32) {
            prev
        } else {
            prev.push((n - 1) as u32)
        }
    }
}

/// The partition of the expected identifier range into the identifiers whose
/// result was observed and those whose result never was.
pub struct Outcome {
    pub received: Vec<u32>,
    pub missing: Vec<u32>,
}

/// Whether any result in `s` bears task identifier `id`.
pub fn contains_id(s: &Vec<TaskResult>, id: u32) -> (b: bool)
    ensures
        b == id_received(s@, id),
{
    let mut k: usize = 0;
    while k < s.len()
        invariant
            k <= s@.len(),
            forall|j: int| 0 <= j < k ==> s@[j].task_id != id,
        decreases s@.len() - k,
    {
        if s[k].task_id == id {
            proof {
                assert(s@[k as int].task_id == id);
            }
            return true;
        }
        k = k + 1;
    }
    false
}

/// Partitions the expected range `0..n` into the identifiers present in the
/// collected results and the rest; both halves come out in increasing order,
/// and the partition is a pure function of its two inputs.
pub fn reconcile(n: u32, collected: &Vec<TaskResult>) -> (o: Outcome)
    ensures
        o.received@ == spec_received_ids(n as nat, collected@),
        o.missing@ == spec_missing_ids(n as nat, collected@),
{
    let mut received: Vec<u32> = Vec::new();
    let mut missing: Vec<u32> = Vec::new();
    let mut id: u32 = 0;
    while id < n
        invariant
            id <= n,
            received@ == spec_received_ids(id as nat, collected@),
            missing@ == spec_missing_ids(id as nat, collected@),
        decreases n - id,
    {
        if contains_id(collected, id) {
            received.push(id);
        } else {
            missing.push(id);
        }
        id = id + 1;
    }
    Outcome { received, missing }
}

/// The one classification every task ends the batch with.
#[derive(PartialEq, Eq, Structural, Clone, Copy, Debug)]
pub enum TaskStatus {
    /// Its result was observed by the collector.
    Received,
    /// Its unit terminated abnormally without sending a result.
    Faulted,
    /// Its result was never observed and its unit did not fault.
    TimedOut,
}

/// The classification of one expected identifier: an observed result wins,
/// a recorded fault explains a missing one, and what remains timed out.
pub open spec fn spec_status(s: Seq<TaskResult>, faulted: Seq<u32>, id: u32) -> TaskStatus {
    if id_received(s, id) {
        TaskStatus::Received
    } else if faulted.contains(id) {
        TaskStatus::Faulted
    } else {
        TaskStatus::TimedOut
    }
}

/// Whether `v` holds the identifier `x`.
pub fn contains_u32(v: &Vec<u32>, x: u32) -> (b: bool)
    ensures
        b == v@.contains(x),
{
    let mut k: usize = 0;
    while k < v.len()
        invariant
            k <= v@.len(),
            forall|j: int| 0 <= j < k ==> v@[j] != x,
        decreases v@.len() - k,
    {
        if v[k] == x {
            proof {
                assert(v@[k as int] == x);
            }
            return true;
        }
        k = k + 1;
    }
    false
}

/// Assigns exactly one classification to each expected identifier: entry `id`
/// of the returned vector is that task's terminal state.
pub fn classify_tasks(n: u32, collected: &Vec<TaskResult>, faulted: &Vec<u32>) -> (st: Vec<
    TaskStatus,
>)
    ensures
        st@.len() == n as nat,
        forall|i: int| 0 <= i < n ==> st@[i] == spec_status(collected@, faulted@, i as u32),
{
    let mut st: Vec<TaskStatus> = Vec::new();
    let mut id: u32 = 0;
    while id < n
        invariant
            id <= n,
            st@.len() == id as nat,
            forall|i: int| 0 <= i < id ==> st@[i] == spec_status(collected@, faulted@, i as u32),
        decreases n - id,
    {
        let status = if contains_id(collected, id) {
            TaskStatus::Received
        } else if contains_u32(faulted, id) {
            TaskStatus::Faulted
        } else {
            TaskStatus::TimedOut
        };
        st.push(status);
        id = id + 1;
    }
    st
}

proof fn lemma_push_contains(q: Seq<u32>, x: u32)
    ensures
        forall|y: u32| #[trigger] q.push(x).contains(y) <==> (q.contains(y) || y == x),
{
    assert forall|y: u32| #[trigger] q.push(x).contains(y) implies (q.contains(y) || y == x) by {
        let i = choose|i: int| 0 <= i < q.push(x).len() && q.push(x)[i] == y;
        if i < q.len() {
            assert(q[i] == y);
        }
    };
    assert forall|y: u32| (q.contains(y) || y == x) implies #[trigger] q.push(x).contains(y) by {
        if q.contains(y) {
            let i = choose|i: int| 0 <= i < q.len() && q[i] == y;
            assert(q.push(x)[i] == y);
        } else {
            assert(q.push(x)[q.len() as int] == y);
        }
    };
}

/// The two halves of the partition hold exactly the expected identifiers whose
/// result was, respectively was not, observed.
pub proof fn lemma_partition_membership(n: nat, s: Seq<TaskResult>)
    ensures
        forall|id: u32|
            #[trigger] spec_received_ids(n, s).contains(id) <==> (id < n && id_received(s, id)),
        forall|id: u32|
            #[trigger] spec_missing_ids(n, s).contains(id) <==> (id < n && !id_received(s, id)),
    decreases n,
{
    if n == 0 {
    } else {
        lemma_partition_membership((n - 1) as nat, s);
        let prev_r = spec_received_ids((n - 1) as nat, s);
        let prev_m = spec_missing_ids((n - 1) as nat, s);
        let last = (n - 1) as u32;
        if id_received(s, last) {
            lemma_push_contains(prev_r, last);
            assert(spec_received_ids(n, s) == prev_r.push(last));
        } else {
            lemma_push_contains(prev_m, last);
            assert(spec_missing_ids(n, s) == prev_m.push(last));
        }
    }
}

/// A complete collection reconciles cleanly: when a result was observed for
/// every expected identifier, the received half is the whole range `0..n` in
/// order and the missing half is empty. This covers both policies: the
/// exhaustive one once all units sent, and the bounded one once every result
/// arrived before the deadline.
pub proof fn lemma_complete_collection(n: nat, s: Seq<TaskResult>)
    requires
        forall|id: u32| id < n ==> id_received(s, id),
    ensures
        spec_received_ids(n, s) == Seq::new(n, |i: int| i as u32),
        spec_missing_ids(n, s) == Seq::<u32>::empty(),
    decreases n,
{
    if n == 0 {
        assert(spec_received_ids(n, s) =~= Seq::new(n, |i: int| i as u32));
    } else {
        lemma_complete_collection((n - 1) as nat, s);
        assert(id_received(s, (n - 1) as u32));
        assert(spec_received_ids(n, s) =~= Seq::new(n, |i: int| i as u32));
    }
}

/// A partial collection reconciles to exactly the missed set: when the results
/// observed are exactly those of the expected identifiers outside `timed_out`,
/// the missing half holds exactly the expected identifiers in `timed_out` and
/// the received half exactly the others.
pub proof fn lemma_partial_collection(n: nat, s: Seq<TaskResult>, timed_out: Set<u32>)
    requires
        forall|id: u32| id < n ==> (id_received(s, id) <==> !timed_out.contains(id)),
    ensures
        forall|id: u32|
            #[trigger] spec_missing_ids(n, s).contains(id) <==> (id < n && timed_out.contains(id)),
        forall|id: u32|
            #[trigger] spec_received_ids(n, s).contains(id) <==> (id < n && !timed_out.contains(
                id,
            )),
{
    lemma_partition_membership(n, s);
}

/// Reconciliation is idempotent: any two outcomes that reconcile the same
/// expected range against the same collected results are the same partition.
pub proof fn lemma_reconcile_idempotent(n: u32, s: Seq<TaskResult>, o1: Outcome, o2: Outcome)
    requires
        o1.received@ == spec_received_ids(n as nat, s),
        o1.missing@ == spec_missing_ids(n as nat, s),
        o2.received@ == spec_received_ids(n as nat, s),
        o2.missing@ == spec_missing_ids(n as nat, s),
    ensures
        o1.received@ == o2.received@,
        o1.missing@ == o2.missing@,
{
}

} // verus!
