//! The reconciliation engine: diffs the desired addresses against the
//! remote records as bags keyed by diffing identity and emits the minimal
//! plan of removals and additions.

use vstd::prelude::*;
use crate::record::{IpValue, Record, RecordKind};

verus! {

broadcast use vstd::seq_lib::group_to_multiset_ensures, vstd::multiset::group_multiset_axioms;

/// Why the engine refused to produce a plan.
#[derive(Clone, Copy, PartialEq, Eq, Structural, Debug)]
pub enum SafetyError {
    /// The desired set was empty. A transient resolution failure that
    /// yields no addresses must never be read as "remove every record",
    /// so the engine refuses to plan rather than plan removals.
    EmptyDesiredSet,
}

/// The outcome of one diff, consumed once and discarded. Removals are to
/// be executed before additions, so that provider-side record-count
/// limits are relieved before new records are requested; each removal
/// carries the handle of the specific remote record it deletes.
#[derive(Debug)]
pub struct ReconciliationPlan {
    pub to_remove: Vec<Record>,
    pub to_add: Vec<Record>,
}

/// The diffing identity of a record: its `(kind, value)` pair. The
/// remote handle is carried data, never identity.
pub open spec fn addr_key(r: Record) -> (RecordKind, IpValue) {
    (r.kind, r.value)
}

/// The bag multiplicity of identity `k` in `s`: how many records of `s`
/// are the address `k`.
pub open spec fn key_count(s: Seq<Record>, k: (RecordKind, IpValue)) -> nat
    decreases s.len(),
{
    if s.len() == 0 {
        0
    } else {
        key_count(s.drop_last(), k) + (if addr_key(s.last()) == k {
            1nat
        } else {
            0nat
        })
    }
}

/// What is left of multiplicity `a` after consuming one instance for
/// each of the `b` instances on the other side of the diff.
pub open spec fn surplus(a: nat, b: nat) -> nat {
    if a > b {
        (a - b) as nat
    } else {
        0
    }
}

proof fn lemma_key_count_push(s: Seq<Record>, x: Record, k: (RecordKind, IpValue))
    ensures
        key_count(s.push(x), k) == key_count(s, k) + (if addr_key(x) == k {
            1nat
        } else {
            0nat
        }),
{
    assert(s.push(x).drop_last() =~= s);
    assert(s.push(x).last() == x);
}

proof fn lemma_key_count_remove(s: Seq<Record>, i: int, k: (RecordKind, IpValue))
    requires
        0 <= i < s.len(),
    ensures
        key_count(s.remove(i), k) + (if addr_key(s[i]) == k {
            1nat
        } else {
            0nat
        }) == key_count(s, k),
    decreases s.len(),
{
    if i == s.len() - 1 {
        assert(s.remove(i) =~= s.drop_last());
    } else {
        let t = s.drop_last();
        lemma_key_count_remove(t, i, k);
        assert(s.remove(i).drop_last() =~= t.remove(i));
        assert(s.remove(i).last() == s.last());
        assert(t[i] == s[i]);
    }
}

proof fn lemma_key_count_pos(s: Seq<Record>, k: (RecordKind, IpValue))
    ensures
        (key_count(s, k) > 0) <==> (exists|j: int|
            0 <= j < s.len() && addr_key(#[trigger] s[j]) == k),
    decreases s.len(),
{
    if s.len() == 0 {
    } else {
        let t = s.drop_last();
        lemma_key_count_pos(t, k);
        if addr_key(s.last()) == k {
            assert(addr_key(s[s.len() - 1]) == k);
        } else {
            if key_count(t, k) > 0 {
                let j = choose|j: int| 0 <= j < t.len() && addr_key(#[trigger] t[j]) == k;
                assert(addr_key(s[j]) == k);
            }
            if exists|j: int| 0 <= j < s.len() && addr_key(#[trigger] s[j]) == k {
                let j = choose|j: int| 0 <= j < s.len() && addr_key(#[trigger] s[j]) == k;
                assert(addr_key(t[j]) == k);
            }
        }
    }
}

proof fn lemma_key_counts_zero_empty(s: Seq<Record>)
    requires
        forall|k: (RecordKind, IpValue)| #[trigger] key_count(s, k) == 0,
    ensures
        s.len() == 0,
{
    if s.len() > 0 {
        assert(key_count(s, addr_key(s.last())) > 0);
    }
}

/// Finds an as-yet-unconsumed desired record with the same diffing
/// identity as `r`, if any.
fn find_match(ds: &Vec<Record>, r: &Record) -> (res: Option<usize>)
    ensures
        match res {
            Some(i) => i < ds@.len() && addr_key(ds@[i as int]) == addr_key(*r),
            None => forall|j: int|
                0 <= j < ds@.len() ==> addr_key(#[trigger] ds@[j]) != addr_key(*r),
        },
{
    let mut i: usize = 0;
    while i < ds.len()
        invariant
            i <= ds@.len(),
            forall|j: int| 0 <= j < i ==> addr_key(#[trigger] ds@[j]) != addr_key(*r),
        decreases ds@.len() - i,
    {
        if ds[i] == *r {
            return Some(i);
        }
        i = i + 1;
    }
    None
}

/// Computes the minimal plan of remote mutations that converges the
/// remote record set with the desired one.
///
/// The diff is a bag symmetric difference with one-to-one consumption:
/// each remote record consumes at most one desired record of equal
/// `(kind, value)`, surplus remote records become removals (carrying
/// their own handles verbatim), surplus desired records become
/// additions. An empty desired set is refused outright — it would
/// otherwise read as "remove everything" — and the plan is empty exactly
/// when the two bags are already equal.
pub fn reconcile(desired: Vec<Record>, remote: Vec<Record>) -> (r: Result<
    ReconciliationPlan,
    SafetyError,
>)
    ensures
        r is Err <==> desired@.len() == 0,
        match r {
            Ok(plan) => {
                &&& forall|k: (RecordKind, IpValue)|
                    #[trigger] key_count(plan.to_remove@, k) == surplus(
                        key_count(remote@, k),
                        key_count(desired@, k),
                    )
                &&& forall|k: (RecordKind, IpValue)|
                    #[trigger] key_count(plan.to_add@, k) == surplus(
                        key_count(desired@, k),
                        key_count(remote@, k),
                    )
                &&& forall|x: Record|
                    #[trigger] plan.to_remove@.to_multiset().count(x) <= remote@.to_multiset().count(
                        x,
                    )
                &&& forall|x: Record|
                    #[trigger] plan.to_add@.to_multiset().count(x) <= desired@.to_multiset().count(
                        x,
                    )
                &&& forall|j: int|
                    0 <= j < plan.to_remove@.len() ==> remote@.contains(
                        #[trigger] plan.to_remove@[j],
                    )
                &&& forall|j: int|
                    0 <= j < plan.to_add@.len() ==> desired@.contains(#[trigger] plan.to_add@[j])
                &&& (forall|j: int| 0 <= j < remote@.len() ==> (#[trigger] remote@[j]).has_handle())
                    ==> (forall|j: int|
                    0 <= j < plan.to_remove@.len() ==> (#[trigger] plan.to_remove@[j]).has_handle())
                &&& (forall|j: int|
                    0 <= j < desired@.len() ==> !(#[trigger] desired@[j]).has_handle())
                    ==> (forall|j: int|
                    0 <= j < plan.to_add@.len() ==> !(#[trigger] plan.to_add@[j]).has_handle())
                &&& (forall|k: (RecordKind, IpValue)|
                    #[trigger] key_count(desired@, k) == key_count(remote@, k)) ==> (
                plan.to_remove@.len() == 0 && plan.to_add@.len() == 0)
                &&& (plan.to_remove@.len() == 0 && plan.to_add@.len() == 0)
                    ==> (forall|k: (RecordKind, IpValue)|
                    #[trigger] key_count(desired@, k) == key_count(remote@, k))
            },
            Err(e) => e == SafetyError::EmptyDesiredSet,
        },
{
    if desired.len() == 0 {
        return Err(SafetyError::EmptyDesiredSet);
    }
    let ghost d0: Seq<Record> = desired@;
    let ghost r0: Seq<Record> = remote@;
    let mut desired_left = desired;
    let mut remote_rest = remote;
    let mut to_remove: Vec<Record> = Vec::new();
    let ghost mut processed: Seq<Record> = Seq::empty();
    while remote_rest.len() > 0
        invariant
            r0 == processed + remote_rest@,
            forall|k: (RecordKind, IpValue)|
                #[trigger] key_count(processed, k) + key_count(desired_left@, k) == key_count(
                    to_remove@,
                    k,
                ) + key_count(d0, k),
            forall|k: (RecordKind, IpValue)|
                #[trigger] key_count(to_remove@, k) > 0 ==> key_count(desired_left@, k) == 0,
            forall|k: (RecordKind, IpValue)|
                #[trigger] key_count(desired_left@, k) <= key_count(d0, k),
            forall|x: Record|
                #[trigger] to_remove@.to_multiset().count(x) <= processed.to_multiset().count(x),
            forall|x: Record|
                #[trigger] desired_left@.to_multiset().count(x) <= d0.to_multiset().count(x),
        decreases remote_rest@.len(),
    {
        let ghost prev_processed = processed;
        let r = remote_rest.remove(0);
        proof {
            processed = prev_processed.push(r);
            assert(r0 =~= processed + remote_rest@);
        }
        match find_match(&desired_left, &r) {
            Some(i) => {
                let ghost prev_left = desired_left@;
                desired_left.remove(i);
                proof {
                    assert forall|k: (RecordKind, IpValue)|
                        #[trigger] key_count(processed, k) + key_count(desired_left@, k)
                            == key_count(to_remove@, k) + key_count(d0, k) by {
                        lemma_key_count_push(prev_processed, r, k);
                        lemma_key_count_remove(prev_left, i as int, k);
                        assert(key_count(prev_processed, k) + key_count(prev_left, k) == key_count(
                            to_remove@,
                            k,
                        ) + key_count(d0, k));
                    }
                    assert forall|k: (RecordKind, IpValue)|
                        #[trigger] key_count(desired_left@, k) <= key_count(d0, k) by {
                        lemma_key_count_remove(prev_left, i as int, k);
                        assert(key_count(prev_left, k) <= key_count(d0, k));
                    }
                    assert forall|k: (RecordKind, IpValue)|
                        #[trigger] key_count(to_remove@, k) > 0 implies key_count(
                        desired_left@,
                        k,
                    ) == 0 by {
                        lemma_key_count_remove(prev_left, i as int, k);
                        assert(key_count(prev_left, k) == 0 || key_count(to_remove@, k) == 0);
                    }
                }
            },
            None => {
                let ghost prev_tr = to_remove@;
                to_remove.push(r);
                proof {
                    lemma_key_count_pos(desired_left@, addr_key(r));
                    assert(key_count(desired_left@, addr_key(r)) == 0);
                    assert forall|k: (RecordKind, IpValue)|
                        #[trigger] key_count(processed, k) + key_count(desired_left@, k)
                            == key_count(to_remove@, k) + key_count(d0, k) by {
                        lemma_key_count_push(prev_processed, r, k);
                        lemma_key_count_push(prev_tr, r, k);
                        assert(key_count(prev_processed, k) + key_count(desired_left@, k)
                            == key_count(prev_tr, k) + key_count(d0, k));
                    }
                    assert forall|k: (RecordKind, IpValue)|
                        #[trigger] key_count(to_remove@, k) > 0 implies key_count(
                        desired_left@,
                        k,
                    ) == 0 by {
                        lemma_key_count_push(prev_tr, r, k);
                        if key_count(prev_tr, k) > 0 {
                            assert(key_count(desired_left@, k) == 0);
                        }
                    }
                }
            },
        }
    }
    let plan = ReconciliationPlan { to_remove, to_add: desired_left };
    proof {
        assert(processed + remote_rest@ =~= processed);
        assert(processed == r0);
        assert forall|k: (RecordKind, IpValue)|
            #[trigger] key_count(plan.to_remove@, k) == surplus(
                key_count(r0, k),
                key_count(d0, k),
            ) by {
            assert(key_count(processed, k) + key_count(plan.to_add@, k) == key_count(
                plan.to_remove@,
                k,
            ) + key_count(d0, k));
            if key_count(plan.to_remove@, k) > 0 {
                assert(key_count(plan.to_add@, k) == 0);
            }
        }
        assert forall|k: (RecordKind, IpValue)|
            #[trigger] key_count(plan.to_add@, k) == surplus(
                key_count(d0, k),
                key_count(r0, k),
            ) by {
            assert(key_count(processed, k) + key_count(plan.to_add@, k) == key_count(
                plan.to_remove@,
                k,
            ) + key_count(d0, k));
            if key_count(plan.to_remove@, k) > 0 {
                assert(key_count(plan.to_add@, k) == 0);
            }
        }
        assert forall|j: int| 0 <= j < plan.to_remove@.len() implies r0.contains(
            #[trigger] plan.to_remove@[j],
        ) by {
            let x = plan.to_remove@[j];
            assert(plan.to_remove@.contains(x));
            assert(plan.to_remove@.to_multiset().count(x) > 0);
            assert(r0.to_multiset().count(x) > 0);
        }
        assert forall|j: int| 0 <= j < plan.to_add@.len() implies d0.contains(
            #[trigger] plan.to_add@[j],
        ) by {
            let x = plan.to_add@[j];
            assert(plan.to_add@.contains(x));
            assert(plan.to_add@.to_multiset().count(x) > 0);
            assert(d0.to_multiset().count(x) > 0);
        }
        if forall|j: int| 0 <= j < r0.len() ==> (#[trigger] r0[j]).has_handle() {
            assert forall|j: int| 0 <= j < plan.to_remove@.len() implies (
            #[trigger] plan.to_remove@[j]).has_handle() by {
                let x = plan.to_remove@[j];
                assert(r0.contains(x));
                let i = choose|i: int| 0 <= i < r0.len() && r0[i] == x;
                assert(r0[i].has_handle());
            }
        }
        if forall|j: int| 0 <= j < d0.len() ==> !(#[trigger] d0[j]).has_handle() {
            assert forall|j: int| 0 <= j < plan.to_add@.len() implies !(
            #[trigger] plan.to_add@[j]).has_handle() by {
                let x = plan.to_add@[j];
                assert(d0.contains(x));
                let i = choose|i: int| 0 <= i < d0.len() && d0[i] == x;
                assert(!d0[i].has_handle());
            }
        }
        if plan.to_remove@.len() == 0 && plan.to_add@.len() == 0 {
            assert forall|k: (RecordKind, IpValue)| #[trigger] key_count(d0, k) == key_count(
                r0,
                k,
            ) by {
                assert(key_count(plan.to_remove@, k) == 0);
                assert(key_count(plan.to_add@, k) == 0);
            }
        }
        if forall|k: (RecordKind, IpValue)| #[trigger] key_count(d0, k) == key_count(r0, k) {
            assert forall|k: (RecordKind, IpValue)| #[trigger] key_count(
                plan.to_remove@,
                k,
            ) == 0 by {
                assert(key_count(d0, k) == key_count(r0, k));
            }
            assert forall|k: (RecordKind, IpValue)| #[trigger] key_count(plan.to_add@, k) == 0 by {
                assert(key_count(d0, k) == key_count(r0, k));
            }
            lemma_key_counts_zero_empty(plan.to_remove@);
            lemma_key_counts_zero_empty(plan.to_add@);
        }
    }
    Ok(plan)
}

} // verus!

