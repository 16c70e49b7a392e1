//! What holds of deadlock detection over several calls.
use vstd::prelude::*;
use crate::config::MUTEX_CHECK_DEADLOCK;
use crate::task::deadlock::{lemma_oldest_grant_unique, DeadlockDetector, DetectorView, Grant};

verus! {

/// While detection is off, no call changes what the detector knows, and no request is refused.
pub proof fn law_off_changes_nothing(d: DetectorView, tid: isize, id: isize, count: isize)
    requires
        !d.on(),
    ensures
        d.after_init(id, count) == d,
        d.after_lock(tid, id, count) == d,
        d.after_release(tid, id, count) == d,
        !d.refuses_lock(tid, id, count),
{
}

/// Every call keeps the detector consistent and detection on or off as it was.
pub proof fn law_calls_keep_consistent(d: DetectorView, tid: isize, id: isize, count: isize)
    requires
        d.consistent(),
    ensures
        d.after_init(id, count).consistent(),
        d.after_lock(tid, id, count).consistent(),
        d.after_release(tid, id, count).consistent(),
        d.after_init(id, count).mode == d.mode,
        d.after_lock(tid, id, count).mode == d.mode,
        d.after_release(tid, id, count).mode == d.mode,
{
}

/// A resource is made known once: a second `init_mutex_list` for it has no effect, whatever
/// number of units it names.
pub proof fn law_init_once(d: DetectorView, id: isize, first: isize, second: isize)
    ensures
        d.after_init(id, first).after_init(id, second) == d.after_init(id, first),
{
}

/// A refused request takes no unit and makes no grant, and the same request is refused again.
pub proof fn law_refusal_takes_nothing(d: DetectorView, tid: isize, id: isize, count: isize)
    requires
        d.refuses_lock(tid, id, count),
    ensures
        d.after_lock(tid, id, count).available == d.available,
        d.after_lock(tid, id, count).grants == d.grants,
        d.after_lock(tid, id, count).refuses_lock(tid, id, count),
        d.after_lock(tid, id, count).after_lock(tid, id, count) == d.after_lock(tid, id, count),
{
    let e = d.after_lock(tid, id, count);
    assert(e.finished.insert(tid, false) =~= e.finished);
    assert(e.after_lock(tid, id, count) =~= e);
}

/// A granted request takes exactly the units it asks for, of the resource it asks for.
pub proof fn law_grant_takes_units(d: DetectorView, tid: isize, id: isize, count: isize)
    requires
        d.grants_lock(tid, id, count),
        d.available[id] - count <= isize::MAX,
    ensures
        d.after_lock(tid, id, count).available[id] == d.available[id] - count,
        forall|k: isize|
            k != id ==> d.after_lock(tid, id, count).available.contains_key(k)
                == d.available.contains_key(k),
        forall|k: isize|
            k != id && d.available.contains_key(k) ==> #[trigger] d.after_lock(
                tid,
                id,
                count,
            ).available[k] == d.available[k],
        d.after_lock(tid, id, count).grants == d.grants.push(Grant { tid, held: Some(id) }),
{
}

/// What a thread is granted first it can give back: the units are then there again, and the
/// thread is finished.
pub proof fn law_lock_then_release(d: DetectorView, tid: isize, id: isize, count: isize)
    requires
        d.grants_lock(tid, id, count),
        d.available[id] - count <= isize::MAX,
        forall|i: int| 0 <= i < d.grants.len() ==> (#[trigger] d.grants[i]).tid != tid,
    ensures
        d.after_lock(tid, id, count).accepts_release(tid, id),
        d.after_lock(tid, id, count).after_release(tid, id, count).available == d.available,
        d.after_lock(tid, id, count).after_release(tid, id, count).is_finished(tid),
        !d.after_lock(tid, id, count).after_release(tid, id, count).holds(tid, id),
{
    let e = d.after_lock(tid, id, count);
    let n = d.grants.len() as int;
    assert(e.oldest_grant(tid, n));
    lemma_oldest_grant_unique(e, tid, n);
    let f = e.after_release(tid, id, count);
    assert(f.available =~= d.available);
    assert(f.oldest_grant(tid, n));
    lemma_oldest_grant_unique(f, tid, n);
}

/// A finished thread is never refused; its requests take no unit and make no grant.
pub proof fn law_finished_thread_passes(d: DetectorView, tid: isize, id: isize, count: isize)
    requires
        d.is_finished(tid),
    ensures
        !d.refuses_lock(tid, id, count),
        d.after_lock(tid, id, count).available == d.available,
        d.after_lock(tid, id, count).grants == d.grants,
{
}

/// Once a thread is finished it stays finished, whatever any thread does.
pub proof fn law_finished_for_good(
    d: DetectorView,
    done: isize,
    tid: isize,
    id: isize,
    count: isize,
)
    requires
        d.is_finished(done),
    ensures
        d.after_init(id, count).is_finished(done),
        d.after_lock(tid, id, count).is_finished(done),
        d.after_release(tid, id, count).is_finished(done),
{
}

/// The oldest grant of thread `tid` has been given back.
pub open spec fn spent(d: DetectorView, tid: isize) -> bool {
    exists|i: int| #[trigger] d.oldest_grant(tid, i) && d.grants[i].held is None
}

/// A release counts once per thread: after it the thread's oldest grant is spent.
pub proof fn law_release_spends_grant(d: DetectorView, tid: isize, id: isize, count: isize)
    requires
        d.accepts_release(tid, id),
    ensures
        spent(d.after_release(tid, id, count), tid),
{
    let i = choose|i: int| #[trigger] d.oldest_grant(tid, i);
    let e = d.after_release(tid, id, count);
    assert(e.oldest_grant(tid, i));
}

/// A thread whose oldest grant is spent can release nothing more, and no later call by any
/// thread changes that.
pub proof fn law_spent_for_good(
    d: DetectorView,
    gone: isize,
    tid: isize,
    id: isize,
    count: isize,
)
    requires
        spent(d, gone),
    ensures
        forall|k: isize| !d.holds(gone, k),
        d.after_release(gone, id, count) == d,
        spent(d.after_init(id, count), gone),
        spent(d.after_lock(tid, id, count), gone),
        spent(d.after_release(tid, id, count), gone),
{
    let i = choose|i: int| #[trigger] d.oldest_grant(gone, i) && d.grants[i].held is None;
    lemma_oldest_grant_unique(d, gone, i);
    assert(d.after_init(id, count).oldest_grant(gone, i));
    assert(d.after_lock(tid, id, count).oldest_grant(gone, i));
    if d.accepts_release(tid, id) {
        let j = choose|j: int| #[trigger] d.oldest_grant(tid, j);
        let e = d.after_release(tid, id, count);
        assert forall|k: int| 0 <= k < d.grants.len() implies (#[trigger] e.grants[k]).tid
            == d.grants[k].tid by {}
        assert(e.oldest_grant(gone, i));
    }
}

/// A release of a resource other than the one that the thread was granted first has no effect.
pub proof fn law_other_release_ignored(
    d: DetectorView,
    i: int,
    tid: isize,
    id: isize,
    count: isize,
)
    requires
        d.oldest_grant(tid, i),
        d.grants[i].held != Some(id),
    ensures
        d.after_release(tid, id, count) == d,
{
    lemma_oldest_grant_unique(d, tid, i);
}

/// A thread that was granted nothing can release nothing.
pub proof fn law_release_needs_grant(d: DetectorView, tid: isize, id: isize, count: isize)
    requires
        forall|i: int| 0 <= i < d.grants.len() ==> (#[trigger] d.grants[i]).tid != tid,
    ensures
        d.after_release(tid, id, count) == d,
{
}

/// A request is remembered, with the units that the thread first asked for, and nothing that
/// was remembered is forgotten.
pub proof fn law_need_is_remembered(d: DetectorView, tid: isize, id: isize, count: isize)
    requires
        d.on(),
    ensures
        ({
            let e = d.after_lock(tid, id, count);
            &&& e.need.contains_key(tid)
            &&& e.need[tid].contains_key(id)
            &&& !(d.need.contains_key(tid) && d.need[tid].contains_key(id)) ==> e.need[tid][id]
                == count
            &&& forall|t: isize, k: isize|
                d.need.contains_key(t) && #[trigger] d.need[t].contains_key(k)
                    ==> e.need.contains_key(t) && e.need[t].contains_key(k) && e.need[t][k]
                    == d.need[t][k]
        }),
{
}

/// No resource has fewer than no units left.
pub open spec fn no_overdraft(d: DetectorView) -> bool {
    forall|k: isize| #[trigger] d.available.contains_key(k) ==> d.available[k] >= 0
}

/// If no call names a negative number of units, no resource is ever overdrawn.
pub proof fn law_no_overdraft(d: DetectorView, tid: isize, id: isize, count: isize)
    requires
        d.consistent(),
        no_overdraft(d),
        count >= 0,
        d.accepts_release(tid, id) ==> d.available[id] + count <= isize::MAX,
    ensures
        no_overdraft(d.after_init(id, count)),
        no_overdraft(d.after_lock(tid, id, count)),
        no_overdraft(d.after_release(tid, id, count)),
{
    if d.accepts_release(tid, id) {
        let i = choose|i: int| #[trigger] d.oldest_grant(tid, i) && d.grants[i].held == Some(id);
        assert(d.available.contains_key(id));
    }
}

/// A call about one thread leaves what is known of every other thread as it was.
pub proof fn law_threads_apart(
    d: DetectorView,
    tid: isize,
    id: isize,
    count: isize,
    other: isize,
)
    requires
        other != tid,
    ensures
        d.after_lock(tid, id, count).is_finished(other) == d.is_finished(other),
        d.after_release(tid, id, count).is_finished(other) == d.is_finished(other),
        forall|k: isize|
            #[trigger] d.after_lock(tid, id, count).holds(other, k) == d.holds(other, k),
        forall|k: isize|
            #[trigger] d.after_release(tid, id, count).holds(other, k) == d.holds(other, k),
        d.after_lock(tid, id, count).need.contains_key(other) == d.need.contains_key(other),
        d.need.contains_key(other) ==> d.after_lock(tid, id, count).need[other] == d.need[other],
        d.after_release(tid, id, count).need == d.need,
{
    let e = d.after_lock(tid, id, count);
    assert forall|i: int| e.oldest_grant(other, i) == d.oldest_grant(other, i) by {
        if e.grants != d.grants {
            assert(e.grants == d.grants.push(Grant { tid, held: Some(id) }));
            if d.oldest_grant(other, i) {
                assert forall|j: int| 0 <= j < i implies (#[trigger] e.grants[j]).tid != other by {
                    assert(d.grants[j].tid != other);
                }
            }
            if e.oldest_grant(other, i) {
                assert forall|j: int| 0 <= j < i implies (#[trigger] d.grants[j]).tid != other by {
                    assert(e.grants[j].tid != other);
                }
            }
        }
    }
    assert forall|k: isize| #[trigger] e.holds(other, k) == d.holds(other, k) by {
        lemma_holds_same(d, e, other, k);
        lemma_holds_same(e, d, other, k);
    }
    let f = d.after_release(tid, id, count);
    if d.accepts_release(tid, id) {
        let g = choose|g: int| #[trigger] d.oldest_grant(tid, g);
        assert(f.grants == d.grants.update(g, Grant { tid, held: None }));
        assert forall|i: int| f.oldest_grant(other, i) == d.oldest_grant(other, i) by {
            if d.oldest_grant(other, i) {
                assert forall|j: int| 0 <= j < i implies (#[trigger] f.grants[j]).tid != other by {
                    assert(d.grants[j].tid != other);
                }
            }
            if f.oldest_grant(other, i) {
                assert forall|j: int| 0 <= j < i implies (#[trigger] d.grants[j]).tid != other by {
                    assert(f.grants[j].tid != other);
                }
            }
        }
        assert forall|k: isize| #[trigger] f.holds(other, k) == d.holds(other, k) by {
            lemma_holds_same(d, f, other, k);
            lemma_holds_same(f, d, other, k);
        }
    }
}

proof fn lemma_holds_same(d: DetectorView, e: DetectorView, tid: isize, id: isize)
    requires
        forall|i: int| e.oldest_grant(tid, i) == d.oldest_grant(tid, i),
        forall|i: int| #[trigger] d.oldest_grant(tid, i) ==> e.grants[i] == d.grants[i],
    ensures
        d.holds(tid, id) ==> e.holds(tid, id),
{
    if d.holds(tid, id) {
        let i = choose|i: int| #[trigger] d.oldest_grant(tid, i) && d.grants[i].held == Some(id);
        assert(e.oldest_grant(tid, i));
    }
}

/// Who is refused: with detection on, any thread that has given back no lock, whatever its id,
/// when it asks for a resource that is unknown or for more units of one than are left. Everyone
/// else is answered 0; and who is answered 0 without detection being off or the thread having
/// given back a lock was granted what it asked for: a grant is added and the units are gone.
pub proof fn law_lock_answer(
    d: &mut DeadlockDetector,
    tid: isize,
    id: isize,
    count: isize,
    r: isize,
)
    requires
        call_ensures(DeadlockDetector::try_lock, (d, tid, id, count), r),
    ensures
        r == 0 || r == MUTEX_CHECK_DEADLOCK,
        old(d)@.mode == 1 && !(old(d)@.finished.contains_key(tid) && old(d)@.finished[tid]) && (
        !old(d)@.available.contains_key(id) || old(d)@.available[id] < count) ==> r
            == MUTEX_CHECK_DEADLOCK,
        r == 0 ==> {
            ||| old(d)@.mode != 1
            ||| old(d)@.finished.contains_key(tid) && old(d)@.finished[tid]
            ||| {
                &&& old(d)@.available.contains_key(id)
                &&& old(d)@.available[id] >= count
                &&& old(d)@.available[id] - count <= isize::MAX ==> final(d)@.available[id] == old(
                    d,
                )@.available[id] - count
                &&& final(d)@.grants == old(d)@.grants.push(Grant { tid, held: Some(id) })
            }
        },
        old(d)@.mode != 1 ==> r == 0,
        old(d)@.finished.contains_key(tid) && old(d)@.finished[tid] ==> r == 0,
        old(d)@.available.contains_key(id) && old(d)@.available[id] >= count ==> r == 0,
{
}

/// What a lock request changes. Nothing while detection is off. Otherwise the request is noted,
/// with its units unless the thread asked for the resource before; a thread that was unknown is
/// noted as one that has given back no lock; and units go, and a grant is added, only where the
/// request is granted.
pub proof fn law_lock_effect(
    d: &mut DeadlockDetector,
    tid: isize,
    id: isize,
    count: isize,
    r: isize,
    t: isize,
    k: isize,
)
    requires
        call_ensures(DeadlockDetector::try_lock, (d, tid, id, count), r),
    ensures
        final(d)@.mode == old(d)@.mode,
        old(d)@.mode != 1 ==> final(d)@ == old(d)@,
        final(d)@.available.dom() == old(d)@.available.dom(),
        k != id ==> final(d)@.available[k] == old(d)@.available[k],
        r != 0 || old(d)@.mode != 1 || (old(d)@.finished.contains_key(tid)
            && old(d)@.finished[tid]) ==> {
            &&& final(d)@.available == old(d)@.available
            &&& final(d)@.grants == old(d)@.grants
        },
        final(d)@.finished.contains_key(t) <==> old(d)@.finished.contains_key(t) || old(d)@.mode
            == 1 && t == tid,
        old(d)@.finished.contains_key(t) ==> final(d)@.finished[t] == old(d)@.finished[t],
        !old(d)@.finished.contains_key(t) && final(d)@.finished.contains_key(t)
            ==> !final(d)@.finished[t],
        final(d)@.need.contains_key(t) <==> old(d)@.need.contains_key(t) || old(d)@.mode == 1 && t
            == tid,
        final(d)@.need.contains_key(t) && final(d)@.need[t].contains_key(k) <==> {
            ||| old(d)@.need.contains_key(t) && old(d)@.need[t].contains_key(k)
            ||| old(d)@.mode == 1 && t == tid && k == id
        },
        final(d)@.need.contains_key(t) && final(d)@.need[t].contains_key(k)
            ==> final(d)@.need[t][k] == if old(d)@.need.contains_key(t)
            && old(d)@.need[t].contains_key(k) {
            old(d)@.need[t][k]
        } else {
            count
        },
{
    assert(final(d)@.available.dom() =~= old(d)@.available.dom());
}

/// What a release changes, when the first grant of the thread is the one at place `i`: with
/// detection on and that grant being of the resource released, the units come back, the grant is
/// spent and the thread is finished; otherwise nothing. It is answered 0.
pub proof fn law_release_effect(
    d: &mut DeadlockDetector,
    tid: isize,
    id: isize,
    count: isize,
    r: isize,
    i: int,
)
    requires
        call_ensures(DeadlockDetector::mutex_release, (d, tid, id, count), r),
        0 <= i < old(d)@.grants.len(),
        old(d)@.grants[i].tid == tid,
        forall|j: int| 0 <= j < i ==> (#[trigger] old(d)@.grants[j]).tid != tid,
        old(d)@.mode == 1 && old(d)@.grants[i].held == Some(id) ==> isize::MIN
            <= old(d)@.available[id] + count <= isize::MAX,
    ensures
        r == 0,
        old(d)@.mode == 1 && old(d)@.grants[i].held == Some(id) ==> {
            &&& final(d)@.available == old(d)@.available.insert(id, final(d)@.available[id])
            &&& final(d)@.available[id] == old(d)@.available[id] + count
            &&& final(d)@.grants == old(d)@.grants.update(i, Grant { tid, held: None })
            &&& final(d)@.finished == old(d)@.finished.insert(tid, true)
            &&& final(d)@.need == old(d)@.need
            &&& final(d)@.mode == 1
        },
        old(d)@.mode != 1 || old(d)@.grants[i].held != Some(id) ==> final(d)@ == old(d)@,
{
    let before = old(d)@;
    let after = final(d)@;
    assert(before.oldest_grant(tid, i));
    lemma_oldest_grant_unique(before, tid, i);
    if before.mode == 1 && before.grants[i].held == Some(id) {
        assert(before.accepts_release(tid, id));
        assert(after.available[id] == before.available[id] + count);
        assert(after.available =~= before.available.insert(id, after.available[id]));
    }
}

/// A release by a thread that was granted nothing changes nothing and is answered 0.
pub proof fn law_release_without_grant(
    d: &mut DeadlockDetector,
    tid: isize,
    id: isize,
    count: isize,
    r: isize,
)
    requires
        call_ensures(DeadlockDetector::mutex_release, (d, tid, id, count), r),
        forall|j: int| 0 <= j < old(d)@.grants.len() ==> (#[trigger] old(d)@.grants[j]).tid != tid,
    ensures
        r == 0,
        final(d)@ == old(d)@,
{
}

/// What making a resource known changes: with detection on and the resource unknown, as many
/// units of it are left as were named; otherwise nothing. It is answered 0.
pub proof fn law_init_effect(d: &mut DeadlockDetector, id: isize, count: isize, r: isize)
    requires
        call_ensures(DeadlockDetector::init_mutex_list, (d, id, count), r),
    ensures
        r == 0,
        final(d)@.mode == old(d)@.mode,
        final(d)@.grants == old(d)@.grants,
        final(d)@.need == old(d)@.need,
        final(d)@.finished == old(d)@.finished,
        old(d)@.mode == 1 && !old(d)@.available.contains_key(id) ==> final(d)@.available == old(
            d,
        )@.available.insert(id, count),
        old(d)@.mode != 1 || old(d)@.available.contains_key(id) ==> final(d)@.available == old(
            d,
        )@.available,
{
}

/// Setting the mode sets the mode and nothing else; a new detector has mode 0 and knows nothing.
pub proof fn law_mode_and_start(d: &mut DeadlockDetector, mode: isize, fresh: DeadlockDetector)
    requires
        call_ensures(DeadlockDetector::set_mode, (d, mode), ()),
        call_ensures(DeadlockDetector::new, (), fresh),
    ensures
        final(d)@.mode == mode,
        final(d)@.available == old(d)@.available,
        final(d)@.grants == old(d)@.grants,
        final(d)@.need == old(d)@.need,
        final(d)@.finished == old(d)@.finished,
        fresh.wf(),
        fresh@.mode == 0,
        forall|k: isize| !fresh@.available.contains_key(k),
        fresh@.grants.len() == 0,
        forall|k: isize| !fresh@.need.contains_key(k),
        forall|k: isize| !fresh@.finished.contains_key(k),
{
}

/// A resource of which some thread took all units is refused to every thread, the one that took
/// them included: from the first call on a new detector, by what the calls answer alone.
pub proof fn law_taken_resource_is_refused(
    fresh: DeadlockDetector,
    d1: &mut DeadlockDetector,
    d2: &mut DeadlockDetector,
    d3: &mut DeadlockDetector,
    d4: &mut DeadlockDetector,
    id: isize,
    units: isize,
    owner: isize,
    other: isize,
    count: isize,
    known: isize,
    first: isize,
    second: isize,
)
    requires
        units >= 0,
        call_ensures(DeadlockDetector::new, (), fresh),
        *old(d1) == fresh,
        call_ensures(DeadlockDetector::set_mode, (d1, 1isize), ()),
        *old(d2) == *final(d1),
        call_ensures(DeadlockDetector::init_mutex_list, (d2, id, units), known),
        *old(d3) == *final(d2),
        call_ensures(DeadlockDetector::try_lock, (d3, owner, id, units), first),
        *old(d4) == *final(d3),
        call_ensures(DeadlockDetector::try_lock, (d4, other, id, count), second),
    ensures
        known == 0,
        first == 0,
        count > 0 ==> second == MUTEX_CHECK_DEADLOCK,
        count <= 0 ==> second == 0,
{
}

/// What a thread took first and gave back another thread can take, up to all of it and no more;
/// and the thread that gave it back is never refused again: by what the calls answer alone.
pub proof fn law_released_resource_is_free(
    d1: &mut DeadlockDetector,
    d2: &mut DeadlockDetector,
    d3: &mut DeadlockDetector,
    d4: &mut DeadlockDetector,
    id: isize,
    any: isize,
    units: isize,
    owner: isize,
    other: isize,
    count: isize,
    first: isize,
    back: isize,
    again: isize,
    taken: isize,
)
    requires
        old(d1)@.mode == 1,
        old(d1)@.available.contains_key(id),
        0 <= units <= old(d1)@.available[id],
        forall|j: int|
            0 <= j < old(d1)@.grants.len() ==> (#[trigger] old(d1)@.grants[j]).tid != owner,
        !old(d1)@.finished.contains_key(owner),
        !old(d1)@.finished.contains_key(other),
        other != owner,
        call_ensures(DeadlockDetector::try_lock, (d1, owner, id, units), first),
        *old(d2) == *final(d1),
        call_ensures(DeadlockDetector::mutex_release, (d2, owner, id, units), back),
        *old(d3) == *final(d2),
        call_ensures(DeadlockDetector::try_lock, (d3, owner, any, count), again),
        *old(d4) == *final(d3),
        call_ensures(DeadlockDetector::try_lock, (d4, other, id, count), taken),
    ensures
        first == 0,
        back == 0,
        again == 0,
        taken == if count <= old(d1)@.available[id] {
            0
        } else {
            MUTEX_CHECK_DEADLOCK
        },
{
    law_lock_then_release(old(d1)@, owner, id, units);
}

} // verus!
