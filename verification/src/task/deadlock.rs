//! Detection of lock requests that could leave the threads of a process waiting for ever.
use vstd::prelude::*;
use crate::config::MUTEX_CHECK_DEADLOCK;
use crate::task::assoc::{
    assoc, has_key, keys_distinct, lemma_assoc_at, lemma_assoc_push, lemma_assoc_update,
};
use crate::task::mutex_info::{FinishedMutexInfo, MutexInfo, NeedMutexInfo};

verus! {

/// One granted lock request: the thread, and the resource while it has not been given back.
pub struct Grant {
    pub tid: isize,
    pub held: Option<isize>,
}

/// What the detector knows.
#[verifier::ext_equal]
pub struct DetectorView {
    /// Detection is on if and only if this is 1.
    pub mode: isize,
    /// The units that are left of each resource.
    pub available: Map<isize, isize>,
    /// The grants, oldest first.
    pub grants: Seq<Grant>,
    /// For each thread the resources that it ever asked for, each with the units that it first
    /// asked for.
    pub need: Map<isize, Map<isize, isize>>,
    /// For each thread that was ever granted or refused a lock, whether it is finished: whether
    /// it has given back a lock.
    pub finished: Map<isize, bool>,
}

impl DetectorView {
    /// Detection is on.
    pub open spec fn on(self) -> bool {
        self.mode == 1
    }

    /// Thread `tid` has given back a lock.
    pub open spec fn is_finished(self, tid: isize) -> bool {
        self.finished.contains_key(tid) && self.finished[tid]
    }

    /// At least `count` units of resource `id` are left.
    pub open spec fn has_left(self, id: isize, count: isize) -> bool {
        self.available.contains_key(id) && self.available[id] >= count
    }

    /// A request by thread `tid` for `count` units of resource `id` takes those units.
    pub open spec fn grants_lock(self, tid: isize, id: isize, count: isize) -> bool {
        self.on() && !self.is_finished(tid) && self.has_left(id, count)
    }

    /// A request by thread `tid` for `count` units of resource `id` is refused.
    pub open spec fn refuses_lock(self, tid: isize, id: isize, count: isize) -> bool {
        self.on() && !self.is_finished(tid) && !self.has_left(id, count)
    }

    /// The needs once thread `tid` has asked for `count` units of resource `id`.
    pub open spec fn need_with(self, tid: isize, id: isize, count: isize) -> Map<
        isize,
        Map<isize, isize>,
    > {
        if !self.need.contains_key(tid) {
            self.need.insert(tid, Map::empty().insert(id, count))
        } else if !self.need[tid].contains_key(id) {
            self.need.insert(tid, self.need[tid].insert(id, count))
        } else {
            self.need
        }
    }

    /// Place `i` holds the oldest grant to thread `tid`.
    pub open spec fn oldest_grant(self, tid: isize, i: int) -> bool {
        &&& 0 <= i < self.grants.len()
        &&& self.grants[i].tid == tid
        &&& forall|j: int| 0 <= j < i ==> (#[trigger] self.grants[j]).tid != tid
    }

    /// The oldest grant to thread `tid` is of resource `id`, which has not been given back.
    pub open spec fn holds(self, tid: isize, id: isize) -> bool {
        exists|i: int| #[trigger] self.oldest_grant(tid, i) && self.grants[i].held == Some(id)
    }

    /// A release by thread `tid` of resource `id` gives units back.
    pub open spec fn accepts_release(self, tid: isize, id: isize) -> bool {
        self.on() && self.holds(tid, id)
    }

    /// Every grant is to a thread that asked for something, and of a resource that is known.
    pub open spec fn consistent(self) -> bool {
        forall|i: int| 0 <= i < self.grants.len() ==> {
            &&& self.finished.contains_key((#[trigger] self.grants[i]).tid)
            &&& self.need.contains_key(self.grants[i].tid)
            &&& self.grants[i].held matches Some(id) ==> self.available.contains_key(id)
        }
    }

    /// After `init_mutex_list(id, count)`.
    pub open spec fn after_init(self, id: isize, count: isize) -> DetectorView {
        if self.on() && !self.available.contains_key(id) {
            DetectorView { available: self.available.insert(id, count), ..self }
        } else {
            self
        }
    }

    /// After `try_lock(tid, id, count)`.
    pub open spec fn after_lock(self, tid: isize, id: isize, count: isize) -> DetectorView {
        if !self.on() {
            self
        } else if self.is_finished(tid) {
            DetectorView { need: self.need_with(tid, id, count), ..self }
        } else {
            let asked = DetectorView {
                need: self.need_with(tid, id, count),
                finished: self.finished.insert(tid, false),
                ..self
            };
            if self.has_left(id, count) {
                DetectorView {
                    available: self.available.insert(id, (self.available[id] - count) as isize),
                    grants: self.grants.push(Grant { tid, held: Some(id) }),
                    ..asked
                }
            } else {
                asked
            }
        }
    }

    /// After `mutex_release(tid, id, count)`.
    pub open spec fn after_release(self, tid: isize, id: isize, count: isize) -> DetectorView {
        if self.accepts_release(tid, id) {
            let i = choose|i: int| #[trigger] self.oldest_grant(tid, i);
            DetectorView {
                available: self.available.insert(id, (self.available[id] + count) as isize),
                grants: self.grants.update(i, Grant { tid, held: None }),
                finished: self.finished.insert(tid, true),
                ..self
            }
        } else {
            self
        }
    }
}

/// The detector of one process.
#[derive(Debug)]
pub struct DeadlockDetector {
    mode: isize,
    available: Vec<Option<MutexInfo>>,
    allocated: Vec<Option<NeedMutexInfo>>,
    need: Vec<Option<NeedMutexInfo>>,
    finished: Vec<Option<FinishedMutexInfo>>,
}

spec fn available_pairs(s: Seq<Option<MutexInfo>>) -> Seq<(isize, isize)> {
    Seq::new(s.len(), |i: int| (s[i]->0.id(), s[i]->0.count()))
}

spec fn info_pairs(s: Seq<MutexInfo>) -> Seq<(isize, isize)> {
    Seq::new(s.len(), |i: int| (s[i].id(), s[i].count()))
}

spec fn need_pairs(s: Seq<Option<NeedMutexInfo>>) -> Seq<(isize, Map<isize, isize>)> {
    Seq::new(s.len(), |i: int| (s[i]->0.tid(), assoc(info_pairs(s[i]->0.infos()))))
}

spec fn finished_pairs(s: Seq<Option<FinishedMutexInfo>>) -> Seq<(isize, bool)> {
    Seq::new(s.len(), |i: int| (s[i]->0.tid(), s[i]->0.finished()))
}

spec fn grant_of(a: NeedMutexInfo) -> Grant {
    Grant { tid: a.tid(), held: if a.infos().len() == 0 { None } else { Some(a.infos()[0].id()) } }
}

spec fn grants_of(s: Seq<Option<NeedMutexInfo>>) -> Seq<Grant> {
    Seq::new(s.len(), |i: int| grant_of(s[i]->0))
}

/// A thread has at most one oldest grant.
pub proof fn lemma_oldest_grant_unique(d: DetectorView, tid: isize, i: int)
    requires
        d.oldest_grant(tid, i),
    ensures
        forall|j: int| #[trigger] d.oldest_grant(tid, j) ==> j == i,
{
    assert forall|j: int| #[trigger] d.oldest_grant(tid, j) implies j == i by {
        if j < i {
            assert(d.grants[j].tid != tid);
        } else if i < j {
            assert(d.grants[i].tid != tid);
        }
    }
}

proof fn lemma_info_keys(infos: Seq<MutexInfo>, id: isize)
    ensures
        has_key(info_pairs(infos), id) == exists|i: int|
            0 <= i < infos.len() && (#[trigger] infos[i]).id() == id,
{
    let pairs = info_pairs(infos);
    if has_key(pairs, id) {
        let i = choose|i: int| 0 <= i < pairs.len() && (#[trigger] pairs[i]).0 == id;
        assert(infos[i].id() == id);
    }
    if exists|i: int| 0 <= i < infos.len() && (#[trigger] infos[i]).id() == id {
        let i = choose|i: int| 0 <= i < infos.len() && (#[trigger] infos[i]).id() == id;
        assert(pairs[i].0 == id);
    }
}

impl View for DeadlockDetector {
    type V = DetectorView;

    closed spec fn view(&self) -> DetectorView {
        DetectorView {
            mode: self.mode,
            available: assoc(available_pairs(self.available@)),
            grants: grants_of(self.allocated@),
            need: assoc(need_pairs(self.need@)),
            finished: assoc(finished_pairs(self.finished@)),
        }
    }
}

impl DeadlockDetector {
    /// No resource and no thread is listed twice, and a grant is of one resource.
    pub closed spec fn lists_wf(&self) -> bool {
        &&& forall|i: int| 0 <= i < self.available.len() ==> (#[trigger] self.available[i]) is Some
        &&& forall|i: int| 0 <= i < self.need.len() ==> (#[trigger] self.need[i]) is Some
        &&& forall|i: int| 0 <= i < self.finished.len() ==> (#[trigger] self.finished[i]) is Some
        &&& forall|i: int|
            0 <= i < self.allocated.len() ==> (#[trigger] self.allocated[i]) is Some
                && self.allocated[i]->0.infos().len() <= 1
        &&& keys_distinct(available_pairs(self.available@))
        &&& keys_distinct(need_pairs(self.need@))
        &&& keys_distinct(finished_pairs(self.finished@))
        &&& forall|i: int|
            0 <= i < self.need.len() ==> keys_distinct(
                info_pairs((#[trigger] self.need[i])->0.infos()),
            )
    }

    /// The detector is well formed.
    pub open spec fn wf(&self) -> bool {
        self.lists_wf() && self@.consistent()
    }

    /// A detector that is off and knows nothing.
    pub fn new() -> (d: DeadlockDetector)
        ensures
            d.wf(),
            d@ == (DetectorView {
                mode: 0,
                available: Map::empty(),
                grants: Seq::empty(),
                need: Map::empty(),
                finished: Map::empty(),
            }),
    {
        let d = DeadlockDetector {
            mode: 0,
            available: Vec::new(),
            allocated: Vec::new(),
            need: Vec::new(),
            finished: Vec::new(),
        };
        assert(d@.available =~= Map::empty());
        assert(d@.need =~= Map::empty());
        assert(d@.finished =~= Map::empty());
        assert(d@.grants =~= Seq::empty());
        d
    }

    /// Sets the mode.
    pub fn set_mode(&mut self, mode: isize)
        requires
            old(self).wf(),
        ensures
            final(self).wf(),
            final(self)@ == (DetectorView { mode, ..old(self)@ }),
    {
        self.mode = mode;
    }

    fn find_available(&self, id: isize) -> (at: Option<usize>)
        requires
            self.lists_wf(),
        ensures
            at is Some <==> self@.available.contains_key(id),
            at matches Some(i) ==> i < self.available.len() && self.available[i as int]->0.id()
                == id,
    {
        let mut i: usize = 0;
        while i < self.available.len()
            invariant
                self.lists_wf(),
                i <= self.available.len(),
                forall|j: int| 0 <= j < i ==> (#[trigger] self.available[j])->0.id() != id,
            decreases self.available.len() - i,
        {
            if let Some(info) = &self.available[i] {
                if info.get_id() == id {
                    assert(available_pairs(self.available@)[i as int].0 == id);
                    return Some(i);
                }
            }
            i += 1;
        }
        None
    }

    fn find_need(&self, tid: isize) -> (at: Option<usize>)
        requires
            self.lists_wf(),
        ensures
            at is Some <==> self@.need.contains_key(tid),
            at matches Some(i) ==> i < self.need.len() && self.need[i as int]->0.tid() == tid,
    {
        let mut i: usize = 0;
        while i < self.need.len()
            invariant
                self.lists_wf(),
                i <= self.need.len(),
                forall|j: int| 0 <= j < i ==> (#[trigger] self.need[j])->0.tid() != tid,
            decreases self.need.len() - i,
        {
            if let Some(info) = &self.need[i] {
                if info.get_tid() == tid {
                    assert(need_pairs(self.need@)[i as int].0 == tid);
                    return Some(i);
                }
            }
            i += 1;
        }
        None
    }

    fn find_finished(&self, tid: isize) -> (at: Option<usize>)
        requires
            self.lists_wf(),
        ensures
            at is Some <==> self@.finished.contains_key(tid),
            at matches Some(i) ==> i < self.finished.len() && self.finished[i as int]->0.tid()
                == tid,
    {
        let mut i: usize = 0;
        while i < self.finished.len()
            invariant
                self.lists_wf(),
                i <= self.finished.len(),
                forall|j: int| 0 <= j < i ==> (#[trigger] self.finished[j])->0.tid() != tid,
            decreases self.finished.len() - i,
        {
            if let Some(info) = &self.finished[i] {
                if info.get_tid() == tid {
                    assert(finished_pairs(self.finished@)[i as int].0 == tid);
                    return Some(i);
                }
            }
            i += 1;
        }
        None
    }

    fn find_allocated(&self, tid: isize) -> (at: Option<usize>)
        requires
            self.lists_wf(),
        ensures
            at matches Some(i) ==> self@.oldest_grant(tid, i as int),
            at is None ==> forall|i: int| !self@.oldest_grant(tid, i),
    {
        let mut i: usize = 0;
        while i < self.allocated.len()
            invariant
                self.lists_wf(),
                i <= self.allocated.len(),
                forall|j: int| 0 <= j < i ==> (#[trigger] self@.grants[j]).tid != tid,
            decreases self.allocated.len() - i,
        {
            if let Some(info) = &self.allocated[i] {
                if info.get_tid() == tid {
                    return Some(i);
                }
            }
            i += 1;
        }
        None
    }

    fn all_finished(&self) -> (all: bool)
        requires
            self.lists_wf(),
        ensures
            all == forall|tid: isize| #[trigger]
                self@.finished.contains_key(tid) ==> self@.finished[tid],
    {
        let mut i: usize = 0;
        while i < self.finished.len()
            invariant
                self.lists_wf(),
                i <= self.finished.len(),
                forall|j: int| 0 <= j < i ==> (#[trigger] self.finished[j])->0.finished(),
            decreases self.finished.len() - i,
        {
            if let Some(info) = &self.finished[i] {
                if !info.is_finished() {
                    proof {
                        lemma_assoc_at(finished_pairs(self.finished@), i as int);
                        assert(self@.finished.contains_key(info.tid()));
                    }
                    return false;
                }
            }
            i += 1;
        }
        assert forall|tid: isize| #[trigger]
            self@.finished.contains_key(tid) implies self@.finished[tid] by {
            let pairs = finished_pairs(self.finished@);
            assert(has_key(pairs, tid));
            let j = choose|j: int| 0 <= j < pairs.len() && (#[trigger] pairs[j]).0 == tid;
            lemma_assoc_at(pairs, j);
            assert(self.finished[j]->0.finished());
        }
        true
    }

    /// Records that thread `tid` asked for `count` units of resource `id`.
    fn note_need(&mut self, tid: isize, id: isize, count: isize)
        requires
            old(self).lists_wf(),
        ensures
            final(self).lists_wf(),
            final(self)@ == (DetectorView {
                need: old(self)@.need_with(tid, id, count),
                ..old(self)@
            }),
    {
        let ghost pairs = need_pairs(self.need@);
        let ghost before = self.need@;
        match self.find_need(tid) {
            Some(i) => {
                let ghost infos = self.need[i as int]->0.infos();
                proof {
                    lemma_assoc_at(pairs, i as int);
                    lemma_info_keys(infos, id);
                }
                if let Some(need_info) = &mut self.need[i] {
                    if !need_info.exists_mutex(id) {
                        need_info.add_mutex_info(MutexInfo::new(id, count));
                    }
                }
                proof {
                    let now = self.need[i as int]->0.infos();
                    if assoc(info_pairs(infos)).contains_key(id) {
                        assert(self.need@ =~= before);
                    } else {
                        lemma_assoc_push(info_pairs(infos), (id, count));
                        assert(info_pairs(now) =~= info_pairs(infos).push((id, count)));
                        lemma_assoc_update(pairs, i as int, assoc(info_pairs(now)));
                        assert(need_pairs(self.need@) =~= pairs.update(
                            i as int,
                            (tid, assoc(info_pairs(now))),
                        ));
                    }
                }
            },
            None => {
                let info = MutexInfo::new(id, count);
                let infos = vec![info];
                self.need.push(Some(NeedMutexInfo::new(tid, infos)));
                proof {
                    lemma_assoc_push(Seq::<(isize, isize)>::empty(), (id, count));
                    assert(assoc(Seq::<(isize, isize)>::empty()) =~= Map::empty());
                    assert(info_pairs(infos@) =~= Seq::empty().push((id, count)));
                    lemma_assoc_push(pairs, (tid, assoc(info_pairs(infos@))));
                    assert(need_pairs(self.need@) =~= pairs.push((tid, assoc(info_pairs(infos@)))));
                }
            },
        }
    }

    /// Records that thread `tid` asked for a lock, and says whether the thread is finished.
    fn note_thread(&mut self, tid: isize) -> (done: bool)
        requires
            old(self).lists_wf(),
        ensures
            final(self).lists_wf(),
            done == old(self)@.is_finished(tid),
            done ==> final(self)@ == old(self)@,
            !done ==> final(self)@ == (DetectorView {
                finished: old(self)@.finished.insert(tid, false),
                ..old(self)@
            }),
    {
        let ghost pairs = finished_pairs(self.finished@);
        match self.find_finished(tid) {
            Some(i) => {
                proof {
                    lemma_assoc_at(pairs, i as int);
                }
                let mut done = false;
                if let Some(info) = &self.finished[i] {
                    done = info.is_finished();
                }
                assert(!done ==> self@.finished =~= self@.finished.insert(tid, false));
                done
            },
            None => {
                self.finished.push(Some(FinishedMutexInfo::new(tid, false)));
                proof {
                    lemma_assoc_push(pairs, (tid, false));
                    assert(finished_pairs(self.finished@) =~= pairs.push((tid, false)));
                }
                false
            },
        }
    }

    /// Takes `count` units of resource `id` for thread `tid` if that many are left, and says
    /// whether it did.
    fn take(&mut self, tid: isize, id: isize, count: isize) -> (taken: bool)
        requires
            old(self).lists_wf(),
            old(self)@.has_left(id, count) ==> old(self)@.available[id] - count <= isize::MAX,
        ensures
            final(self).lists_wf(),
            taken == old(self)@.has_left(id, count),
            taken ==> final(self)@ == (DetectorView {
                available: old(self)@.available.insert(
                    id,
                    (old(self)@.available[id] - count) as isize,
                ),
                grants: old(self)@.grants.push(Grant { tid, held: Some(id) }),
                ..old(self)@
            }),
            !taken ==> final(self)@ == old(self)@,
    {
        let ghost pairs = available_pairs(self.available@);
        let ghost grants = self@.grants;
        match self.find_available(id) {
            Some(i) => {
                proof {
                    lemma_assoc_at(pairs, i as int);
                }
                let mut taken = false;
                let mut left = MutexInfo::new(id, count);
                if let Some(info) = &mut self.available[i] {
                    taken = info.allocate(count);
                    left = *info;
                }
                if taken {
                    let granted = vec![left];
                    self.allocated.push(Some(NeedMutexInfo::new(tid, granted)));
                    proof {
                        lemma_assoc_update(pairs, i as int, left.count());
                        assert(available_pairs(self.available@) =~= pairs.update(
                            i as int,
                            (id, left.count()),
                        ));
                        assert(self@.grants =~= grants.push(Grant { tid, held: Some(id) }));
                    }
                } else {
                    assert(available_pairs(self.available@) =~= pairs);
                }
                taken
            },
            None => false,
        }
    }

    /// Ends the grant at place `i` if it is of resource `id`, and says whether it did.
    fn end_grant(&mut self, i: usize, id: isize) -> (ended: bool)
        requires
            old(self).lists_wf(),
            i < old(self)@.grants.len(),
        ensures
            final(self).lists_wf(),
            ended == (old(self)@.grants[i as int].held == Some(id)),
            ended ==> final(self)@ == (DetectorView {
                grants: old(self)@.grants.update(
                    i as int,
                    Grant { tid: old(self)@.grants[i as int].tid, held: None },
                ),
                ..old(self)@
            }),
            !ended ==> final(self)@ == old(self)@,
    {
        let ghost grants = self@.grants;
        let mut ended = false;
        if let Some(info) = &mut self.allocated[i] {
            ended = info.remove_mutex_info(id);
        }
        proof {
            let tid = grants[i as int].tid;
            if ended {
                assert(self@.grants =~= grants.update(i as int, Grant { tid, held: None }));
            } else {
                assert(self@.grants =~= grants);
            }
        }
        ended
    }

    /// Puts `count` units of resource `id` back.
    fn put_back(&mut self, id: isize, count: isize)
        requires
            old(self).lists_wf(),
            old(self)@.available.contains_key(id) ==> isize::MIN <= old(self)@.available[id] + count
                <= isize::MAX,
        ensures
            final(self).lists_wf(),
            final(self)@ == (DetectorView {
                available: if old(self)@.available.contains_key(id) {
                    old(self)@.available.insert(id, (old(self)@.available[id] + count) as isize)
                } else {
                    old(self)@.available
                },
                ..old(self)@
            }),
    {
        let ghost pairs = available_pairs(self.available@);
        if let Some(k) = self.find_available(id) {
            proof {
                lemma_assoc_at(pairs, k as int);
            }
            if let Some(info) = &mut self.available[k] {
                info.release(count);
            }
            proof {
                let left = self.available[k as int]->0.count();
                lemma_assoc_update(pairs, k as int, left);
                assert(available_pairs(self.available@) =~= pairs.update(k as int, (id, left)));
            }
        }
    }

    /// Marks thread `tid` as finished if it is known.
    fn mark_finished(&mut self, tid: isize)
        requires
            old(self).lists_wf(),
        ensures
            final(self).lists_wf(),
            final(self)@ == (DetectorView {
                finished: if old(self)@.finished.contains_key(tid) {
                    old(self)@.finished.insert(tid, true)
                } else {
                    old(self)@.finished
                },
                ..old(self)@
            }),
    {
        let ghost pairs = finished_pairs(self.finished@);
        if let Some(k) = self.find_finished(tid) {
            if let Some(info) = &mut self.finished[k] {
                info.set_finished(true);
            }
            proof {
                lemma_assoc_update(pairs, k as int, true);
                assert(finished_pairs(self.finished@) =~= pairs.update(k as int, (tid, true)));
            }
        }
    }

    /// Makes `count` units of resource `id` known, unless the resource is known already.
    pub fn init_mutex_list(&mut self, id: isize, count: isize) -> (r: isize)
        requires
            old(self).wf(),
        ensures
            r == 0,
            final(self).wf(),
            final(self)@ == old(self)@.after_init(id, count),
    {
        if self.mode != 1 {
            return 0;
        }
        let ghost pairs = available_pairs(self.available@);
        if self.find_available(id).is_some() {
            return 0;
        } else {
            self.available.push(Some(MutexInfo::new(id, count)));
            proof {
                lemma_assoc_push(pairs, (id, count));
                assert(available_pairs(self.available@) =~= pairs.push((id, count)));
            }
        }
        0
    }

    /// Asks for `count` units of resource `id` for thread `tid`.
    ///
    /// The answer is 0, or `MUTEX_CHECK_DEADLOCK` where the request is refused.
    pub fn try_lock(&mut self, tid: isize, id: isize, count: isize) -> (r: isize)
        requires
            old(self).wf(),
            old(self)@.grants_lock(tid, id, count) ==> old(self)@.available[id] - count
                <= isize::MAX,
        ensures
            r == if old(self)@.refuses_lock(tid, id, count) {
                MUTEX_CHECK_DEADLOCK
            } else {
                0
            },
            final(self).wf(),
            final(self)@ == old(self)@.after_lock(tid, id, count),
    {
        if self.mode != 1 {
            return 0;
        }
        self.note_need(tid, id, count);
        if self.note_thread(tid) {
            return 0;
        }
        if self.take(tid, id, count) {
            return 0;
        }
        // The thread itself is not finished, so the answer is never 0 here.
        assert(self@.finished.contains_key(tid) && !self@.finished[tid]);
        if self.all_finished() {
            0
        } else {
            MUTEX_CHECK_DEADLOCK
        }
    }

    /// Gives back `count` units of resource `id` that thread `tid` holds.
    pub fn mutex_release(&mut self, tid: isize, id: isize, count: isize) -> (r: isize)
        requires
            old(self).wf(),
            old(self)@.accepts_release(tid, id) ==> isize::MIN <= old(self)@.available[id] + count
                <= isize::MAX,
        ensures
            r == 0,
            final(self).wf(),
            final(self)@ == old(self)@.after_release(tid, id, count),
    {
        if self.mode != 1 {
            return 0;
        }
        if let Some(i) = self.find_allocated(tid) {
            proof {
                lemma_oldest_grant_unique(self@, tid, i as int);
            }
            if self.end_grant(i, id) {
                self.put_back(id, count);
                self.mark_finished(tid);
            }
        }
        0
    }
}

} // verus!
