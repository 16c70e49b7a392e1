//! The records that the deadlock detector keeps of resources and threads.
use vstd::prelude::*;

verus! {

/// A resource with the number of units of it that are left or asked for.
#[derive(Clone, Copy, Debug)]
pub struct MutexInfo {
    id: isize,
    count: isize,
}

impl MutexInfo {
    /// The id of the resource.
    pub closed spec fn id(self) -> isize {
        self.id
    }

    /// The number of units.
    pub closed spec fn count(self) -> isize {
        self.count
    }

    /// `count` units of resource `id`.
    pub fn new(id: isize, count: isize) -> (info: MutexInfo)
        ensures
            info.id() == id,
            info.count() == count,
    {
        MutexInfo { id, count }
    }

    /// The id of the resource.
    pub fn get_id(&self) -> (id: isize)
        ensures
            id == self.id(),
    {
        self.id
    }

    /// Takes `count` units if that many are left, and says whether it did.
    pub fn allocate(&mut self, count: isize) -> (taken: bool)
        requires
            old(self).count() >= count ==> old(self).count() - count <= isize::MAX,
        ensures
            taken == (old(self).count() >= count),
            final(self).id() == old(self).id(),
            taken ==> final(self).count() == old(self).count() - count,
            !taken ==> final(self).count() == old(self).count(),
    {
        if self.count >= count {
            self.count = self.count - count;
            true
        } else {
            false
        }
    }

    /// Puts `count` units back.
    pub fn release(&mut self, count: isize)
        requires
            isize::MIN <= old(self).count() + count <= isize::MAX,
        ensures
            final(self).id() == old(self).id(),
            final(self).count() == old(self).count() + count,
    {
        self.count = self.count + count;
    }
}

/// Resource `id` stands somewhere in `infos`.
pub open spec fn lists_id(infos: Seq<MutexInfo>, id: isize) -> bool {
    exists|i: int| 0 <= i < infos.len() && (#[trigger] infos[i]).id() == id
}

/// `pos` is the first place in `infos` where resource `id` stands.
pub open spec fn first_with_id(infos: Seq<MutexInfo>, id: isize, pos: int) -> bool {
    &&& 0 <= pos < infos.len()
    &&& infos[pos].id() == id
    &&& forall|j: int| 0 <= j < pos ==> (#[trigger] infos[j]).id() != id
}

/// The resources that one thread needs or was granted.
#[derive(Debug)]
pub struct NeedMutexInfo {
    tid: isize,
    mutex_info: Vec<MutexInfo>,
}

impl NeedMutexInfo {
    /// The thread.
    pub closed spec fn tid(self) -> isize {
        self.tid
    }

    /// The resources, in the order in which they were added.
    pub closed spec fn infos(self) -> Seq<MutexInfo> {
        self.mutex_info@
    }

    /// The resources `mutex_info` of thread `tid`.
    pub fn new(tid: isize, mutex_info: Vec<MutexInfo>) -> (info: NeedMutexInfo)
        ensures
            info.tid() == tid,
            info.infos() == mutex_info@,
    {
        NeedMutexInfo { tid, mutex_info }
    }

    /// The thread.
    pub fn get_tid(&self) -> (tid: isize)
        ensures
            tid == self.tid(),
    {
        self.tid
    }

    /// Whether resource `id` is among the resources.
    pub fn exists_mutex(&self, id: isize) -> (found: bool)
        ensures
            found == lists_id(self.infos(), id),
    {
        let mut i: usize = 0;
        while i < self.mutex_info.len()
            invariant
                i <= self.mutex_info.len(),
                forall|j: int| 0 <= j < i ==> (#[trigger] self.infos()[j]).id() != id,
            decreases self.mutex_info.len() - i,
        {
            if self.mutex_info[i].get_id() == id {
                assert(self.infos()[i as int].id() == id);
                return true;
            }
            i += 1;
        }
        false
    }

    /// Adds a resource behind the others.
    pub fn add_mutex_info(&mut self, mutex_info: MutexInfo)
        ensures
            final(self).tid() == old(self).tid(),
            final(self).infos() == old(self).infos().push(mutex_info),
    {
        self.mutex_info.push(mutex_info);
    }

    /// Takes out the first entry for resource `mutex_id`, and says whether there was one.
    pub fn remove_mutex_info(&mut self, mutex_id: isize) -> (removed: bool)
        ensures
            final(self).tid() == old(self).tid(),
            removed == lists_id(old(self).infos(), mutex_id),
            removed ==> exists|pos: int| #[trigger]
                first_with_id(old(self).infos(), mutex_id, pos) && final(self).infos() == old(
                    self,
                ).infos().remove(pos),
            !removed ==> final(self).infos() == old(self).infos(),
    {
        let mut i: usize = 0;
        while i < self.mutex_info.len()
            invariant
                i <= self.mutex_info.len(),
                *self == *old(self),
                forall|j: int| 0 <= j < i ==> (#[trigger] self.infos()[j]).id() != mutex_id,
            decreases self.mutex_info.len() - i,
        {
            if self.mutex_info[i].get_id() == mutex_id {
                assert(first_with_id(old(self).infos(), mutex_id, i as int));
                self.mutex_info.remove(i);
                return true;
            }
            i += 1;
        }
        false
    }
}

/// Whether one thread has given back a lock.
#[derive(Clone, Copy, Debug)]
pub struct FinishedMutexInfo {
    tid: isize,
    is_finished: bool,
}

impl FinishedMutexInfo {
    /// The thread.
    pub closed spec fn tid(self) -> isize {
        self.tid
    }

    /// Whether the thread is finished.
    pub closed spec fn finished(self) -> bool {
        self.is_finished
    }

    /// The mark `is_finished` of thread `tid`.
    pub fn new(tid: isize, is_finished: bool) -> (info: FinishedMutexInfo)
        ensures
            info.tid() == tid,
            info.finished() == is_finished,
    {
        FinishedMutexInfo { tid, is_finished }
    }

    /// The thread.
    pub fn get_tid(&self) -> (tid: isize)
        ensures
            tid == self.tid(),
    {
        self.tid
    }

    /// Whether the thread is finished.
    pub fn is_finished(&self) -> (finished: bool)
        ensures
            finished == self.finished(),
    {
        self.is_finished
    }

    /// Sets the mark.
    pub fn set_finished(&mut self, is_finished: bool)
        ensures
            final(self).tid() == old(self).tid(),
            final(self).finished() == is_finished,
    {
        self.is_finished = is_finished;
    }
}

/// A resource keeps its id, and of as many units as it was made with, two requests in a row get
/// what is there: the first if it asks for no more than there are, the second if it asks for no
/// more than the first left.
pub proof fn law_units_run_out(
    info: MutexInfo,
    m1: &mut MutexInfo,
    m2: &mut MutexInfo,
    id: isize,
    units: isize,
    first: isize,
    second: isize,
    got_first: bool,
    got_second: bool,
    seen: isize,
)
    requires
        units - first <= isize::MAX,
        call_ensures(MutexInfo::new, (id, units), info),
        *old(m1) == info,
        call_ensures(MutexInfo::allocate, (m1, first), got_first),
        *old(m2) == *final(m1),
        call_ensures(MutexInfo::allocate, (m2, second), got_second),
        call_ensures(MutexInfo::get_id, (&*final(m2),), seen),
    ensures
        got_first <==> first <= units,
        got_first ==> (got_second <==> first + second <= units),
        !got_first ==> (got_second <==> second <= units),
        seen == id,
{
}

/// Units are taken if that many are left, and then just those; and what is put back is added to
/// what is left.
pub proof fn law_units_are_counted(
    m: &mut MutexInfo,
    n: &mut MutexInfo,
    ask: isize,
    back: isize,
    got: bool,
)
    requires
        old(m).count() - ask <= isize::MAX,
        isize::MIN <= old(n).count() + back <= isize::MAX,
        call_ensures(MutexInfo::allocate, (m, ask), got),
        call_ensures(MutexInfo::release, (n, back), ()),
    ensures
        got <==> ask <= old(m).count(),
        got ==> final(m).count() + ask == old(m).count(),
        !got ==> final(m).count() == old(m).count(),
        final(m).id() == old(m).id(),
        final(n).count() - back == old(n).count(),
        final(n).id() == old(n).id(),
{
}

/// Units that are put back can be taken again, and no more than those.
pub proof fn law_units_come_back(
    info: MutexInfo,
    m1: &mut MutexInfo,
    m2: &mut MutexInfo,
    id: isize,
    units: isize,
    back: isize,
    ask: isize,
    got: bool,
    seen: isize,
)
    requires
        isize::MIN <= units + back <= isize::MAX,
        call_ensures(MutexInfo::new, (id, units), info),
        *old(m1) == info,
        call_ensures(MutexInfo::release, (m1, back), ()),
        *old(m2) == *final(m1),
        call_ensures(MutexInfo::allocate, (m2, ask), got),
        call_ensures(MutexInfo::get_id, (&*final(m1),), seen),
    ensures
        got <==> ask <= units + back,
        seen == id,
{
}

/// A resource is among those of a thread if and only if it was given or added.
pub proof fn law_need_holds_what_was_added(
    given: Vec<MutexInfo>,
    need: NeedMutexInfo,
    n1: &mut NeedMutexInfo,
    added: MutexInfo,
    tid: isize,
    id: isize,
    seen: isize,
    before: bool,
    after: bool,
)
    requires
        call_ensures(NeedMutexInfo::new, (tid, given), need),
        call_ensures(NeedMutexInfo::exists_mutex, (&need, id), before),
        *old(n1) == need,
        call_ensures(NeedMutexInfo::add_mutex_info, (n1, added), ()),
        call_ensures(NeedMutexInfo::exists_mutex, (&*final(n1), id), after),
        call_ensures(NeedMutexInfo::get_tid, (&*final(n1),), seen),
    ensures
        before <==> exists|i: int| 0 <= i < given@.len() && (#[trigger] given@[i]).id() == id,
        after <==> before || added.id() == id,
        seen == tid,
        need.infos() == given@,
        final(n1).infos() == given@.push(added),
{
    let was = need.infos();
    let now = final(n1).infos();
    assert(now == was.push(added));
    assert(now[was.len() as int] == added);
    if before {
        let i = choose|i: int| 0 <= i < was.len() && (#[trigger] was[i]).id() == id;
        assert(now[i].id() == id);
    }
    if after {
        let i = choose|i: int| 0 <= i < now.len() && (#[trigger] now[i]).id() == id;
        if i < was.len() {
            assert(was[i].id() == id);
        }
    }
}

/// Taking a resource out succeeds if and only if it is there, takes out one entry, of that
/// resource, the first one, and leaves the others in their order.
pub proof fn law_need_gives_up_one_entry(
    n: &mut NeedMutexInfo,
    id: isize,
    there: bool,
    removed: bool,
)
    requires
        call_ensures(NeedMutexInfo::exists_mutex, (&*old(n), id), there),
        call_ensures(NeedMutexInfo::remove_mutex_info, (n, id), removed),
    ensures
        removed == there,
        final(n).tid() == old(n).tid(),
        !removed ==> final(n).infos() == old(n).infos(),
        removed ==> exists|pos: int|
            {
                &&& 0 <= pos < old(n).infos().len()
                &&& (#[trigger] old(n).infos()[pos]).id() == id
                &&& forall|j: int| 0 <= j < pos ==> (#[trigger] old(n).infos()[j]).id() != id
                &&& final(n).infos() == old(n).infos().take(pos) + old(n).infos().skip(pos + 1)
            },
{
    let s = old(n).infos();
    if removed {
        let pos = choose|pos: int| #[trigger]
            first_with_id(s, id, pos) && final(n).infos() == s.remove(pos);
        assert(s.remove(pos) =~= s.take(pos) + s.skip(pos + 1));
        assert(s[pos].id() == id);
    }
}

/// A mark is of the thread that it was made for, and is what it was last set to.
pub proof fn law_mark_is_what_was_set(
    mark: FinishedMutexInfo,
    m: &mut FinishedMutexInfo,
    tid: isize,
    first: bool,
    set: bool,
    seen_first: bool,
    seen: bool,
    seen_tid: isize,
)
    requires
        call_ensures(FinishedMutexInfo::new, (tid, first), mark),
        call_ensures(FinishedMutexInfo::is_finished, (&mark,), seen_first),
        *old(m) == mark,
        call_ensures(FinishedMutexInfo::set_finished, (m, set), ()),
        call_ensures(FinishedMutexInfo::is_finished, (&*final(m),), seen),
        call_ensures(FinishedMutexInfo::get_tid, (&*final(m),), seen_tid),
    ensures
        seen_first == first,
        seen == set,
        seen_tid == tid,
{
}

} // verus!
