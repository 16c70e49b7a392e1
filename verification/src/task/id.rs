//! Process ids and the allocator of task ids.
use vstd::prelude::*;

verus! {

/// The id of a process, held for as long as the process exists.
#[derive(Clone, Copy, Debug, PartialEq, Eq, Structural)]
pub struct PidHandle(pub usize);

/// An allocator of small ids that hands out again what was given back.
#[derive(Debug)]
pub struct RecycleAllocator {
    current: usize,
    recycled: Vec<usize>,
}

/// The state of a [`RecycleAllocator`].
#[verifier::ext_equal]
pub struct AllocatorView {
    /// Every id below this one has been handed out at least once.
    pub current: usize,
    /// The ids that were given back and not handed out again, last one last.
    pub recycled: Seq<usize>,
}

impl AllocatorView {
    /// Id `id` is handed out and has not been given back.
    pub open spec fn is_live(self, id: usize) -> bool {
        id < self.current && !self.recycled.contains(id)
    }

    /// The ids that are handed out and have not been given back.
    pub open spec fn live(self) -> Set<usize> {
        Set::new(|id: usize| self.is_live(id))
    }

    /// What was given back had been handed out, and waits once.
    pub open spec fn consistent(self) -> bool {
        &&& self.recycled.no_duplicates()
        &&& forall|i: int| 0 <= i < self.recycled.len() ==> (#[trigger] self.recycled[i])
            < self.current
    }

    /// An id is left to hand out.
    pub open spec fn has_next(self) -> bool {
        self.recycled.len() > 0 || self.current < usize::MAX
    }

    /// The id that is handed out next: the one given back last, or else a new one.
    pub open spec fn next(self) -> usize {
        if self.recycled.len() > 0 {
            self.recycled.last()
        } else {
            self.current
        }
    }

    /// After `alloc_id`.
    pub open spec fn after_alloc(self) -> AllocatorView {
        if self.recycled.len() > 0 {
            AllocatorView { recycled: self.recycled.drop_last(), ..self }
        } else {
            AllocatorView { current: (self.current + 1) as usize, ..self }
        }
    }

    /// After `dealloc_id(id)`.
    pub open spec fn after_dealloc(self, id: usize) -> AllocatorView {
        AllocatorView { recycled: self.recycled.push(id), ..self }
    }
}

impl View for RecycleAllocator {
    type V = AllocatorView;

    closed spec fn view(&self) -> AllocatorView {
        AllocatorView { current: self.current, recycled: self.recycled@ }
    }
}

impl RecycleAllocator {
    /// The allocator is well formed.
    pub open spec fn wf(&self) -> bool {
        self@.consistent()
    }

    /// An allocator that has handed out nothing.
    pub fn new() -> (a: RecycleAllocator)
        ensures
            a.wf(),
            a@ == (AllocatorView { current: 0, recycled: Seq::empty() }),
    {
        RecycleAllocator { current: 0, recycled: Vec::new() }
    }

    /// Hands out an id that is not in use.
    pub fn alloc_id(&mut self) -> (id: usize)
        requires
            old(self).wf(),
            old(self)@.has_next(),
        ensures
            final(self).wf(),
            id == old(self)@.next(),
            final(self)@ == old(self)@.after_alloc(),
    {
        match self.recycled.pop() {
            Some(id) => id,
            None => {
                self.current = self.current + 1;
                self.current - 1
            },
        }
    }

    /// Takes back an id that is in use.
    pub fn dealloc_id(&mut self, id: usize)
        requires
            old(self).wf(),
            old(self)@.is_live(id),
        ensures
            final(self).wf(),
            final(self)@ == old(self)@.after_dealloc(id),
    {
        self.recycled.push(id);
    }
}

/// An id is handed out only while nobody else has it, and from then on it is in use.
pub proof fn law_alloc_is_fresh(a: AllocatorView)
    requires
        a.consistent(),
        a.has_next(),
    ensures
        !a.is_live(a.next()),
        a.after_alloc().live() == a.live().insert(a.next()),
{
    let b = a.after_alloc();
    assert forall|id: usize| b.is_live(id) == (a.is_live(id) || id == a.next()) by {
        if a.recycled.len() > 0 {
            let n = a.recycled.len() - 1;
            assert(a.recycled[n] == a.next());
            if b.recycled.contains(id) {
                let i = choose|i: int| 0 <= i < b.recycled.len() && b.recycled[i] == id;
                assert(a.recycled[i] == id);
            }
            if a.recycled.contains(id) && id != a.next() {
                let i = choose|i: int| 0 <= i < a.recycled.len() && a.recycled[i] == id;
                assert(b.recycled[i] == id);
            }
        }
    }
    assert(b.live() =~= a.live().insert(a.next()));
}

/// An id that is given back is no longer in use, and every other id stays as it was.
pub proof fn law_dealloc_ends_use(a: AllocatorView, id: usize)
    requires
        a.consistent(),
        a.is_live(id),
    ensures
        a.after_dealloc(id).live() == a.live().remove(id),
{
    let b = a.after_dealloc(id);
    assert forall|k: usize| b.is_live(k) == (a.is_live(k) && k != id) by {
        assert(b.recycled[a.recycled.len() as int] == id);
        if a.recycled.contains(k) {
            let i = choose|i: int| 0 <= i < a.recycled.len() && a.recycled[i] == k;
            assert(b.recycled[i] == k);
        }
    }
    assert(b.live() =~= a.live().remove(id));
}

/// An id that is given back is the next to be handed out, and handing it out restores the
/// allocator.
pub proof fn law_dealloc_then_alloc(a: AllocatorView, id: usize)
    requires
        a.consistent(),
        a.is_live(id),
    ensures
        a.after_dealloc(id).next() == id,
        a.after_dealloc(id).after_alloc() == a,
{
    assert(a.after_dealloc(id).recycled.drop_last() =~= a.recycled);
}

/// How ids are handed out: the one given back last, or, where none waits, the one after the
/// highest so far.
pub proof fn law_alloc_id(a: &mut RecycleAllocator, id: usize)
    requires
        call_ensures(RecycleAllocator::alloc_id, (a,), id),
    ensures
        old(a)@.recycled.len() == 0 && old(a)@.current < usize::MAX ==> {
            &&& id == old(a)@.current
            &&& final(a)@.current == id + 1
            &&& final(a)@.recycled.len() == 0
        },
        old(a)@.recycled.len() > 0 ==> {
            &&& final(a)@.current == old(a)@.current
            &&& final(a)@.recycled.push(id) == old(a)@.recycled
        },
{
    if old(a)@.recycled.len() > 0 {
        assert(final(a)@.recycled.push(id) =~= old(a)@.recycled);
    }
}

/// An id that is given back waits behind those given back before, and a new allocator starts
/// from 0 with none waiting.
pub proof fn law_dealloc_id(a: &mut RecycleAllocator, id: usize, fresh: RecycleAllocator)
    requires
        call_ensures(RecycleAllocator::dealloc_id, (a, id), ()),
        call_ensures(RecycleAllocator::new, (), fresh),
    ensures
        final(a)@.current == old(a)@.current,
        final(a)@.recycled == old(a)@.recycled.push(id),
        fresh.wf(),
        fresh@.current == 0,
        fresh@.recycled.len() == 0,
{
}

/// Two ids that are handed out one after the other differ from each other and from every id
/// that is in use.
pub proof fn law_ids_differ(
    a: &mut RecycleAllocator,
    b: &mut RecycleAllocator,
    first: usize,
    second: usize,
    used: usize,
)
    requires
        old(a)@.consistent(),
        old(a)@.has_next(),
        call_ensures(RecycleAllocator::alloc_id, (a,), first),
        *old(b) == *final(a),
        old(b)@.has_next(),
        call_ensures(RecycleAllocator::alloc_id, (b,), second),
        used < old(a)@.current,
        !old(a)@.recycled.contains(used),
    ensures
        first != second,
        used != first,
        used != second,
{
    law_alloc_is_fresh(old(a)@);
    law_alloc_is_fresh(old(b)@);
    assert(old(a)@.live().contains(used));
    assert(old(b)@.live().contains(first));
    assert(old(b)@.live().contains(used));
}

} // verus!
