use vstd::prelude::*;

verus! {

/// `s` is in ascending order.
pub open spec fn ascending(s: Seq<i32>) -> bool {
    forall|i: int, j: int| 0 <= i <= j < s.len() ==> s[i] <= s[j]
}

/// Where `x` goes in the ascending `s`: before the first element not below it.
pub open spec fn insert_pos(s: Seq<i32>, x: i32) -> nat
    decreases s.len(),
{
    if s.len() == 0 || s[0] >= x {
        0
    } else {
        1 + insert_pos(s.drop_first(), x)
    }
}

/// `s` with `x` put in its place.
pub open spec fn sorted_insert(s: Seq<i32>, x: i32) -> Seq<i32> {
    s.insert(insert_pos(s, x) as int, x)
}

proof fn lemma_insert_pos(s: Seq<i32>, x: i32)
    ensures
        insert_pos(s, x) <= s.len(),
        forall|i: int| 0 <= i < insert_pos(s, x) ==> s[i] < x,
        insert_pos(s, x) < s.len() ==> s[insert_pos(s, x) as int] >= x,
    decreases s.len(),
{
    if s.len() > 0 && s[0] < x {
        lemma_insert_pos(s.drop_first(), x);
        assert forall|i: int| 0 <= i < insert_pos(s, x) implies s[i] < x by {
            if i > 0 {
                assert(s[i] == s.drop_first()[i - 1]);
            }
        };
    }
}

/// Putting `x` in its place keeps an ascending sequence ascending.
pub proof fn lemma_sorted_insert(s: Seq<i32>, x: i32)
    requires
        ascending(s),
    ensures
        ascending(sorted_insert(s, x)),
        sorted_insert(s, x).len() == s.len() + 1,
{
    lemma_insert_pos(s, x);
    let p = insert_pos(s, x) as int;
    let t = sorted_insert(s, x);
    assert forall|i: int, j: int| 0 <= i <= j < t.len() implies t[i] <= t[j] by {
        if i < p && j < p {
        } else if i < p && j == p {
        } else if i < p {
            assert(t[j] == s[j - 1]);
            assert(s[p] >= x);
        } else if i == p && j == p {
        } else if i == p {
            assert(t[j] == s[j - 1]);
            assert(s[p] <= s[j - 1]);
        } else {
            assert(t[i] == s[i - 1]);
            assert(t[j] == s[j - 1]);
        }
    };
}

/// Hands out room ids, lowest first: a freed id is handed out again before
/// a new one, the smallest freed id first; new ids count up from 0.
pub struct IdManager {
    heap: Vec<i32>,
    len: usize,
}

impl IdManager {
    #[verifier::type_invariant]
    spec fn inv(self) -> bool {
        ascending(self.heap@)
    }

    /// The freed ids waiting to be handed out again, smallest first.
    pub closed spec fn freed(self) -> Seq<i32> {
        self.heap@
    }

    /// How many new ids were handed out.
    pub closed spec fn issued(self) -> nat {
        self.len as nat
    }

    pub fn new() -> (res: IdManager)
        ensures
            ascending(res.freed()),
            res.freed() == Seq::<i32>::empty(),
            res.issued() == 0,
    {
        IdManager { heap: Vec::new(), len: 0 }
    }

    /// The smallest freed id when there is one, otherwise the next new id
    /// (the count of new ids so far, wrapped to `i32`).
    pub fn generate(&mut self) -> (res: i32)
        requires
            old(self).freed().len() > 0 || old(self).issued() < usize::MAX,
        ensures
            ascending(old(self).freed()),
            ascending(final(self).freed()),
            old(self).freed().len() > 0 ==> {
                &&& res == old(self).freed()[0]
                &&& forall|i: int| 0 <= i < old(self).freed().len() ==> res <= #[trigger] old(self).freed()[i]
                &&& final(self).freed() == old(self).freed().drop_first()
                &&& final(self).issued() == old(self).issued()
            },
            old(self).freed().len() == 0 ==> {
                &&& res == old(self).issued() as i32
                &&& final(self).freed() == old(self).freed()
                &&& final(self).issued() == old(self).issued() + 1
            },
    {
        proof { use_type_invariant(&*self); }
        if self.heap.len() > 0 {
            let mut heap: Vec<i32> = Vec::new();
            std::mem::swap(&mut heap, &mut self.heap);
            let ghost before = heap@;
            let k = heap.remove(0);
            assert(heap@ =~= before.drop_first());
            assert forall|i: int, j: int| 0 <= i <= j < heap@.len() implies heap@[i] <= heap@[j] by {
                assert(heap@[i] == before[i + 1]);
                assert(heap@[j] == before[j + 1]);
            };
            self.heap = heap;
            k
        } else {
            let res = self.len as i32;
            self.len = self.len + 1;
            res
        }
    }

    /// Gives `id` back to be handed out again.
    pub fn free(&mut self, id: i32)
        ensures
            ascending(old(self).freed()),
            ascending(final(self).freed()),
            final(self).freed() == sorted_insert(old(self).freed(), id),
            final(self).issued() == old(self).issued(),
    {
        proof { use_type_invariant(&*self); }
        let mut heap: Vec<i32> = Vec::new();
        std::mem::swap(&mut heap, &mut self.heap);
        let mut i: usize = 0;
        assert(heap@.skip(0) =~= heap@);
        while i < heap.len() && heap[i] < id
            invariant
                i <= heap@.len(),
                ascending(heap@),
                insert_pos(heap@, id) == i + insert_pos(heap@.skip(i as int), id),
            decreases heap@.len() - i,
        {
            assert(heap@.skip(i as int).drop_first() =~= heap@.skip(i + 1));
            assert(heap@.skip(i as int)[0] == heap@[i as int]);
            i += 1;
        }
        proof {
            if i < heap@.len() {
                assert(heap@.skip(i as int)[0] == heap@[i as int]);
            }
            lemma_sorted_insert(heap@, id);
        }
        heap.insert(i, id);
        self.heap = heap;
    }

    /// How many freed ids wait to be handed out again.
    pub fn freed_count(&self) -> (res: usize)
        ensures
            res == self.freed().len(),
    {
        self.heap.len()
    }

    /// How many new ids were handed out.
    pub fn issued_count(&self) -> (res: usize)
        ensures
            res == self.issued(),
    {
        self.len
    }
}

/// An id given back is handed out again before any new one: right after
/// `free(x)`, `generate` returns `x`, unless a smaller freed id was waiting.
pub proof fn lemma_free_then_generate(freed: Seq<i32>, x: i32)
    requires
        ascending(freed),
    ensures
        sorted_insert(freed, x).len() > 0,
        sorted_insert(freed, x)[0] == if freed.len() > 0 && freed[0] < x { freed[0] } else { x },
{
    lemma_insert_pos(freed, x);
}

/// Used as intended (every freed id had been handed out and is in no other
/// use), the manager hands out the lowest id not in use: every smaller id
/// was handed out and is not waiting among the freed ones.
pub proof fn lemma_lowest_unused_id(freed: Seq<i32>, issued: nat)
    requires
        ascending(freed),
        forall|i: int| 0 <= i < freed.len() ==> 0 <= #[trigger] freed[i] < issued,
    ensures
        ({
            let next: int = if freed.len() > 0 { freed[0] as int } else { issued as int };
            forall|x: i32| 0 <= x < next ==> x < issued && !#[trigger] freed.contains(x)
        }),
{
    let next: int = if freed.len() > 0 { freed[0] as int } else { issued as int };
    assert forall|x: i32| 0 <= x < next implies x < issued && !#[trigger] freed.contains(x) by {
        if freed.contains(x) {
            let k = choose|k: int| 0 <= k < freed.len() && freed[k] == x;
            assert(freed[0] <= freed[k]);
        }
    };
}

/// The ids of the taken slots among the first `n`, in ascending order.
pub open spec fn occupied_ids<T>(rooms: Seq<Option<T>>, n: nat) -> Seq<i32>
    decreases n,
{
    if n == 0 {
        seq![]
    } else if rooms[n - 1] is Some {
        occupied_ids(rooms, (n - 1) as nat).push((n - 1) as i32)
    } else {
        occupied_ids(rooms, (n - 1) as nat)
    }
}

/// How many rooms the server can hold at once.
pub const ROOM_COUNT: usize = 2000;

/// The server's rooms, each under the id it was given.
pub struct RoomManager<T> {
    id_manager: IdManager,
    rooms: Vec<Option<T>>,
}

impl<T> RoomManager<T> {
    /// The table has its `ROOM_COUNT` slots and every id it hands out fits them.
    pub closed spec fn wf(self) -> bool {
        &&& self.rooms@.len() == ROOM_COUNT
        &&& self.id_manager.issued() <= ROOM_COUNT
        &&& forall|i: int| 0 <= i < self.id_manager.freed().len()
                ==> 0 <= #[trigger] self.id_manager.freed()[i] < ROOM_COUNT
    }

    /// The room under each id.
    pub closed spec fn rooms(self) -> Seq<Option<T>> {
        self.rooms@
    }

    /// The ids freed by deleted rooms, smallest first.
    pub closed spec fn free_ids(self) -> Seq<i32> {
        self.id_manager.freed()
    }

    /// How many new ids were handed out.
    pub closed spec fn issued(self) -> nat {
        self.id_manager.issued()
    }

    /// Whether a room can be made: an id is free, or fewer than
    /// `ROOM_COUNT` ids were ever handed out.
    pub open spec fn can_create(self) -> bool {
        self.free_ids().len() > 0 || self.issued() < ROOM_COUNT
    }

    /// The id the next room gets.
    pub open spec fn next_id(self) -> int {
        if self.free_ids().len() > 0 { self.free_ids()[0] as int } else { self.issued() as int }
    }

    /// An empty table of `ROOM_COUNT` slots.
    pub fn new() -> (res: Self)
        ensures
            res.rooms() == Seq::new(ROOM_COUNT as nat, |i: int| None::<T>),
            res.free_ids() == Seq::<i32>::empty(),
            res.issued() == 0,
            res.wf(),
    {
        let mut rooms: Vec<Option<T>> = Vec::with_capacity(ROOM_COUNT);
        let mut i: usize = 0;
        while i < ROOM_COUNT
            invariant
                i <= ROOM_COUNT,
                rooms@ == Seq::new(i as nat, |k: int| None::<T>),
            decreases ROOM_COUNT - i,
        {
            rooms.push(None);
            i += 1;
            assert(rooms@ =~= Seq::new(i as nat, |k: int| None::<T>));
        }
        RoomManager { id_manager: IdManager::new(), rooms }
    }

    /// Whether a room can be made now.
    pub fn has_free_slot(&self) -> (res: bool)
        requires
            self.wf(),
        ensures
            res == self.can_create(),
    {
        self.id_manager.freed_count() > 0 || self.id_manager.issued_count() < ROOM_COUNT
    }

    /// Stores `room` under the next id and returns that id.
    pub fn create(&mut self, room: T) -> (res: i32)
        requires
            old(self).wf(),
            old(self).can_create(),
        ensures
            final(self).wf(),
            res == old(self).next_id(),
            0 <= res < ROOM_COUNT,
            final(self).rooms() == old(self).rooms().update(res as int, Some(room)),
            old(self).free_ids().len() > 0 ==> final(self).free_ids() == old(self).free_ids().drop_first()
                && final(self).issued() == old(self).issued(),
            old(self).free_ids().len() == 0 ==> final(self).free_ids() == old(self).free_ids()
                && final(self).issued() == old(self).issued() + 1,
    {
        let mut ids = IdManager::new();
        std::mem::swap(&mut ids, &mut self.id_manager);
        let ghost old_ids = ids;
        let id = ids.generate();
        proof {
            if old_ids.freed().len() > 0 {
                assert(0 <= old_ids.freed()[0] < ROOM_COUNT);
                assert forall|i: int| 0 <= i < ids.freed().len() implies 0 <= #[trigger] ids.freed()[i] < ROOM_COUNT by {
                    assert(ids.freed()[i] == old_ids.freed()[i + 1]);
                };
            }
        }
        self.rooms.set(id as usize, Some(room));
        self.id_manager = ids;
        id
    }

    /// The room under `id`.
    pub fn get(&self, id: i32) -> (res: Option<&T>)
        requires
            self.wf(),
            0 <= id < ROOM_COUNT,
        ensures
            res is None <==> self.rooms()[id as int] is None,
            res matches Some(r) ==> self.rooms()[id as int] == Some(*r),
    {
        match &self.rooms[id as usize] {
            Some(r) => Some(r),
            None => None,
        }
    }

    /// The ids under which rooms stand, smallest first.
    pub fn room_ids(&self) -> (res: Vec<i32>)
        requires
            self.wf(),
        ensures
            res@ == occupied_ids(self.rooms(), self.rooms().len()),
    {
        let mut res: Vec<i32> = Vec::new();
        let mut i: usize = 0;
        while i < self.rooms.len()
            invariant
                self.rooms@.len() == ROOM_COUNT,
                i <= self.rooms@.len(),
                res@ == occupied_ids(self.rooms@, i as nat),
            decreases self.rooms@.len() - i,
        {
            if self.rooms[i].is_some() {
                res.push(i as i32);
            }
            i += 1;
        }
        res
    }

    /// Empties the slot of `id` and frees the id.
    pub fn delete(&mut self, id: i32)
        requires
            old(self).wf(),
            0 <= id < ROOM_COUNT,
        ensures
            final(self).wf(),
            final(self).rooms() == old(self).rooms().update(id as int, None),
            final(self).free_ids() == sorted_insert(old(self).free_ids(), id),
            final(self).issued() == old(self).issued(),
    {
        self.rooms.set(id as usize, None);
        let mut ids = IdManager::new();
        std::mem::swap(&mut ids, &mut self.id_manager);
        let ghost old_free = ids.freed();
        ids.free(id);
        proof {
            lemma_insert_pos(old_free, id);
            let p = insert_pos(old_free, id) as int;
            assert forall|i: int| 0 <= i < ids.freed().len() implies 0 <= #[trigger] ids.freed()[i] < ROOM_COUNT by {
                if i < p {
                    assert(ids.freed()[i] == old_free[i]);
                } else if i > p {
                    assert(ids.freed()[i] == old_free[i - 1]);
                }
            };
        }
        self.id_manager = ids;
    }
}

} // verus!
