use vstd::prelude::*;

verus! {

/// What the aggregation pass reads of one drained measurement: the room it
/// belongs to and its fire counter. Its averages are taken by the caller over
/// the members that `group_by_room` hands back.
#[derive(Clone, Copy, Debug, PartialEq, Eq, Structural)]
pub struct Sample {
    pub room_id: usize,
    pub fires: u64,
}

/// The measurements of one window that belong to one room.
#[derive(Clone, Debug)]
pub struct RoomGroup {
    pub room_id: usize,
    /// Positions in the drained batch, in the order they were received.
    pub members: Vec<usize>,
    /// The exact sum of the members' fire counters.
    pub total_fires: u64,
}

#[derive(Clone, Copy, Debug, PartialEq, Eq, Structural)]
pub enum AggregateError {
    /// The fire counters of this room sum to more than `u64::MAX`.
    FireCountOverflow { room_id: usize },
}

/// Positions `0..upto` of `batch` that belong to `room`, in ascending order.
pub open spec fn members_spec(batch: Seq<Sample>, room: usize, upto: int) -> Seq<usize>
    decreases upto,
{
    if upto <= 0 {
        Seq::empty()
    } else {
        let prev = members_spec(batch, room, upto - 1);
        if batch[upto - 1].room_id == room {
            prev.push((upto - 1) as usize)
        } else {
            prev
        }
    }
}

/// Sum of the fire counters at positions `0..upto` of `batch` that belong to `room`.
pub open spec fn fires_spec(batch: Seq<Sample>, room: usize, upto: int) -> nat
    decreases upto,
{
    if upto <= 0 {
        0
    } else {
        let prev = fires_spec(batch, room, upto - 1);
        if batch[upto - 1].room_id == room {
            prev + batch[upto - 1].fires as nat
        } else {
            prev
        }
    }
}

/// Some measurement of `batch` belongs to `room`.
pub open spec fn has_room(batch: Seq<Sample>, room: usize) -> bool {
    exists|i: int| 0 <= i < batch.len() && #[trigger] batch[i].room_id == room
}

/// Strictly ascending.
pub open spec fn strictly_ascending(s: Seq<usize>) -> bool {
    forall|i: int, j: int| 0 <= i < j < s.len() ==> s[i] < s[j]
}

/// The fire counters of every room of `batch` sum to at most `u64::MAX`.
pub open spec fn fire_totals_fit(batch: Seq<Sample>) -> bool {
    forall|room: usize| has_room(batch, room) ==> fires_spec(batch, room, batch.len() as int)
        <= u64::MAX
}

/// `g` is the group of room `g.room_id` over the whole of `batch`.
pub open spec fn is_group_of(batch: Seq<Sample>, g: RoomGroup) -> bool {
    &&& g.members@ == members_spec(batch, g.room_id, batch.len() as int)
    &&& g.total_fires as nat == fires_spec(batch, g.room_id, batch.len() as int)
}

/// The room ids of `groups`, in order.
pub open spec fn group_rooms(groups: Seq<RoomGroup>) -> Seq<usize> {
    groups.map_values(|g: RoomGroup| g.room_id)
}

proof fn lemma_fires_monotone(batch: Seq<Sample>, room: usize, a: int, b: int)
    requires
        a <= b,
    ensures
        fires_spec(batch, room, a) <= fires_spec(batch, room, b),
    decreases b - a,
{
    if a < b {
        lemma_fires_monotone(batch, room, a, b - 1);
    }
}

proof fn lemma_no_members(batch: Seq<Sample>, room: usize, upto: int)
    requires
        0 <= upto <= batch.len(),
        forall|i: int| 0 <= i < upto ==> batch[i].room_id != room,
    ensures
        members_spec(batch, room, upto).len() == 0,
    decreases upto,
{
    if upto > 0 {
        lemma_no_members(batch, room, upto - 1);
    }
}

proof fn lemma_single_member(batch: Seq<Sample>, room: usize, k: int, upto: int)
    requires
        0 <= k < upto <= batch.len(),
        batch[k].room_id == room,
        forall|i: int| 0 <= i < upto && i != k ==> batch[i].room_id != room,
    ensures
        members_spec(batch, room, upto) == seq![k as usize],
        fires_spec(batch, room, upto) == batch[k].fires,
    decreases upto,
{
    if upto > k + 1 {
        lemma_single_member(batch, room, k, upto - 1);
    } else {
        lemma_no_members(batch, room, k);
        lemma_no_fires(batch, room, k);
        assert(members_spec(batch, room, k) =~= Seq::empty());
    }
}

proof fn lemma_no_fires(batch: Seq<Sample>, room: usize, upto: int)
    requires
        0 <= upto <= batch.len(),
        forall|i: int| 0 <= i < upto ==> batch[i].room_id != room,
    ensures
        fires_spec(batch, room, upto) == 0,
    decreases upto,
{
    if upto > 0 {
        lemma_no_fires(batch, room, upto - 1);
    }
}

/// The distinct room ids of `batch`, ascending.
pub fn distinct_rooms(batch: &Vec<Sample>) -> (rooms: Vec<usize>)
    ensures
        strictly_ascending(rooms@),
        forall|room: usize| rooms@.contains(room) <==> has_room(batch@, room),
{
    let mut rooms: Vec<usize> = Vec::new();
    let mut i: usize = 0;
    while i < batch.len()
        invariant
            i <= batch.len(),
            strictly_ascending(rooms@),
            forall|room: usize|
                rooms@.contains(room) <==> exists|j: int|
                    0 <= j < i && #[trigger] batch@[j].room_id == room,
        decreases batch.len() - i,
    {
        let room = batch[i].room_id;
        let mut p: usize = 0;
        while p < rooms.len() && rooms[p] < room
            invariant
                p <= rooms.len(),
                forall|q: int| 0 <= q < p ==> rooms@[q] < room,
            decreases rooms.len() - p,
        {
            p = p + 1;
        }
        let ghost old_rooms = rooms@;
        if p < rooms.len() && rooms[p] == room {
            assert forall|r: usize|
                rooms@.contains(r) <==> exists|j: int|
                    0 <= j < i + 1 && #[trigger] batch@[j].room_id == r by {
                if exists|j: int| 0 <= j < i + 1 && #[trigger] batch@[j].room_id == r {
                    let j = choose|j: int| 0 <= j < i + 1 && #[trigger] batch@[j].room_id == r;
                    if j == i {
                        assert(rooms@[p as int] == r);
                    }
                }
            }
        } else {
            rooms.insert(p, room);
            assert forall|a: int, b: int| 0 <= a < b < rooms@.len() implies rooms@[a]
                < rooms@[b] by {
                if b < p {
                } else if b == p {
                } else if a < p {
                    assert(rooms@[b] == old_rooms[b - 1]);
                    if p < old_rooms.len() {
                        assert(old_rooms[p as int] > room);
                        assert(old_rooms[p as int] <= old_rooms[b - 1]);
                    }
                } else if a == p {
                    assert(rooms@[b] == old_rooms[b - 1]);
                    assert(old_rooms[p as int] > room);
                    if b - 1 > p {
                        assert(old_rooms[p as int] < old_rooms[b - 1]);
                    }
                } else {
                    assert(rooms@[a] == old_rooms[a - 1]);
                    assert(rooms@[b] == old_rooms[b - 1]);
                }
            }
            assert forall|r: usize|
                rooms@.contains(r) <==> exists|j: int|
                    0 <= j < i + 1 && #[trigger] batch@[j].room_id == r by {
                if rooms@.contains(r) {
                    let q = choose|q: int| 0 <= q < rooms@.len() && rooms@[q] == r;
                    if q < p {
                        assert(old_rooms[q] == r);
                        assert(old_rooms.contains(r));
                    } else if q == p {
                        assert(batch@[i as int].room_id == r);
                    } else {
                        assert(old_rooms[q - 1] == r);
                        assert(old_rooms.contains(r));
                    }
                }
                if exists|j: int| 0 <= j < i + 1 && #[trigger] batch@[j].room_id == r {
                    let j = choose|j: int| 0 <= j < i + 1 && #[trigger] batch@[j].room_id == r;
                    if j == i {
                        assert(rooms@[p as int] == r);
                    } else {
                        assert(old_rooms.contains(r));
                        let q = choose|q: int| 0 <= q < old_rooms.len() && old_rooms[q] == r;
                        if q < p {
                            assert(rooms@[q] == r);
                        } else {
                            assert(rooms@[q + 1] == r);
                        }
                    }
                }
            }
        }
        i = i + 1;
    }
    rooms
}

/// Collects the members of `room` in `batch` and sums their fire counters.
pub fn collect_room(batch: &Vec<Sample>, room: usize) -> (r: Result<RoomGroup, AggregateError>)
    ensures
        r is Ok <==> fires_spec(batch@, room, batch@.len() as int) <= u64::MAX,
        r matches Ok(g) ==> g.room_id == room && is_group_of(batch@, g),
        r matches Err(e) ==> e == (AggregateError::FireCountOverflow { room_id: room }),
{
    let mut members: Vec<usize> = Vec::new();
    let mut total: u64 = 0;
    let mut i: usize = 0;
    while i < batch.len()
        invariant
            i <= batch.len(),
            members@ == members_spec(batch@, room, i as int),
            total as nat == fires_spec(batch@, room, i as int),
        decreases batch.len() - i,
    {
        let s = batch[i];
        if s.room_id == room {
            match total.checked_add(s.fires) {
                Some(t) => {
                    total = t;
                },
                None => {
                    proof {
                        lemma_fires_monotone(batch@, room, i + 1, batch@.len() as int);
                    }
                    return Err(AggregateError::FireCountOverflow { room_id: room });
                },
            }
            members.push(i);
        }
        i = i + 1;
    }
    Ok(RoomGroup { room_id: room, members, total_fires: total })
}

/// Groups one window's drained measurements by room: one group per room that
/// received at least one measurement, in ascending room order.
pub fn group_by_room(batch: &Vec<Sample>) -> (r: Result<Vec<RoomGroup>, AggregateError>)
    ensures
        r is Ok <==> fire_totals_fit(batch@),
        r matches Ok(groups) ==> {
            &&& strictly_ascending(group_rooms(groups@))
            &&& forall|room: usize| group_rooms(groups@).contains(room) <==> has_room(batch@, room)
            &&& forall|k: int| 0 <= k < groups@.len() ==> is_group_of(batch@, #[trigger] groups@[k])
        },
        r matches Err(AggregateError::FireCountOverflow { room_id }) ==> has_room(batch@, room_id)
            && fires_spec(batch@, room_id, batch@.len() as int) > u64::MAX,
        batch@.len() == 0 ==> (r matches Ok(groups) && groups@.len() == 0),
{
    let rooms = distinct_rooms(batch);
    let mut groups: Vec<RoomGroup> = Vec::new();
    let mut k: usize = 0;
    while k < rooms.len()
        invariant
            k <= rooms.len(),
            groups@.len() == k,
            strictly_ascending(rooms@),
            forall|room: usize| rooms@.contains(room) <==> has_room(batch@, room),
            forall|q: int| 0 <= q < k ==> (#[trigger] groups@[q]).room_id == rooms@[q],
            forall|q: int| 0 <= q < k ==> is_group_of(batch@, #[trigger] groups@[q]),
        decreases rooms.len() - k,
    {
        let room = rooms[k];
        assert(rooms@.contains(room));
        match collect_room(batch, room) {
            Ok(g) => {
                groups.push(g);
            },
            Err(e) => {
                proof {
                    assert(!fire_totals_fit(batch@));
                }
                return Err(e);
            },
        }
        k = k + 1;
    }
    proof {
        assert(group_rooms(groups@) =~= rooms@);
        assert forall|room: usize| has_room(batch@, room) implies fires_spec(
            batch@,
            room,
            batch@.len() as int,
        ) <= u64::MAX by {
            assert(rooms@.contains(room));
            let q = choose|q: int| 0 <= q < rooms@.len() && rooms@[q] == room;
            assert(is_group_of(batch@, groups@[q]));
        }
        if batch@.len() == 0 {
            if rooms@.len() > 0 {
                assert(rooms@.contains(rooms@[0]));
            }
        }
    }
    Ok(groups)
}

/// A room that received exactly one measurement in a window forms a group of
/// that one measurement, whose fire total is its own counter.
pub proof fn lemma_single_measurement_group(batch: Seq<Sample>, k: int)
    requires
        0 <= k < batch.len(),
        forall|i: int| 0 <= i < batch.len() && i != k ==> batch[i].room_id != batch[k].room_id,
    ensures
        members_spec(batch, batch[k].room_id, batch.len() as int) == seq![k as usize],
        fires_spec(batch, batch[k].room_id, batch.len() as int) == batch[k].fires,
{
    lemma_single_member(batch, batch[k].room_id, k, batch.len() as int);
}

} // verus!
