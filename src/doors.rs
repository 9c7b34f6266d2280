use vstd::prelude::*;
use crate::draw::random_draw;

verus! {

/// Why a set of doors could not be built.
#[derive(Debug, Clone, Copy, PartialEq, Eq)]
pub enum SimError {
    /// A game needs at least three doors.
    InvalidDoorCount,
}

/// The smallest number of doors a game can have.
pub const MIN_DOORS: usize = 3;

/// The ids among the first `n` doors that are still open and are neither `a`
/// nor `b`, in increasing order.
pub open spec fn open_ids_except(open: Seq<bool>, a: int, b: int, n: int) -> Seq<usize>
    decreases n,
{
    if n <= 0 {
        Seq::empty()
    } else {
        let rest = open_ids_except(open, a, b, n - 1);
        if open[n - 1] && n - 1 != a && n - 1 != b {
            rest.push((n - 1) as usize)
        } else {
            rest
        }
    }
}

/// How many of the first `n` doors are open.
pub open spec fn count_open(open: Seq<bool>, n: int) -> nat
    decreases n,
{
    if n <= 0 {
        0
    } else {
        count_open(open, n - 1) + if open[n - 1] { 1nat } else { 0nat }
    }
}

/// 1 when door `a` is among the first `n` and open, else 0.
pub open spec fn open_among(open: Seq<bool>, a: int, n: int) -> nat {
    if 0 <= a < n && open[a] { 1 } else { 0 }
}

/// The abstract state of a set of doors.
pub struct DoorsModel {
    /// `true` for a door that can still be picked or revealed.
    pub open: Seq<bool>,
    pub open_count: nat,
    pub winner: nat,
    pub pick: nat,
}

impl DoorsModel {
    /// The doors are valid: at least three of them, the prize and the pick are
    /// behind open doors, and the open count is right.
    pub open spec fn wf(self) -> bool {
        &&& self.open.len() >= MIN_DOORS
        &&& self.winner < self.open.len()
        &&& self.pick < self.open.len()
        &&& self.open[self.winner as int]
        &&& self.open[self.pick as int]
        &&& self.open_count == count_open(self.open, self.open.len() as int)
        &&& self.open_count >= 2
    }

    /// The doors the host may reveal: open, not picked, not the prize.
    pub open spec fn revealable(self) -> Seq<usize> {
        open_ids_except(self.open, self.pick as int, self.winner as int, self.open.len() as int)
    }

    /// The open doors other than the pick.
    pub open spec fn others(self) -> Seq<usize> {
        open_ids_except(self.open, self.pick as int, self.pick as int, self.open.len() as int)
    }

    /// The state after the host reveals the revealable door chosen by `draw`.
    pub open spec fn after_reveal(self, draw: usize) -> DoorsModel {
        let c = self.revealable();
        let id = c[(draw as int) % (c.len() as int)];
        DoorsModel {
            open: self.open.update(id as int, false),
            open_count: (self.open_count - 1) as nat,
            ..self
        }
    }

    /// All `size` doors open, with the given prize and pick.
    pub open spec fn fresh(size: nat, winner: nat, pick: nat) -> DoorsModel {
        DoorsModel { open: Seq::new(size, |i: int| true), open_count: size, winner, pick }
    }
}

/// Every listed id is in range, open and not excluded; the list misses
/// exactly the excluded doors that are open.
pub proof fn lemma_open_ids_except(open: Seq<bool>, a: int, b: int, n: int)
    requires
        0 <= n <= open.len() <= usize::MAX,
    ensures
        forall|k: int|
            0 <= k < open_ids_except(open, a, b, n).len() ==> {
                let id = #[trigger] open_ids_except(open, a, b, n)[k];
                &&& id < n
                &&& open[id as int]
                &&& id != a
                &&& id != b
            },
        open_ids_except(open, a, b, n).len() + open_among(open, a, n) + (if b != a {
            open_among(open, b, n)
        } else {
            0
        }) == count_open(open, n),
    decreases n,
{
    if n > 0 {
        lemma_open_ids_except(open, a, b, n - 1);
        let rest = open_ids_except(open, a, b, n - 1);
        let all = open_ids_except(open, a, b, n);
        assert forall|k: int| 0 <= k < rest.len() implies all[k] == rest[k] by {}
    }
}

/// Closing door `j` lowers the count by one exactly when it was open.
pub proof fn lemma_count_close(open: Seq<bool>, j: int, n: int)
    requires
        0 <= n <= open.len(),
        0 <= j < open.len(),
    ensures
        count_open(open.update(j, false), n) + open_among(open, j, n) == count_open(open, n),
    decreases n,
{
    if n > 0 {
        lemma_count_close(open, j, n - 1);
    }
}

/// With every door open, the count is the number of doors.
pub proof fn lemma_count_all_open(size: nat, n: int)
    requires
        0 <= n <= size,
    ensures
        count_open(Seq::new(size, |i: int| true), n) == n,
    decreases n,
{
    if n > 0 {
        lemma_count_all_open(size, n - 1);
    }
}


/// The doors of one game: which are open, where the prize is, and which door
/// the player holds.
#[derive(Debug)]
pub struct Doors {
    open: Vec<bool>,
    winner: usize,
    open_count: usize,
    player_pick: usize,
}

impl View for Doors {
    type V = DoorsModel;

    closed spec fn view(&self) -> DoorsModel {
        DoorsModel {
            open: self.open@,
            open_count: self.open_count as nat,
            winner: self.winner as nat,
            pick: self.player_pick as nat,
        }
    }
}

impl Doors {
    pub open spec fn wf(&self) -> bool {
        self@.wf()
    }

    /// `size` open doors, the prize behind door `winner_draw % size`, and the
    /// player holding `initial_pick`.
    pub fn create_with(size: usize, initial_pick: usize, winner_draw: usize) -> (r: Result<
        Doors,
        SimError,
    >)
        requires
            initial_pick < size,
        ensures
            size < MIN_DOORS ==> r == Err::<Doors, SimError>(SimError::InvalidDoorCount),
            size >= MIN_DOORS ==> r is Ok,
            r matches Ok(d) ==> {
                &&& d.wf()
                &&& d@ == DoorsModel::fresh(
                    size as nat,
                    (winner_draw % size) as nat,
                    initial_pick as nat,
                )
            },
    {
        if size < MIN_DOORS {
            return Err(SimError::InvalidDoorCount);
        }
        let winner = winner_draw % size;
        let mut open: Vec<bool> = Vec::new();
        let mut i: usize = 0;
        while i < size
            invariant
                i <= size,
                open@ == Seq::new(i as nat, |k: int| true),
            decreases size - i,
        {
            open.push(true);
            i += 1;
        }
        let d = Doors { open, winner, open_count: size, player_pick: initial_pick };
        proof {
            assert(d@.open =~= Seq::new(size as nat, |k: int| true));
            lemma_count_all_open(size as nat, size as int);
        }
        Ok(d)
    }

    /// `size` open doors with the prize behind a door drawn at random, and the
    /// player holding `initial_pick`.
    pub fn create(size: usize, initial_pick: usize) -> (r: Result<Doors, SimError>)
        requires
            initial_pick < size,
        ensures
            size < MIN_DOORS ==> r == Err::<Doors, SimError>(SimError::InvalidDoorCount),
            size >= MIN_DOORS ==> r is Ok,
            r matches Ok(d) ==> {
                &&& d.wf()
                &&& d@.open == Seq::new(size as nat, |i: int| true)
                &&& d@.open_count == size
                &&& d@.pick == initial_pick
            },
    {
        let draw = random_draw();
        Doors::create_with(size, initial_pick, draw)
    }

    /// The number of doors.
    pub fn size(&self) -> (r: usize)
        ensures
            r == self@.open.len(),
    {
        self.open.len()
    }

    /// The number of doors still open.
    pub fn open_count(&self) -> (r: usize)
        ensures
            r == self@.open_count,
    {
        self.open_count
    }

    /// The door the player holds.
    pub fn player_pick(&self) -> (r: usize)
        ensures
            r == self@.pick,
    {
        self.player_pick
    }

    /// Whether door `id` is still open; `false` for an id past the last door.
    pub fn is_open(&self, id: usize) -> (r: bool)
        ensures
            r == (id < self@.open.len() && self@.open[id as int]),
    {
        id < self.open.len() && self.open[id]
    }

    /// The ids of the open doors other than `a` and `b`, in increasing order.
    pub fn open_ids_except(&self, a: usize, b: usize) -> (r: Vec<usize>)
        ensures
            r@ == open_ids_except(self@.open, a as int, b as int, self@.open.len() as int),
    {
        let mut ids: Vec<usize> = Vec::new();
        let mut i: usize = 0;
        while i < self.open.len()
            invariant
                i <= self.open.len(),
                ids@ == open_ids_except(self@.open, a as int, b as int, i as int),
            decreases self.open.len() - i,
        {
            if self.open[i] && i != a && i != b {
                ids.push(i);
            }
            i += 1;
        }
        ids
    }

    /// The host opens the revealable door chosen by `draw`: open, neither
    /// the pick nor the prize.
    pub(crate) fn reveal_with(&mut self, draw: usize)
        requires
            old(self).wf(),
            old(self)@.open_count > 2,
        ensures
            final(self).wf(),
            final(self)@ == old(self)@.after_reveal(draw),
            final(self)@.open.len() == old(self)@.open.len(),
            final(self)@.open_count == old(self)@.open_count - 1,
    {
        let n = self.open.len();
        let ids = self.open_ids_except(self.player_pick, self.winner);
        proof {
            lemma_open_ids_except(self@.open, self@.pick as int, self@.winner as int, n as int);
        }
        let id = ids[draw % ids.len()];
        proof {
            lemma_count_close(self@.open, id as int, self@.open.len() as int);
        }
        self.open.set(id, false);
        self.open_count = self.open_count - 1;
    }

    /// The player moves to door `id`, which is open.
    pub(crate) fn switch_to(&mut self, id: usize)
        requires
            old(self).wf(),
            id < old(self)@.open.len(),
            old(self)@.open[id as int],
        ensures
            final(self).wf(),
            final(self)@ == (DoorsModel { pick: id as nat, ..old(self)@ }),
    {
        self.player_pick = id;
    }

    /// Whether the player holds the prize door.
    pub fn pick_is_winner(&self) -> (r: bool)
        ensures
            r == (self@.pick == self@.winner),
    {
        self.player_pick == self.winner
    }
}

} // verus!
