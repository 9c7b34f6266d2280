use vstd::prelude::*;
use crate::doors::{Doors, DoorsModel, SimError, MIN_DOORS};
use crate::draw::random_draw;
use crate::strategy::Player;

verus! {

/// One round: the host reveals the door that `reveal_draw` chooses, then the
/// player decides, with `switch_draw`, whether to move.
pub open spec fn round<T: Player>(
    player: T,
    d: DoorsModel,
    reveal_draw: usize,
    switch_draw: usize,
) -> DoorsModel {
    let r = d.after_reveal(reveal_draw);
    match player.decision(r.open, r.open_count, r.pick, switch_draw) {
        Some(id) => DoorsModel { pick: id as nat, ..r },
        None => r,
    }
}

/// The `k`-th value of a scripted sequence of draws, and 0 past its end.
pub open spec fn draw_at(draws: Seq<usize>, k: int) -> usize {
    if 0 <= k < draws.len() {
        draws[k]
    } else {
        0
    }
}

/// The doors after playing rounds until two doors are left, each round
/// taking the next two draws from position `k` on.
pub open spec fn play_rounds<T: Player>(
    player: T,
    d: DoorsModel,
    draws: Seq<usize>,
    k: int,
) -> DoorsModel
    decreases d.open_count,
{
    if d.open_count <= 2 {
        d
    } else {
        play_rounds(
            player,
            round(player, d, draw_at(draws, k), draw_at(draws, k + 1)),
            draws,
            k + 2,
        )
    }
}

/// The doors at the start of a trial: the first draw gives the pick, the
/// second the prize.
pub open spec fn trial_start(size: nat, draws: Seq<usize>) -> DoorsModel {
    DoorsModel::fresh(
        size,
        (draw_at(draws, 1) as int % size as int) as nat,
        (draw_at(draws, 0) as int % size as int) as nat,
    )
}

/// Whether the player wins a trial on `size` doors played with `draws`.
pub open spec fn trial_outcome<T: Player>(size: nat, player: T, draws: Seq<usize>) -> bool {
    let d = play_rounds(player, trial_start(size, draws), draws, 2);
    d.pick == d.winner
}

/// The doors after exactly `n` rounds, each taking the next two draws from
/// position `k` on.
pub open spec fn play_n<T: Player>(
    player: T,
    d: DoorsModel,
    draws: Seq<usize>,
    k: int,
    n: nat,
) -> DoorsModel
    decreases n,
{
    if n == 0 {
        d
    } else {
        play_n(
            player,
            round(player, d, draw_at(draws, k), draw_at(draws, k + 1)),
            draws,
            k + 2,
            (n - 1) as nat,
        )
    }
}

/// From doors with `d.open_count >= 2` open, play goes on for exactly
/// `d.open_count - 2` rounds: more than two doors are open before each of
/// them, and two after the last.
pub proof fn lemma_rounds_until_two<T: Player>(player: T, d: DoorsModel, draws: Seq<usize>, k: int)
    requires
        d.open_count >= 2,
    ensures
        play_rounds(player, d, draws, k) == play_n(
            player,
            d,
            draws,
            k,
            (d.open_count - 2) as nat,
        ),
        forall|m: nat|
            m <= d.open_count - 2 ==> #[trigger] play_n(player, d, draws, k, m).open_count
                == d.open_count - m,
    decreases d.open_count,
{
    if d.open_count > 2 {
        let next = round(player, d, draw_at(draws, k), draw_at(draws, k + 1));
        lemma_rounds_until_two(player, next, draws, k + 2);
        assert forall|m: nat| m <= d.open_count - 2 implies #[trigger] play_n(
            player,
            d,
            draws,
            k,
            m,
        ).open_count == d.open_count - m by {
            if m > 0 {
                assert(play_n(player, d, draws, k, m) == play_n(
                    player,
                    next,
                    draws,
                    k + 2,
                    (m - 1) as nat,
                ));
            }
        }
    }
}

/// A trial on `size` doors plays exactly `size - 2` rounds.
pub proof fn lemma_trial_rounds<T: Player>(size: nat, player: T, draws: Seq<usize>)
    requires
        size >= MIN_DOORS,
    ensures
        play_rounds(player, trial_start(size, draws), draws, 2) == play_n(
            player,
            trial_start(size, draws),
            draws,
            2,
            (size - 2) as nat,
        ),
        forall|m: nat|
            m <= size - 2 ==> #[trigger] play_n(
                player,
                trial_start(size, draws),
                draws,
                2,
                m,
            ).open_count == size - m,
{
    lemma_rounds_until_two(player, trial_start(size, draws), draws, 2);
}

/// On three doors a trial is a single round, after which two doors are open.
pub proof fn lemma_three_doors_one_round<T: Player>(player: T, draws: Seq<usize>)
    ensures
        play_rounds(player, trial_start(3, draws), draws, 2) == round(
            player,
            trial_start(3, draws),
            draw_at(draws, 2),
            draw_at(draws, 3),
        ),
        round(player, trial_start(3, draws), draw_at(draws, 2), draw_at(draws, 3)).open_count
            == 2,
{
    let d = round(player, trial_start(3, draws), draw_at(draws, 2), draw_at(draws, 3));
    assert(play_rounds(player, d, draws, 4) == d);
}

/// Play from doors with `d.open_count` open reads only the draws at positions
/// `k` up to `k + 2 * (d.open_count - 2)`: two sequences that agree there
/// give the same doors.
pub proof fn lemma_rounds_read_window<T: Player>(
    player: T,
    d: DoorsModel,
    a: Seq<usize>,
    b: Seq<usize>,
    k: int,
)
    requires
        forall|i: int| k <= i < k + 2 * (d.open_count - 2) ==> draw_at(a, i) == draw_at(b, i),
    ensures
        play_rounds(player, d, a, k) == play_rounds(player, d, b, k),
    decreases d.open_count,
{
    if d.open_count > 2 {
        assert(draw_at(a, k) == draw_at(b, k));
        assert(draw_at(a, k + 1) == draw_at(b, k + 1));
        let next = round(player, d, draw_at(a, k), draw_at(a, k + 1));
        lemma_rounds_read_window(player, next, a, b, k + 2);
    }
}

/// A trial is determined by its draws: two sequences that agree on the
/// `2 * size - 2` draws a trial on `size` doors consumes give the same
/// outcome.
pub proof fn lemma_trial_deterministic<T: Player>(
    size: nat,
    player: T,
    a: Seq<usize>,
    b: Seq<usize>,
)
    requires
        size >= MIN_DOORS,
        forall|i: int| 0 <= i < 2 * size - 2 ==> draw_at(a, i) == draw_at(b, i),
    ensures
        trial_outcome(size, player, a) == trial_outcome(size, player, b),
{
    assert(draw_at(a, 0) == draw_at(b, 0));
    assert(draw_at(a, 1) == draw_at(b, 1));
    let start = trial_start(size, a);
    assert(start == trial_start(size, b));
    lemma_rounds_read_window(player, start, a, b, 2);
}

/// One play-through: the doors, the player, and the rounds played so far.
#[derive(Debug)]
pub struct Game<T: Player> {
    player: T,
    doors: Doors,
    rounds: usize,
}

impl<T: Player> Game<T> {
    pub closed spec fn doors_model(&self) -> DoorsModel {
        self.doors@
    }

    pub closed spec fn rounds_played(&self) -> nat {
        self.rounds as nat
    }

    pub closed spec fn strategy(&self) -> T {
        self.player
    }

    /// Valid doors, and one door closed for each round played.
    pub open spec fn wf(&self) -> bool {
        &&& self.doors_model().wf()
        &&& self.rounds_played() + self.doors_model().open_count == self.doors_model().open.len()
    }

    /// A game on `size` doors: the pick is `pick_draw % size` and the prize
    /// `winner_draw % size`.
    pub fn create_with(size: usize, player: T, pick_draw: usize, winner_draw: usize) -> (r: Result<
        Game<T>,
        SimError,
    >)
        ensures
            size < MIN_DOORS ==> r matches Err(SimError::InvalidDoorCount),
            size >= MIN_DOORS ==> r is Ok,
            r matches Ok(g) ==> {
                &&& g.wf()
                &&& g.doors_model() == DoorsModel::fresh(
                    size as nat,
                    (winner_draw % size) as nat,
                    (pick_draw % size) as nat,
                )
                &&& g.rounds_played() == 0
                &&& g.strategy() == player
            },
    {
        if size < MIN_DOORS {
            return Err(SimError::InvalidDoorCount);
        }
        let pick = pick_draw % size;
        match Doors::create_with(size, pick, winner_draw) {
            Ok(doors) => Ok(Game { player, doors, rounds: 0 }),
            Err(e) => Err(e),
        }
    }

    /// A game on `size` doors with the pick and the prize drawn at random.
    pub fn create(size: usize, player: T) -> (r: Result<Game<T>, SimError>)
        ensures
            size < MIN_DOORS ==> r matches Err(SimError::InvalidDoorCount),
            size >= MIN_DOORS ==> r is Ok,
            r matches Ok(g) ==> {
                &&& g.wf()
                &&& g.doors_model() == DoorsModel::fresh(
                    size as nat,
                    g.doors_model().winner,
                    g.doors_model().pick,
                )
                &&& g.rounds_played() == 0
                &&& g.strategy() == player
            },
    {
        if size < MIN_DOORS {
            return Err(SimError::InvalidDoorCount);
        }
        let initial_pick = random_draw() % size;
        match Doors::create(size, initial_pick) {
            Ok(doors) => Ok(Game { player, doors, rounds: 0 }),
            Err(e) => Err(e),
        }
    }

    /// Plays one round with the given draws; returns whether more than two
    /// doors are still open, that is whether another round follows.
    pub fn turn_with(&mut self, reveal_draw: usize, switch_draw: usize) -> (r: bool)
        requires
            old(self).wf(),
            old(self).doors_model().open_count > 2,
        ensures
            final(self).wf(),
            final(self).doors_model() == round(
                old(self).strategy(),
                old(self).doors_model(),
                reveal_draw,
                switch_draw,
            ),
            final(self).rounds_played() == old(self).rounds_played() + 1,
            final(self).strategy() == old(self).strategy(),
            r == (final(self).doors_model().open_count > 2),
    {
        let size = self.doors.size();
        self.doors.reveal_with(reveal_draw);
        match self.player.change_pick(&self.doors, switch_draw) {
            Some(id) => self.doors.switch_to(id),
            None => {},
        }
        self.rounds = self.rounds + 1;
        self.doors.open_count() > 2
    }

    /// Plays one round with random draws; returns whether another round
    /// follows.
    pub fn turn(&mut self) -> (r: bool)
        requires
            old(self).wf(),
            old(self).doors_model().open_count > 2,
        ensures
            final(self).wf(),
            exists|reveal_draw: usize, switch_draw: usize|
                final(self).doors_model() == #[trigger] round(
                    old(self).strategy(),
                    old(self).doors_model(),
                    reveal_draw,
                    switch_draw,
                ),
            final(self).doors_model().winner == old(self).doors_model().winner,
            final(self).doors_model().open_count == old(self).doors_model().open_count - 1,
            final(self).rounds_played() == old(self).rounds_played() + 1,
            final(self).strategy() == old(self).strategy(),
            r == (final(self).doors_model().open_count > 2),
    {
        let reveal_draw = random_draw();
        let switch_draw = random_draw();
        self.turn_with(reveal_draw, switch_draw)
    }

    /// Plays rounds until two doors are left; returns how many it played.
    pub fn play_out(&mut self) -> (r: usize)
        requires
            old(self).wf(),
        ensures
            final(self).wf(),
            r == old(self).doors_model().open_count - 2,
            final(self).doors_model().open_count == 2,
            final(self).doors_model().winner == old(self).doors_model().winner,
            final(self).rounds_played() == old(self).rounds_played() + r,
            final(self).strategy() == old(self).strategy(),
    {
        let mut played: usize = 0;
        while self.doors.open_count() > 2
            invariant
                self.wf(),
                played + self.doors_model().open_count == old(self).doors_model().open_count,
                self.doors_model().winner == old(self).doors_model().winner,
                self.rounds_played() == old(self).rounds_played() + played,
                self.strategy() == old(self).strategy(),
            decreases self.doors_model().open_count,
        {
            self.turn();
            played = played + 1;
        }
        played
    }

    /// Whether the player holds the prize door.
    pub fn has_won(&self) -> (r: bool)
        requires
            self.wf(),
        ensures
            r == (self.doors_model().pick == self.doors_model().winner),
    {
        self.doors.pick_is_winner()
    }

    /// The doors of this game.
    pub fn doors(&self) -> (r: &Doors)
        ensures
            r@ == self.doors_model(),
    {
        &self.doors
    }

    /// The number of rounds played so far.
    pub fn rounds(&self) -> (r: usize)
        ensures
            r == self.rounds_played(),
    {
        self.rounds
    }
}

} // verus!
