use vstd::prelude::*;
use crate::doors::{SimError, MIN_DOORS};
use crate::draw::random_draw;
use crate::game::{draw_at, play_rounds, trial_outcome, trial_start, Game};
use crate::strategy::Player;

verus! {

/// Where the `k`-th draw of a scripted sequence of `len` values is read: `k`
/// while the sequence lasts, `len` after.
pub open spec fn script_pos(k: int, len: int) -> int {
    if k < len {
        k
    } else {
        len
    }
}

/// The next scripted draw, read at `pos`, which then moves on.
fn next_scripted(draws: &Vec<usize>, pos: &mut usize, Ghost(k): Ghost<int>) -> (r: usize)
    requires
        0 <= k,
        *old(pos) == script_pos(k, draws@.len() as int),
    ensures
        r == draw_at(draws@, k),
        *final(pos) == script_pos(k + 1, draws@.len() as int),
{
    if *pos < draws.len() {
        let r = draws[*pos];
        *pos = *pos + 1;
        r
    } else {
        0
    }
}

/// Plays one trial on `size` doors with a fixed sequence of draws: the first
/// gives the pick, the second the prize, and each round takes the next two
/// (the door revealed, then the player's choice); past the end of `draws`
/// every draw is 0. Returns whether the player won.
pub fn run_test_with<T: Player>(size: usize, player: T, draws: &Vec<usize>) -> (r: Result<
    bool,
    SimError,
>)
    ensures
        size < MIN_DOORS ==> r matches Err(SimError::InvalidDoorCount),
        size >= MIN_DOORS ==> r == Ok::<bool, SimError>(
            trial_outcome(size as nat, player, draws@),
        ),
{
    let mut pos: usize = 0;
    let pick_draw = next_scripted(draws, &mut pos, Ghost(0));
    let winner_draw = next_scripted(draws, &mut pos, Ghost(1));
    let mut game = match Game::create_with(size, player, pick_draw, winner_draw) {
        Ok(g) => g,
        Err(e) => {
            return Err(e);
        },
    };
    let ghost s = game.strategy();
    let ghost start = game.doors_model();
    assert(start == trial_start(size as nat, draws@));
    let ghost mut k: int = 2;
    while game.doors().open_count() > 2
        invariant
            game.wf(),
            game.strategy() == s,
            k >= 2,
            pos == script_pos(k, draws@.len() as int),
            play_rounds(s, game.doors_model(), draws@, k) == play_rounds(s, start, draws@, 2),
        decreases game.doors_model().open_count,
    {
        let reveal_draw = next_scripted(draws, &mut pos, Ghost(k));
        let switch_draw = next_scripted(draws, &mut pos, Ghost(k + 1));
        game.turn_with(reveal_draw, switch_draw);
        proof {
            k = k + 2;
        }
    }
    Ok(game.has_won())
}

/// Plays one trial on `size` doors with random draws. Returns whether the
/// player won; the outcome is that of the trial for some sequence of draws.
pub fn run_test<T: Player>(size: usize, player: T) -> (r: Result<bool, SimError>)
    ensures
        size < MIN_DOORS ==> r matches Err(SimError::InvalidDoorCount),
        size >= MIN_DOORS ==> exists|draws: Seq<usize>|
            r == Ok::<bool, SimError>(#[trigger] trial_outcome(size as nat, player, draws)),
{
    if size < MIN_DOORS {
        return Err(SimError::InvalidDoorCount);
    }
    // two draws set the game up, and each of its size - 2 rounds takes two
    let mut draws: Vec<usize> = Vec::new();
    let mut i: usize = 1;
    while i < size
        invariant
            1 <= i <= size,
        decreases size - i,
    {
        draws.push(random_draw());
        draws.push(random_draw());
        i = i + 1;
    }
    let r = run_test_with(size, player, &draws);
    assert(r == Ok::<bool, SimError>(trial_outcome(size as nat, player, draws@)));
    r
}

} // verus!
