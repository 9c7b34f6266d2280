use vstd::prelude::*;
use crate::doors::{open_ids_except, lemma_open_ids_except, Doors};

verus! {

/// A player's policy: after each reveal, keep the pick or name another open
/// door. It sees which doors are open, how many, and its own pick, never
/// where the prize is. `draw` is a random value it may use.
pub trait Player {
    /// The decision on doors `open` with `open_count` of them open and `pick`
    /// held.
    spec fn decision(&self, open: Seq<bool>, open_count: nat, pick: nat, draw: usize) -> Option<
        usize,
    >;

    fn change_pick(&self, doors: &Doors, draw: usize) -> (r: Option<usize>)
        requires
            doors.wf(),
        ensures
            r == self.decision(doors@.open, doors@.open_count, doors@.pick, draw),
            r matches Some(id) ==> {
                &&& id < doors@.open.len()
                &&& doors@.open[id as int]
                &&& id != doors@.pick
            },
    ;
}

/// Picks once and never switches.
#[derive(Debug, Clone, Copy)]
pub struct AlwaysStay;

/// Switches to the other open door once two doors are left.
#[derive(Debug, Clone, Copy)]
pub struct ChangeLastRound;

/// Switches to a random other open door after every reveal.
#[derive(Debug, Clone, Copy)]
pub struct ChangeAllTheTime;

impl Player for AlwaysStay {
    open spec fn decision(&self, open: Seq<bool>, open_count: nat, pick: nat, draw: usize) -> Option<
        usize,
    > {
        None
    }

    fn change_pick(&self, doors: &Doors, draw: usize) -> (r: Option<usize>) {
        None
    }
}

impl Player for ChangeLastRound {
    open spec fn decision(&self, open: Seq<bool>, open_count: nat, pick: nat, draw: usize) -> Option<
        usize,
    > {
        let others = open_ids_except(open, pick as int, pick as int, open.len() as int);
        if open_count == 2 && others.len() > 0 {
            Some(others[0])
        } else {
            None
        }
    }

    /// With two doors left there is exactly one other door to move to.
    fn change_pick(&self, doors: &Doors, draw: usize) -> (r: Option<usize>)
        ensures
            doors@.open_count == 2 ==> r is Some,
    {
        if doors.open_count() == 2 {
            let n = doors.size();
            let pick = doors.player_pick();
            let others = doors.open_ids_except(pick, pick);
            proof {
                lemma_open_ids_except(doors@.open, pick as int, pick as int, n as int);
            }
            if others.len() > 0 {
                Some(others[0])
            } else {
                None
            }
        } else {
            None
        }
    }
}

impl Player for ChangeAllTheTime {
    open spec fn decision(&self, open: Seq<bool>, open_count: nat, pick: nat, draw: usize) -> Option<
        usize,
    > {
        let others = open_ids_except(open, pick as int, pick as int, open.len() as int);
        if others.len() > 0 {
            Some(others[(draw as int) % (others.len() as int)])
        } else {
            None
        }
    }

    /// Valid doors always leave another open door to move to.
    fn change_pick(&self, doors: &Doors, draw: usize) -> (r: Option<usize>)
        ensures
            r is Some,
    {
        let n = doors.size();
        let pick = doors.player_pick();
        let others = doors.open_ids_except(pick, pick);
        proof {
            lemma_open_ids_except(doors@.open, pick as int, pick as int, n as int);
        }
        if others.len() > 0 {
            Some(others[draw % others.len()])
        } else {
            None
        }
    }
}

} // verus!
