use vstd::prelude::*;
use crate::ball::Respawn;

verus! {

/// The side that won a point.
#[derive(Debug, Clone, Copy, PartialEq, Eq, Structural)]
pub enum Scorer {
    Player,
    Enemy,
}

/// A point was won this frame.
#[derive(Debug, Clone, Copy, PartialEq, Eq, Structural)]
pub struct CreateScore {
    pub scorer: Scorer,
}

/// Holds the points won this frame until they are turned into respawns.
#[derive(Debug, PartialEq, Eq)]
pub struct Plugin {
    pub create_score: Vec<CreateScore>,
}

impl Plugin {
    pub fn new() -> (r: Plugin)
        ensures
            r.create_score@.len() == 0,
    {
        Plugin { create_score: Vec::new() }
    }

    /// Drains the points won this frame, sends one respawn for each of them,
    /// and returns who won them, in order.
    pub fn create_score_handler(&mut self, respawn: &mut Vec<Respawn>) -> (scorers: Vec<Scorer>)
        ensures
            final(self).create_score@.len() == 0,
            final(respawn)@.len() == old(respawn)@.len() + old(self).create_score@.len(),
            scorers@.len() == old(self).create_score@.len(),
            forall|i: int|
                0 <= i < scorers@.len() ==> scorers@[i] == old(self).create_score@[i].scorer,
    {
        let mut scorers: Vec<Scorer> = Vec::new();
        if self.create_score.len() == 0 {
            return scorers;
        }
        let n = self.create_score.len();
        let mut i: usize = 0;
        while i < n
            invariant
                n == self.create_score@.len(),
                self.create_score@ == old(self).create_score@,
                0 <= i <= n,
                respawn@.len() == old(respawn)@.len() + i,
                scorers@.len() == i,
                forall|j: int| 0 <= j < i ==> scorers@[j] == self.create_score@[j].scorer,
            decreases n - i,
        {
            scorers.push(self.create_score[i].scorer);
            respawn.push(Respawn);
            i = i + 1;
        }
        self.create_score.clear();
        scorers
    }
}

} // verus!
