//! The navigation state: an ordered, non-empty list of view titles and the
//! index of the one that is selected, moved one step at a time with wraparound.

use vstd::arithmetic::div_mod::{
    lemma_add_mod_noop_right, lemma_mod_add_multiples_vanish, lemma_mod_sub_multiples_vanish,
    lemma_small_mod,
};
use vstd::prelude::*;

verus! {

/// Index reached from `i` by one step forward among `n` views.
pub open spec fn advance_index(i: int, n: int) -> int {
    (i + 1) % n
}

/// Index reached from `i` by one step back among `n` views.
pub open spec fn retreat_index(i: int, n: int) -> int {
    if i > 0 {
        i - 1
    } else {
        n - 1
    }
}

/// Index reached from `i` after the moves in `moves`, in order: `true` steps
/// forward, `false` steps back.
pub open spec fn replay(i: int, n: int, moves: Seq<bool>) -> int
    decreases moves.len(),
{
    if moves.len() == 0 {
        i
    } else {
        let j = if moves[0] { advance_index(i, n) } else { retreat_index(i, n) };
        replay(j, n, moves.drop_first())
    }
}

/// `k` steps forward from `i`.
pub open spec fn advance_times(i: int, n: int, k: nat) -> int
    decreases k,
{
    if k == 0 {
        i
    } else {
        advance_index(advance_times(i, n, (k - 1) as nat), n)
    }
}

/// `k` steps back from `i`.
pub open spec fn retreat_times(i: int, n: int, k: nat) -> int
    decreases k,
{
    if k == 0 {
        i
    } else {
        retreat_index(retreat_times(i, n, (k - 1) as nat), n)
    }
}

/// Whatever moves are made, forward or back, the selected index stays among
/// the `n` views.
pub proof fn lemma_replay_in_range(i: int, n: int, moves: Seq<bool>)
    requires
        n >= 1,
        0 <= i < n,
    ensures
        0 <= replay(i, n, moves) < n,
    decreases moves.len(),
{
    if moves.len() > 0 {
        let j = if moves[0] { advance_index(i, n) } else { retreat_index(i, n) };
        lemma_replay_in_range(j, n, moves.drop_first());
    }
}

proof fn lemma_advance_times_mod(i: int, n: int, k: nat)
    requires
        n >= 1,
        0 <= i < n,
    ensures
        advance_times(i, n, k) == (i + k) % n,
    decreases k,
{
    if k == 0 {
        lemma_small_mod(i as nat, n as nat);
    } else {
        lemma_advance_times_mod(i, n, (k - 1) as nat);
        lemma_add_mod_noop_right(1, i + k - 1, n);
    }
}

proof fn lemma_retreat_times_mod(i: int, n: int, k: nat)
    requires
        n >= 1,
        0 <= i < n,
    ensures
        retreat_times(i, n, k) == (i - k) % n,
    decreases k,
{
    if k == 0 {
        lemma_small_mod(i as nat, n as nat);
    } else {
        lemma_retreat_times_mod(i, n, (k - 1) as nat);
        let j = (i - (k - 1)) % n;
        lemma_add_mod_noop_right(-1, i - (k - 1), n);
        if j == 0 {
            lemma_mod_add_multiples_vanish(-1, n);
            lemma_small_mod((n - 1) as nat, n as nat);
        } else {
            lemma_small_mod((j - 1) as nat, n as nat);
        }
    }
}

/// Stepping forward `n` times among `n` views comes back to where it started,
/// and so does stepping back `n` times.
pub proof fn lemma_full_cycle(i: int, n: int)
    requires
        n >= 1,
        0 <= i < n,
    ensures
        advance_times(i, n, n as nat) == i,
        retreat_times(i, n, n as nat) == i,
{
    lemma_advance_times_mod(i, n, n as nat);
    lemma_mod_add_multiples_vanish(i, n);
    lemma_retreat_times_mod(i, n, n as nat);
    lemma_mod_sub_multiples_vanish(i, n);
    lemma_small_mod(i as nat, n as nat);
}

/// A step back undoes a step forward, and a step forward undoes a step back.
pub proof fn lemma_step_round_trip(i: int, n: int)
    requires
        n >= 1,
        0 <= i < n,
    ensures
        retreat_index(advance_index(i, n), n) == i,
        advance_index(retreat_index(i, n), n) == i,
{
    if i + 1 < n {
        lemma_small_mod((i + 1) as nat, n as nat);
    } else {
        lemma_mod_add_multiples_vanish(0, n);
        lemma_small_mod(0, n as nat);
    }
    if i > 0 {
        lemma_small_mod(i as nat, n as nat);
    } else {
        lemma_mod_add_multiples_vanish(0, n);
        lemma_small_mod(0, n as nat);
    }
}

/// A logical input event, as the event source reports it.
#[derive(Clone, Copy, Debug, PartialEq, Eq, Structural)]
pub enum Command {
    /// Select the next view.
    MoveRight,
    /// Select the previous view.
    MoveLeft,
    /// Stop the program.
    Quit,
    /// Anything else; it is ignored.
    Other,
}

/// The selection state of the tab bar.
pub struct App<'a> {
    pub titles: Vec<&'a str>,
    pub index: usize,
}

impl<'a> App<'a> {
    /// At least one view, and the selected index names one of them.
    pub open spec fn wf(&self) -> bool {
        &&& self.titles@.len() >= 1
        &&& self.index < self.titles@.len()
    }

    /// The three views of the application, the first one selected.
    pub fn new() -> (r: App<'a>)
        ensures
            r.wf(),
            r.index == 0,
            r.titles@.len() == 3,
            r.titles@[0]@ == "split windows"@,
            r.titles@[1]@ == "inputs"@,
            r.titles@[2]@ == "multi inputs"@,
    {
        proof {
            reveal_strlit("split windows");
            reveal_strlit("inputs");
            reveal_strlit("multi inputs");
        }
        App { titles: vec!["split windows", "inputs", "multi inputs"], index: 0 }
    }

    /// Selects the next view, wrapping from the last one to the first.
    pub fn next(&mut self)
        requires
            old(self).wf(),
        ensures
            final(self).wf(),
            final(self).titles@ == old(self).titles@,
            final(self).index == advance_index(old(self).index as int, old(self).titles@.len() as int),
    {
        let n = self.titles.len();
        self.index = (self.index + 1) % n;
    }

    /// Selects the previous view, wrapping from the first one to the last.
    pub fn previous(&mut self)
        requires
            old(self).wf(),
        ensures
            final(self).wf(),
            final(self).titles@ == old(self).titles@,
            final(self).index == retreat_index(old(self).index as int, old(self).titles@.len() as int),
    {
        if self.index > 0 {
            self.index -= 1;
        } else {
            self.index = self.titles.len() - 1;
        }
    }

    /// Applies one input event: moving right or left selects the next or the
    /// previous view, anything else leaves the selection as it is. Returns
    /// whether the program keeps running, which it does unless told to quit.
    pub fn handle(&mut self, cmd: Command) -> (running: bool)
        requires
            old(self).wf(),
        ensures
            final(self).wf(),
            final(self).titles@ == old(self).titles@,
            running == (cmd != Command::Quit),
            cmd == Command::MoveRight ==> final(self).index == advance_index(
                old(self).index as int,
                old(self).titles@.len() as int,
            ),
            cmd == Command::MoveLeft ==> final(self).index == retreat_index(
                old(self).index as int,
                old(self).titles@.len() as int,
            ),
            (cmd == Command::Quit || cmd == Command::Other) ==> final(self).index == old(self).index,
    {
        match cmd {
            Command::MoveRight => {
                self.next();
                true
            },
            Command::MoveLeft => {
                self.previous();
                true
            },
            Command::Quit => false,
            Command::Other => true,
        }
    }

    /// The title of the selected view.
    pub fn current(&self) -> (r: &'a str)
        requires
            self.wf(),
        ensures
            r == self.titles@[self.index as int],
    {
        self.titles[self.index]
    }
}

} // verus!
