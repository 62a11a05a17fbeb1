//! A score tracker for Ren'Py games whose whole state can be saved and
//! restored, so that saves, loads and rollback keep it consistent.

use vstd::prelude::*;
use crate::text::{int_decimal, push_i64_decimal, string_views};

verus! {

/// What a tracker holds: its points and its history of messages.
pub struct TrackerState {
    pub points: int,
    pub history: Seq<Seq<char>>,
}

/// The state a tracker that starts with `points` is created in.
pub open spec fn fresh_state(points: int) -> TrackerState {
    TrackerState { points, history: Seq::empty() }
}

/// The history message written when `amount` points bring the total to `total`.
pub open spec fn history_entry(amount: int, total: int) -> Seq<char> {
    "Added "@ + int_decimal(amount) + " points. Total: "@ + int_decimal(total)
}

/// The state after `amount` (not negative) points are added to `s`.
pub open spec fn state_after_add(s: TrackerState, amount: int) -> TrackerState {
    TrackerState {
        points: s.points + amount,
        history: s.history.push(history_entry(amount, s.points + amount)),
    }
}

/// What saving a tracker in state `s` hands out.
pub open spec fn saved_state(s: TrackerState) -> (int, Seq<Seq<char>>) {
    (s.points, s.history)
}

/// The state that restoring the saved value `saved` produces.
pub open spec fn restored_state(saved: (int, Seq<Seq<char>>)) -> TrackerState {
    TrackerState { points: saved.0, history: saved.1 }
}

/// Why points could not be added.
#[derive(Debug, Clone, Copy, PartialEq, Eq, Structural)]
pub enum TrackerError {
    /// The amount to add was negative.
    NegativePoints,
}

impl TrackerError {
    /// The message shown to the game for this error.
    pub fn message(&self) -> (r: &'static str)
        ensures
            r@ == "Cannot add negative points! Use deduct_points instead."@,
    {
        match self {
            TrackerError::NegativePoints => "Cannot add negative points! Use deduct_points instead.",
        }
    }
}

/// A game's score together with the history of how it grew.
pub struct GameStateTracker {
    /// The current score; the game may read and set it directly.
    pub points: i64,
    /// One message per accepted addition, oldest first.
    pub history: Vec<String>,
}

impl View for GameStateTracker {
    type V = TrackerState;

    open spec fn view(&self) -> TrackerState {
        TrackerState { points: self.points as int, history: string_views(self.history@) }
    }
}

fn copy_strings(v: &Vec<String>) -> (r: Vec<String>)
    ensures
        string_views(r@) == string_views(v@),
{
    let mut r: Vec<String> = Vec::new();
    let mut i: usize = 0;
    while i < v.len()
        invariant
            i <= v.len(),
            string_views(r@) == string_views(v@).take(i as int),
        decreases v.len() - i,
    {
        let ghost before = r@;
        r.push(v[i].clone());
        assert(string_views(r@) =~= string_views(before).push(v@[i as int]@));
        assert(string_views(v@).take(i + 1) =~= string_views(v@).take(i as int).push(
            v@[i as int]@,
        ));
        i = i + 1;
    }
    assert(string_views(v@).take(v.len() as int) =~= string_views(v@));
    r
}

impl GameStateTracker {
    /// A tracker with `starting_points` points and an empty history.
    pub fn new(starting_points: i64) -> (r: Self)
        ensures
            r@ == fresh_state(starting_points as int),
    {
        let r = GameStateTracker { points: starting_points, history: Vec::new() };
        assert(string_views(r.history@) =~= Seq::<Seq<char>>::empty());
        r
    }

    /// Adds `amount` points and records it in the history; refuses a
    /// negative amount and leaves the tracker as it was.
    pub fn add_points(&mut self, amount: i64) -> (r: Result<i64, TrackerError>)
        requires
            amount < 0 || old(self).points + amount <= i64::MAX,
        ensures
            amount < 0 ==> r == Err::<i64, TrackerError>(TrackerError::NegativePoints)
                && final(self)@ == old(self)@,
            amount >= 0 ==> r == Ok::<i64, TrackerError>(final(self).points)
                && final(self)@ == state_after_add(old(self)@, amount as int),
    {
        if amount < 0 {
            return Err(TrackerError::NegativePoints);
        }
        self.points = self.points + amount;
        let mut entry = String::from_str("Added ");
        push_i64_decimal(&mut entry, amount);
        entry.append(" points. Total: ");
        push_i64_decimal(&mut entry, self.points);
        let ghost before = self.history@;
        self.history.push(entry);
        assert(string_views(self.history@) =~= string_views(before).push(
            history_entry(amount as int, self.points as int),
        ));
        Ok(self.points)
    }

    /// The history messages, oldest first.
    pub fn get_history(&self) -> (r: Vec<String>)
        ensures
            string_views(r@) == self@.history,
    {
        copy_strings(&self.history)
    }

    /// Sets the points to zero and forgets the history.
    pub fn reset(&mut self)
        ensures
            final(self)@ == fresh_state(0),
    {
        self.points = 0;
        self.history.clear();
        assert(string_views(self.history@) =~= Seq::<Seq<char>>::empty());
    }

    /// The whole state, as saved with the game or kept for rollback.
    pub fn __getstate__(&self) -> (r: (i64, Vec<String>))
        ensures
            (r.0 as int, string_views(r.1@)) == saved_state(self@),
    {
        (self.points, copy_strings(&self.history))
    }

    /// Replaces the whole state by a saved one, as on load or rollback.
    pub fn __setstate__(&mut self, state: (i64, Vec<String>))
        ensures
            final(self)@ == restored_state((state.0 as int, string_views(state.1@))),
    {
        self.points = state.0;
        self.history = state.1;
    }
}

/// Restoring what was saved gives back the state that was saved.
pub proof fn lemma_restore_after_save(s: TrackerState)
    ensures
        restored_state(saved_state(s)) == s,
{
}

/// Saving right after a restore hands out what was restored.
pub proof fn lemma_save_after_restore(saved: (int, Seq<Seq<char>>))
    ensures
        saved_state(restored_state(saved)) == saved,
{
}

/// The number of non-negative amounts in `amounts`.
pub open spec fn accepted_count(amounts: Seq<int>) -> nat
    decreases amounts.len(),
{
    if amounts.len() == 0 {
        0
    } else {
        accepted_count(amounts.drop_last()) + (if amounts.last() >= 0 { 1nat } else { 0nat })
    }
}

/// The sum of the non-negative amounts in `amounts`.
pub open spec fn accepted_sum(amounts: Seq<int>) -> int
    decreases amounts.len(),
{
    if amounts.len() == 0 {
        0
    } else {
        accepted_sum(amounts.drop_last()) + (if amounts.last() >= 0 { amounts.last() } else { 0 })
    }
}

/// The state after `add_points` is called with each of `amounts` in turn,
/// starting from `s`.
pub open spec fn state_after_adds(s: TrackerState, amounts: Seq<int>) -> TrackerState
    decreases amounts.len(),
{
    if amounts.len() == 0 {
        s
    } else {
        let before = state_after_adds(s, amounts.drop_last());
        if amounts.last() >= 0 {
            state_after_add(before, amounts.last())
        } else {
            before
        }
    }
}

/// Over any run of `add_points` calls, the history grows by one message per
/// accepted amount, refused amounts leave no trace, and the points grow by
/// the sum of the accepted amounts.
pub proof fn lemma_history_records_accepted_adds(s: TrackerState, amounts: Seq<int>)
    ensures
        state_after_adds(s, amounts).history.len() == s.history.len() + accepted_count(amounts),
        state_after_adds(s, amounts).points == s.points + accepted_sum(amounts),
        state_after_adds(s, amounts).history.subrange(0, s.history.len() as int) == s.history,
    decreases amounts.len(),
{
    if amounts.len() > 0 {
        lemma_history_records_accepted_adds(s, amounts.drop_last());
        let before = state_after_adds(s, amounts.drop_last());
        assert(before.history.push(history_entry(amounts.last(), before.points + amounts.last()))
            .subrange(0, s.history.len() as int) =~= before.history.subrange(
            0,
            s.history.len() as int,
        ));
    }
}

} // verus!
