//! The sample agent's choice: a gesture drawn at random.
use crate::logic::Gesture;
use vstd::prelude::*;

verus! {

/// Relies on rand::random: a value drawn from the thread-local generator;
/// nothing is promised of which.
pub assume_specification<T>[ rand::random::<T> ]() -> (r: T)
    where
        rand::distributions::Standard: rand::distributions::Distribution<T>,
;

/// The gesture a draw picks: its remainder by three selects `Rock`,
/// `Scissors` or `Paper`.
pub open spec fn draw_gesture(n: usize) -> Gesture {
    if n % 3 == 0 {
        Gesture::Rock
    } else if n % 3 == 1 {
        Gesture::Scissors
    } else {
        Gesture::Paper
    }
}

/// The gesture picked by the draw `n`.
pub fn gesture_of_draw(n: usize) -> (g: Gesture)
    ensures
        g == draw_gesture(n),
{
    let k: usize = n % 3;
    if k == 0 {
        Gesture::Rock
    } else if k == 1 {
        Gesture::Scissors
    } else {
        Gesture::Paper
    }
}

/// A gesture picked by a random draw.
pub fn random_gesture() -> (g: Gesture)
    ensures
        exists|n: usize| g == draw_gesture(n),
{
    let n: usize = rand::random::<usize>();
    gesture_of_draw(n)
}

} // verus!
