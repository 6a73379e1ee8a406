//! A neuroevolution engine for a side-scrolling obstacle course.
//!
//! A population of players flies towards pipes and has to pass through their
//! gaps. Each player is steered by a small neural network of fixed shape, its
//! brain. When every player of a generation has died, the players are ranked
//! by the time they lived, and the best brains found the next generation:
//! they have mutated offspring, some are carried forward unchanged, and a
//! number of fresh random brains keeps the population varied.
//!
//! The engine computes on fixed-point numbers: every real quantity is an
//! `i64` that counts billionths, and time is counted in nanoseconds. All
//! operations are total. Results that the numbers cannot hold stay at the
//! nearest value that they can hold, and no function of the engine fails.
//!
//! - [`fixed`]: the arithmetic of the fixed-point numbers.
//! - [`chance`]: draws from the `rand` crate, and what a draw stands for.
//! - [`activation`]: the logistic sigmoid.
//! - [`network`]: what a list of parameters makes of four readings.
//! - [`genetics`]: the brain, its making and its mutation.
//! - [`numeral`] and [`description`]: a brain as text.
//! - [`pipe`]: the obstacles.
//! - [`player`]: what a tick does to a player.
//! - [`generation`]: ranking, and the step from one generation to the next.
//!
//! Every function is verified against a contract over mathematical models of
//! its data. Where chance decides, a contract says what holds of every
//! outcome, and a function that takes the draws as an argument says exactly
//! what each draw leads to. The only code that is trusted and not verified
//! is the call that fetches a draw from `rand` and the two calls that append
//! to a `String`.

pub mod activation;
pub mod chance;
pub mod description;
pub mod fixed;
pub mod generation;
pub mod genetics;
pub mod network;
pub mod numeral;
pub mod pipe;
pub mod player;
