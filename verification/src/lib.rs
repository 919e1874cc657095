//! Day-cycle simulation engine for a turn-based narrative survival game:
//! a resource economy (inventory and bounded stats), a farm automaton with
//! growth and blight, a dialogue/prompt state machine with incremental text
//! reveal, a weighted event selector, and the day-loop state that ties them
//! together.
pub mod cat;
pub mod dialogue;
pub mod event;
pub mod events;
pub mod farm;
pub mod intro;
pub mod inventory;
pub mod prompt;
pub mod rng;
pub mod stat;
pub mod state;
pub mod textfmt;
