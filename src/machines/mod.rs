//! Execution engines, and what holds of their runs.

mod classic;
mod theorems;

pub use classic::{applied, Classic, ClassicView};
pub use theorems::{
    covers_reachable, entered, instruction_used, lemma_composition_continues, lifted, relinked_state, lemma_covered_execute_halts, lemma_covered_run_never_fails,
    lemma_run_keeps_head_on_tape, lemma_run_prefix, lemma_run_split, lemma_run_tape_monotone,
    lemma_shift_growth, lemma_step_tape_growth,
};
