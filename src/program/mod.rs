//! Programs: validated transition tables, and their composition.

mod compose;
mod extend;
mod table;

pub use compose::{
    lemma_composed_lookup_first, lemma_composed_lookup_second, lemma_composed_wf, lowered, relinked,
    renumbered,
};
pub use extend::{tuple_instruction, tuple_instructions, Extend};
pub use table::{answer_view, lemma_get_idempotent, Program, ProgramView};
pub(crate) use table::contains_symbol;
