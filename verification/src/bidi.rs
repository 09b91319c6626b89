//! Unicode Bidirectional Algorithm (UAX #9): character classes,
//! paragraphs (P1..P3), explicit levels (X1..X10), weak types (W1..W7),
//! neutral types (N1, N2), implicit levels (I1, I2) and line reordering
//! (L1, L2).

pub mod class;
pub mod brackets;
pub mod paragraph;
pub mod explicit;
pub mod isolates;
pub mod weak;
pub mod neutral;
pub mod implicit;
pub mod line;
pub mod reorder;
pub mod runs;
pub mod sequences;
pub mod pipeline;
pub mod text;

pub use class::{bidi_class, BidiClass};
pub use brackets::{paired_bracket, BracketKind};
pub use paragraph::{fsi_inner_level, matching_pdi, paragraph_level, paragraph_level_from_classes};
pub use explicit::{
    least_greater_even, least_greater_odd, resolve_explicit_levels, ExplicitLevels, MAX_DEPTH,
};
pub use weak::resolve_weak_types;
pub use neutral::resolve_neutral_types;
pub use implicit::resolve_implicit_levels;
pub use line::{is_l1_trailing_filler, reset_trailing_levels};
pub use reorder::reorder_line;
pub use runs::{level_runs, LevelRun};
pub use sequences::{isolating_run_sequences, IsolatingRunSequence};
pub use pipeline::{process_paragraph_classes, ParagraphBidi};
pub use text::{process_paragraph, process_text, split_paragraphs, ParagraphSlice, TextBidi};
