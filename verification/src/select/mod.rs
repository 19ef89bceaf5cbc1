//! `Select`: a single-choice drop-down with local, case-insensitive search.

pub mod props;
pub mod state;

pub use props::{SelectOption, SelectProps, SelectSize, SelectStatus, SelectVariant};

pub use state::{
    filtered_indices_for, normalize_search_text, offset_from_utf16_in, offset_to_utf16_in,
    range_from_utf16_in, SelectState, SelectStateOutcome, Utf16Selection,
};
pub mod style;
pub mod trigger;
