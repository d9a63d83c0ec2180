//! Harmonica tab transposition engine.
//!
//! The library models an instrument tuning as a canonical, semitone-indexed
//! ordering of notation tokens, and builds on that model a token-level
//! transposition algorithm, converters between notation dialects, the
//! arithmetic between playing positions and semitone shifts, a scanner for
//! playable positions, and a scale-to-tab generator.

#![allow(unused_imports)]

mod audio;
mod keyboard;
mod laws;
mod options;
mod order;
mod playable;
mod position;
mod scale;
mod style;
mod text;
mod transpose;
mod tuning;

pub use audio::{get_audio_indices, get_audio_indices_in_key};
pub use keyboard::get_tabkeyboard_layout;
pub use laws::{lemma_canonical_find, lemma_canonical_index_linearity, lemma_canonical_slots_unique};
pub use options::RunOptions;
pub use order::tuning_to_notes_in_order;
pub use playable::{get_playable_positions, to_ordinal, transpose_playable_positions};
pub use position::{lemma_position_round_trip, positions_to_semitones, semitones_to_position};
pub use scale::{get_scales, scale_to_tab, tab_to_note, tab_to_scale_degree};
pub use style::{change_tab_style, change_tab_style_single, lemma_default_style_identity, Style};
pub use transpose::{
    fix_enharmonics, lemma_transpose_index_linearity, lemma_transpose_out_of_range,
    lemma_zero_shift_identity, transpose, transpose_tabs,
};
pub use tuning::{is_known_tuning, Tuning};
