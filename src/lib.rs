//! Canonical encoding of a shard proof's public values as a fixed-width
//! vector of field elements, its decoding, and digest byte extraction.

mod field;
mod word;
mod public_values;

pub use field::{Felt, BABY_BEAR_ORDER};
pub use word::{byte_weight, le_byte, lemma_merge_le_bytes, Word, WORD_SIZE};
pub use public_values::{
    lemma_round_trip, PublicValues, PublicValuesError, PROOF_MAX_NUM_PVS, PV_DIGEST_NUM_WORDS, PV_NUM_ELEMENTS,
};
