//! Linear-attention layers with recurrent state.
pub mod decode_multi_seq;
pub mod feeding;
pub mod layer;
pub mod mixing;
pub mod prefill_recur;
