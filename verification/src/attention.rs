//! Attention layers.
pub mod high_speed_swap;
pub mod layer;
pub mod multi_seq_attn;
pub mod multi_seq_qkv;
pub mod outputs;
pub mod sequences;
