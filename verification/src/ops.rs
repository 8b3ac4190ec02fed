//! Device operations: launch geometry and dispatch rules.
pub mod b12x_flashinfer;
pub mod dispatch;
pub mod exl3_moe_decode;
pub mod gdn_flashinfer;
pub mod gguf;
pub mod lora_delta;
pub mod mgemm_grid;
pub mod moe_decode_persistent;
pub mod moe_grouped_a;
pub mod moe_grouped_a2;
pub mod moe_grouped_worklist;
pub mod moe_lora_grouped;
pub mod prefill_attn_b;
pub mod q4k_mmq;
pub mod token_overlay;
