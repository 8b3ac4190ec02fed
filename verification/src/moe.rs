//! Mixture-of-experts layers.
pub mod b12x_scales;
pub mod b12x_weights;
pub mod decode_worklist;
pub mod exl3;
pub mod forward_exl3;
pub mod forward_prefill_b12x;
pub mod forward_prefill_compact;
pub mod forward_prefill_marlin;
pub mod forward_prefill_packed;
pub mod forward_routed;
pub mod fp4;
pub mod init_packed;
pub mod k2_dispatch;
pub mod layer;
pub mod lora;
pub mod marlin_scales;
pub mod marlin_weights;
pub mod ptr_tables;
pub mod stream_tables;
pub mod streamer;
pub mod transposes;
