//! Verified planning core of a GPU model runner.
//!
//! Every function here is pure host logic: it decides, lays out memory and
//! records device work into a [`device::CommandBuffer`]. Executing a recorded
//! buffer, reading the environment and allocating memory happen outside.

pub mod attention;
pub mod catalog;
pub mod codec;
pub mod context;
pub mod dataflow;
pub mod dense_ffn;
pub mod device;
pub mod dflash_head;
pub mod env;
pub mod float;
pub mod laguna_metal;
pub mod num;
pub mod ops_table;
pub mod moe;
pub mod ops;
pub mod text;
pub mod vision_encoder;
pub mod vision_flow;
pub mod weights;
pub mod ssm;
