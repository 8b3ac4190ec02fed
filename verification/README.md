# spark_model

Planning of language-model inference on a GPU: which kernels a layer launches, with
which arguments and in which order, which weights it converts, streams or releases,
and how much memory that takes. Everything in `src/` is Rust verified with Verus.

Work for the device is data. A planning function appends to a `CommandBuffer`, whose
view is a sequence of commands, and its contract says which commands those are. Values
that only the device or the host can give (addresses of fresh memory, bytes read back,
environment variables, kernel handles) are arguments.

- `src/device.rs`, `src/context.rs`, `src/weights.rs`, `src/ops_table.rs`: addresses,
  commands, launch geometry, buffers and weights.
- `src/codec.rs`, `src/float.rs`: number formats on bit patterns, with proofs of their
  rounding.
- `src/ops/`: launchers of single kernels and matrix-product dispatch.
- `src/moe/`: experts, their weights and layouts, routing work lists, streaming.
- `src/attention/`, `src/ssm/`: decoding of several sequences at once, key-value cache
  offloading, recurrent layers.
- `src/dense_ffn.rs`, `src/dflash_head.rs`, `src/vision_encoder.rs`,
  `src/laguna_metal.rs`: the feed-forward block, the drafting head, the vision encoder
  and one model's profile rules.
- `app/`: runs recorded commands on a backend, reads back, allocates, loads libraries.
- `tests/`: the library run on concrete values.

Properties that hold of the library as a whole are public proof functions whose names
begin with `law_`.
