//! Launches of the token overlay: per-adapter embedding rows and logit columns.
use crate::catalog::KernelCatalog;
use crate::device::{Cmd, CommandBuffer, DevicePtr, Dim3, KernelArg, KernelHandle, KernelLaunch, Launch, Scalar};
use crate::num::{ceil_div, div_ceil_u32};
use vstd::prelude::*;

verus! {

/// Flags the rows of `base` that differ from `served` by more than `thresh`.
pub open spec fn embed_rowdiff_launch(
    kernel: KernelHandle, base: DevicePtr, served: DevicePtr, flags: DevicePtr, rows: u32, h: u32,
    thresh: Scalar,
) -> Launch {
    Launch {
        kernel,
        grid: Dim3 { x: ceil_div(rows as int, 256) as u32, y: 1, z: 1 },
        block: Dim3 { x: 256, y: 1, z: 1 },
        shared_mem: 0,
        args: seq![
            KernelArg::Ptr(base), KernelArg::Ptr(served), KernelArg::Ptr(flags),
            KernelArg::U32(rows), KernelArg::U32(h), KernelArg::Scalar(thresh),
        ],
    }
}

/// Records the launch that [`embed_rowdiff_launch`] describes.
pub fn embed_rowdiff(
    cb: &mut CommandBuffer,
    kernel: KernelHandle, base: DevicePtr, served: DevicePtr, flags: DevicePtr, rows: u32, h: u32,
    thresh: Scalar,
)
    ensures
        final(cb)@ == old(cb)@.push(
            Cmd::Launch(
                embed_rowdiff_launch(
                    kernel, base, served, flags, rows, h, thresh,
                ),
            ),
        ),
{
    let launch = KernelLaunch {
        kernel,
        grid: Dim3 { x: div_ceil_u32(rows, 256), y: 1, z: 1 },
        block: Dim3 { x: 256, y: 1, z: 1 },
        shared_mem: 0,
        args: vec![
            KernelArg::Ptr(base), KernelArg::Ptr(served), KernelArg::Ptr(flags),
            KernelArg::U32(rows), KernelArg::U32(h), KernelArg::Scalar(thresh),
        ],
    };
    assert(launch@ =~= embed_rowdiff_launch(
        kernel, base, served, flags, rows, h, thresh,
    ));
    cb.launch(launch);
}

/// Replaces overridden embedding rows in place, per row's adapter.
pub open spec fn embed_overlay_routed_launch(
    kernel: KernelHandle, ids: DevicePtr, seq_slot: DevicePtr, active: i32, slot_map_tab:
    DevicePtr, rows_tab: DevicePtr, out: DevicePtr, num_tokens: u32, h: u32,
) -> Launch {
    Launch {
        kernel,
        grid: Dim3 { x: num_tokens, y: 1, z: 1 },
        block: Dim3 { x: 256, y: 1, z: 1 },
        shared_mem: 0,
        args: seq![
            KernelArg::Ptr(ids), KernelArg::Ptr(seq_slot), KernelArg::I32(active),
            KernelArg::Ptr(slot_map_tab), KernelArg::Ptr(rows_tab), KernelArg::Ptr(out),
            KernelArg::U32(h),
        ],
    }
}

/// Records the launch that [`embed_overlay_routed_launch`] describes.
pub fn embed_overlay_routed(
    cb: &mut CommandBuffer,
    kernel: KernelHandle, ids: DevicePtr, seq_slot: DevicePtr, active: i32, slot_map_tab:
    DevicePtr, rows_tab: DevicePtr, out: DevicePtr, num_tokens: u32, h: u32,
)
    ensures
        final(cb)@ == old(cb)@.push(
            Cmd::Launch(
                embed_overlay_routed_launch(
                    kernel, ids, seq_slot, active, slot_map_tab, rows_tab, out, num_tokens, h,
                ),
            ),
        ),
{
    let launch = KernelLaunch {
        kernel,
        grid: Dim3 { x: num_tokens, y: 1, z: 1 },
        block: Dim3 { x: 256, y: 1, z: 1 },
        shared_mem: 0,
        args: vec![
            KernelArg::Ptr(ids), KernelArg::Ptr(seq_slot), KernelArg::I32(active),
            KernelArg::Ptr(slot_map_tab), KernelArg::Ptr(rows_tab), KernelArg::Ptr(out),
            KernelArg::U32(h),
        ],
    };
    assert(launch@ =~= embed_overlay_routed_launch(
        kernel, ids, seq_slot, active, slot_map_tab, rows_tab, out, num_tokens, h,
    ));
    cb.launch(launch);
}

/// Recomputes overridden logit columns in place, per row's adapter.
pub open spec fn lmhead_overlay_routed_launch(
    kernel: KernelHandle, hidden: DevicePtr, seq_slot: DevicePtr, active: i32, rows_tab:
    DevicePtr, ids_tab: DevicePtr, n_tab: DevicePtr, logits: DevicePtr, m: u32, max_n_override:
    u32, h: u32, vocab: u32,
) -> Launch {
    Launch {
        kernel,
        grid: Dim3 { x: m, y: max_n_override, z: 1 },
        block: Dim3 { x: 32, y: 1, z: 1 },
        shared_mem: 0,
        args: seq![
            KernelArg::Ptr(hidden), KernelArg::Ptr(seq_slot), KernelArg::I32(active),
            KernelArg::Ptr(rows_tab), KernelArg::Ptr(ids_tab), KernelArg::Ptr(n_tab),
            KernelArg::Ptr(logits), KernelArg::U32(h), KernelArg::U32(vocab),
        ],
    }
}

/// Records the launch that [`lmhead_overlay_routed_launch`] describes.
pub fn lmhead_overlay_routed(
    cb: &mut CommandBuffer,
    kernel: KernelHandle, hidden: DevicePtr, seq_slot: DevicePtr, active: i32, rows_tab:
    DevicePtr, ids_tab: DevicePtr, n_tab: DevicePtr, logits: DevicePtr, m: u32, max_n_override:
    u32, h: u32, vocab: u32,
)
    ensures
        final(cb)@ == old(cb)@.push(
            Cmd::Launch(
                lmhead_overlay_routed_launch(
                    kernel, hidden, seq_slot, active, rows_tab, ids_tab, n_tab, logits, m,
                    max_n_override, h, vocab,
                ),
            ),
        ),
{
    let launch = KernelLaunch {
        kernel,
        grid: Dim3 { x: m, y: max_n_override, z: 1 },
        block: Dim3 { x: 32, y: 1, z: 1 },
        shared_mem: 0,
        args: vec![
            KernelArg::Ptr(hidden), KernelArg::Ptr(seq_slot), KernelArg::I32(active),
            KernelArg::Ptr(rows_tab), KernelArg::Ptr(ids_tab), KernelArg::Ptr(n_tab),
            KernelArg::Ptr(logits), KernelArg::U32(h), KernelArg::U32(vocab),
        ],
    };
    assert(launch@ =~= lmhead_overlay_routed_launch(
        kernel, hidden, seq_slot, active, rows_tab, ids_tab, n_tab, logits, m, max_n_override, h,
        vocab,
    ));
    cb.launch(launch);
}

/// The kernels of the token overlay. A missing kernel leaves its part unused.
#[derive(Debug, Clone, Copy, PartialEq, Eq, Structural)]
pub struct OverlayKernels {
    pub rowdiff: KernelHandle,
    pub embed_overlay: KernelHandle,
    pub lmhead_overlay_bf16: KernelHandle,
    pub lmhead_overlay_f32: KernelHandle,
}

impl Default for OverlayKernels {
    fn default() -> (r: OverlayKernels)
        ensures
            !r.rowdiff.present(),
            !r.embed_overlay.present(),
            !r.lmhead_overlay_bf16.present(),
            !r.lmhead_overlay_f32.present(),
    {
        OverlayKernels {
            rowdiff: KernelHandle(0),
            embed_overlay: KernelHandle(0),
            lmhead_overlay_bf16: KernelHandle(0),
            lmhead_overlay_f32: KernelHandle(0),
        }
    }
}

impl OverlayKernels {
    /// The kernels that `catalog` has, each under its own name.
    pub fn new(catalog: &KernelCatalog) -> (r: OverlayKernels)
        ensures
            r.rowdiff == catalog.find_or_null("token_overlay"@, "embed_rowdiff_bf16"@),
            r.embed_overlay == catalog.find_or_null("token_overlay"@, "embed_overlay_routed_bf16"@),
            r.lmhead_overlay_bf16 == catalog.find_or_null(
                "token_overlay"@,
                "lmhead_overlay_routed_bf16"@,
            ),
            r.lmhead_overlay_f32 == catalog.find_or_null(
                "token_overlay"@,
                "lmhead_overlay_routed_f32"@,
            ),
    {
        OverlayKernels {
            rowdiff: catalog.try_kernel("token_overlay", "embed_rowdiff_bf16"),
            embed_overlay: catalog.try_kernel("token_overlay", "embed_overlay_routed_bf16"),
            lmhead_overlay_bf16: catalog.try_kernel("token_overlay", "lmhead_overlay_routed_bf16"),
            lmhead_overlay_f32: catalog.try_kernel("token_overlay", "lmhead_overlay_routed_f32"),
        }
    }
}

} // verus!
