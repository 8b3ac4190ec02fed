//! Moving freshly written key/value blocks of one layer to disk.
//!
//! `block_table` lists the blocks that are resident on the device: the last
//! `block_table.len()` of the sequence. `disk_block_ids` names a disk block for
//! every block of the sequence. Each layer keeps a cursor: how many blocks it
//! has offloaded. A pass re-offloads the block just before the cursor, because
//! that block may have gained rows since, and everything behind it.
use crate::attention::layer::Qwen3AttentionLayer;
use crate::text::{is_set_to, set_to};
use vstd::prelude::*;

verus! {

/// Element format of a layer's key/value cache.
#[derive(Debug, Clone, Copy, PartialEq, Eq, Structural)]
pub enum KvCacheDtype {
    Bf16,
    Bf16KTurbo4V,
    Bf16KTurbo3V,
    Bf16KTurbo2V,
    Fp8,
    Fp8KTurbo4V,
    Fp8KTurbo3V,
    Fp8KTurbo2V,
    Nvfp4,
    Turbo4,
    Turbo4KTurbo3V,
    Turbo4KTurbo8V,
    Turbo3,
    Turbo3KTurbo8V,
    Turbo2,
    Turbo8,
}

impl KvCacheDtype {
    /// Keys are stored as bfloat16.
    pub open spec fn bf16_group(self) -> bool {
        self == KvCacheDtype::Bf16 || self == KvCacheDtype::Bf16KTurbo4V || self
            == KvCacheDtype::Bf16KTurbo3V || self == KvCacheDtype::Bf16KTurbo2V
    }

    /// Keys are stored as eight-bit floats.
    pub open spec fn fp8_group(self) -> bool {
        self == KvCacheDtype::Fp8 || self == KvCacheDtype::Fp8KTurbo4V || self
            == KvCacheDtype::Fp8KTurbo3V || self == KvCacheDtype::Fp8KTurbo2V
    }

    /// The layer's cache can be offloaded.
    pub open spec fn swappable(self) -> bool {
        self == KvCacheDtype::Bf16 || self == KvCacheDtype::Fp8 || self == KvCacheDtype::Nvfp4 || self
            == KvCacheDtype::Turbo3 || self == KvCacheDtype::Turbo4 || self == KvCacheDtype::Turbo8
    }
}

/// Whether `ATLAS_HSS_PINNED_OFFLOAD` asks for the pinned, fused copies.
pub fn parse_hss_pinned_flag(v: Option<&str>) -> (r: bool)
    ensures
        r == (set_to(v, "1"@) || set_to(v, "true"@) || set_to(v, "on"@) || set_to(v, "yes"@)),
{
    is_set_to(v, "1") || is_set_to(v, "true") || is_set_to(v, "on") || is_set_to(v, "yes")
}

/// What a device-to-host copy of a block brings.
#[derive(Debug, Clone, Copy, PartialEq, Eq, Structural)]
pub enum HssD2hDstKind {
    /// The bfloat16 payload itself.
    Bf16Payload,
    /// Quantised bytes that are decoded to the payload on the host.
    RawQuant,
}

/// What the copy brings for `dtype`.
pub fn hss_d2h_dst_kind(dtype: KvCacheDtype) -> (r: HssD2hDstKind)
    ensures
        r == (if dtype.bf16_group() {
            HssD2hDstKind::Bf16Payload
        } else {
            HssD2hDstKind::RawQuant
        }),
{
    match dtype {
        KvCacheDtype::Bf16
        | KvCacheDtype::Bf16KTurbo4V
        | KvCacheDtype::Bf16KTurbo3V
        | KvCacheDtype::Bf16KTurbo2V => HssD2hDstKind::Bf16Payload,
        _ => HssD2hDstKind::RawQuant,
    }
}

/// Bytes that the copy of one block brings.
pub open spec fn d2h_bytes(dtype: KvCacheDtype, block_floats: int, layer_block_bytes: int) -> int {
    if dtype.bf16_group() {
        2 * block_floats
    } else if dtype.fp8_group() {
        block_floats
    } else {
        layer_block_bytes
    }
}

/// Bytes that the copy of one block brings, and so the size of a staging
/// buffer: two per element, one per element, or the packed stride.
pub fn hss_d2h_dst_bytes(dtype: KvCacheDtype, block_floats: usize, layer_block_bytes: usize) -> (r:
    usize)
    requires
        dtype.bf16_group() ==> 2 * block_floats <= usize::MAX,
    ensures
        r == d2h_bytes(dtype, block_floats as int, layer_block_bytes as int),
{
    match dtype {
        KvCacheDtype::Bf16
        | KvCacheDtype::Bf16KTurbo4V
        | KvCacheDtype::Bf16KTurbo3V
        | KvCacheDtype::Bf16KTurbo2V => block_floats * 2,
        KvCacheDtype::Fp8
        | KvCacheDtype::Fp8KTurbo4V
        | KvCacheDtype::Fp8KTurbo3V
        | KvCacheDtype::Fp8KTurbo2V => block_floats,
        _ => layer_block_bytes,
    }
}

/// Which half of a block.
#[derive(Debug, Clone, Copy, PartialEq, Eq, Structural)]
pub enum KvHalf {
    Key,
    Value,
}

/// How host bytes become the bfloat16 payload.
#[derive(Debug, Clone, Copy, PartialEq, Eq, Structural)]
pub enum HostDecode {
    /// Copied out of the staging buffer as they are.
    Payload,
    Fp8,
    /// Four-bit codes with block scales, decoded through a table.
    Nvfp4Table,
    Turbo4Table,
    Turbo3,
    Turbo8,
}

/// How the bytes of a layer of type `dtype` are decoded.
pub open spec fn decode_of(dtype: KvCacheDtype) -> HostDecode {
    if dtype.bf16_group() {
        HostDecode::Payload
    } else if dtype.fp8_group() {
        HostDecode::Fp8
    } else if dtype == KvCacheDtype::Nvfp4 {
        HostDecode::Nvfp4Table
    } else if dtype == KvCacheDtype::Turbo4 || dtype == KvCacheDtype::Turbo4KTurbo3V || dtype
        == KvCacheDtype::Turbo4KTurbo8V {
        HostDecode::Turbo4Table
    } else if dtype == KvCacheDtype::Turbo8 {
        HostDecode::Turbo8
    } else {
        HostDecode::Turbo3
    }
}

/// How the bytes of a layer of type `dtype` are decoded.
pub fn host_decode(dtype: KvCacheDtype) -> (r: HostDecode)
    ensures
        r == decode_of(dtype),
{
    match dtype {
        KvCacheDtype::Bf16
        | KvCacheDtype::Bf16KTurbo4V
        | KvCacheDtype::Bf16KTurbo3V
        | KvCacheDtype::Bf16KTurbo2V => HostDecode::Payload,
        KvCacheDtype::Fp8
        | KvCacheDtype::Fp8KTurbo4V
        | KvCacheDtype::Fp8KTurbo3V
        | KvCacheDtype::Fp8KTurbo2V => HostDecode::Fp8,
        KvCacheDtype::Nvfp4 => HostDecode::Nvfp4Table,
        KvCacheDtype::Turbo4 | KvCacheDtype::Turbo4KTurbo3V | KvCacheDtype::Turbo4KTurbo8V => {
            HostDecode::Turbo4Table
        },
        KvCacheDtype::Turbo3 | KvCacheDtype::Turbo3KTurbo8V | KvCacheDtype::Turbo2 => {
            HostDecode::Turbo3
        },
        KvCacheDtype::Turbo8 => HostDecode::Turbo8,
    }
}

/// One step of moving a block.
#[derive(Debug, Clone, Copy, PartialEq, Eq, Structural)]
pub enum OffloadStep {
    /// Copies one half of the block to the host, ordered on the compute stream.
    /// Unless `wait` the copy is only enqueued.
    ReadBack { half: KvHalf, wait: bool },
    /// Waits for the enqueued copies.
    Synchronize,
    /// Turns the bytes of one half into the payload.
    Decode { half: KvHalf, how: HostDecode },
    /// Hands both payloads to the disk store. `predict` also feeds the
    /// eviction predictor, which can only read bfloat16 blocks.
    Store { predict: bool },
}

/// Steps that move one block of type `dtype`. `fused` copies go through pinned
/// staging buffers and share one wait.
pub open spec fn block_steps_of(dtype: KvCacheDtype, fused: bool) -> Seq<OffloadStep> {
    let copies = seq![
        OffloadStep::ReadBack { half: KvHalf::Key, wait: !fused },
        OffloadStep::ReadBack { half: KvHalf::Value, wait: !fused },
    ];
    let waits = if fused {
        seq![OffloadStep::Synchronize]
    } else {
        Seq::<OffloadStep>::empty()
    };
    let decodes = if dtype.bf16_group() && !fused {
        Seq::<OffloadStep>::empty()
    } else {
        seq![
            OffloadStep::Decode { half: KvHalf::Key, how: decode_of(dtype) },
            OffloadStep::Decode { half: KvHalf::Value, how: decode_of(dtype) },
        ]
    };
    copies + waits + decodes + seq![OffloadStep::Store { predict: dtype.bf16_group() }]
}

/// Steps that move one block of type `dtype`.
pub fn block_steps(dtype: KvCacheDtype, fused: bool) -> (r: Vec<OffloadStep>)
    ensures
        r@ == block_steps_of(dtype, fused),
{
    let mut out: Vec<OffloadStep> = Vec::new();
    let payload: bool = match hss_d2h_dst_kind(dtype) {
        HssD2hDstKind::Bf16Payload => true,
        HssD2hDstKind::RawQuant => false,
    };
    let how: HostDecode = host_decode(dtype);
    out.push(OffloadStep::ReadBack { half: KvHalf::Key, wait: !fused });
    out.push(OffloadStep::ReadBack { half: KvHalf::Value, wait: !fused });
    if fused {
        out.push(OffloadStep::Synchronize);
    }
    if !payload || fused {
        out.push(OffloadStep::Decode { half: KvHalf::Key, how });
        out.push(OffloadStep::Decode { half: KvHalf::Value, how });
    }
    out.push(OffloadStep::Store { predict: payload });
    assert(out@ =~= block_steps_of(dtype, fused));
    out
}

/// Host code never reads bytes that may still be in flight: before any decode
/// or store, every copy has waited by itself or a wait stands in between.
pub proof fn law_no_read_in_flight(dtype: KvCacheDtype, fused: bool, c: int, u: int)
    requires
        0 <= c < block_steps_of(dtype, fused).len(),
        0 <= u < block_steps_of(dtype, fused).len(),
        block_steps_of(dtype, fused)[c] matches OffloadStep::ReadBack { wait, .. } && !wait,
        block_steps_of(dtype, fused)[u] is Decode || block_steps_of(dtype, fused)[u] is Store,
    ensures
        exists|s: int|
            c < s < u && #[trigger] block_steps_of(dtype, fused)[s] == OffloadStep::Synchronize,
{
    assert(block_steps_of(dtype, fused)[2] == OffloadStep::Synchronize);
}

/// A step as it is without pinned staging: every copy waits by itself.
pub open spec fn unfused(s: OffloadStep) -> OffloadStep {
    match s {
        OffloadStep::ReadBack { half, wait } => OffloadStep::ReadBack { half, wait: true },
        other => other,
    }
}

/// Pinned staging changes when copies wait, not what is stored: without its wait,
/// a pinned block goes through the steps of a pageable one. A block that holds the
/// payload itself is copied out of the staging buffers besides.
pub proof fn law_pinned_block_is_stored_alike(dtype: KvCacheDtype)
    ensures
        ({
            let pinned = block_steps_of(dtype, true);
            let plain = block_steps_of(dtype, false);
            let rest = pinned.remove(2).map_values(|s: OffloadStep| unfused(s));
            &&& pinned[2] == OffloadStep::Synchronize
            &&& !dtype.bf16_group() ==> rest == plain
            &&& dtype.bf16_group() ==> rest.remove(2).remove(2) == plain && rest[2]
                == (OffloadStep::Decode { half: KvHalf::Key, how: HostDecode::Payload }) && rest[3]
                == (OffloadStep::Decode { half: KvHalf::Value, how: HostDecode::Payload })
        }),
{
    let pinned = block_steps_of(dtype, true);
    let plain = block_steps_of(dtype, false);
    let rest = pinned.remove(2).map_values(|s: OffloadStep| unfused(s));
    if dtype.bf16_group() {
        assert(rest.remove(2).remove(2) =~= plain);
    } else {
        assert(rest =~= plain);
    }
}

/// One block to move.
#[derive(Debug, Clone, Copy, PartialEq, Eq, Structural)]
pub struct BlockOffload {
    /// Position of the block in the sequence.
    pub logical_pos: usize,
    /// Where it lies on the device.
    pub phys_block: u32,
    /// Where it goes on disk.
    pub disk_id: u32,
}

/// A block that left the device before its layer had offloaded it.
#[derive(Debug, Clone, Copy, PartialEq, Eq, Structural)]
pub struct EvictedBlock {
    pub layer: usize,
    pub logical_pos: usize,
    pub window_start: usize,
    pub total: usize,
    pub resident: usize,
    pub last_offloaded: usize,
}

/// First position that is still resident on the device.
pub open spec fn window_start(total: int, resident: int) -> int {
    if total > resident {
        total - resident
    } else {
        0
    }
}

/// First position of a pass: the block before the cursor, or the last block.
pub open spec fn first_position(last: int, total: int) -> int {
    let boundary = if last > 0 {
        last - 1
    } else {
        0
    };
    if boundary < total - 1 {
        boundary
    } else {
        total - 1
    }
}

/// The block of the sequence at `pos`.
pub open spec fn offload_at(block_table: Seq<u32>, disk_block_ids: Seq<u32>, pos: int) -> BlockOffload {
    BlockOffload {
        logical_pos: pos as usize,
        phys_block: block_table[pos - window_start(
            disk_block_ids.len() as int,
            block_table.len() as int,
        )],
        disk_id: disk_block_ids[pos],
    }
}

/// Cursors with an entry for `layer`; new entries are zero.
pub open spec fn with_cursor(cursors: Seq<u32>, layer: int) -> Seq<u32> {
    if cursors.len() <= layer {
        Seq::new((layer + 1) as nat, |i: int| if i < cursors.len() {
            cursors[i]
        } else {
            0
        })
    } else {
        cursors
    }
}

impl Qwen3AttentionLayer {
    /// Whether this layer's blocks go to disk: the cache is windowed, a disk
    /// store is installed, and the format can be decoded on the host.
    pub fn high_speed_swap_engaged(
        &self,
        windowed: bool,
        store_installed: bool,
        dtype: KvCacheDtype,
    ) -> (r: bool)
        ensures
            r == (windowed && store_installed && dtype.swappable()),
    {
        if !windowed || !store_installed {
            return false;
        }
        match dtype {
            KvCacheDtype::Bf16
            | KvCacheDtype::Fp8
            | KvCacheDtype::Nvfp4
            | KvCacheDtype::Turbo3
            | KvCacheDtype::Turbo4
            | KvCacheDtype::Turbo8 => true,
            _ => false,
        }
    }

    /// Blocks that this layer has to move now, in order.
    ///
    /// Nothing is moved where a needed block is no longer resident. The cursor
    /// stays where it is until [`Self::finish_offload`].
    pub fn high_speed_swap_offload_new_blocks(
        &self,
        engaged: bool,
        block_table: &Vec<u32>,
        disk_block_ids: &Vec<u32>,
        cursors: &mut Vec<u32>,
    ) -> (r: Result<Vec<BlockOffload>, EvictedBlock>)
        requires
            self.attn_layer_idx < usize::MAX,
        ensures
            !engaged ==> final(cursors)@ == old(cursors)@ && (r matches Ok(v) && v@.len() == 0),
            engaged ==> final(cursors)@ == with_cursor(old(cursors)@, self.attn_layer_idx as int),
            engaged ==> ({
                let total = disk_block_ids@.len() as int;
                let resident = block_table@.len() as int;
                let last = final(cursors)@[self.attn_layer_idx as int] as int;
                let start = first_position(last, total);
                let window = window_start(total, resident);
                if total == 0 {
                    r matches Ok(v) && v@.len() == 0
                } else if start < window {
                    r matches Err(e) && e == (EvictedBlock {
                        layer: self.attn_layer_idx,
                        logical_pos: start as usize,
                        window_start: window as usize,
                        total: total as usize,
                        resident: resident as usize,
                        last_offloaded: last as usize,
                    })
                } else {
                    r matches Ok(v) && v@ == Seq::new(
                        (total - start) as nat,
                        |i: int| offload_at(block_table@, disk_block_ids@, start + i),
                    )
                }
            }),
    {
        let mut out: Vec<BlockOffload> = Vec::new();
        if !engaged {
            return Ok(out);
        }
        let layer: usize = self.attn_layer_idx;
        let ghost before = cursors@;
        while cursors.len() <= layer
            invariant
                layer < usize::MAX,
                before.len() <= cursors@.len(),
                cursors@.len() <= layer + 1 || cursors@ == before,
                forall|i: int| 0 <= i < before.len() ==> cursors@[i] == before[i],
                forall|i: int| before.len() <= i < cursors@.len() ==> cursors@[i] == 0,
            decreases layer + 1 - cursors@.len(),
        {
            cursors.push(0);
        }
        assert(cursors@ =~= with_cursor(before, layer as int));
        let last: usize = cursors[layer] as usize;
        let total: usize = disk_block_ids.len();
        let resident: usize = block_table.len();
        if total == 0 {
            return Ok(out);
        }
        let window: usize = if total > resident {
            total - resident
        } else {
            0
        };
        let boundary: usize = if last > 0 {
            last - 1
        } else {
            0
        };
        let start: usize = if boundary < total - 1 {
            boundary
        } else {
            total - 1
        };
        if start < window {
            return Err(
                EvictedBlock {
                    layer,
                    logical_pos: start,
                    window_start: window,
                    total,
                    resident,
                    last_offloaded: last,
                },
            );
        }
        let mut pos: usize = start;
        while pos < total
            invariant
                start <= pos <= total,
                total == disk_block_ids@.len(),
                resident == block_table@.len(),
                window == window_start(total as int, resident as int),
                window <= start,
                out@ == Seq::new(
                    (pos - start) as nat,
                    |i: int| offload_at(block_table@, disk_block_ids@, start + i),
                ),
            decreases total - pos,
        {
            out.push(
                BlockOffload {
                    logical_pos: pos,
                    phys_block: block_table[pos - window],
                    disk_id: disk_block_ids[pos],
                },
            );
            pos = pos + 1;
            assert(out@ =~= Seq::new(
                (pos - start) as nat,
                |i: int| offload_at(block_table@, disk_block_ids@, start + i),
            ));
        }
        Ok(out)
    }

    /// Moves the cursor once every planned block is on disk.
    pub fn finish_offload(&self, cursors: &mut Vec<u32>, total: usize)
        requires
            self.attn_layer_idx < old(cursors)@.len(),
        ensures
            final(cursors)@ == old(cursors)@.update(self.attn_layer_idx as int, total as u32),
    {
        cursors.set(self.attn_layer_idx, total as u32);
    }
}

/// A pass moves every block behind the cursor and the block just before it.
pub proof fn law_pass_covers_new_and_boundary(last: int, total: int, pos: int)
    requires
        0 <= last <= total,
        0 < total,
        0 <= pos < total,
        pos >= last || pos == last - 1 || pos == total - 1,
    ensures
        first_position(last, total) <= pos,
        first_position(last, total) >= 0,
        first_position(last, total) >= last - 1,
{
}

/// Once a layer has caught up, a pass moves exactly the last block.
pub proof fn law_caught_up_pass_is_last_block(total: int)
    requires
        0 < total,
    ensures
        first_position(total, total) == total - 1,
{
}

/// A pass that is not refused only reads blocks that are resident.
pub proof fn law_moved_blocks_are_resident(total: int, resident: int, last: int, pos: int)
    requires
        0 <= last,
        0 < total,
        0 <= resident,
        first_position(last, total) >= window_start(total, resident),
        first_position(last, total) <= pos < total,
    ensures
        0 <= pos - window_start(total, resident) < resident,
{
}

} // verus!
