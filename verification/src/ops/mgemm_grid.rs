//! Cooperative slot scheduling of the multi-matrix kernel.
use vstd::prelude::*;

verus! {

/// Blocks that the split of one decode step gives each matrix.
pub open spec fn blocks_per_slot(tiles: int, group: int, sms: int) -> int {
    let share = sms / group;
    let base = if tiles <= share {
        tiles
    } else if share >= 1 {
        share
    } else {
        1
    };
    if base <= sms && tiles / base > 48 {
        if 2 * base <= sms {
            2 * base
        } else {
            sms
        }
    } else {
        base
    }
}

/// Matrices that are resident at once.
pub open spec fn resident_slots(per_slot: int, slots: int, sms: int) -> int {
    let room = sms / per_slot;
    if room < 1 || slots < 1 {
        1
    } else if room < slots {
        room
    } else {
        slots
    }
}

/// Blocks per matrix and resident matrices, or nothing for a launch that
/// cannot be split.
pub open spec fn grid_of(tiles: int, slots: int, sms: int, replay_group: Option<int>) -> Option<
    (int, int),
> {
    let group = match replay_group {
        Some(g) => g,
        None => slots,
    };
    if tiles == 0 || slots == 0 || sms == 0 || group == 0 || slots % group != 0 {
        None
    } else {
        let per_slot = blocks_per_slot(tiles, group, sms);
        Some((per_slot, resident_slots(per_slot, slots, sms)))
    }
}

/// Splits `sms` multiprocessors over `slots` matrices of `tiles` tiles each.
///
/// The result is the number of blocks per matrix and the number of matrices
/// that run at once. `replay_group` fixes the split to that of a step with so
/// many matrices; without it the split is that of `slots` themselves.
pub fn grid(tiles: usize, slots: usize, sms: usize, replay_group: Option<usize>) -> (r: Option<
    (usize, usize),
>)
    ensures
        match grid_of(
            tiles as int,
            slots as int,
            sms as int,
            match replay_group {
                Some(g) => Some(g as int),
                None => None,
            },
        ) {
            None => r is None,
            Some(g) => r matches Some(h) && h.0 == g.0 && h.1 == g.1,
        },
{
    let group: usize = match replay_group {
        Some(g) => g,
        None => slots,
    };
    if tiles == 0 || slots == 0 || sms == 0 || group == 0 || slots % group != 0 {
        return None;
    }
    let mut per_slot: usize = tiles;
    let share: usize = sms / group;
    if per_slot > share {
        per_slot = if share >= 1 {
            share
        } else {
            1
        };
    }
    if per_slot <= sms && tiles / per_slot > 48 {
        per_slot = if per_slot <= sms / 2 {
            per_slot * 2
        } else {
            sms
        };
    }
    let mut resident: usize = sms / per_slot;
    if resident > slots {
        resident = slots;
    }
    if resident < 1 {
        resident = 1;
    }
    Some((per_slot, resident))
}

/// A replay of several rows is schedulable and keeps the split of the
/// single-row step, whatever the number of rows.
pub proof fn law_replay_keeps_decode_split(tiles: int, experts: int, rows: int, sms: int)
    requires
        tiles > 0,
        experts > 0,
        rows > 0,
        sms > 0,
    ensures
        grid_of(tiles, experts, sms, None) is Some,
        grid_of(tiles, rows * experts, sms, Some(experts)) is Some,
        grid_of(tiles, rows * experts, sms, Some(experts)).unwrap().0 == grid_of(
            tiles,
            experts,
            sms,
            None,
        ).unwrap().0,
{
    vstd::arithmetic::div_mod::lemma_mod_multiples_basic(rows, experts);
    vstd::arithmetic::div_mod::lemma_mod_self_0(experts);
    assert(rows * experts >= experts) by (nonlinear_arith)
        requires
            rows > 0,
            experts > 0,
    ;
}

/// The blocks of all resident matrices fit on the device together, and at
/// least one matrix is resident.
pub proof fn law_cooperative_residency(tiles: int, group: int, slots: int, sms: int)
    requires
        tiles > 0,
        group > 0,
        slots > 0,
        sms > 0,
    ensures
        ({
            let per_slot = blocks_per_slot(tiles, group, sms);
            let resident = resident_slots(per_slot, slots, sms);
            per_slot >= 1 && 1 <= resident <= slots && per_slot * resident <= sms
        }),
{
    let share = sms / group;
    let per_slot = blocks_per_slot(tiles, group, sms);
    assert(0 <= share <= sms) by (nonlinear_arith)
        requires
            share == sms / group,
            sms > 0,
            group > 0,
    ;
    assert(1 <= per_slot <= sms);
    let room = sms / per_slot;
    assert(room >= 1 && per_slot * room <= sms) by (nonlinear_arith)
        requires
            room == sms / per_slot,
            1 <= per_slot <= sms,
    ;
    let resident = resident_slots(per_slot, slots, sms);
    assert(per_slot * resident <= per_slot * room) by (nonlinear_arith)
        requires
            1 <= resident <= room,
            per_slot >= 1,
    ;
}

/// Waves of `resident` matrices visit every matrix exactly once: matrix `s` is
/// number `s % resident` of wave `s / resident`, and of no other.
pub proof fn law_waves_cover_each_slot_once(slots: int, resident: int, s: int, wave: int, z: int)
    requires
        1 <= resident,
        0 <= s < slots,
        0 <= z < resident,
        0 <= wave,
    ensures
        s / resident < crate::num::ceil_div(slots, resident),
        wave * resident + z == s <==> (wave == s / resident && z == s % resident),
{
    vstd::arithmetic::div_mod::lemma_fundamental_div_mod(s, resident);
    vstd::arithmetic::div_mod::lemma_fundamental_div_mod(slots, resident);
    if wave * resident + z == s {
        vstd::arithmetic::div_mod::lemma_fundamental_div_mod_converse(s, resident, wave, z);
    }
    assert(resident * (s / resident) == (s / resident) * resident) by (nonlinear_arith);
    let q = s / resident;
    let c = slots / resident;
    let m = slots % resident;
    assert(q <= c && (m == 0 ==> q < c)) by (nonlinear_arith)
        requires
            s == resident * q + s % resident,
            slots == resident * c + m,
            0 <= s % resident,
            s < slots,
            0 <= m < resident,
            resident >= 1,
    ;
}

} // verus!
