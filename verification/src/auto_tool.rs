//! Picking the best hotbar slot for mining a block. The mining progress of
//! each held item against the block is computed outside the library and
//! comes in as plain per-slot speeds; the choice between them is made
//! here.

use vstd::prelude::*;

verus! {

/// One hotbar slot as the tool chooser sees it: whether an item is there,
/// whether it carries a damage component, and the mining progress per tick
/// it would make against the block, scaled by 1000.
#[derive(Debug, Clone, Copy, PartialEq, Eq, Structural)]
pub struct HotbarItem {
    pub present: bool,
    pub has_damage_component: bool,
    pub speed: u32,
}

/// The chosen hotbar slot and the progress per tick it makes, scaled by
/// 1000.
#[derive(Debug, Clone, Copy, PartialEq, Eq, Structural)]
pub struct BestToolResult {
    pub index: usize,
    pub percentage_per_tick: u32,
}

/// The best slot after the first pass over `[0, i)`: empty slots count
/// with the bare-hand speed, items with a damage component are skipped.
pub open spec fn spec_first_pass(
    hotbar: Seq<HotbarItem>,
    empty_hand_speed: u32,
    i: int,
    best_speed: u32,
    best_slot: Option<usize>,
) -> (u32, Option<usize>)
    decreases hotbar.len() - i,
{
    if i < 0 || i >= hotbar.len() {
        (best_speed, best_slot)
    } else {
        let slot = hotbar[i];
        let this_speed: Option<u32> = if !slot.present {
            Some(empty_hand_speed)
        } else if !slot.has_damage_component {
            Some(slot.speed)
        } else {
            None
        };
        let (ns, nb) = match this_speed {
            Some(sp) => if sp > best_speed {
                (sp, Some(i as usize))
            } else {
                (best_speed, best_slot)
            },
            None => (best_speed, best_slot),
        };
        spec_first_pass(hotbar, empty_hand_speed, i + 1, ns, nb)
    }
}

/// The best slot after the second pass over `[0, i)`: every present item
/// counts, damaged or not.
pub open spec fn spec_second_pass(
    hotbar: Seq<HotbarItem>,
    i: int,
    best_speed: u32,
    best_slot: Option<usize>,
) -> (u32, Option<usize>)
    decreases hotbar.len() - i,
{
    if i < 0 || i >= hotbar.len() {
        (best_speed, best_slot)
    } else {
        let slot = hotbar[i];
        let (ns, nb) = if slot.present && slot.speed > best_speed {
            (slot.speed, Some(i as usize))
        } else {
            (best_speed, best_slot)
        };
        spec_second_pass(hotbar, i + 1, ns, nb)
    }
}

/// The result the chooser owes: both passes folded, a missing winner
/// falling back to slot zero.
pub open spec fn spec_best_tool(
    hotbar: Seq<HotbarItem>,
    empty_hand_speed: u32,
    is_fluid: bool,
) -> BestToolResult {
    if is_fluid {
        BestToolResult { index: 0, percentage_per_tick: 0 }
    } else {
        let first = spec_first_pass(hotbar, empty_hand_speed, 0, 0, None);
        let second = spec_second_pass(hotbar, 0, first.0, first.1);
        BestToolResult {
            index: match second.1 {
                Some(i) => i,
                None => 0,
            },
            percentage_per_tick: second.0,
        }
    }
}

/// Pick the best tool in the hotbar for a block, from the per-slot mining
/// speeds the caller measured with the player's exact state (on ground,
/// under water, and so on). Fluids cannot be mined at all. Undamaged gear
/// is preferred; damaged gear is only chosen when it is strictly faster
/// than everything undamaged.
pub fn accurate_best_tool_in_hotbar_for_block(
    is_fluid: bool,
    empty_hand_speed: u32,
    hotbar: &Vec<HotbarItem>,
) -> (r: BestToolResult)
    ensures
        r == spec_best_tool(hotbar@, empty_hand_speed, is_fluid),
{
    if is_fluid {
        // can't mine fluids
        return BestToolResult { index: 0, percentage_per_tick: 0 };
    }

    let mut best_speed: u32 = 0;
    let mut best_slot: Option<usize> = None;

    // first pass: find the best undamaged tool, an empty hand counting too
    let mut i: usize = 0;
    while i < hotbar.len()
        invariant
            i <= hotbar.len(),
            spec_first_pass(hotbar@, empty_hand_speed, 0, 0, None) == spec_first_pass(
                hotbar@, empty_hand_speed, i as int, best_speed, best_slot),
        decreases hotbar.len() - i,
    {
        let slot = hotbar[i];
        let this_item_speed: Option<u32> = if !slot.present {
            Some(empty_hand_speed)
        } else if !slot.has_damage_component {
            Some(slot.speed)
        } else {
            None
        };
        match this_item_speed {
            Some(speed) => {
                if speed > best_speed {
                    best_slot = Some(i);
                    best_speed = speed;
                }
            },
            None => {},
        }
        i = i + 1;
    }

    // second pass: any present item may still beat it
    let ghost first = (best_speed, best_slot);
    let mut i: usize = 0;
    while i < hotbar.len()
        invariant
            i <= hotbar.len(),
            spec_second_pass(hotbar@, 0, first.0, first.1) == spec_second_pass(hotbar@,
                i as int, best_speed, best_slot),
        decreases hotbar.len() - i,
    {
        let slot = hotbar[i];
        if slot.present && slot.speed > best_speed {
            best_slot = Some(i);
            best_speed = slot.speed;
        }
        i = i + 1;
    }

    BestToolResult {
        index: match best_slot {
            Some(i) => i,
            None => 0,
        },
        percentage_per_tick: best_speed,
    }
}

/// Pick the best tool assuming an ordinary stance; the caller measures
/// the per-slot speeds for a player standing on the ground with clear
/// eyes, and the choice is the same.
pub fn best_tool_in_hotbar_for_block(
    is_fluid: bool,
    empty_hand_speed: u32,
    hotbar: &Vec<HotbarItem>,
) -> (r: BestToolResult)
    ensures
        r == spec_best_tool(hotbar@, empty_hand_speed, is_fluid),
{
    accurate_best_tool_in_hotbar_for_block(is_fluid, empty_hand_speed, hotbar)
}

} // verus!
