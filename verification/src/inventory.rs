//! Inventory menus and the click operations a client can send for them.

use vstd::prelude::*;

verus! {

/// An item stack: which item it is, and how many are stacked.
#[derive(Debug, Clone, PartialEq, Eq)]
pub struct ItemSlotData {
    pub kind: u32,
    pub count: u32,
}

/// One slot of a menu: either empty or holding a stack.
#[derive(Debug, Clone, PartialEq, Eq)]
pub enum ItemSlot {
    Empty,
    Present(ItemSlotData),
}

impl ItemSlotData {
    /// Take `count` items out of this stack and return them as a new stack.
    pub fn split(&mut self, count: u32) -> (r: ItemSlotData)
        requires
            count <= old(self).count,
        ensures
            final(self).kind == old(self).kind,
            final(self).count == old(self).count - count,
            r.kind == old(self).kind,
            r.count == count,
    {
        let taken = ItemSlotData { kind: self.kind, count };
        self.count = self.count - count;
        taken
    }
}

/// Left or right mouse click on a slot, or outside the menu.
/// In the protocol a missing slot is represented as -999.
#[derive(Debug, Clone, PartialEq, Eq)]
pub enum PickupClick {
    Left { slot: Option<u16> },
    Right { slot: Option<u16> },
    LeftOutside,
    RightOutside,
}

/// Shift click.
#[derive(Debug, Clone, PartialEq, Eq)]
pub enum QuickMoveClick {
    Left { slot: u16 },
    Right { slot: u16 },
}

/// Swap with a hotbar slot (number keys) or the offhand (key F).
#[derive(Debug, Clone, PartialEq, Eq)]
pub enum SwapClick {
    Hotbar { slot: u16, index: u8 },
    Offhand { slot: u16 },
}

/// Middle click; only defined for creative players in non-player inventories.
#[derive(Debug, Clone, PartialEq, Eq)]
pub struct CloneClick {
    pub slot: u16,
}

/// Drop key, alone or with control held.
#[derive(Debug, Clone, PartialEq, Eq)]
pub enum ThrowClick {
    Single { slot: u16 },
    All { slot: u16 },
}

#[derive(Debug, Clone, PartialEq, Eq)]
pub struct QuickCraftClick {
    pub kind: QuickCraftKind,
    pub status: QuickCraftStatus,
}

#[derive(Debug, Clone, PartialEq, Eq)]
pub enum QuickCraftKind {
    Left,
    Right,
    Middle,
}

/// The stage of a drag, without its payload.
#[derive(Debug, Clone, PartialEq, Eq)]
pub enum QuickCraftStatusKind {
    Start,
    Add,
    End,
}

/// The stage of a drag: starting it, adding a slot, or ending it.
#[derive(Debug, Clone, PartialEq, Eq)]
pub enum QuickCraftStatus {
    Start,
    Add { slot: u16 },
    End,
}

/// Double click.
#[derive(Debug, Clone, PartialEq, Eq)]
pub struct PickupAllClick {
    pub slot: u16,
}

/// Any click that can be sent for a menu.
#[derive(Debug, Clone, PartialEq, Eq)]
pub enum ClickOperation {
    Pickup(PickupClick),
    QuickMove(QuickMoveClick),
    Swap(SwapClick),
    Clone(CloneClick),
    Throw(ThrowClick),
    QuickCraft(QuickCraftClick),
    PickupAll(PickupAllClick),
}

/// The click kind as the protocol names it.
#[derive(Debug, Clone, Copy, PartialEq, Eq)]
pub enum ClickType {
    Pickup,
    QuickMove,
    Swap,
    Clone,
    Throw,
    QuickCraft,
    PickupAll,
}

impl QuickCraftStatusKind {
    /// The stage of `status`, with the payload dropped.
    pub fn from_status(status: &QuickCraftStatus) -> (r: QuickCraftStatusKind)
        ensures
            r == match status {
                QuickCraftStatus::Start => QuickCraftStatusKind::Start,
                QuickCraftStatus::Add { .. } => QuickCraftStatusKind::Add,
                QuickCraftStatus::End => QuickCraftStatusKind::End,
            },
    {
        match status {
            QuickCraftStatus::Start => QuickCraftStatusKind::Start,
            QuickCraftStatus::Add { .. } => QuickCraftStatusKind::Add,
            QuickCraftStatus::End => QuickCraftStatusKind::End,
        }
    }
}

impl ClickOperation {
    /// The slot number this operation acts on, if any.
    /// In the protocol a missing slot is represented as -999.
    pub open spec fn spec_slot_num(&self) -> Option<u16> {
        match self {
            ClickOperation::Pickup(pickup) => match pickup {
                PickupClick::Left { slot } => *slot,
                PickupClick::Right { slot } => *slot,
                PickupClick::LeftOutside => None,
                PickupClick::RightOutside => None,
            },
            ClickOperation::QuickMove(quick_move) => match quick_move {
                QuickMoveClick::Left { slot } => Some(*slot),
                QuickMoveClick::Right { slot } => Some(*slot),
            },
            ClickOperation::Swap(swap) => match swap {
                SwapClick::Hotbar { slot, .. } => Some(*slot),
                SwapClick::Offhand { slot } => Some(*slot),
            },
            ClickOperation::Clone(clone) => Some(clone.slot),
            ClickOperation::Throw(throw) => match throw {
                ThrowClick::Single { slot } => Some(*slot),
                ThrowClick::All { slot } => Some(*slot),
            },
            ClickOperation::QuickCraft(quick_craft) => match quick_craft.status {
                QuickCraftStatus::Start => None,
                QuickCraftStatus::Add { slot } => Some(slot),
                QuickCraftStatus::End => None,
            },
            ClickOperation::PickupAll(pickup_all) => Some(pickup_all.slot),
        }
    }

    /// Return the slot number that this operation is acting on, if any.
    pub fn slot_num(&self) -> (r: Option<u16>)
        ensures
            r == self.spec_slot_num(),
    {
        match self {
            ClickOperation::Pickup(pickup) => match pickup {
                PickupClick::Left { slot } => *slot,
                PickupClick::Right { slot } => *slot,
                PickupClick::LeftOutside => None,
                PickupClick::RightOutside => None,
            },
            ClickOperation::QuickMove(quick_move) => match quick_move {
                QuickMoveClick::Left { slot } => Some(*slot),
                QuickMoveClick::Right { slot } => Some(*slot),
            },
            ClickOperation::Swap(swap) => match swap {
                SwapClick::Hotbar { slot, .. } => Some(*slot),
                SwapClick::Offhand { slot } => Some(*slot),
            },
            ClickOperation::Clone(clone) => Some(clone.slot),
            ClickOperation::Throw(throw) => match throw {
                ThrowClick::Single { slot } => Some(*slot),
                ThrowClick::All { slot } => Some(*slot),
            },
            ClickOperation::QuickCraft(quick_craft) => match quick_craft.status {
                QuickCraftStatus::Start => None,
                QuickCraftStatus::Add { slot } => Some(slot),
                QuickCraftStatus::End => None,
            },
            ClickOperation::PickupAll(pickup_all) => Some(pickup_all.slot),
        }
    }

    /// The protocol button code of this operation.
    pub open spec fn spec_button_num(&self) -> u8 {
        match self {
            ClickOperation::Pickup(pickup) => match pickup {
                PickupClick::Left { .. } => 0u8,
                PickupClick::Right { .. } => 1u8,
                PickupClick::LeftOutside => 0u8,
                PickupClick::RightOutside => 1u8,
            },
            ClickOperation::QuickMove(quick_move) => match quick_move {
                QuickMoveClick::Left { .. } => 0u8,
                QuickMoveClick::Right { .. } => 1u8,
            },
            ClickOperation::Swap(swap) => match swap {
                SwapClick::Hotbar { index, .. } => *index,
                SwapClick::Offhand { .. } => 40u8,
            },
            ClickOperation::Clone(_) => 2u8,
            ClickOperation::Throw(throw) => match throw {
                ThrowClick::Single { .. } => 0u8,
                ThrowClick::All { .. } => 1u8,
            },
            ClickOperation::QuickCraft(quick_craft) => {
                let base: u8 = match quick_craft.kind {
                    QuickCraftKind::Left => 0u8,
                    QuickCraftKind::Right => 4u8,
                    QuickCraftKind::Middle => 8u8,
                };
                let stage: u8 = match quick_craft.status {
                    QuickCraftStatus::Start => 0u8,
                    QuickCraftStatus::Add { .. } => 1u8,
                    QuickCraftStatus::End => 2u8,
                };
                (base + stage) as u8
            },
            ClickOperation::PickupAll(_) => 0u8,
        }
    }

    /// The button code sent over the wire for this operation.
    pub fn button_num(&self) -> (r: u8)
        ensures
            r == self.spec_button_num(),
    {
        match self {
            ClickOperation::Pickup(pickup) => match pickup {
                PickupClick::Left { .. } => 0,
                PickupClick::Right { .. } => 1,
                PickupClick::LeftOutside => 0,
                PickupClick::RightOutside => 1,
            },
            ClickOperation::QuickMove(quick_move) => match quick_move {
                QuickMoveClick::Left { .. } => 0,
                QuickMoveClick::Right { .. } => 1,
            },
            ClickOperation::Swap(swap) => match swap {
                SwapClick::Hotbar { index, .. } => *index,
                SwapClick::Offhand { .. } => 40,
            },
            ClickOperation::Clone(_) => 2,
            ClickOperation::Throw(throw) => match throw {
                ThrowClick::Single { .. } => 0,
                ThrowClick::All { .. } => 1,
            },
            ClickOperation::QuickCraft(quick_craft) => match quick_craft {
                QuickCraftClick { kind: QuickCraftKind::Left, status: QuickCraftStatus::Start }
                    => 0,
                QuickCraftClick { kind: QuickCraftKind::Right, status: QuickCraftStatus::Start }
                    => 4,
                QuickCraftClick { kind: QuickCraftKind::Middle, status: QuickCraftStatus::Start }
                    => 8,
                QuickCraftClick { kind: QuickCraftKind::Left, status: QuickCraftStatus::Add { .. } }
                    => 1,
                QuickCraftClick {
                    kind: QuickCraftKind::Right,
                    status: QuickCraftStatus::Add { .. },
                } => 5,
                QuickCraftClick {
                    kind: QuickCraftKind::Middle,
                    status: QuickCraftStatus::Add { .. },
                } => 9,
                QuickCraftClick { kind: QuickCraftKind::Left, status: QuickCraftStatus::End }
                    => 2,
                QuickCraftClick { kind: QuickCraftKind::Right, status: QuickCraftStatus::End }
                    => 6,
                QuickCraftClick { kind: QuickCraftKind::Middle, status: QuickCraftStatus::End }
                    => 10,
            },
            ClickOperation::PickupAll(_) => 0,
        }
    }

    /// The click kind of this operation.
    pub fn click_type(&self) -> (r: ClickType)
        ensures
            r == match self {
                ClickOperation::Pickup(_) => ClickType::Pickup,
                ClickOperation::QuickMove(_) => ClickType::QuickMove,
                ClickOperation::Swap(_) => ClickType::Swap,
                ClickOperation::Clone(_) => ClickType::Clone,
                ClickOperation::Throw(_) => ClickType::Throw,
                ClickOperation::QuickCraft(_) => ClickType::QuickCraft,
                ClickOperation::PickupAll(_) => ClickType::PickupAll,
            },
    {
        match self {
            ClickOperation::Pickup(_) => ClickType::Pickup,
            ClickOperation::QuickMove(_) => ClickType::QuickMove,
            ClickOperation::Swap(_) => ClickType::Swap,
            ClickOperation::Clone(_) => ClickType::Clone,
            ClickOperation::Throw(_) => ClickType::Throw,
            ClickOperation::QuickCraft(_) => ClickType::QuickCraft,
            ClickOperation::PickupAll(_) => ClickType::PickupAll,
        }
    }
}

/// Where a slot index of the player menu falls.
#[derive(Debug, Clone, Copy, PartialEq, Eq)]
pub enum PlayerMenuLocation {
    CraftResult,
    Craft,
    Armor,
    Inventory,
    Offhand,
}

/// Where a slot index of a menu falls.
#[derive(Debug, Clone, Copy, PartialEq, Eq)]
pub enum MenuLocation {
    Player(PlayerMenuLocation),
}

/// Number of slots in the player menu: craft result, a 2x2 craft grid,
/// 4 armor slots, 36 inventory slots, and the offhand.
pub const PLAYER_MENU_SLOT_COUNT: usize = 46;

/// First slot index of the player's main inventory within the player menu.
pub const PLAYER_INVENTORY_FIRST_SLOT: usize = 9;

/// One past the last slot index of the player's main inventory.
pub const PLAYER_INVENTORY_LAST_SLOT: usize = 45;

/// An open menu: for now only the player's own inventory screen.
#[derive(Debug, Clone, PartialEq, Eq)]
pub enum Menu {
    Player { slots: Vec<ItemSlot> },
}

/// `slots` after repeatedly moving items out of a stack of `count` items of
/// `kind` into empty slots, walking the indices from `j` down to `lo`, at
/// most 64 per slot, together with the count still left in the stack.
/// A stack is placed only into empty slots; occupied ones are skipped.
pub open spec fn spec_fill_down(
    slots: Seq<ItemSlot>,
    j: int,
    lo: int,
    kind: u32,
    count: u32,
) -> (Seq<ItemSlot>, u32)
    decreases j - lo + 1,
{
    if j < lo || count == 0 {
        (slots, count)
    } else {
        match slots[j] {
            ItemSlot::Empty => {
                let put: u32 = if count > 64 { 64u32 } else { count };
                spec_fill_down(
                    slots.update(j, ItemSlot::Present(ItemSlotData { kind, count: put })),
                    j - 1,
                    lo,
                    kind,
                    (count - put) as u32,
                )
            },
            ItemSlot::Present(_) => spec_fill_down(slots, j - 1, lo, kind, count),
        }
    }
}

impl Menu {
    /// The slots of this menu, in slot-index order.
    pub open spec fn spec_slots(&self) -> Seq<ItemSlot> {
        match self {
            Menu::Player { slots } => slots@,
        }
    }

    /// A menu is well formed when it has the full complement of slots.
    pub open spec fn wf(&self) -> bool {
        self.spec_slots().len() == PLAYER_MENU_SLOT_COUNT
    }

    /// The slot at `index`, if the menu has one.
    pub fn slot(&self, index: usize) -> (r: Option<&ItemSlot>)
        ensures
            r == (if index < self.spec_slots().len() {
                Some(&self.spec_slots()[index as int])
            } else {
                Option::<&ItemSlot>::None
            }),
    {
        match self {
            Menu::Player { slots } => {
                if index < slots.len() {
                    Some(&slots[index])
                } else {
                    None
                }
            },
        }
    }

    /// Which part of the menu a slot index belongs to, if it is in range.
    pub fn location_for_slot(&self, index: usize) -> (r: Option<MenuLocation>)
        ensures
            r == self.spec_location_for_slot(index as int),
    {
        match self {
            Menu::Player { slots } => {
                if index >= slots.len() {
                    None
                } else if index == 0 {
                    Some(MenuLocation::Player(PlayerMenuLocation::CraftResult))
                } else if index <= 4 {
                    Some(MenuLocation::Player(PlayerMenuLocation::Craft))
                } else if index <= 8 {
                    Some(MenuLocation::Player(PlayerMenuLocation::Armor))
                } else if index <= 44 {
                    Some(MenuLocation::Player(PlayerMenuLocation::Inventory))
                } else {
                    Some(MenuLocation::Player(PlayerMenuLocation::Offhand))
                }
            },
        }
    }

    /// Which part of the menu a slot index belongs to.
    pub open spec fn spec_location_for_slot(&self, index: int) -> Option<MenuLocation> {
        if index < 0 || index >= self.spec_slots().len() {
            None
        } else if index == 0 {
            Some(MenuLocation::Player(PlayerMenuLocation::CraftResult))
        } else if index <= 4 {
            Some(MenuLocation::Player(PlayerMenuLocation::Craft))
        } else if index <= 8 {
            Some(MenuLocation::Player(PlayerMenuLocation::Armor))
        } else if index <= 44 {
            Some(MenuLocation::Player(PlayerMenuLocation::Inventory))
        } else {
            Some(MenuLocation::Player(PlayerMenuLocation::Offhand))
        }
    }

    /// Whether the given item could be placed at the slot. Every placement is
    /// currently allowed.
    pub fn may_place(&self, target_slot_index: usize, item: &ItemSlot) -> (r: bool)
        ensures
            r,
    {
        true
    }

    /// Move items from the stack into an empty target slot, 64 at most.
    /// A stack never merges into an occupied slot here.
    fn move_item_to_slot(item_slot: &mut ItemSlot, target_slot: &mut ItemSlot)
        requires
            *old(item_slot) is Present ==> *old(target_slot) is Empty,
        ensures
            match *old(item_slot) {
                ItemSlot::Empty => {
                    *final(item_slot) == *old(item_slot) && *final(target_slot) == *old(target_slot)
                },
                ItemSlot::Present(d) => {
                    let put: u32 = if d.count > 64 { 64u32 } else { d.count };
                    *final(item_slot) == ItemSlot::Present(
                        ItemSlotData { kind: d.kind, count: (d.count - put) as u32 },
                    ) && *final(target_slot) == ItemSlot::Present(
                        ItemSlotData { kind: d.kind, count: put },
                    )
                },
            },
    {
        match item_slot {
            ItemSlot::Empty => {},
            ItemSlot::Present(item) => {
                let put = if item.count > 64 { 64 } else { item.count };
                let taken = item.split(put);
                *target_slot = ItemSlot::Present(taken);
            },
        }
    }

    /// Distribute a stack over the empty slots of `slots[lo..hi]`, walking
    /// from the top down when `reverse` is set, else from the bottom up.
    /// The stack keeps whatever could not be placed.
    fn move_item_to_slots(
        item: &mut ItemSlot,
        slots: &mut Vec<ItemSlot>,
        lo: usize,
        hi: usize,
        reverse: bool,
    )
        requires
            lo <= hi <= old(slots).len(),
            *old(item) is Present,
        ensures
            final(slots).len() == old(slots).len(),
            ({
                let d = old(item)->Present_0;
                let filled = if reverse {
                    spec_fill_down(old(slots)@, hi - 1, lo as int, d.kind, d.count)
                } else {
                    spec_fill_up(old(slots)@, lo as int, hi as int, d.kind, d.count)
                };
                final(slots)@ == filled.0 && *final(item) == ItemSlot::Present(
                    ItemSlotData { kind: d.kind, count: filled.1 },
                )
            }),
    {
        let ghost d = old(item)->Present_0;
        if reverse {
            let mut j = hi;
            while j > lo
                invariant
                    lo <= j <= hi <= slots.len(),
                    slots.len() == old(slots).len(),
                    *item is Present,
                    item->Present_0.kind == d.kind,
                    spec_fill_down(old(slots)@, hi - 1, lo as int, d.kind, d.count)
                        == spec_fill_down(slots@, j - 1, lo as int, d.kind,
                            item->Present_0.count),
                decreases j,
            {
                j = j - 1;
                let empty = match &slots[j] {
                    ItemSlot::Empty => true,
                    ItemSlot::Present(_) => false,
                };
                let has_items = match item {
                    ItemSlot::Empty => false,
                    ItemSlot::Present(it) => it.count > 0,
                };
                if empty && has_items {
                    let mut target = ItemSlot::Empty;
                    Self::move_item_to_slot(item, &mut target);
                    slots.set(j, target);
                }
            }
        } else {
            let mut j = lo;
            while j < hi
                invariant
                    lo <= j <= hi <= slots.len(),
                    slots.len() == old(slots).len(),
                    *item is Present,
                    item->Present_0.kind == d.kind,
                    spec_fill_up(old(slots)@, lo as int, hi as int, d.kind, d.count)
                        == spec_fill_up(slots@, j as int, hi as int, d.kind,
                            item->Present_0.count),
                decreases hi - j,
            {
                let empty = match &slots[j] {
                    ItemSlot::Empty => true,
                    ItemSlot::Present(_) => false,
                };
                let has_items = match item {
                    ItemSlot::Empty => false,
                    ItemSlot::Present(it) => it.count > 0,
                };
                if empty && has_items {
                    let mut target = ItemSlot::Empty;
                    Self::move_item_to_slot(item, &mut target);
                    slots.set(j, target);
                }
                j = j + 1;
            }
        }
    }

    /// Shift-click the slot at `slot_index`.
    ///
    /// Only the craft-result slot of the player menu is movable; shift
    /// clicking it pours the crafted stack into the main inventory from its
    /// last slot backwards. Clicking an empty or out-of-range slot changes
    /// nothing.
    pub fn quick_move_stack(&mut self, slot_index: usize) -> (r: ItemSlot)
        requires
            old(self).wf(),
            slot_index < old(self).spec_slots().len()
                && old(self).spec_slots()[slot_index as int] is Present
                ==> slot_index == 0,
        ensures
            final(self).wf(),
            r == ItemSlot::Empty,
            !(slot_index < old(self).spec_slots().len()
                && old(self).spec_slots()[slot_index as int] is Present)
                ==> *final(self) == *old(self),
            (slot_index == 0 && old(self).spec_slots()[0] is Present) ==> ({
                let d = old(self).spec_slots()[0]->Present_0;
                let filled = spec_fill_down(
                    old(self).spec_slots(),
                    PLAYER_INVENTORY_LAST_SLOT - 1,
                    PLAYER_INVENTORY_FIRST_SLOT as int,
                    d.kind,
                    d.count,
                );
                final(self).spec_slots() == filled.0.update(
                    0,
                    ItemSlot::Present(ItemSlotData { kind: d.kind, count: filled.1 }),
                )
            }),
    {
        let present = match self.slot(slot_index) {
            Some(ItemSlot::Present(_)) => true,
            _ => false,
        };
        if !present {
            return ItemSlot::Empty;
        }

        // `slot_index` can only be the craft-result slot here; move its stack
        // into the main inventory, last slot first.
        match self {
            Menu::Player { slots } => {
                let mut item = ItemSlot::Empty;
                let taken = &slots[0];
                match taken {
                    ItemSlot::Present(it) => {
                        item = ItemSlot::Present(ItemSlotData { kind: it.kind, count: it.count });
                    },
                    ItemSlot::Empty => {},
                }
                Self::move_item_to_slots(
                    &mut item,
                    slots,
                    PLAYER_INVENTORY_FIRST_SLOT,
                    PLAYER_INVENTORY_LAST_SLOT,
                    true,
                );
                slots.set(0, item);
            },
        }
        ItemSlot::Empty
    }
}

/// `slots` after filling empty slots from `j` up to (not including) `hi`,
/// as [`spec_fill_down`] does going down.
pub open spec fn spec_fill_up(
    slots: Seq<ItemSlot>,
    j: int,
    hi: int,
    kind: u32,
    count: u32,
) -> (Seq<ItemSlot>, u32)
    decreases hi - j,
{
    if j >= hi || count == 0 {
        (slots, count)
    } else {
        match slots[j] {
            ItemSlot::Empty => {
                let put: u32 = if count > 64 { 64u32 } else { count };
                spec_fill_up(
                    slots.update(j, ItemSlot::Present(ItemSlotData { kind, count: put })),
                    j + 1,
                    hi,
                    kind,
                    (count - put) as u32,
                )
            },
            ItemSlot::Present(_) => spec_fill_up(slots, j + 1, hi, kind, count),
        }
    }
}

} // verus!
