//! Client-side movement: walk and sprint state, the per-tick control
//! impulses, and the choice of the outbound movement packet.
//!
//! Positions are held in fixed point, 10000 units to a block, and rotations
//! in hundredths of a degree; the wire layer converts at the edge.

use vstd::prelude::*;

verus! {

/// Units per block of the fixed-point world coordinates.
pub const POS_SCALE: i64 = 10000;

/// A point or velocity in fixed-point world coordinates.
#[derive(Debug, Clone, Copy, PartialEq, Eq, Structural)]
pub struct FixedVec3 {
    pub x: i64,
    pub y: i64,
    pub z: i64,
}

/// Where the client is looking, in hundredths of a degree.
/// `y_rot` is yaw, `x_rot` is pitch.
#[derive(Debug, Clone, Copy, PartialEq, Eq, Structural)]
pub struct LookDirection {
    pub y_rot: i32,
    pub x_rot: i32,
}

/// The look direction that was last sent over the network.
#[derive(Debug, Clone, Copy, PartialEq, Eq, Structural)]
pub struct LastSentLookDirection {
    pub x_rot: i32,
    pub y_rot: i32,
}

/// The direction keys a player can hold.
#[derive(Debug, Clone, Copy, PartialEq, Eq, Structural)]
pub enum WalkDirection {
    Stop,
    Forward,
    Backward,
    Left,
    Right,
    ForwardRight,
    ForwardLeft,
    BackwardRight,
    BackwardLeft,
}

/// The directions a sprint can start in; a subset of [`WalkDirection`].
#[derive(Debug, Clone, Copy, PartialEq, Eq, Structural)]
pub enum SprintDirection {
    Forward,
    ForwardRight,
    ForwardLeft,
}

impl WalkDirection {
    /// The walk direction that a sprint direction stands for.
    pub fn from_sprint(d: SprintDirection) -> (r: WalkDirection)
        ensures
            r == match d {
                SprintDirection::Forward => WalkDirection::Forward,
                SprintDirection::ForwardRight => WalkDirection::ForwardRight,
                SprintDirection::ForwardLeft => WalkDirection::ForwardLeft,
            },
    {
        match d {
            SprintDirection::Forward => WalkDirection::Forward,
            SprintDirection::ForwardRight => WalkDirection::ForwardRight,
            SprintDirection::ForwardLeft => WalkDirection::ForwardLeft,
        }
    }
}

/// Movement state of the local player that is not shared with other
/// entities: the send counter, key states, and the control impulses
/// (scaled by 1000; a full impulse is 1000).
#[derive(Debug, Clone, PartialEq, Eq, Structural)]
pub struct PhysicsState {
    /// Ticks since a position packet was last sent; one is sent at the
    /// latest when this reaches twenty.
    pub position_remainder: u32,
    pub was_sprinting: bool,
    /// Whether the player was sneaking last tick.
    pub was_sneaking: bool,
    /// Whether we will try to start sprinting this tick.
    pub trying_to_sprint: bool,
    pub move_direction: WalkDirection,
    pub forward_impulse: i32,
    pub left_impulse: i32,
}

/// Server-corrected physics state of an entity.
#[derive(Debug, Clone, Copy, PartialEq, Eq, Structural)]
pub struct Physics {
    pub velocity: FixedVec3,
    pub on_ground: bool,
    pub last_on_ground: bool,
    pub horizontal_collision: bool,
    pub vertical_collision: bool,
    /// Sideways control impulse handed to the integrator, scaled by 1000.
    pub xxa: i32,
    /// Forward control impulse handed to the integrator, scaled by 1000.
    pub zza: i32,
}

/// Moving a player failed.
#[derive(Debug, Clone, Copy, PartialEq, Eq, Structural)]
pub enum MovePlayerError {
    PlayerNotInWorld,
}

/// An outbound movement packet, already chosen.
#[derive(Debug, Clone, Copy, PartialEq, Eq, Structural)]
pub enum MovePacket {
    PosRot { pos: FixedVec3, x_rot: i32, y_rot: i32, on_ground: bool },
    Pos { pos: FixedVec3, on_ground: bool },
    Rot { x_rot: i32, y_rot: i32, on_ground: bool },
    StatusOnly { on_ground: bool },
}

/// A server instruction to set or add to our velocity.
#[derive(Debug, Clone, Copy, PartialEq, Eq, Structural)]
pub enum KnockbackType {
    Replace(FixedVec3),
    Add(FixedVec3),
}

/// The squared distance between the position and the last sent one, in
/// squared fixed-point units.
pub open spec fn spec_delta_sq(position: FixedVec3, last: FixedVec3) -> int {
    (position.x - last.x) * (position.x - last.x)
        + (position.y - last.y) * (position.y - last.y)
        + (position.z - last.z) * (position.z - last.z)
}

/// A position packet is due when the position moved more than 2.0e-4 blocks
/// (2 fixed-point units), or twenty ticks passed since the last one;
/// `remainder` is the counter after this tick's increment.
pub open spec fn spec_sending_position(
    position: FixedVec3,
    last: FixedVec3,
    remainder: u32,
) -> bool {
    spec_delta_sq(position, last) > 4 || remainder >= 20
}

/// A rotation packet is due on any rotation change.
pub open spec fn spec_sending_rotation(
    direction: LookDirection,
    last: LastSentLookDirection,
) -> bool {
    direction.y_rot != last.y_rot || direction.x_rot != last.x_rot
}

/// Which packet the tick emits: position and rotation together, one of
/// them, a bare ground-state update, or nothing.
pub open spec fn spec_move_packet(
    position: FixedVec3,
    direction: LookDirection,
    on_ground: bool,
    last_on_ground: bool,
    sending_position: bool,
    sending_rotation: bool,
) -> Option<MovePacket> {
    if sending_position && sending_rotation {
        Some(MovePacket::PosRot {
            pos: position,
            x_rot: direction.x_rot,
            y_rot: direction.y_rot,
            on_ground,
        })
    } else if sending_position {
        Some(MovePacket::Pos { pos: position, on_ground })
    } else if sending_rotation {
        Some(MovePacket::Rot { x_rot: direction.x_rot, y_rot: direction.y_rot, on_ground })
    } else if last_on_ground != on_ground {
        Some(MovePacket::StatusOnly { on_ground })
    } else {
        None
    }
}

/// Choose the movement packet for this tick, and roll the send state
/// forward: the position counter and last-sent values reset on a position
/// send, the last-sent rotation updates on a rotation send, and the ground
/// state is always remembered.
pub fn send_position(
    position: &FixedVec3,
    direction: &LookDirection,
    physics_state: &mut PhysicsState,
    last_sent_position: &mut FixedVec3,
    physics: &mut Physics,
    last_direction: &mut LastSentLookDirection,
) -> (r: Option<MovePacket>)
    requires
        old(physics_state).position_remainder < u32::MAX,
        -0x2000_0000_0000_0000 < position.x < 0x2000_0000_0000_0000,
        -0x2000_0000_0000_0000 < position.y < 0x2000_0000_0000_0000,
        -0x2000_0000_0000_0000 < position.z < 0x2000_0000_0000_0000,
        -0x2000_0000_0000_0000 < old(last_sent_position).x < 0x2000_0000_0000_0000,
        -0x2000_0000_0000_0000 < old(last_sent_position).y < 0x2000_0000_0000_0000,
        -0x2000_0000_0000_0000 < old(last_sent_position).z < 0x2000_0000_0000_0000,
    ensures
        ({
            let sp = spec_sending_position(*position, *old(last_sent_position),
                (old(physics_state).position_remainder + 1) as u32);
            let sr = spec_sending_rotation(*direction, *old(last_direction));
            &&& r == spec_move_packet(*position, *direction, old(physics).on_ground,
                old(physics).last_on_ground, sp, sr)
            &&& *final(last_sent_position) == (if sp { *position } else {
                *old(last_sent_position)
            })
            &&& final(physics_state).position_remainder == (if sp { 0u32 } else {
                (old(physics_state).position_remainder + 1) as u32
            })
            &&& *final(last_direction) == (if sr {
                LastSentLookDirection { x_rot: direction.x_rot, y_rot: direction.y_rot }
            } else {
                *old(last_direction)
            })
            &&& *final(physics) == Physics {
                last_on_ground: old(physics).on_ground,
                ..*old(physics)
            }
            &&& *final(physics_state) == (PhysicsState {
                position_remainder: final(physics_state).position_remainder,
                ..*old(physics_state)
            })
        }),
{
    let x_delta: i64 = position.x - last_sent_position.x;
    let y_delta: i64 = position.y - last_sent_position.y;
    let z_delta: i64 = position.z - last_sent_position.z;
    proof {
        lemma_sq_bound(x_delta as i128, 0x4000_0000_0000_0000i128);
        lemma_sq_bound(y_delta as i128, 0x4000_0000_0000_0000i128);
        lemma_sq_bound(z_delta as i128, 0x4000_0000_0000_0000i128);
    }
    let delta_sq: i128 = (x_delta as i128) * (x_delta as i128)
        + (y_delta as i128) * (y_delta as i128) + (z_delta as i128) * (z_delta as i128);
    physics_state.position_remainder = physics_state.position_remainder + 1;

    let sending_position = delta_sq > 4 || physics_state.position_remainder >= 20;
    let sending_rotation = direction.y_rot != last_direction.y_rot
        || direction.x_rot != last_direction.x_rot;

    let packet: Option<MovePacket> = if sending_position && sending_rotation {
        Some(MovePacket::PosRot {
            pos: *position,
            x_rot: direction.x_rot,
            y_rot: direction.y_rot,
            on_ground: physics.on_ground,
        })
    } else if sending_position {
        Some(MovePacket::Pos { pos: *position, on_ground: physics.on_ground })
    } else if sending_rotation {
        Some(MovePacket::Rot {
            x_rot: direction.x_rot,
            y_rot: direction.y_rot,
            on_ground: physics.on_ground,
        })
    } else if physics.last_on_ground != physics.on_ground {
        Some(MovePacket::StatusOnly { on_ground: physics.on_ground })
    } else {
        None
    };

    if sending_position {
        *last_sent_position = *position;
        physics_state.position_remainder = 0;
    }
    if sending_rotation {
        last_direction.y_rot = direction.y_rot;
        last_direction.x_rot = direction.x_rot;
    }
    physics.last_on_ground = physics.on_ground;

    packet
}

/// With the position essentially unchanged, fewer than twenty ticks since
/// the last position send, the rotation unchanged, and the ground state
/// unchanged, no movement packet is due.
pub proof fn lemma_no_movement_packet(
    position: FixedVec3,
    last_sent: FixedVec3,
    remainder: u32,
    direction: LookDirection,
    last_direction: LastSentLookDirection,
    on_ground: bool,
    last_on_ground: bool,
)
    requires
        spec_delta_sq(position, last_sent) <= 4,
        remainder < 20,
        !spec_sending_rotation(direction, last_direction),
        on_ground == last_on_ground,
    ensures
        spec_move_packet(position, direction, on_ground, last_on_ground,
            spec_sending_position(position, last_sent, remainder),
            spec_sending_rotation(direction, last_direction)) is None,
{
}

/// Whether the player moves at sneaking speed.
pub fn is_moving_slowly(sneaking: bool, is_visually_crawling: bool) -> (r: bool)
    ensures
        r == (sneaking || is_visually_crawling),
{
    sneaking || is_visually_crawling
}

/// The control impulses that a held direction produces, full scale,
/// before any sneaking slowdown: forward and left, scaled by 1000.
pub open spec fn spec_direction_impulses(d: WalkDirection) -> (i32, i32) {
    let forward: i32 = match d {
        WalkDirection::Forward | WalkDirection::ForwardRight | WalkDirection::ForwardLeft
            => 1000i32,
        WalkDirection::Backward | WalkDirection::BackwardRight | WalkDirection::BackwardLeft
            => -1000i32,
        _ => 0i32,
    };
    let left: i32 = match d {
        WalkDirection::Right | WalkDirection::ForwardRight | WalkDirection::BackwardRight
            => 1000i32,
        WalkDirection::Left | WalkDirection::ForwardLeft | WalkDirection::BackwardLeft
            => -1000i32,
        _ => 0i32,
    };
    (forward, left)
}

/// Update the control impulses from the held direction. When moving
/// slowly, both impulses are scaled by `0.3` plus the sneaking speed
/// bonus of the worn gear (all scaled by 1000), clamped to `[0, 1]`.
pub fn tick_controls(
    physics_state: &mut PhysicsState,
    sneaking: bool,
    sneaking_speed_bonus: i32,
)
    requires
        -1000 <= sneaking_speed_bonus <= 1000,
    ensures
        ({
            let (forward, left) = spec_direction_impulses(old(physics_state).move_direction);
            let multiplier: i32 = if 300 + sneaking_speed_bonus < 0 {
                0i32
            } else if 300 + sneaking_speed_bonus > 1000 {
                1000i32
            } else {
                (300 + sneaking_speed_bonus) as i32
            };
            &&& final(physics_state).forward_impulse == (if sneaking {
                forward * multiplier / 1000
            } else {
                forward as int
            })
            &&& final(physics_state).left_impulse == (if sneaking {
                left * multiplier / 1000
            } else {
                left as int
            })
            &&& *final(physics_state) == (PhysicsState {
                forward_impulse: final(physics_state).forward_impulse,
                left_impulse: final(physics_state).left_impulse,
                ..*old(physics_state)
            })
        }),
{
    let slow = is_moving_slowly(sneaking, false);

    let mut forward_impulse: i32 = 0;
    let mut left_impulse: i32 = 0;
    match physics_state.move_direction {
        WalkDirection::Forward | WalkDirection::ForwardRight | WalkDirection::ForwardLeft => {
            forward_impulse = forward_impulse + 1000;
        },
        WalkDirection::Backward | WalkDirection::BackwardRight
            | WalkDirection::BackwardLeft => {
            forward_impulse = forward_impulse - 1000;
        },
        _ => {},
    }
    match physics_state.move_direction {
        WalkDirection::Right | WalkDirection::ForwardRight | WalkDirection::BackwardRight => {
            left_impulse = left_impulse + 1000;
        },
        WalkDirection::Left | WalkDirection::ForwardLeft | WalkDirection::BackwardLeft => {
            left_impulse = left_impulse - 1000;
        },
        _ => {},
    }
    physics_state.forward_impulse = forward_impulse;
    physics_state.left_impulse = left_impulse;

    if slow {
        let mut multiplier: i32 = 300 + sneaking_speed_bonus;
        if multiplier < 0 {
            multiplier = 0;
        }
        if multiplier > 1000 {
            multiplier = 1000;
        }
        proof {
            lemma_mul_bound(physics_state.forward_impulse as int, multiplier as int);
            lemma_mul_bound(physics_state.left_impulse as int, multiplier as int);
        }
        physics_state.forward_impulse = physics_state.forward_impulse * multiplier / 1000;
        physics_state.left_impulse = physics_state.left_impulse * multiplier / 1000;
    }
}

/// A square of a bounded value is bounded by the square of the bound.
proof fn lemma_sq_bound(a: i128, b: i128)
    requires
        -b <= a <= b,
        0 <= b <= 0x4000_0000_0000_0000,
    ensures
        0 <= a * a <= b * b,
{
    assert(0 <= a * a <= b * b) by (nonlinear_arith)
        requires -b <= a <= b, 0 <= b;
}

/// A product of an impulse and a multiplier stays within a million.
proof fn lemma_mul_bound(a: int, m: int)
    requires
        -1000 <= a <= 1000,
        0 <= m <= 1000,
    ensures
        -1000000 <= a * m <= 1000000,
{
    assert(-1000000 <= a * m <= 1000000) by (nonlinear_arith)
        requires -1000 <= a <= 1000, 0 <= m <= 1000;
}

/// Whether the player is moving fast enough to be able to start sprinting.
pub fn has_enough_impulse_to_start_sprinting(physics_state: &PhysicsState) -> (r: bool)
    ensures
        r == (physics_state.forward_impulse > 800),
{
    physics_state.forward_impulse > 800
}

/// The modifier id that the sprint speed boost carries.
pub const SPRINTING_MODIFIER_ID: u128 = 0x662a6b8dda3e4c1c8bae0cc8a6d1def9;

/// One attribute of an entity: a base value and the ids of the modifiers
/// on it.
#[derive(Debug, Clone, PartialEq, Eq)]
pub struct AttributeInstance {
    pub base: i64,
    pub modifiers: Vec<u128>,
}

impl AttributeInstance {
    /// No modifier id occurs twice.
    pub open spec fn wf(&self) -> bool {
        forall|i: int, j: int| 0 <= i < j < self.modifiers.len()
            ==> self.modifiers[i] != self.modifiers[j]
    }

    /// Whether the modifier with id `id` is on this attribute.
    pub open spec fn spec_has_modifier(&self, id: u128) -> bool {
        self.modifiers@.contains(id)
    }

    /// Whether the modifier with id `id` is on this attribute.
    pub fn has_modifier(&self, id: u128) -> (r: bool)
        ensures
            r == self.spec_has_modifier(id),
    {
        let mut i: usize = 0;
        while i < self.modifiers.len()
            invariant
                i <= self.modifiers.len(),
                forall|k: int| 0 <= k < i ==> self.modifiers@[k] != id,
            decreases self.modifiers.len() - i,
        {
            if self.modifiers[i] == id {
                return true;
            }
            i = i + 1;
        }
        false
    }

    /// Add the modifier; fails without a change when it is already there.
    pub fn insert(&mut self, id: u128) -> (r: Result<(), ()>)
        requires
            old(self).wf(),
        ensures
            final(self).wf(),
            final(self).base == old(self).base,
            final(self).spec_has_modifier(id),
            forall|other: u128| other != id ==> final(self).spec_has_modifier(other)
                == old(self).spec_has_modifier(other),
            r is Ok <==> !old(self).spec_has_modifier(id),
            !old(self).spec_has_modifier(id) ==> final(self).modifiers@
                == old(self).modifiers@.push(id),
            old(self).spec_has_modifier(id) ==> *final(self) == *old(self),
    {
        if self.has_modifier(id) {
            return Err(());
        }
        self.modifiers.push(id);
        proof {
            assert(self.modifiers@.last() == id);
            assert(self.spec_has_modifier(id));
            assert forall|other: u128| other != id && self.spec_has_modifier(other)
                implies old(self).spec_has_modifier(other) by {
                let k = choose|k: int| 0 <= k < self.modifiers@.len()
                    && self.modifiers@[k] == other;
                assert(old(self).modifiers@[k] == other);
            }
            assert forall|other: u128| old(self).spec_has_modifier(other)
                implies self.spec_has_modifier(other) by {
                let k = choose|k: int| 0 <= k < old(self).modifiers@.len()
                    && old(self).modifiers@[k] == other;
                assert(self.modifiers@[k] == other);
            }
        }
        Ok(())
    }

    /// Take the modifier off; fails when it was not there.
    pub fn remove(&mut self, id: u128) -> (r: Option<()>)
        requires
            old(self).wf(),
        ensures
            final(self).wf(),
            final(self).base == old(self).base,
            !final(self).spec_has_modifier(id),
            forall|other: u128| other != id ==> final(self).spec_has_modifier(other)
                == old(self).spec_has_modifier(other),
            r is Some <==> old(self).spec_has_modifier(id),
    {
        let mut i: usize = 0;
        while i < self.modifiers.len()
            invariant
                i <= self.modifiers.len(),
                forall|k: int| 0 <= k < i ==> self.modifiers@[k] != id,
                old(self).wf(),
                self == old(self),
            decreases self.modifiers.len() - i,
        {
            if self.modifiers[i] == id {
                let ghost before = self.modifiers@;
                self.modifiers.remove(i);
                proof {
                    assert(self.modifiers@ == before.remove(i as int));
                    assert forall|other: u128| final(self).spec_has_modifier(other)
                        implies old(self).spec_has_modifier(other) by {
                        let k = choose|k: int| 0 <= k < self.modifiers@.len()
                            && self.modifiers@[k] == other;
                        if k < i {
                            assert(before[k] == other);
                        } else {
                            assert(before[k + 1] == other);
                        }
                    }
                    assert forall|other: u128| other != id
                        && old(self).spec_has_modifier(other)
                        implies final(self).spec_has_modifier(other) by {
                        let k = choose|k: int| 0 <= k < before.len() && before[k] == other;
                        assert(k != i);
                        if k < i {
                            assert(self.modifiers@[k] == other);
                        } else {
                            assert(self.modifiers@[k - 1] == other);
                        }
                    }
                    assert(!final(self).spec_has_modifier(id)) by {
                        if final(self).spec_has_modifier(id) {
                            let k = choose|k: int| 0 <= k < self.modifiers@.len()
                                && self.modifiers@[k] == id;
                            if k < i {
                            } else {
                                assert(before[k + 1] == id);
                            }
                        }
                    }
                }
                return Some(());
            }
            i = i + 1;
        }
        None
    }
}

/// The attributes the movement code reads.
#[derive(Debug, Clone, PartialEq, Eq)]
pub struct Attributes {
    pub speed: AttributeInstance,
}

/// Start or stop sprinting: the flag and the speed modifier move together,
/// which keeps the invariant that the sprint modifier is on the speed
/// attribute exactly while the player sprints.
pub fn set_sprinting(
    sprinting: bool,
    currently_sprinting: &mut bool,
    attributes: &mut Attributes,
) -> (r: bool)
    requires
        old(attributes).speed.wf(),
    ensures
        final(attributes).speed.wf(),
        *final(currently_sprinting) == sprinting,
        final(attributes).speed.spec_has_modifier(SPRINTING_MODIFIER_ID) == sprinting,
        forall|other: u128| other != SPRINTING_MODIFIER_ID
            ==> final(attributes).speed.spec_has_modifier(other)
            == old(attributes).speed.spec_has_modifier(other),
{
    *currently_sprinting = sprinting;
    if sprinting {
        attributes.speed.insert(SPRINTING_MODIFIER_ID).is_ok()
    } else {
        attributes.speed.remove(SPRINTING_MODIFIER_ID).is_none()
    }
}

/// One ai-step of the local player: hand the control impulses to the
/// integrator and decide whether a sprint starts this tick.
pub fn local_player_ai_step(
    physics_state: &PhysicsState,
    physics: &mut Physics,
    sprinting: &mut bool,
    attributes: &mut Attributes,
)
    requires
        old(attributes).speed.wf(),
    ensures
        final(attributes).speed.wf(),
        final(physics).xxa == physics_state.left_impulse,
        final(physics).zza == physics_state.forward_impulse,
        *final(physics) == (Physics {
            xxa: physics_state.left_impulse,
            zza: physics_state.forward_impulse,
            ..*old(physics)
        }),
        ({
            let starts = !*old(sprinting) && physics_state.forward_impulse > 800
                && physics_state.trying_to_sprint;
            &&& *final(sprinting) == (*old(sprinting) || starts)
            &&& starts ==> final(attributes).speed.spec_has_modifier(SPRINTING_MODIFIER_ID)
            &&& !starts ==> *final(attributes) == *old(attributes)
        }),
{
    physics.xxa = physics_state.left_impulse;
    physics.zza = physics_state.forward_impulse;

    let has_enough_food_to_sprint = true;
    let trying_to_sprint = physics_state.trying_to_sprint;

    if !*sprinting && (has_enough_impulse_to_start_sprinting(physics_state)
        && has_enough_food_to_sprint && trying_to_sprint) {
        set_sprinting(true, sprinting, attributes);
    }
}

/// Point the move state in a walking direction; walking cancels any sprint.
pub fn handle_walk(
    direction: WalkDirection,
    physics_state: &mut PhysicsState,
    sprinting: &mut bool,
    attributes: &mut Attributes,
)
    requires
        old(attributes).speed.wf(),
    ensures
        final(attributes).speed.wf(),
        final(physics_state).move_direction == direction,
        !final(physics_state).trying_to_sprint,
        *final(physics_state) == (PhysicsState {
            move_direction: direction,
            trying_to_sprint: false,
            ..*old(physics_state)
        }),
        !*final(sprinting),
        !final(attributes).speed.spec_has_modifier(SPRINTING_MODIFIER_ID),
{
    physics_state.move_direction = direction;
    physics_state.trying_to_sprint = false;
    set_sprinting(false, sprinting, attributes);
}

/// Point the move state in a sprinting direction and ask for a sprint.
pub fn handle_sprint(direction: SprintDirection, physics_state: &mut PhysicsState)
    ensures
        *final(physics_state) == (PhysicsState {
            move_direction: spec_walk_of_sprint(direction),
            trying_to_sprint: true,
            ..*old(physics_state)
        }),
{
    physics_state.move_direction = WalkDirection::from_sprint(direction);
    physics_state.trying_to_sprint = true;
}

/// The walk direction that a sprint direction stands for.
pub open spec fn spec_walk_of_sprint(d: SprintDirection) -> WalkDirection {
    match d {
        SprintDirection::Forward => WalkDirection::Forward,
        SprintDirection::ForwardRight => WalkDirection::ForwardRight,
        SprintDirection::ForwardLeft => WalkDirection::ForwardLeft,
    }
}

/// Apply a knockback instruction to the velocity.
pub fn handle_knockback(physics: &mut Physics, knockback: KnockbackType)
    requires
        match knockback {
            KnockbackType::Replace(_) => true,
            KnockbackType::Add(v) => {
                &&& i64::MIN <= old(physics).velocity.x + v.x <= i64::MAX
                &&& i64::MIN <= old(physics).velocity.y + v.y <= i64::MAX
                &&& i64::MIN <= old(physics).velocity.z + v.z <= i64::MAX
            },
        },
    ensures
        *final(physics) == (Physics {
            velocity: match knockback {
                KnockbackType::Replace(v) => v,
                KnockbackType::Add(v) => FixedVec3 {
                    x: (old(physics).velocity.x + v.x) as i64,
                    y: (old(physics).velocity.y + v.y) as i64,
                    z: (old(physics).velocity.z + v.z) as i64,
                },
            },
            ..*old(physics)
        }),
{
    match knockback {
        KnockbackType::Replace(v) => {
            physics.velocity = v;
        },
        KnockbackType::Add(v) => {
            physics.velocity = FixedVec3 {
                x: physics.velocity.x + v.x,
                y: physics.velocity.y + v.y,
                z: physics.velocity.z + v.z,
            };
        },
    }
}

/// Whether the player counts as sneaking this tick: not flying, not
/// swimming, able to fit crouching, and either holding shift or unable
/// to stand upright.
pub fn update_sneaking(
    flying: bool,
    swimming: bool,
    shift_key_down: bool,
    sleeping: bool,
    can_fit_crouching: bool,
    can_fit_standing: bool,
) -> (r: bool)
    ensures
        r == (!flying && !swimming && can_fit_crouching && (shift_key_down || (!sleeping
            && !can_fit_standing))),
{
    !flying && !swimming && can_fit_crouching && (shift_key_down || (!sleeping
        && !can_fit_standing))
}

} // verus!
