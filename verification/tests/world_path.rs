use azalea::astar::a_star;
use azalea::auto_tool::{accurate_best_tool_in_hotbar_for_block, BestToolResult, HotbarItem};
use azalea::goals::BlockPosGoal;
use azalea::movement::FixedVec3;
use azalea::moves::{
    fall_distance, is_block_passable, is_block_solid, is_passable, is_standable,
    successors,
};
use azalea::nbt::{Nbt, NbtCompound, NbtList, NbtTag, TagPointer, COMPOUND_ID, LIST_ID};
use azalea::palette::PalettedContainer;
use azalea::pathfinder::{
    can_walk_to_position, choose_skip, consider_skip, is_reached, path_found_listener,
    tick_execute_path, ExecuteAction, Pathfinder, SimTickResult,
};
use azalea::position::{BlockPos, CardinalDirection, ChunkPos};
use azalea::voxel_shape::{
    Axis, BitSetDiscreteVoxelShape, BooleanOp, DiscreteVoxelShape, IndexMerger,
};
use azalea::world::{Dimension, EntityData, MoveEntityError};

const STONE: u32 = 1;

fn flat_world() -> Dimension {
    // one empty chunk at the origin, with a stone floor at y = 0
    let mut world = Dimension::new(8, 16, 0);
    world.load_empty_chunk(&ChunkPos::new(0, 0));
    for x in 0..16 {
        for z in 0..16 {
            world.set_block_state(&BlockPos::new(x, 0, z), STONE);
        }
    }
    world
}

#[test]
fn test_is_passable() {
    let mut world = Dimension::new(8, 16, 0);
    world.load_empty_chunk(&ChunkPos::new(0, 0));
    world.set_block_state(&BlockPos::new(0, 0, 0), STONE);

    assert_eq!(is_block_passable(&BlockPos::new(0, 0, 0), &world), false);
    assert_eq!(is_block_passable(&BlockPos::new(0, 1, 0), &world), true);
}

#[test]
fn test_is_solid() {
    let mut world = Dimension::new(8, 16, 0);
    world.load_empty_chunk(&ChunkPos::new(0, 0));
    world.set_block_state(&BlockPos::new(0, 0, 0), STONE);

    assert_eq!(is_block_solid(&BlockPos::new(0, 0, 0), &world), true);
    assert_eq!(is_block_solid(&BlockPos::new(0, 1, 0), &world), false);
}

#[test]
fn test_is_standable() {
    let mut world = Dimension::new(8, 16, 0);
    world.load_empty_chunk(&ChunkPos::new(0, 0));
    world.set_block_state(&BlockPos::new(0, 0, 0), STONE);

    assert!(is_standable(&BlockPos::new(0, 1, 0), &world));
    assert!(!is_standable(&BlockPos::new(0, 0, 0), &world));
    assert!(!is_standable(&BlockPos::new(0, 2, 0), &world));
}

#[test]
fn test_block_get_and_set() {
    let mut world = flat_world();
    assert_eq!(world.get_block_state(&BlockPos::new(3, 0, 3)), Some(STONE));
    assert_eq!(world.get_block_state(&BlockPos::new(3, 5, 3)), Some(0));
    // outside the loaded chunk
    assert_eq!(world.get_block_state(&BlockPos::new(40, 5, 3)), None);
    // outside the build height
    assert_eq!(world.get_block_state(&BlockPos::new(3, 60, 3)), None);

    let old = world.set_block_state(&BlockPos::new(3, 5, 3), 7);
    assert_eq!(old, Some(0));
    assert_eq!(world.get_block_state(&BlockPos::new(3, 5, 3)), Some(7));
    assert_eq!(world.set_block_state(&BlockPos::new(40, 5, 3), 7), None);
}

#[test]
fn test_palette_bit_width_grows_minimally() {
    let mut c = PalettedContainer::new_single(4096, 0);
    assert_eq!(c.bits_per_entry(), 0);
    // the second distinct id brings the four-bit table
    c.set(0, 1);
    assert_eq!(c.bits_per_entry(), 4);
    // up to sixteen distinct ids the width stays four
    for id in 2..16 {
        c.set(id as usize, id);
    }
    assert_eq!(c.bits_per_entry(), 4);
    // the seventeenth distinct id forces five bits
    c.set(16, 16);
    assert_eq!(c.bits_per_entry(), 5);
    // everything reads back unchanged
    assert_eq!(c.get(0), 1);
    assert_eq!(c.get(1), 0);
    for id in 2..17 {
        assert_eq!(c.get(id as usize), id);
    }
    assert_eq!(c.get(20), 0);
}

#[test]
fn test_palette_grows_to_direct() {
    let mut c = PalettedContainer::new_single(4096, 0);
    for id in 1..=255 {
        c.set(id as usize, id);
    }
    assert_eq!(c.bits_per_entry(), 8);
    c.set(256, 256);
    assert_eq!(c.bits_per_entry(), 15);
    for id in 0..=256 {
        assert_eq!(c.get(id as usize), id);
    }
}

#[test]
fn test_entities() {
    let mut world = flat_world();
    world.add_entity(
        17,
        EntityData { id: 17, uuid: 0xabcd, pos: FixedVec3 { x: 0, y: 10000, z: 0 } },
    );
    assert_eq!(world.entity_data_by_id(17).unwrap().uuid, 0xabcd);
    assert!(world.entity(18).is_none());
    assert_eq!(world.entity_by_uuid(0xabcd).unwrap().id, 17);

    world
        .set_entity_pos(17, FixedVec3 { x: 5000, y: 10000, z: 5000 })
        .unwrap();
    assert_eq!(world.entity_data_by_id(17).unwrap().pos.x, 5000);

    world
        .move_entity_with_delta(17, &FixedVec3 { x: 100, y: 0, z: -100 })
        .unwrap();
    assert_eq!(world.entity_data_by_id(17).unwrap().pos.x, 5100);
    assert_eq!(world.entity_data_by_id(17).unwrap().pos.z, 4900);

    assert_eq!(
        world.set_entity_pos(99, FixedVec3 { x: 0, y: 0, z: 0 }),
        Err(MoveEntityError::EntityDoesNotExist)
    );
    assert_eq!(world.entities().len(), 1);
    let found = world.find_one_entity(|e| e.uuid == 0xabcd);
    assert!(found.is_some());
}

#[test]
fn test_fall_distance() {
    let world = flat_world();
    assert_eq!(fall_distance(&BlockPos::new(2, 1, 2), &world), 0);
    assert_eq!(fall_distance(&BlockPos::new(2, 4, 2), &world), 3);
}

#[test]
fn test_successors_on_flat_ground() {
    let world = flat_world();
    let edges = successors(&world, BlockPos::new(5, 1, 5));
    // four plain steps and four diagonals; nothing to climb or fall off
    assert_eq!(edges.len(), 8);
}

#[test]
fn test_astar_trivial_and_unreachable() {
    let world = flat_world();
    let start = BlockPos::new(5, 1, 5);
    // already there: the full, empty path
    let path = a_star(start, &world, &BlockPosGoal { pos: start }, 1000);
    assert!(!path.partial);
    assert!(path.movements.is_empty());
    // sealed away: the search runs out and hands back a partial path
    // towards the most promising node, which never satisfies the goal
    let path = a_star(
        start,
        &world,
        &BlockPosGoal { pos: BlockPos::new(5, 9, 5) },
        1000,
    );
    assert!(path.partial);
}

#[test]
fn test_astar_walks_the_floor() {
    let world = flat_world();
    let start = BlockPos::new(2, 1, 2);
    let goal = BlockPos::new(6, 1, 2);
    let path = a_star(start, &world, &BlockPosGoal { pos: goal }, 100000);
    assert!(!path.partial);
    let path = path.movements;
    assert!(!path.is_empty());
    assert_eq!(path.last().unwrap().target, goal);
    // each step is adjacent to the one before
    let mut prev = start;
    for m in &path {
        assert!((m.target.x - prev.x).abs() <= 1 && (m.target.z - prev.z).abs() <= 1);
        assert_eq!(m.target.y, 1);
        prev = m.target;
    }
}

#[test]
fn test_ascend() {
    // a two-step stair: stone at (1, 1, 0) on the floor, goal on top of
    // the stair line at y = 2
    let mut world = flat_world();
    world.set_block_state(&BlockPos::new(1, 1, 0), STONE);
    world.set_block_state(&BlockPos::new(2, 1, 0), STONE);
    world.set_block_state(&BlockPos::new(3, 1, 0), STONE);
    let start = BlockPos::new(0, 1, 0);
    let goal = BlockPos::new(3, 2, 0);
    let path = a_star(start, &world, &BlockPosGoal { pos: goal }, 100000);
    assert!(!path.partial);
    let path = path.movements;
    assert!(!path.is_empty());
    // the path begins by jumping east onto the stair
    assert_eq!(path[0].target, BlockPos::new(1, 2, 0));
    assert!(path[0].data.jump);
    assert_eq!(path.last().unwrap().target, goal);
}

#[test]
fn test_is_reached() {
    let physics = azalea::movement::Physics {
        velocity: FixedVec3 { x: 0, y: 0, z: 0 },
        on_ground: true,
        last_on_ground: true,
        horizontal_collision: false,
        vertical_collision: false,
        xxa: 0,
        zza: 0,
    };
    let pos = FixedVec3 { x: 5000, y: 10000, z: 5000 };
    assert!(is_reached(&BlockPos::new(0, 1, 0), &pos, &physics));
    assert!(!is_reached(&BlockPos::new(1, 1, 0), &pos, &physics));
    let mut airborne = physics;
    airborne.on_ground = false;
    assert!(!is_reached(&BlockPos::new(0, 1, 0), &pos, &airborne));
}

#[test]
fn test_can_walk_to_position() {
    let target = BlockPos::new(2, 1, 0);
    let walk = |x: i64| SimTickResult {
        position: FixedVec3 { x, y: 10000, z: 5000 },
        horizontal_collision: false,
    };
    // reaches the target block on the third tick
    let ticks = vec![walk(6000), walk(15000), walk(25000)];
    assert!(can_walk_to_position(10000, &ticks, target));
    // a sideways collision on the way fails
    let mut collided = ticks.clone();
    collided[1].horizontal_collision = true;
    assert!(!can_walk_to_position(10000, &collided, target));
    // falling off the height fails
    let mut fell = ticks.clone();
    fell[1].position.y = 9000;
    assert!(!can_walk_to_position(10000, &fell, target));
    // never arriving fails
    let short = vec![walk(6000), walk(8000)];
    assert!(!can_walk_to_position(10000, &short, target));
}

#[test]
fn test_choose_skip() {
    assert_eq!(choose_skip(&vec![false, true, false, true, false]), Some(5));
    assert_eq!(choose_skip(&vec![true, false]), Some(2));
    assert_eq!(choose_skip(&vec![false, false]), None);
    assert_eq!(choose_skip(&Vec::new()), None);
}

#[test]
fn test_tick_execute_path() {
    let m = |x: i32| azalea::moves::Movement {
        target: BlockPos::new(x, 1, 0),
        data: azalea::moves::MoveData { jump: false },
    };
    let mut pathfinder = Pathfinder {
        path: vec![m(1), m(2)],
        queued_path: None,
        current_target_node: None,
        goal: None,
        computing: false,
    };
    let physics = azalea::movement::Physics {
        velocity: FixedVec3 { x: 0, y: 0, z: 0 },
        on_ground: true,
        last_on_ground: true,
        horizontal_collision: false,
        vertical_collision: false,
        xxa: 0,
        zza: 0,
    };
    // standing before the first node: look at it and sprint
    let pos = FixedVec3 { x: 5000, y: 10000, z: 5000 };
    let actions = tick_execute_path(&mut pathfinder, &pos, &physics);
    assert_eq!(
        actions,
        vec![ExecuteAction::LookAt(BlockPos::new(1, 1, 0)), ExecuteAction::Sprint]
    );
    assert_eq!(pathfinder.path.len(), 2);

    // standing in the first node: it pops, and the walk turns to the next
    let pos = FixedVec3 { x: 15000, y: 10000, z: 5000 };
    let actions = tick_execute_path(&mut pathfinder, &pos, &physics);
    assert_eq!(
        actions,
        vec![
            ExecuteAction::LookAt(BlockPos::new(1, 1, 0)),
            ExecuteAction::Sprint,
            ExecuteAction::LookAt(BlockPos::new(2, 1, 0)),
            ExecuteAction::Sprint
        ]
    );
    assert_eq!(pathfinder.path.len(), 1);

    // standing in the last node: the path ends and the walk stops
    let pos = FixedVec3 { x: 25000, y: 10000, z: 5000 };
    let actions = tick_execute_path(&mut pathfinder, &pos, &physics);
    assert_eq!(
        actions,
        vec![
            ExecuteAction::LookAt(BlockPos::new(2, 1, 0)),
            ExecuteAction::Sprint,
            ExecuteAction::StopWalking
        ]
    );
    assert!(pathfinder.path.is_empty());
}

#[test]
fn test_path_found_listener() {
    let m = azalea::moves::Movement {
        target: BlockPos::new(1, 1, 0),
        data: azalea::moves::MoveData { jump: false },
    };
    let mut pathfinder = Pathfinder {
        path: Vec::new(),
        queued_path: None,
        current_target_node: None,
        goal: None,
        computing: true,
    };
    path_found_listener(&mut pathfinder, Some(vec![m]));
    assert!(!pathfinder.computing);
    assert_eq!(pathfinder.path.len(), 1);
    // a second path queues behind the one being walked
    path_found_listener(&mut pathfinder, Some(vec![m, m]));
    assert_eq!(pathfinder.path.len(), 1);
    assert_eq!(pathfinder.queued_path.as_ref().unwrap().len(), 2);
}

#[test]
fn test_best_tool() {
    let bare = HotbarItem { present: false, has_damage_component: false, speed: 0 };
    let tool = |speed: u32| HotbarItem { present: true, has_damage_component: false, speed };
    let damaged = |speed: u32| HotbarItem { present: true, has_damage_component: true, speed };

    // the fastest undamaged tool wins
    let hotbar = vec![bare, tool(50), tool(900), bare, tool(200), bare, bare, bare, bare];
    let r = accurate_best_tool_in_hotbar_for_block(false, 10, &hotbar);
    assert_eq!(r, BestToolResult { index: 2, percentage_per_tick: 900 });

    // damaged gear is only chosen when strictly faster than everything else
    let hotbar = vec![bare, damaged(900), tool(200), bare, bare, bare, bare, bare, bare];
    let r = accurate_best_tool_in_hotbar_for_block(false, 10, &hotbar);
    assert_eq!(r, BestToolResult { index: 1, percentage_per_tick: 900 });

    let hotbar = vec![bare, damaged(150), tool(200), bare, bare, bare, bare, bare, bare];
    let r = accurate_best_tool_in_hotbar_for_block(false, 10, &hotbar);
    assert_eq!(r, BestToolResult { index: 2, percentage_per_tick: 200 });

    // fluids cannot be mined
    let r = accurate_best_tool_in_hotbar_for_block(true, 10, &hotbar);
    assert_eq!(r, BestToolResult { index: 0, percentage_per_tick: 0 });

    // bare hands everywhere: slot zero, bare-hand speed
    let hotbar = vec![bare; 9];
    let r = accurate_best_tool_in_hotbar_for_block(false, 10, &hotbar);
    assert_eq!(r, BestToolResult { index: 0, percentage_per_tick: 10 });
}

#[test]
fn test_nbt_arena() {
    let mut nbt = Nbt::new(b"root".to_vec());
    let pointer = nbt.push(NbtTag::Int(7));
    assert_eq!(pointer.position, 0);
    let mut compound = NbtCompound::with_capacity(4);
    compound.insert_unsorted(
        b"value".to_vec(),
        TagPointer { position: pointer.position, tag_type: azalea::nbt::INT_ID },
    );
    assert_eq!(compound.entries().len(), 1);
    let list = NbtList::Compound(Vec::new());
    assert_eq!(list.id(), COMPOUND_ID);
    assert_eq!(NbtList::List(Vec::new()).id(), LIST_ID);
    assert_eq!(NbtList::Empty.id(), 0);
}

#[test]
fn test_directions() {
    assert_eq!(CardinalDirection::North.x(), 0);
    assert_eq!(CardinalDirection::North.z(), -1);
    assert_eq!(CardinalDirection::East.x(), 1);
    assert!(matches!(CardinalDirection::North.right(), CardinalDirection::East));
    let bp = BlockPos::new(-1, 5, 17);
    assert_eq!(ChunkPos::from_block(&bp), ChunkPos::new(-1, 1));
    let v = FixedVec3 { x: -5000, y: 641000, z: 5000 };
    assert_eq!(BlockPos::from_fixed(&v), BlockPos::new(-1, 64, 0));
}

#[test]
fn test_voxel_shape_fill_and_bounds() {
    let mut shape = BitSetDiscreteVoxelShape::new(2, 2, 2);
    assert!(!shape.is_full(0, 0, 0));
    shape.fill(1, 0, 1);
    assert!(shape.is_full(1, 0, 1));
    assert!(!shape.is_full(1, 1, 1));
    assert!(!shape.is_full_wide(5, 0, 0));
    assert_eq!(shape.size(Axis::X), 2);

    let boxed = BitSetDiscreteVoxelShape::with_filled_bounds(4, 4, 4, 1, 1, 1, 3, 3, 3);
    assert!(boxed.is_full(1, 1, 1));
    assert!(boxed.is_full(2, 2, 2));
    assert!(!boxed.is_full(0, 0, 0));
    assert!(!boxed.is_full(3, 3, 3));
}

#[test]
fn test_voxel_shape_join() {
    let a = BitSetDiscreteVoxelShape::with_filled_bounds(4, 4, 4, 0, 0, 0, 2, 2, 2);
    let b = BitSetDiscreteVoxelShape::with_filled_bounds(4, 4, 4, 1, 1, 1, 3, 3, 3);
    let mx = IndexMerger::identical(4);
    let my = IndexMerger::identical(4);
    let mz = IndexMerger::identical(4);

    let union = BitSetDiscreteVoxelShape::join(&a, &b, &mx, &my, &mz, BooleanOp::Or);
    assert!(union.is_full(0, 0, 0));
    assert!(union.is_full(2, 2, 2));
    assert!(!union.is_full(3, 3, 3));

    let both = BitSetDiscreteVoxelShape::join(&a, &b, &mx, &my, &mz, BooleanOp::And);
    assert!(both.is_full(1, 1, 1));
    assert!(!both.is_full(0, 0, 0));
    assert!(!both.is_full(2, 2, 2));

    let only_first = BitSetDiscreteVoxelShape::join(&a, &b, &mx, &my, &mz, BooleanOp::OnlyFirst);
    assert!(only_first.is_full(0, 0, 0));
    assert!(!only_first.is_full(1, 1, 1));

    // the cached bounds are the tight box of the filled cells
    assert_eq!(union.first_full_x(), 0);
    assert_eq!(union.last_full_x(), 3);
    assert_eq!(both.first_full_y(), 1);
    assert_eq!(both.last_full_y(), 2);
    assert!(!union.is_empty());

    // a join with nothing filled carries the empty sentinels
    let c = BitSetDiscreteVoxelShape::with_filled_bounds(4, 4, 4, 0, 0, 0, 1, 1, 1);
    let d = BitSetDiscreteVoxelShape::with_filled_bounds(4, 4, 4, 3, 3, 3, 4, 4, 4);
    let disjoint = BitSetDiscreteVoxelShape::join(&c, &d, &mx, &my, &mz, BooleanOp::And);
    assert!(disjoint.is_empty());
}

#[test]
fn test_replace_with_packet_data_single_value() {
    let mut world = Dimension::new(8, 16, 0);
    // one section: a block count, then states and biomes as single-value
    // containers (width byte, the id, a zero long count)
    let payload: Vec<u8> = vec![0, 0, 0, 1, 0, 0, 0, 0];
    world
        .replace_with_packet_data(&ChunkPos::new(0, 0), &payload)
        .unwrap();
    assert_eq!(world.get_block_state(&BlockPos::new(3, 5, 3)), Some(1));
    assert_eq!(world.get_block_state(&BlockPos::new(0, 15, 15)), Some(1));

    // a malformed payload changes nothing
    let bad: Vec<u8> = vec![0, 0, 9];
    assert!(world
        .replace_with_packet_data(&ChunkPos::new(1, 0), &bad)
        .is_err());
    assert_eq!(world.get_block_state(&BlockPos::new(19, 5, 3)), None);
}

#[test]
fn test_replace_with_packet_data_paletted() {
    let mut world = Dimension::new(8, 16, 0);
    let mut payload: Vec<u8> = vec![0, 0]; // block count
    payload.push(4); // four bits per entry
    payload.extend_from_slice(&[2, 0, 5]); // table of two ids: 0 and 5
    // 4096 entries at 4 bits: 256 longs; entry zero holds table index 1
    payload.push(0x80);
    payload.push(0x02); // long count 256 as a VarInt
    payload.extend_from_slice(&[0, 0, 0, 0, 0, 0, 0, 1]);
    for _ in 1..256 {
        payload.extend_from_slice(&[0; 8]);
    }
    payload.extend_from_slice(&[0, 0, 0]); // biomes: single id 0
    world
        .replace_with_packet_data(&ChunkPos::new(0, 0), &payload)
        .unwrap();
    assert_eq!(world.get_block_state(&BlockPos::new(0, 0, 0)), Some(5));
    assert_eq!(world.get_block_state(&BlockPos::new(1, 0, 0)), Some(0));
}

#[test]
fn test_entity_data_mut_by_id() {
    let mut world = flat_world();
    world.add_entity(
        4,
        EntityData { id: 4, uuid: 7, pos: FixedVec3 { x: 0, y: 10000, z: 0 } },
    );
    let e = world.entity_data_mut_by_id(4).unwrap();
    e.pos.x = 1234;
    assert_eq!(world.entity_data_by_id(4).unwrap().pos.x, 1234);
    assert!(world.entity_data_mut_by_id(9).is_none());
}

#[test]
fn test_consider_skip() {
    let m = |x: i32| azalea::moves::Movement {
        target: BlockPos::new(x, 1, 0),
        data: azalea::moves::MoveData { jump: false },
    };
    let mut pathfinder = Pathfinder {
        path: vec![m(1), m(2), m(3), m(4), m(5)],
        queued_path: None,
        current_target_node: None,
        goal: None,
        computing: false,
    };
    // the simulation reached candidates 2 and 3; the walk skips to the
    // farthest one
    let skipped = consider_skip(&mut pathfinder, &vec![true, true]);
    assert_eq!(skipped, Some(3));
    assert_eq!(pathfinder.path.len(), 2);
    assert_eq!(pathfinder.path[0].target, BlockPos::new(4, 1, 0));

    // with no successful candidate nothing changes
    let skipped = consider_skip(&mut pathfinder, &vec![false, false]);
    assert_eq!(skipped, None);
    assert_eq!(pathfinder.path.len(), 2);
}

#[test]
fn test_update_view_center_evicts() {
    let mut world = Dimension::new(2, 16, 0);
    world.load_empty_chunk(&ChunkPos::new(0, 0));
    world.load_empty_chunk(&ChunkPos::new(3, 0));
    world.load_empty_chunk(&ChunkPos::new(10, 10));
    assert!(world.get_block_state(&BlockPos::new(0, 0, 0)).is_some());
    assert!(world.get_block_state(&BlockPos::new(3 * 16, 0, 0)).is_some());
    assert!(world.get_block_state(&BlockPos::new(160, 0, 160)).is_some());
    // radius 2 keeps chunks within 3 of the centre; the far one goes
    world.update_view_center(&ChunkPos::new(0, 0));
    assert!(world.get_block_state(&BlockPos::new(0, 0, 0)).is_some());
    assert!(world.get_block_state(&BlockPos::new(3 * 16, 0, 0)).is_some());
    assert!(world.get_block_state(&BlockPos::new(160, 0, 160)).is_none());
    // moving the centre far away evicts the rest
    world.update_view_center(&ChunkPos::new(100, 100));
    assert!(world.get_block_state(&BlockPos::new(0, 0, 0)).is_none());
    assert!(world.get_block_state(&BlockPos::new(3 * 16, 0, 0)).is_none());
}
