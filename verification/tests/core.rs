use azalea::bitset::BitSet;
use azalea::chat::split_sender_and_content;
use azalea::registry::{
    decode_configuration_packet, decode_login_packet, encode_client_information,
    encode_custom_query_answer, encode_finish_configuration, encode_hello,
    encode_intention, ClientboundConfigurationPacketRaw, ClientboundLoginPacketRaw,
};
use azalea::crypto::{hex_digest, server_session_hash};
use azalea::codec::{
    frame_compressed, frame_for_send, read_byte_array, read_u16_be, read_u64_be,
    read_varint, read_varlong, split_compressed_body, write_byte_array, write_u16_be,
    write_varint, write_varlong, BufReadError,
};
use azalea::connection::{
    configuration_entry_actions, validate_client_information, Account, AuthOutcome,
    ChatVisibility, ClientInformation, ClientInformationError,
    ClientboundConfigurationPacket, ClientboundLoginPacket, ClientboundRegistryDataPacket,
    ConfigAction, ConfigurationEntryAction, ConfigurationState, ConnectionPhase,
    DisconnectReason, EncryptionRequestData, HumanoidArm, LoginAction, LoginEvent,
    LoginState, RegistryHolder, PROTOCOL_VERSION,
};
use azalea::inventory::{
    ClickOperation, ClickType, ItemSlot, ItemSlotData, Menu, PickupClick, QuickCraftClick,
    QuickCraftKind, QuickCraftStatus, QuickMoveClick, SwapClick,
};
use azalea::movement::{update_sneaking, 
    handle_knockback, handle_sprint, handle_walk, has_enough_impulse_to_start_sprinting,
    is_moving_slowly, local_player_ai_step, send_position, set_sprinting, tick_controls,
    AttributeInstance, Attributes, FixedVec3, KnockbackType, LastSentLookDirection,
    LookDirection, MovePacket, Physics, PhysicsState, SprintDirection, WalkDirection,
    SPRINTING_MODIFIER_ID,
};

#[test]
fn test_bitset() {
    let mut bitset = BitSet::new(64);
    assert_eq!(bitset.index(0), false);
    assert_eq!(bitset.index(1), false);
    assert_eq!(bitset.index(2), false);
    bitset.set(1);
    assert_eq!(bitset.index(0), false);
    assert_eq!(bitset.index(1), true);
    assert_eq!(bitset.index(2), false);
}

#[test]
fn test_clear() {
    let mut bitset = BitSet::new(128);
    bitset.set(62);
    bitset.set(63);
    bitset.set(64);
    bitset.set(65);
    bitset.set(66);

    bitset.clear(63, 65);

    assert_eq!(bitset.index(62), true);
    assert_eq!(bitset.index(63), false);
    assert_eq!(bitset.index(64), false);
    assert_eq!(bitset.index(65), true);
    assert_eq!(bitset.index(66), true);
}

#[test]
fn test_varint_round_trip_values() {
    let values: Vec<i32> = vec![0, 1, 2, 127, 128, 255, 300, 25565, 2097151, i32::MAX, -1, i32::MIN];
    for v in values {
        let mut buf: Vec<u8> = Vec::new();
        write_varint(&mut buf, v);
        assert!(buf.len() <= 5);
        let (back, next) = read_varint(&buf, 0).unwrap();
        assert_eq!(back, v);
        assert_eq!(next, buf.len());
    }
}

#[test]
fn test_varint_known_bytes() {
    let mut buf: Vec<u8> = Vec::new();
    write_varint(&mut buf, 300);
    assert_eq!(buf, vec![0xac, 0x02]);
    let mut buf2: Vec<u8> = Vec::new();
    write_varint(&mut buf2, -1);
    assert_eq!(buf2, vec![0xff, 0xff, 0xff, 0xff, 0x0f]);
}

#[test]
fn test_varint_errors() {
    let too_long: Vec<u8> = vec![0x80, 0x80, 0x80, 0x80, 0x80, 0x01];
    assert_eq!(read_varint(&too_long, 0), Err(BufReadError::VarIntTooLong));
    let cut: Vec<u8> = vec![0x80, 0x80];
    assert_eq!(read_varint(&cut, 0), Err(BufReadError::UnexpectedEnd));
}

#[test]
fn test_varlong_round_trip_values() {
    let values: Vec<i64> = vec![0, 1, 127, 128, 300, 1 << 40, i64::MAX, -1, i64::MIN];
    for v in values {
        let mut buf: Vec<u8> = Vec::new();
        write_varlong(&mut buf, v);
        assert!(buf.len() <= 10);
        let (back, next) = read_varlong(&buf, 0).unwrap();
        assert_eq!(back, v);
        assert_eq!(next, buf.len());
    }
}

#[test]
fn test_u16_and_u64_round_trip() {
    let mut buf: Vec<u8> = Vec::new();
    write_u16_be(&mut buf, 25565);
    assert_eq!(buf, vec![0x63, 0xdd]);
    let (v, next) = read_u16_be(&buf, 0).unwrap();
    assert_eq!(v, 25565);
    assert_eq!(next, 2);

    let longs: Vec<u8> = vec![0x01, 0x02, 0x03, 0x04, 0x05, 0x06, 0x07, 0x08];
    let (l, next) = read_u64_be(&longs, 0).unwrap();
    assert_eq!(l, 0x0102030405060708);
    assert_eq!(next, 8);
}

#[test]
fn test_byte_array_round_trip() {
    let data: Vec<u8> = vec![9, 8, 7, 6, 5];
    let mut buf: Vec<u8> = Vec::new();
    write_byte_array(&mut buf, &data);
    let (back, next) = read_byte_array(&buf, 0, 100).unwrap();
    assert_eq!(back, data);
    assert_eq!(next, buf.len());

    assert_eq!(read_byte_array(&buf, 0, 2), Err(BufReadError::StringTooLong));
}

#[test]
fn test_compression_boundary() {
    // a payload of threshold - 1 bytes goes out with the zero marker
    let under: Vec<u8> = vec![7u8; 255];
    let framed = frame_for_send(&under, Some(256)).unwrap();
    // length prefix covers marker + payload
    let (length, after_len) = read_varint(&framed, 0).unwrap();
    assert_eq!(length, 256);
    assert_eq!(framed[after_len], 0);
    assert_eq!(&framed[after_len + 1..], &under[..]);

    // a payload of exactly threshold bytes must be deflated instead
    let at: Vec<u8> = vec![7u8; 256];
    assert!(frame_for_send(&at, Some(256)).is_none());

    // without a threshold the frame is the plain length and payload
    let plain = frame_for_send(&under, None).unwrap();
    let (length, after_len) = read_varint(&plain, 0).unwrap();
    assert_eq!(length, 255);
    assert_eq!(&plain[after_len..], &under[..]);
}

#[test]
fn test_compressed_frame_layout() {
    let deflated: Vec<u8> = vec![1, 2, 3, 4];
    let framed = frame_compressed(300, &deflated);
    let (length, p) = read_varint(&framed, 0).unwrap();
    let (uncompressed, p2) = read_varint(&framed, p).unwrap();
    assert_eq!(uncompressed, 300);
    assert_eq!(length as usize, framed.len() - p);
    assert_eq!(&framed[p2..], &deflated[..]);
}

#[test]
fn test_ten_byte_packet_framed_with_marker() {
    // after a threshold of 256 is installed, a 10-byte packet is framed
    // as length, zero marker, payload
    let payload: Vec<u8> = vec![42u8; 10];
    let framed = frame_for_send(&payload, Some(256)).unwrap();
    assert_eq!(framed[0], 11);
    assert_eq!(framed[1], 0);
    assert_eq!(&framed[2..], &payload[..]);
}

#[test]
fn test_offline_handshake_phases() {
    // an offline account: no authentication, straight to the profile; at
    // this protocol version (before the configuration phase) the game
    // profile moves the connection straight to the game phase
    let mut state = LoginState::begin(false);
    assert_eq!(state.phase, ConnectionPhase::Login);
    assert!(!state.modern);
    let actions = login_step_packet(
        &mut state,
        ClientboundLoginPacket::GameProfile { uuid: 0x1234, name: "bot".to_string() },
    );
    assert_eq!(state.phase, ConnectionPhase::Game);
    assert_eq!(actions, vec![LoginAction::EmitInit { uuid: 0x1234, name: "bot".to_string() }]);

    // the configuration phase ends in the game phase
    let mut config = ConfigurationState {
        phase: ConnectionPhase::Configuration,
        registries: RegistryHolder::new(),
    };
    let actions = azalea::connection::process_configuration_packet(
        &mut config,
        ClientboundConfigurationPacket::FinishConfiguration,
    );
    assert_eq!(config.phase, ConnectionPhase::Game);
    assert_eq!(actions, vec![ConfigAction::SendFinishConfiguration]);
}

fn login_step_packet(state: &mut LoginState, packet: ClientboundLoginPacket) -> Vec<LoginAction> {
    azalea::connection::login_step(state, LoginEvent::Packet(packet))
}

#[test]
fn test_compression_install() {
    let mut state = LoginState::begin(false);
    let actions = login_step_packet(
        &mut state,
        ClientboundLoginPacket::LoginCompression { compression_threshold: 256 },
    );
    assert!(actions.is_empty());
    assert_eq!(state.compression_threshold, Some(256));
    // on a configuration-phase protocol the profile leads there instead
    state.modern = true;
    let actions = login_step_packet(
        &mut state,
        ClientboundLoginPacket::GameProfile { uuid: 7, name: "bot".to_string() },
    );
    assert_eq!(state.phase, ConnectionPhase::Configuration);
    assert_eq!(actions.len(), 1);
}

#[test]
fn test_encryption_failure_retries_once() {
    let mut state = LoginState::begin(true);
    let req = EncryptionRequestData {
        server_id: Vec::new(),
        public_key: vec![1, 2, 3],
        nonce: vec![4, 5, 6],
    };
    let actions = login_step_packet(&mut state, ClientboundLoginPacket::Hello(req));
    assert_eq!(actions, vec![LoginAction::RunAuth]);
    assert_eq!(state.auth_attempts, 1);

    // first failure: one refresh, one retry
    let actions = azalea::connection::login_step(
        &mut state,
        LoginEvent::AuthFinished(AuthOutcome::InvalidSession),
    );
    assert_eq!(actions, vec![LoginAction::RefreshTokenAndRetryAuth]);
    assert_eq!(state.auth_attempts, 2);
    assert_eq!(state.phase, ConnectionPhase::Login);

    // second failure: the connection is over, no profile was emitted
    let actions = azalea::connection::login_step(
        &mut state,
        LoginEvent::AuthFinished(AuthOutcome::InvalidSession),
    );
    assert_eq!(actions, vec![LoginAction::Disconnect(DisconnectReason::AuthFailed)]);
    assert_eq!(state.phase, ConnectionPhase::Disconnected);
}

#[test]
fn test_login_disconnect() {
    let mut state = LoginState::begin(false);
    let actions = login_step_packet(
        &mut state,
        ClientboundLoginPacket::LoginDisconnect { reason: "bye".to_string() },
    );
    assert_eq!(state.phase, ConnectionPhase::Disconnected);
    assert_eq!(
        actions,
        vec![LoginAction::Disconnect(DisconnectReason::ServerDisconnect {
            reason: "bye".to_string()
        })]
    );
}

#[test]
fn test_custom_query_answered() {
    let mut state = LoginState::begin(false);
    let actions = login_step_packet(
        &mut state,
        ClientboundLoginPacket::CustomQuery { transaction_id: 9, data: vec![1] },
    );
    assert_eq!(actions, vec![LoginAction::SendCustomQueryResponse { transaction_id: 9 }]);
    assert_eq!(state.phase, ConnectionPhase::Login);
}

#[test]
fn test_registry_data_merge() {
    let mut config = ConfigurationState {
        phase: ConnectionPhase::Configuration,
        registries: RegistryHolder::new(),
    };
    let packet = ClientboundConfigurationPacket::RegistryData(ClientboundRegistryDataPacket {
        registry_id: "minecraft:worldgen/biome".to_string(),
        entries: Vec::new(),
    });
    let actions = azalea::connection::process_configuration_packet(&mut config, packet);
    assert!(actions.is_empty());
    assert_eq!(config.registries.registries.len(), 1);

    // a registry sent again replaces the old one, others stay
    let packet = ClientboundConfigurationPacket::RegistryData(ClientboundRegistryDataPacket {
        registry_id: "minecraft:worldgen/biome".to_string(),
        entries: Vec::new(),
    });
    azalea::connection::process_configuration_packet(&mut config, packet);
    assert_eq!(config.registries.registries.len(), 1);
}

#[test]
fn test_configuration_entry_sends_brand_then_information() {
    let info = default_client_information();
    let actions = configuration_entry_actions(info.clone());
    assert_eq!(
        actions,
        vec![
            ConfigurationEntryAction::SendBrand,
            ConfigurationEntryAction::SendClientInformation(info)
        ]
    );
}

fn default_client_information() -> ClientInformation {
    ClientInformation {
        locale: "en_us".to_string(),
        view_distance: 8,
        chat_visibility: ChatVisibility::Full,
        chat_colors: true,
        model_customization: 0,
        main_hand: HumanoidArm::Right,
        text_filtering_enabled: false,
        allows_listing: false,
    }
}

#[test]
fn test_client_information_validation() {
    let ok = default_client_information();
    assert!(validate_client_information(&ok).is_ok());
    let mut too_far = default_client_information();
    too_far.view_distance = 33;
    assert_eq!(
        validate_client_information(&too_far),
        Err(ClientInformationError::ViewDistanceOutOfRange)
    );
    let mut zero = default_client_information();
    zero.view_distance = 0;
    assert!(validate_client_information(&zero).is_err());
}

#[test]
fn test_protocol_version_and_account() {
    assert!(PROTOCOL_VERSION > 0);
    let account = Account { username: "bot".to_string(), uuid: None, has_access_token: false };
    assert!(!account.has_access_token);
}

#[test]
fn test_chat_echo_split() {
    let message: Vec<u8> = b"<alice> hi".to_vec();
    let (sender, content) = split_sender_and_content(&message);
    assert_eq!(sender, Some(b"alice".to_vec()));
    assert_eq!(content, b"hi".to_vec());

    let plain: Vec<u8> = b"server restarting".to_vec();
    let (sender, content) = split_sender_and_content(&plain);
    assert_eq!(sender, None);
    assert_eq!(content, plain);
}

#[test]
fn test_no_movement_packet_when_still() {
    let position = FixedVec3 { x: 5000, y: 640000, z: 5000 };
    let direction = LookDirection { y_rot: 0, x_rot: 0 };
    let mut physics_state = default_physics_state();
    let mut last_sent = position;
    let mut physics = default_physics(true);
    physics.last_on_ground = true;
    let mut last_direction = LastSentLookDirection { x_rot: 0, y_rot: 0 };

    for _ in 0..18 {
        let packet = send_position(
            &position,
            &direction,
            &mut physics_state,
            &mut last_sent,
            &mut physics,
            &mut last_direction,
        );
        assert_eq!(packet, None);
    }
}

#[test]
fn test_movement_packet_every_twenty_ticks() {
    let position = FixedVec3 { x: 5000, y: 640000, z: 5000 };
    let direction = LookDirection { y_rot: 0, x_rot: 0 };
    let mut physics_state = default_physics_state();
    let mut last_sent = position;
    let mut physics = default_physics(true);
    physics.last_on_ground = true;
    let mut last_direction = LastSentLookDirection { x_rot: 0, y_rot: 0 };

    let mut sent = 0;
    for _ in 0..20 {
        if send_position(
            &position,
            &direction,
            &mut physics_state,
            &mut last_sent,
            &mut physics,
            &mut last_direction,
        )
        .is_some()
        {
            sent += 1;
        }
    }
    // the twentieth tick forces a position packet even though nothing moved
    assert_eq!(sent, 1);
    assert_eq!(physics_state.position_remainder, 0);
}

#[test]
fn test_twenty_walking_ticks_send_twenty_position_packets() {
    let direction = LookDirection { y_rot: 0, x_rot: 0 };
    let mut physics_state = default_physics_state();
    let mut last_sent = FixedVec3 { x: 5000, y: 640000, z: 5000 };
    let mut physics = default_physics(true);
    physics.last_on_ground = true;
    let mut last_direction = LastSentLookDirection { x_rot: 0, y_rot: 0 };

    let mut packets = Vec::new();
    let mut x = 5000i64;
    for _ in 0..20 {
        x += 2000; // a fifth of a block per tick
        let position = FixedVec3 { x, y: 640000, z: 5000 };
        let packet = send_position(
            &position,
            &direction,
            &mut physics_state,
            &mut last_sent,
            &mut physics,
            &mut last_direction,
        );
        packets.push(packet);
    }
    assert_eq!(packets.len(), 20);
    for packet in packets {
        match packet {
            Some(MovePacket::Pos { on_ground, .. }) => assert!(on_ground),
            other => panic!("expected a position packet, got {:?}", other),
        }
    }
}

#[test]
fn test_rotation_packet() {
    let position = FixedVec3 { x: 5000, y: 640000, z: 5000 };
    let direction = LookDirection { y_rot: 9000, x_rot: 0 };
    let mut physics_state = default_physics_state();
    let mut last_sent = position;
    let mut physics = default_physics(true);
    physics.last_on_ground = true;
    let mut last_direction = LastSentLookDirection { x_rot: 0, y_rot: 0 };

    let packet = send_position(
        &position,
        &direction,
        &mut physics_state,
        &mut last_sent,
        &mut physics,
        &mut last_direction,
    );
    assert_eq!(packet, Some(MovePacket::Rot { x_rot: 0, y_rot: 9000, on_ground: true }));
    assert_eq!(last_direction.y_rot, 9000);
}

fn default_physics_state() -> PhysicsState {
    PhysicsState {
        position_remainder: 0,
        was_sprinting: false,
        was_sneaking: false,
        trying_to_sprint: false,
        move_direction: WalkDirection::Stop,
        forward_impulse: 0,
        left_impulse: 0,
    }
}

fn default_physics(on_ground: bool) -> Physics {
    Physics {
        velocity: FixedVec3 { x: 0, y: 0, z: 0 },
        on_ground,
        last_on_ground: false,
        horizontal_collision: false,
        vertical_collision: false,
        xxa: 0,
        zza: 0,
    }
}

#[test]
fn test_tick_controls_impulses() {
    let mut state = default_physics_state();
    state.move_direction = WalkDirection::Forward;
    tick_controls(&mut state, false, 0);
    assert_eq!(state.forward_impulse, 1000);
    assert_eq!(state.left_impulse, 0);

    // sneaking scales the impulse down to three tenths
    tick_controls(&mut state, true, 0);
    assert_eq!(state.forward_impulse, 300);

    let mut state = default_physics_state();
    state.move_direction = WalkDirection::BackwardLeft;
    tick_controls(&mut state, false, 0);
    assert_eq!(state.forward_impulse, -1000);
    assert_eq!(state.left_impulse, -1000);
}

#[test]
fn test_sprint_starts_with_enough_impulse() {
    let mut state = default_physics_state();
    state.move_direction = WalkDirection::Forward;
    handle_sprint(SprintDirection::Forward, &mut state);
    assert!(state.trying_to_sprint);
    tick_controls(&mut state, false, 0);
    assert!(has_enough_impulse_to_start_sprinting(&state));

    let mut physics = default_physics(true);
    let mut sprinting = false;
    let mut attributes = Attributes {
        speed: AttributeInstance { base: 1, modifiers: Vec::new() },
    };
    local_player_ai_step(&state, &mut physics, &mut sprinting, &mut attributes);
    assert!(sprinting);
    assert!(attributes.speed.modifiers.contains(&SPRINTING_MODIFIER_ID));
    assert_eq!(physics.zza, 1000);
}

#[test]
fn test_walking_cancels_sprint() {
    let mut state = default_physics_state();
    let mut sprinting = true;
    let mut attributes = Attributes {
        speed: AttributeInstance { base: 1, modifiers: vec![SPRINTING_MODIFIER_ID] },
    };
    handle_walk(WalkDirection::Forward, &mut state, &mut sprinting, &mut attributes);
    assert!(!sprinting);
    assert!(!attributes.speed.modifiers.contains(&SPRINTING_MODIFIER_ID));
    assert_eq!(state.move_direction, WalkDirection::Forward);
}

#[test]
fn test_sprint_modifier_follows_flag() {
    let mut sprinting = false;
    let mut attributes = Attributes {
        speed: AttributeInstance { base: 1, modifiers: Vec::new() },
    };
    set_sprinting(true, &mut sprinting, &mut attributes);
    assert!(sprinting && attributes.speed.modifiers.contains(&SPRINTING_MODIFIER_ID));
    set_sprinting(false, &mut sprinting, &mut attributes);
    assert!(!sprinting && !attributes.speed.modifiers.contains(&SPRINTING_MODIFIER_ID));
}

#[test]
fn test_knockback() {
    let mut physics = default_physics(true);
    handle_knockback(&mut physics, KnockbackType::Replace(FixedVec3 { x: 1, y: 2, z: 3 }));
    assert_eq!(physics.velocity, FixedVec3 { x: 1, y: 2, z: 3 });
    handle_knockback(&mut physics, KnockbackType::Add(FixedVec3 { x: 1, y: 0, z: -3 }));
    assert_eq!(physics.velocity, FixedVec3 { x: 2, y: 2, z: 0 });
}

#[test]
fn test_is_moving_slowly_flag() {
    assert!(is_moving_slowly(true, false));
    assert!(is_moving_slowly(false, true));
    assert!(!is_moving_slowly(false, false));
}

#[test]
fn test_click_operations() {
    let op = ClickOperation::Pickup(PickupClick::Left { slot: Some(5) });
    assert_eq!(op.slot_num(), Some(5));
    assert_eq!(op.button_num(), 0);
    assert!(matches!(op.click_type(), ClickType::Pickup));

    let op = ClickOperation::QuickMove(QuickMoveClick::Right { slot: 9 });
    assert_eq!(op.slot_num(), Some(9));
    assert_eq!(op.button_num(), 1);

    let op = ClickOperation::Swap(SwapClick::Offhand { slot: 3 });
    assert_eq!(op.button_num(), 40);

    let op = ClickOperation::QuickCraft(QuickCraftClick {
        kind: QuickCraftKind::Middle,
        status: QuickCraftStatus::Add { slot: 2 },
    });
    assert_eq!(op.slot_num(), Some(2));
    assert_eq!(op.button_num(), 9);
    assert!(matches!(op.click_type(), ClickType::QuickCraft));

    let op = ClickOperation::Pickup(PickupClick::LeftOutside);
    assert_eq!(op.slot_num(), None);
}

#[test]
fn test_quick_move_stack() {
    let mut slots = vec![ItemSlot::Empty; 46];
    slots[0] = ItemSlot::Present(ItemSlotData { kind: 3, count: 64 });
    let mut menu = Menu::Player { slots };
    let r = menu.quick_move_stack(0);
    assert_eq!(r, ItemSlot::Empty);
    let Menu::Player { slots } = menu;
    // the stack went to the last main inventory slot, the source kept an
    // emptied stack
    assert_eq!(slots[44], ItemSlot::Present(ItemSlotData { kind: 3, count: 64 }));
    assert_eq!(slots[0], ItemSlot::Present(ItemSlotData { kind: 3, count: 0 }));
}

#[test]
fn test_quick_move_large_stack_splits() {
    let mut slots = vec![ItemSlot::Empty; 46];
    slots[0] = ItemSlot::Present(ItemSlotData { kind: 3, count: 100 });
    let mut menu = Menu::Player { slots };
    menu.quick_move_stack(0);
    let Menu::Player { slots } = menu;
    assert_eq!(slots[44], ItemSlot::Present(ItemSlotData { kind: 3, count: 64 }));
    assert_eq!(slots[43], ItemSlot::Present(ItemSlotData { kind: 3, count: 36 }));
    assert_eq!(slots[0], ItemSlot::Present(ItemSlotData { kind: 3, count: 0 }));
}

#[test]
fn test_quick_move_empty_slot_is_a_no_op() {
    let slots = vec![ItemSlot::Empty; 46];
    let mut menu = Menu::Player { slots };
    let r = menu.quick_move_stack(7);
    assert_eq!(r, ItemSlot::Empty);
    let Menu::Player { slots } = menu;
    assert!(slots.iter().all(|s| *s == ItemSlot::Empty));
}

#[test]
fn test_split_compressed_body() {
    // a zero marker: the rest is the plain payload
    let body: Vec<u8> = vec![0, 9, 8, 7];
    let (marker, data) = split_compressed_body(&body).unwrap();
    assert_eq!(marker, None);
    assert_eq!(data, vec![9, 8, 7]);

    // a nonzero marker: the rest is deflated and the size is handed out
    let mut body: Vec<u8> = Vec::new();
    write_varint(&mut body, 300);
    body.extend_from_slice(&[1, 2]);
    let (marker, data) = split_compressed_body(&body).unwrap();
    assert_eq!(marker, Some(300));
    assert_eq!(data, vec![1, 2]);

    // a malformed marker is refused
    let body: Vec<u8> = vec![0x80, 0x80];
    assert!(split_compressed_body(&body).is_err());
}

#[test]
fn test_update_sneaking() {
    // shift held while standing on open ground
    assert!(update_sneaking(false, false, true, false, true, true));
    // cannot crouch: never sneaking, shift or not
    assert!(!update_sneaking(false, false, true, false, false, true));
    // forced sneak: awake and unable to stand upright
    assert!(update_sneaking(false, false, false, false, true, false));
    // flying or swimming never sneaks
    assert!(!update_sneaking(true, false, true, false, true, true));
    assert!(!update_sneaking(false, true, true, false, true, true));
}

#[test]
fn test_decode_login_packet() {

    // a game profile: id 2, big-endian uuid, then the name
    let mut payload: Vec<u8> = vec![0x02];
    payload.extend_from_slice(&0x1122u128.to_be_bytes());
    write_byte_array(&mut payload, &b"Steve".to_vec());
    match decode_login_packet(&payload).unwrap() {
        ClientboundLoginPacketRaw::GameProfile { uuid, name } => {
            assert_eq!(uuid, 0x1122);
            assert_eq!(name, b"Steve".to_vec());
        }
        other => panic!("wrong packet: {:?}", std::mem::discriminant(&other)),
    }

    // compression: id 3, a VarInt threshold
    let mut payload: Vec<u8> = vec![0x03];
    write_varint(&mut payload, 256);
    match decode_login_packet(&payload).unwrap() {
        ClientboundLoginPacketRaw::LoginCompression { compression_threshold } => {
            assert_eq!(compression_threshold, 256);
        }
        _ => panic!("wrong packet"),
    }

    // hello: id 1, server id, public key, nonce
    let mut payload: Vec<u8> = vec![0x01];
    write_byte_array(&mut payload, &b"".to_vec());
    write_byte_array(&mut payload, &vec![1, 2, 3]);
    write_byte_array(&mut payload, &vec![9]);
    match decode_login_packet(&payload).unwrap() {
        ClientboundLoginPacketRaw::Hello(req) => {
            assert_eq!(req.server_id, Vec::<u8>::new());
            assert_eq!(req.public_key, vec![1, 2, 3]);
            assert_eq!(req.nonce, vec![9]);
        }
        _ => panic!("wrong packet"),
    }

    // a custom query keeps its tail as the data
    let mut payload: Vec<u8> = vec![0x04];
    write_varint(&mut payload, 7);
    payload.extend_from_slice(&[0xaa, 0xbb]);
    match decode_login_packet(&payload).unwrap() {
        ClientboundLoginPacketRaw::CustomQuery { transaction_id, data } => {
            assert_eq!(transaction_id, 7);
            assert_eq!(data, vec![0xaa, 0xbb]);
        }
        _ => panic!("wrong packet"),
    }

    // an unknown id is the one invalid-tag fault
    assert!(matches!(
        decode_login_packet(&vec![0x07]),
        Err(BufReadError::InvalidTag)
    ));
    // a truncated profile is a different fault
    assert!(matches!(
        decode_login_packet(&vec![0x02, 0x00]),
        Err(BufReadError::UnexpectedEnd)
    ));
}

#[test]
fn test_decode_configuration_packet() {

    let mut payload: Vec<u8> = vec![0x00];
    write_byte_array(&mut payload, &b"minecraft:brand".to_vec());
    payload.extend_from_slice(&[0x06]);
    match decode_configuration_packet(&payload).unwrap() {
        ClientboundConfigurationPacketRaw::CustomPayload { identifier, data } => {
            assert_eq!(identifier, b"minecraft:brand".to_vec());
            assert_eq!(data, vec![0x06]);
        }
        _ => panic!("wrong packet"),
    }

    assert!(matches!(
        decode_configuration_packet(&vec![0x02]).unwrap(),
        ClientboundConfigurationPacketRaw::FinishConfiguration
    ));

    let mut payload: Vec<u8> = vec![0x03];
    payload.extend_from_slice(&0x0102030405060708u64.to_be_bytes());
    match decode_configuration_packet(&payload).unwrap() {
        ClientboundConfigurationPacketRaw::KeepAlive { id } => {
            assert_eq!(id, 0x0102030405060708);
        }
        _ => panic!("wrong packet"),
    }

    let mut payload: Vec<u8> = vec![0x05];
    write_byte_array(&mut payload, &b"minecraft:dimension_type".to_vec());
    match decode_configuration_packet(&payload).unwrap() {
        ClientboundConfigurationPacketRaw::RegistryData { registry_id } => {
            assert_eq!(registry_id, b"minecraft:dimension_type".to_vec());
        }
        _ => panic!("wrong packet"),
    }

    // id 4 carries no packet this phase reads: an invalid tag
    assert!(matches!(
        decode_configuration_packet(&vec![0x04]),
        Err(BufReadError::InvalidTag)
    ));
}

#[test]
fn test_encode_packets() {

    // the handshake, byte for byte: id, protocol 762 as a VarInt, the
    // address, the port big-endian, then the login intent
    let r = encode_intention(&b"localhost".to_vec(), 25565);
    let mut expected: Vec<u8> = vec![0x00, 0xfa, 0x05, 9];
    expected.extend_from_slice(b"localhost");
    expected.extend_from_slice(&[0x63, 0xdd, 0x02]);
    assert_eq!(r, expected);

    // hello: id, the name, no profile id
    let r = encode_hello(&b"Steve".to_vec());
    let mut expected: Vec<u8> = vec![0x00, 5];
    expected.extend_from_slice(b"Steve");
    expected.push(0);
    assert_eq!(r, expected);

    // a custom query answer with no data
    assert_eq!(encode_custom_query_answer(9), vec![0x02, 9, 0]);

    // the client's finish-configuration acknowledgement
    assert_eq!(encode_finish_configuration(), vec![0x02]);

    // client information: locale, view distance, chat settings, skin
    // layers, main hand, filtering, listing
    let info = ClientInformation {
        locale: "en_us".to_string(),
        view_distance: 8,
        chat_visibility: ChatVisibility::Full,
        chat_colors: true,
        model_customization: 0x7f,
        main_hand: HumanoidArm::Right,
        text_filtering_enabled: false,
        allows_listing: false,
    };
    let r = encode_client_information(&b"en_us".to_vec(), &info);
    let mut expected: Vec<u8> = vec![0x00, 5];
    expected.extend_from_slice(b"en_us");
    expected.extend_from_slice(&[8, 0, 1, 0x7f, 1, 0, 0]);
    assert_eq!(r, expected);
}

#[test]
fn test_server_session_hash() {
    // the classic vectors of the stringified hash
    assert_eq!(
        server_session_hash(&b"Notch".to_vec(), &Vec::new(), &Vec::new()),
        b"4ed1f46bbe04bc756bcb17c0c7ce3e4632f06a48".to_vec()
    );
    assert_eq!(
        server_session_hash(&b"jeb_".to_vec(), &Vec::new(), &Vec::new()),
        b"-7c9d5b0044c130109a5d7b5fb5c317c02b4e28c1".to_vec()
    );
    assert_eq!(
        server_session_hash(&b"simon".to_vec(), &Vec::new(), &Vec::new()),
        b"88e16a1019277b15d58faf0541e11910eb756f6".to_vec()
    );
    // the digest runs over the three parts in order
    assert_eq!(
        server_session_hash(&b"No".to_vec(), &b"tc".to_vec(), &b"h".to_vec()),
        b"4ed1f46bbe04bc756bcb17c0c7ce3e4632f06a48".to_vec()
    );
}

#[test]
fn test_hex_digest() {
    // leading zeros are stripped
    assert_eq!(hex_digest(&vec![0x00, 0x01]), b"1".to_vec());
    // zero keeps one digit
    assert_eq!(hex_digest(&vec![0x00, 0x00]), b"0".to_vec());
    // a high top bit reads as negative two's complement
    assert_eq!(hex_digest(&vec![0xff]), b"-1".to_vec());
    assert_eq!(hex_digest(&vec![0xff, 0x00]), b"-100".to_vec());
    assert_eq!(hex_digest(&vec![0x80, 0x00]), b"-8000".to_vec());
}

#[test]
fn test_bitset_wire() {
    let mut set = BitSet::new(70);
    set.set(0);
    set.set(65);
    let mut out: Vec<u8> = Vec::new();
    set.write_into(&mut out);
    // a VarInt word count, then each word big-endian
    let mut expected: Vec<u8> = vec![2];
    expected.extend_from_slice(&1u64.to_be_bytes());
    expected.extend_from_slice(&2u64.to_be_bytes());
    assert_eq!(out, expected);
    // reading the bytes back recovers every bit
    let (back, next) = BitSet::read_from(&out, 0).unwrap();
    assert_eq!(next, out.len());
    assert!(back.index(0));
    assert!(!back.index(1));
    assert!(back.index(65));
    assert!(!back.index(64));
    // a word count that overruns the buffer is refused
    assert!(matches!(
        BitSet::read_from(&vec![1u8, 0, 0], 0),
        Err(BufReadError::UnexpectedEnd)
    ));
}
