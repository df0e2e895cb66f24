//! The packet registry: for each packet the login and configuration
//! phases exchange, its id and the byte layout of its fields. Decoders
//! return exactly what the payload encodes; encoders promise their bytes.
//! String-valued fields stay raw bytes here; the rim converts text.

use crate::codec::{
    read_byte_array, read_u128_be, read_u64_be, read_varint, spec_read_bytes,
    spec_read_varint, spec_u128_be, spec_u64_be, spec_varint, write_byte_array,
    write_u16_be, write_varint, BufReadError,
};
use crate::connection::{
    ChatVisibility, ClientInformation, EncryptionRequestData, HumanoidArm,
    PROTOCOL_VERSION,
};
use vstd::prelude::*;

verus! {

/// A clientbound login-phase packet with its text fields still raw.
pub enum ClientboundLoginPacketRaw {
    Hello(EncryptionRequestData),
    LoginCompression { compression_threshold: i32 },
    GameProfile { uuid: u128, name: Vec<u8> },
    LoginDisconnect { reason: Vec<u8> },
    CustomQuery { transaction_id: u32, data: Vec<u8> },
}

/// The mathematical image of a raw login packet.
pub enum LoginPacketView {
    Hello { server_id: Seq<u8>, public_key: Seq<u8>, nonce: Seq<u8> },
    LoginCompression { compression_threshold: i32 },
    GameProfile { uuid: u128, name: Seq<u8> },
    LoginDisconnect { reason: Seq<u8> },
    CustomQuery { transaction_id: u32, data: Seq<u8> },
}

/// The view of a raw login packet: each byte field as its sequence.
pub open spec fn spec_login_view(p: ClientboundLoginPacketRaw) -> LoginPacketView {
    match p {
        ClientboundLoginPacketRaw::Hello(req) => LoginPacketView::Hello {
            server_id: req.server_id@,
            public_key: req.public_key@,
            nonce: req.nonce@,
        },
        ClientboundLoginPacketRaw::LoginCompression { compression_threshold }
            => LoginPacketView::LoginCompression { compression_threshold },
        ClientboundLoginPacketRaw::GameProfile { uuid, name }
            => LoginPacketView::GameProfile { uuid, name: name@ },
        ClientboundLoginPacketRaw::LoginDisconnect { reason }
            => LoginPacketView::LoginDisconnect { reason: reason@ },
        ClientboundLoginPacketRaw::CustomQuery { transaction_id, data }
            => LoginPacketView::CustomQuery { transaction_id, data: data@ },
    }
}

/// What a login-phase payload decodes to: the id, then the fields of
/// that packet; nothing for an unknown id or malformed fields.
pub open spec fn spec_login_packet(bytes: Seq<u8>) -> Option<LoginPacketView> {
    match spec_read_varint(bytes, 0, 5, 0, 0) {
        None => None,
        Some((id, p)) => if id == 0 {
            match spec_read_bytes(bytes, p, 262144) {
                Some((reason, _)) => Some(LoginPacketView::LoginDisconnect { reason }),
                None => None,
            }
        } else if id == 1 {
            match spec_read_bytes(bytes, p, 20) {
                Some((server_id, p2)) => match spec_read_bytes(bytes, p2, 4096) {
                    Some((public_key, p3)) => match spec_read_bytes(bytes, p3, 4096) {
                        Some((nonce, _)) => Some(LoginPacketView::Hello {
                            server_id,
                            public_key,
                            nonce,
                        }),
                        None => None,
                    },
                    None => None,
                },
                None => None,
            }
        } else if id == 2 {
            if p + 16 <= bytes.len() {
                match spec_read_bytes(bytes, p + 16, 64) {
                    Some((name, _)) => Some(LoginPacketView::GameProfile {
                        uuid: spec_u128_be(bytes, p),
                        name,
                    }),
                    None => None,
                }
            } else {
                None
            }
        } else if id == 3 {
            match spec_read_varint(bytes, p, 5, 0, 0) {
                Some((threshold, _)) => Some(LoginPacketView::LoginCompression {
                    compression_threshold: threshold as i32,
                }),
                None => None,
            }
        } else if id == 4 {
            match spec_read_varint(bytes, p, 5, 0, 0) {
                Some((tid, p2)) => Some(LoginPacketView::CustomQuery {
                    transaction_id: tid,
                    data: bytes.subrange(p2, bytes.len() as int),
                }),
                None => None,
            }
        } else {
            None
        },
    }
}

/// The bytes from `from` to the end, copied out.
fn tail_bytes(payload: &Vec<u8>, from: usize) -> (r: Vec<u8>)
    requires
        from <= payload.len(),
    ensures
        r@ == payload@.subrange(from as int, payload@.len() as int),
{
    let mut r: Vec<u8> = Vec::new();
    let mut i: usize = from;
    while i < payload.len()
        invariant
            from <= i <= payload.len(),
            r@ =~= payload@.subrange(from as int, i as int),
        decreases payload.len() - i,
    {
        r.push(payload[i]);
        proof {
            assert(r@ =~= payload@.subrange(from as int, i + 1));
        }
        i = i + 1;
    }
    r
}

/// A length-prefixed byte string, with its read mirrored against the
/// layout spec.
fn read_bytes(payload: &Vec<u8>, pos: usize, max: usize) -> (r: Result<
    (Vec<u8>, usize),
    BufReadError,
>)
    requires
        pos <= payload.len(),
        max <= 0x10000000,
    ensures
        match r {
            Ok((data, next)) => {
                &&& spec_read_bytes(payload@, pos as int, max as int)
                    == Some((data@, next as int))
                &&& pos <= next <= payload.len()
            },
            Err(e) => spec_read_bytes(payload@, pos as int, max as int) is None
                && e != BufReadError::InvalidTag,
        },
{
    match read_byte_array(payload, pos, max) {
        Ok((data, next)) => {
            proof {
                let s = next - data@.len();
                crate::codec::lemma_varint_read_advances(payload@, pos as int, 5, 0, 0);
                assert(spec_read_varint(payload@, pos as int, 5, 0, 0) == Some(
                    ((data.len() as u32), s),
                ));
                assert((data.len() as u32) as int == data@.len() as int);
                assert(payload@.subrange(s, s + data@.len()) == data@);
            }
            Ok((data, next))
        },
        Err(e) => Err(e),
    }
}

/// Decode a clientbound login-phase packet from a frame payload: exactly
/// what the bytes encode, or nothing; an unknown id is the one fault
/// reported as an invalid tag, so it can be skipped rather than treated
/// as a broken stream.
pub fn decode_login_packet(payload: &Vec<u8>) -> (r: Result<
    ClientboundLoginPacketRaw,
    BufReadError,
>)
    ensures
        match r {
            Ok(p) => spec_login_packet(payload@) == Some(spec_login_view(p)),
            Err(e) => spec_login_packet(payload@) is None && (e == BufReadError::InvalidTag
                <==> (match spec_read_varint(payload@, 0, 5, 0, 0) {
                Some(h) => h.0 > 4,
                None => false,
            })),
        },
{
    let (id, p) = match read_varint(payload, 0) {
        Ok(v) => v,
        Err(e) => {
            return Err(e);
        },
    };
    let idu = #[verifier::truncate] (id as u32);
    if idu == 0 {
        let (reason, _next) = match read_bytes(payload, p, 262144) {
            Ok(v) => v,
            Err(e) => {
                return Err(e);
            },
        };
        Ok(ClientboundLoginPacketRaw::LoginDisconnect { reason })
    } else if idu == 1 {
        let (server_id, p2) = match read_bytes(payload, p, 20) {
            Ok(v) => v,
            Err(e) => {
                return Err(e);
            },
        };
        let (public_key, p3) = match read_bytes(payload, p2, 4096) {
            Ok(v) => v,
            Err(e) => {
                return Err(e);
            },
        };
        let (nonce, _next) = match read_bytes(payload, p3, 4096) {
            Ok(v) => v,
            Err(e) => {
                return Err(e);
            },
        };
        Ok(ClientboundLoginPacketRaw::Hello(EncryptionRequestData {
            server_id,
            public_key,
            nonce,
        }))
    } else if idu == 2 {
        let (uuid, p2) = match read_u128_be(payload, p) {
            Ok(v) => v,
            Err(e) => {
                return Err(e);
            },
        };
        let (name, _next) = match read_bytes(payload, p2, 64) {
            Ok(v) => v,
            Err(e) => {
                return Err(e);
            },
        };
        Ok(ClientboundLoginPacketRaw::GameProfile { uuid, name })
    } else if idu == 3 {
        let (threshold, _next) = match read_varint(payload, p) {
            Ok(v) => v,
            Err(e) => {
                return Err(e);
            },
        };
        proof {
            assert((threshold as u32) as i32 == threshold) by (bit_vector);
        }
        Ok(ClientboundLoginPacketRaw::LoginCompression {
            compression_threshold: threshold,
        })
    } else if idu == 4 {
        let (tid, p2) = match read_varint(payload, p) {
            Ok(v) => v,
            Err(e) => {
                return Err(e);
            },
        };
        let data = tail_bytes(payload, p2);
        Ok(ClientboundLoginPacketRaw::CustomQuery { transaction_id: tid as u32, data })
    } else {
        Err(BufReadError::InvalidTag)
    }
}

/// A clientbound configuration-phase packet with its text fields raw.
/// Registry entries arrive as NBT, which stays with the payload tail.
pub enum ClientboundConfigurationPacketRaw {
    CustomPayload { identifier: Vec<u8>, data: Vec<u8> },
    Disconnect { reason: Vec<u8> },
    FinishConfiguration,
    KeepAlive { id: u64 },
    RegistryData { registry_id: Vec<u8> },
}

/// The mathematical image of a raw configuration packet.
pub enum ConfigurationPacketView {
    CustomPayload { identifier: Seq<u8>, data: Seq<u8> },
    Disconnect { reason: Seq<u8> },
    FinishConfiguration,
    KeepAlive { id: u64 },
    RegistryData { registry_id: Seq<u8> },
}

/// The view of a raw configuration packet.
pub open spec fn spec_configuration_view(p: ClientboundConfigurationPacketRaw)
    -> ConfigurationPacketView {
    match p {
        ClientboundConfigurationPacketRaw::CustomPayload { identifier, data }
            => ConfigurationPacketView::CustomPayload {
            identifier: identifier@,
            data: data@,
        },
        ClientboundConfigurationPacketRaw::Disconnect { reason }
            => ConfigurationPacketView::Disconnect { reason: reason@ },
        ClientboundConfigurationPacketRaw::FinishConfiguration
            => ConfigurationPacketView::FinishConfiguration,
        ClientboundConfigurationPacketRaw::KeepAlive { id }
            => ConfigurationPacketView::KeepAlive { id },
        ClientboundConfigurationPacketRaw::RegistryData { registry_id }
            => ConfigurationPacketView::RegistryData { registry_id: registry_id@ },
    }
}

/// What a configuration-phase payload decodes to.
pub open spec fn spec_configuration_packet(bytes: Seq<u8>) -> Option<ConfigurationPacketView> {
    match spec_read_varint(bytes, 0, 5, 0, 0) {
        None => None,
        Some((id, p)) => if id == 0 {
            match spec_read_bytes(bytes, p, 32767) {
                Some((identifier, p2)) => Some(ConfigurationPacketView::CustomPayload {
                    identifier,
                    data: bytes.subrange(p2, bytes.len() as int),
                }),
                None => None,
            }
        } else if id == 1 {
            match spec_read_bytes(bytes, p, 262144) {
                Some((reason, _)) => Some(ConfigurationPacketView::Disconnect { reason }),
                None => None,
            }
        } else if id == 2 {
            Some(ConfigurationPacketView::FinishConfiguration)
        } else if id == 3 {
            if p + 8 <= bytes.len() {
                Some(ConfigurationPacketView::KeepAlive { id: spec_u64_be(bytes, p) })
            } else {
                None
            }
        } else if id == 5 {
            match spec_read_bytes(bytes, p, 32767) {
                Some((registry_id, _)) => Some(ConfigurationPacketView::RegistryData {
                    registry_id,
                }),
                None => None,
            }
        } else {
            None
        },
    }
}

/// Decode a clientbound configuration-phase packet: exactly what the
/// bytes encode, or nothing; an unknown id is the one fault reported as
/// an invalid tag. The NBT entry payload of registry data stays behind
/// its registry name, unread here.
pub fn decode_configuration_packet(payload: &Vec<u8>) -> (r: Result<
    ClientboundConfigurationPacketRaw,
    BufReadError,
>)
    ensures
        match r {
            Ok(p) => spec_configuration_packet(payload@) == Some(spec_configuration_view(
                p)),
            Err(e) => spec_configuration_packet(payload@) is None && (e
                == BufReadError::InvalidTag <==> (match spec_read_varint(payload@, 0, 5, 0,
                0) {
                Some(h) => h.0 != 0 && h.0 != 1 && h.0 != 2 && h.0 != 3 && h.0 != 5,
                None => false,
            })),
        },
{
    let (id, p) = match read_varint(payload, 0) {
        Ok(v) => v,
        Err(e) => {
            return Err(e);
        },
    };
    let idu = #[verifier::truncate] (id as u32);
    if idu == 0 {
        let (identifier, p2) = match read_bytes(payload, p, 32767) {
            Ok(v) => v,
            Err(e) => {
                return Err(e);
            },
        };
        let data = tail_bytes(payload, p2);
        Ok(ClientboundConfigurationPacketRaw::CustomPayload { identifier, data })
    } else if idu == 1 {
        let (reason, _next) = match read_bytes(payload, p, 262144) {
            Ok(v) => v,
            Err(e) => {
                return Err(e);
            },
        };
        Ok(ClientboundConfigurationPacketRaw::Disconnect { reason })
    } else if idu == 2 {
        Ok(ClientboundConfigurationPacketRaw::FinishConfiguration)
    } else if idu == 3 {
        let (keep_alive_id, _next) = match read_u64_be(payload, p) {
            Ok(v) => v,
            Err(e) => {
                return Err(e);
            },
        };
        Ok(ClientboundConfigurationPacketRaw::KeepAlive { id: keep_alive_id })
    } else if idu == 5 {
        let (registry_id, _next) = match read_bytes(payload, p, 32767) {
            Ok(v) => v,
            Err(e) => {
                return Err(e);
            },
        };
        Ok(ClientboundConfigurationPacketRaw::RegistryData { registry_id })
    } else {
        Err(BufReadError::InvalidTag)
    }
}

/// The handshake: its id, the protocol version, the address, and the
/// login intent.
pub fn encode_intention(hostname: &Vec<u8>, port: u16) -> (r: Vec<u8>)
    requires
        hostname.len() <= 255,
    ensures
        r@ == spec_varint(0) + spec_varint(PROTOCOL_VERSION as u32) + spec_varint(
            hostname@.len() as u32) + hostname@ + seq![(port >> 8) as u8, port as u8]
            + spec_varint(2),
{
    let mut payload: Vec<u8> = Vec::new();
    write_varint(&mut payload, 0x00);
    write_varint(&mut payload, PROTOCOL_VERSION);
    write_byte_array(&mut payload, hostname);
    write_u16_be(&mut payload, port);
    write_varint(&mut payload, 2);
    proof {
        assert(payload@ =~= spec_varint(0) + spec_varint(PROTOCOL_VERSION as u32)
            + spec_varint(hostname@.len() as u32) + hostname@ + seq![(port >> 8) as u8,
            port as u8] + spec_varint(2));
    }
    payload
}

/// The hello packet: the username, no profile id.
pub fn encode_hello(username: &Vec<u8>) -> (r: Vec<u8>)
    requires
        username.len() <= 16,
    ensures
        r@ == spec_varint(0) + spec_varint(username@.len() as u32) + username@
            + seq![0u8],
{
    let mut payload: Vec<u8> = Vec::new();
    write_varint(&mut payload, 0x00);
    write_byte_array(&mut payload, username);
    payload.push(0);
    proof {
        assert(payload@ =~= spec_varint(0) + spec_varint(username@.len() as u32)
            + username@ + seq![0u8]);
    }
    payload
}

/// An empty custom-query answer.
pub fn encode_custom_query_answer(transaction_id: u32) -> (r: Vec<u8>)
    ensures
        r@ == spec_varint(2) + spec_varint(transaction_id) + seq![0u8],
{
    let mut payload: Vec<u8> = Vec::new();
    write_varint(&mut payload, 0x02);
    write_varint(&mut payload, transaction_id as i32);
    payload.push(0);
    proof {
        assert((transaction_id as i32) as u32 == transaction_id) by (bit_vector);
        assert(payload@ =~= spec_varint(2) + spec_varint(transaction_id) + seq![0u8]);
    }
    payload
}

/// The client's own finish-configuration packet.
pub fn encode_finish_configuration() -> (r: Vec<u8>)
    ensures
        r@ == spec_varint(2),
{
    let mut payload: Vec<u8> = Vec::new();
    write_varint(&mut payload, 0x02);
    payload
}

/// A serverbound custom payload of the configuration phase, as the brand
/// announcement uses it.
pub fn encode_custom_payload(identifier: &Vec<u8>, data: &Vec<u8>) -> (r: Vec<u8>)
    requires
        identifier.len() <= 32767,
        data.len() <= 0x100000,
    ensures
        r@ == spec_varint(1) + spec_varint(identifier@.len() as u32) + identifier@
            + data@,
{
    let mut payload: Vec<u8> = Vec::new();
    write_varint(&mut payload, 0x01);
    write_byte_array(&mut payload, identifier);
    let ghost mid = payload@;
    let mut i: usize = 0;
    while i < data.len()
        invariant
            i <= data.len(),
            payload@ =~= mid + data@.subrange(0, i as int),
        decreases data.len() - i,
    {
        payload.push(data[i]);
        proof {
            assert(payload@ =~= mid + data@.subrange(0, i + 1));
        }
        i = i + 1;
    }
    proof {
        assert(payload@ =~= spec_varint(1) + spec_varint(identifier@.len() as u32)
            + identifier@ + data@);
    }
    payload
}

/// The wire index of a chat-visibility choice.
pub fn chat_visibility_index(v: &ChatVisibility) -> (r: u8)
    ensures
        r == match v {
            ChatVisibility::Full => 0u8,
            ChatVisibility::System => 1u8,
            ChatVisibility::Hidden => 2u8,
        },
{
    match v {
        ChatVisibility::Full => 0,
        ChatVisibility::System => 1,
        ChatVisibility::Hidden => 2,
    }
}

/// The wire index of a leading arm.
pub fn main_hand_index(h: &HumanoidArm) -> (r: u8)
    ensures
        r == match h {
            HumanoidArm::Left => 0u8,
            HumanoidArm::Right => 1u8,
        },
{
    match h {
        HumanoidArm::Left => 0,
        HumanoidArm::Right => 1,
    }
}

/// The serverbound client-information packet of the configuration phase:
/// the locale, then each game option in order.
pub fn encode_client_information(locale: &Vec<u8>, info: &ClientInformation) -> (r: Vec<
    u8,
>)
    requires
        locale.len() <= 16,
    ensures
        r@ == spec_varint(0) + spec_varint(locale@.len() as u32) + locale@ + seq![
            info.view_distance,
            chat_visibility_wire(info.chat_visibility),
            if info.chat_colors { 1u8 } else { 0u8 },
            info.model_customization,
            main_hand_wire(info.main_hand),
            if info.text_filtering_enabled { 1u8 } else { 0u8 },
            if info.allows_listing { 1u8 } else { 0u8 },
        ],
{
    let mut payload: Vec<u8> = Vec::new();
    write_varint(&mut payload, 0x00);
    write_byte_array(&mut payload, locale);
    payload.push(info.view_distance);
    payload.push(chat_visibility_index(&info.chat_visibility));
    payload.push(if info.chat_colors { 1 } else { 0 });
    payload.push(info.model_customization);
    payload.push(main_hand_index(&info.main_hand));
    payload.push(if info.text_filtering_enabled { 1 } else { 0 });
    payload.push(if info.allows_listing { 1 } else { 0 });
    proof {
        assert(payload@ =~= spec_varint(0) + spec_varint(locale@.len() as u32) + locale@
            + seq![info.view_distance, chat_visibility_wire(info.chat_visibility),
            if info.chat_colors { 1u8 } else { 0u8 }, info.model_customization,
            main_hand_wire(info.main_hand), if info.text_filtering_enabled { 1u8 } else {
            0u8 }, if info.allows_listing { 1u8 } else { 0u8 }]);
    }
    payload
}

/// The wire index of a chat-visibility choice.
pub open spec fn chat_visibility_wire(v: ChatVisibility) -> u8 {
    match v {
        ChatVisibility::Full => 0u8,
        ChatVisibility::System => 1u8,
        ChatVisibility::Hidden => 2u8,
    }
}

/// The wire index of a leading arm.
pub open spec fn main_hand_wire(h: HumanoidArm) -> u8 {
    match h {
        HumanoidArm::Left => 0u8,
        HumanoidArm::Right => 1u8,
    }
}

} // verus!
