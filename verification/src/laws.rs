//! Properties that relate the library's writers to its readers.
use vstd::prelude::*;
use vstd::utf8::{encode_utf8, encode_utf8_decode_utf8, encode_utf8_valid_utf8};
use crate::error::CodecError;
use crate::packet::{after_fixed_read, fixed_read, packet_read, string_bytes, string_read};
use crate::packets::handshaking::serverbound::{Handshake, State as NextState};
use crate::packets::login::serverbound::LoginStart;
use crate::packets::status::clientbound::{PingResponse, StatusResponse};
use crate::packets::status::serverbound::{PingRequest, StatusRequest};
use crate::packets::{model_body, model_encodable, model_frame, model_home, model_id, spec_decode_packet, packet_decodable, PacketModel};
use crate::proxy::{known_version, unexpected, handle_spec, next_frame_spec, status_json_spec, ConnInfo};
use crate::traits::{frame_bytes, frame_fits, McEncodable};
use crate::codegen::{kind_name, InstructionType};
use crate::datagen::{native_code, NativeType, TokenModel};
use crate::types::Direction;
use crate::types::State;
use crate::wire::{
    be_bytes, lemma_be_parse_roundtrip, lemma_signed_unsigned, lemma_varint_roundtrip,
    lemma_varint_size_matches, pow256, to_signed, to_unsigned, varint_bytes, varint_size_spec,
};

verus! {

/// A signed number of `n` bytes written big-endian and read back gives the
/// number, and the read takes exactly its `n` bytes.
pub proof fn law_fixed_roundtrip(v: int, n: nat, rest: Seq<u8>)
    requires
        n >= 1,
        -(pow256(n) / 2) <= v < pow256(n) / 2,
    ensures
        fixed_read(be_bytes(to_unsigned(v, n), n) + rest, n) == Ok::<nat, CodecError>(to_unsigned(v, n)),
        to_signed(to_unsigned(v, n), n) == v,
        after_fixed_read(be_bytes(to_unsigned(v, n), n) + rest, n) == rest,
{
    lemma_signed_unsigned(v, n);
    let u = to_unsigned(v, n);
    lemma_be_parse_roundtrip(u, n, rest);
    assert((be_bytes(u, n) + rest).skip(n as int) =~= rest);
}

/// A string written and read back gives the same characters, whatever follows it.
pub proof fn law_string_roundtrip(chars: Seq<char>, rest: Seq<u8>)
    requires
        encode_utf8(chars).len() <= i32::MAX,
    ensures
        string_read(string_bytes(chars) + rest) == Ok::<Seq<char>, CodecError>(chars),
{
    let b = encode_utf8(chars);
    let len = b.len() as i32;
    lemma_varint_roundtrip(len, b + rest);
    encode_utf8_valid_utf8(chars);
    encode_utf8_decode_utf8(chars);
    let s = string_bytes(chars) + rest;
    assert(s =~= varint_bytes(len) + (b + rest));
    assert(s.skip(varint_bytes(len).len() as int) =~= b + rest);
    assert((b + rest).take(len as int) =~= b);
}

/// A frame written for a body and an id is found whole in front of whatever
/// follows it, and reading it gives back the body and the id.
pub proof fn law_frame_roundtrip(body: Seq<u8>, id: i32, rest: Seq<u8>)
    requires
        id >= 0,
        body.len() + varint_size_spec(id) <= i32::MAX,
    ensures
        next_frame_spec(frame_bytes(body, id) + rest)
            == Some((frame_bytes(body, id).len() as int, body.len() + varint_size_spec(id))),
        packet_read(frame_bytes(body, id)) == Ok::<(Seq<u8>, i32), CodecError>((body, id)),
{
    lemma_varint_size_matches(id);
    assert(0 <= body.len() + varint_size_spec(id) <= i32::MAX);
    assert((body.len() as i32) == body.len());
    let size = ((body.len() as i32) + varint_size_spec(id)) as i32;
    assert(size == body.len() + varint_size_spec(id));
    lemma_varint_size_matches(size);
    let frame = frame_bytes(body, id);
    let tail = varint_bytes(id) + body;
    assert(frame =~= varint_bytes(size) + tail);
    lemma_varint_roundtrip(size, tail + rest);
    assert(frame + rest =~= varint_bytes(size) + (tail + rest));
    lemma_varint_roundtrip(size, tail);
    assert(frame.skip(varint_bytes(size).len() as int) =~= tail);
    lemma_varint_roundtrip(id, body);
    assert(tail.skip(varint_bytes(id).len() as int) =~= body);
}

/// A packet's body, decoded in the state and direction the packet travels in
/// under its id, gives back the packet and takes exactly its bytes, in every
/// protocol version that gives it an id and that its state's decoder knows.
pub proof fn law_packet_roundtrip(m: PacketModel, version: i32, rest: Seq<u8>)
    requires
        model_encodable(m),
        model_id(m, version) is Some,
        m is Handshake || 0 <= version <= 761,
    ensures
        packet_decodable(model_home(m).0, model_home(m).1, model_id(m, version)->0, version, model_body(m) + rest),
        spec_decode_packet(model_home(m).0, model_home(m).1, model_id(m, version)->0, version, model_body(m) + rest)
            == Ok::<(PacketModel, nat), CodecError>((m, model_body(m).len())),
{
    match m {
        PacketModel::Handshake(v) => <Handshake as McEncodable>::lemma_roundtrip(v, rest),
        PacketModel::StatusResponse(v) => <StatusResponse as McEncodable>::lemma_roundtrip(v, rest),
        PacketModel::PingResponse(v) => <PingResponse as McEncodable>::lemma_roundtrip(v, rest),
        PacketModel::StatusRequest => <StatusRequest as McEncodable>::lemma_roundtrip((), rest),
        PacketModel::PingRequest(v) => <PingRequest as McEncodable>::lemma_roundtrip(v, rest),
        PacketModel::LoginStart(v) => <LoginStart as McEncodable>::lemma_roundtrip(v, rest),
    }
}

/// The frame written for a packet is found whole in front of whatever follows
/// it; its id and body read back; and the body decodes, in the state and
/// direction the packet travels in, to the packet written.
pub proof fn law_write_then_read(m: PacketModel, version: i32, rest: Seq<u8>)
    requires
        model_encodable(m),
        model_id(m, version) is Some,
        m is Handshake || 0 <= version <= 761,
        model_body(m).len() + varint_size_spec(model_id(m, version)->0) <= i32::MAX,
    ensures
        model_frame(m, version) matches Ok(frame) && {
            let id = model_id(m, version)->0;
            let body = model_body(m);
            &&& next_frame_spec(frame + rest) == Some((frame.len() as int, body.len() + varint_size_spec(id)))
            &&& packet_read(frame) == Ok::<(Seq<u8>, i32), CodecError>((body, id))
            &&& spec_decode_packet(model_home(m).0, model_home(m).1, id, version, body)
                == Ok::<(PacketModel, nat), CodecError>((m, body.len()))
        },
{
    let id = model_id(m, version)->0;
    law_frame_roundtrip(model_body(m), id, rest);
    law_packet_roundtrip(m, version, Seq::empty());
    assert(model_body(m) + Seq::<u8>::empty() =~= model_body(m));
}

/// A handshake moves the connection to the state it names and records the
/// client's protocol version (`-1` for a number no known version has), and is
/// not answered.
pub proof fn law_handshake_sets_state(conn: ConnInfo, version: i32, address: Seq<char>, port: u16, next: NextState)
    ensures
        handle_spec(conn, PacketModel::Handshake((version, (address, (port, next))))) == (
            ConnInfo {
                state: if next == NextState::Status { State::Status } else { State::Login },
                protocol_version: if known_version(version) { version } else { -1i32 },
            },
            None::<PacketModel>,
        ),
{
}

/// A ping is answered with its own payload, and a status request with the
/// status text for the connection's protocol version; neither changes the connection.
pub proof fn law_status_answers(conn: ConnInfo, payload: i64)
    ensures
        handle_spec(conn, PacketModel::PingRequest(payload)) == (conn, Some(PacketModel::PingResponse(payload))),
        handle_spec(conn, PacketModel::StatusRequest)
            == (conn, Some(PacketModel::StatusResponse(status_json_spec(conn.protocol_version as int)))),
{
}


/// Every leaf native type generates the Rust type of the same width and
/// signedness (or the library's name for it): `i16` for a signed 16-bit field,
/// `u16` for an unsigned one, and so on; none of them fails.
pub proof fn law_native_leaf_names()
    ensures
        native_code(NativeType::VarInt) == Some(seq![TokenModel::Ident("VarInt"@)]),
        native_code(NativeType::Bool) == Some(seq![TokenModel::Ident("bool"@)]),
        native_code(NativeType::U8) == Some(seq![TokenModel::Ident("u8"@)]),
        native_code(NativeType::U16) == Some(seq![TokenModel::Ident("u16"@)]),
        native_code(NativeType::U32) == Some(seq![TokenModel::Ident("u32"@)]),
        native_code(NativeType::U64) == Some(seq![TokenModel::Ident("u64"@)]),
        native_code(NativeType::I8) == Some(seq![TokenModel::Ident("i8"@)]),
        native_code(NativeType::I16) == Some(seq![TokenModel::Ident("i16"@)]),
        native_code(NativeType::I32) == Some(seq![TokenModel::Ident("i32"@)]),
        native_code(NativeType::I64) == Some(seq![TokenModel::Ident("i64"@)]),
        native_code(NativeType::Float32) == Some(seq![TokenModel::Ident("f32"@)]),
        native_code(NativeType::Float64) == Some(seq![TokenModel::Ident("f64"@)]),
        native_code(NativeType::Uuid) == Some(seq![TokenModel::Ident("Uuid"@)]),
{
}

/// Every instruction type is printed as its own variant's name, and no two
/// types are printed alike.
pub proof fn law_instruction_type_names()
    ensures
        kind_name(InstructionType::Varint) == "Varint"@,
        kind_name(InstructionType::Varlong) == "Varlong"@,
        kind_name(InstructionType::String) == "String"@,
        kind_name(InstructionType::Short) == "Short"@,
        kind_name(InstructionType::ChatComponent) == "ChatComponent"@,
        kind_name(InstructionType::ByteArray) == "ByteArray"@,
        kind_name(InstructionType::Uuid) == "Uuid"@,
        kind_name(InstructionType::Iterator) == "Iterator"@,
        kind_name(InstructionType::Identifier) == "Identifier"@,
        kind_name(InstructionType::Boolean) == "Boolean"@,
        kind_name(InstructionType::Double) == "Double"@,
        kind_name(InstructionType::Byte) == "Byte"@,
        kind_name(InstructionType::Position) == "Position"@,
        kind_name(InstructionType::NbtCompound) == "NbtCompound"@,
        kind_name(InstructionType::Enum) == "Enum"@,
        kind_name(InstructionType::Interface) == "Interface"@,
        kind_name(InstructionType::Int) == "Int"@,
        kind_name(InstructionType::ItemStack) == "ItemStack"@,
        kind_name(InstructionType::Float) == "Float"@,
        kind_name(InstructionType::Long) == "Long"@,
        kind_name(InstructionType::LongArray) == "LongArray"@,
        kind_name(InstructionType::Object) == "Object"@,
        kind_name(InstructionType::Metadata) == "Metadata"@,
        kind_name(InstructionType::VarintArray) == "VarintArray"@,
        forall|a: InstructionType, b: InstructionType| kind_name(a) == kind_name(b) ==> a == b,
{
    reveal_strlit("Varint");
    reveal_strlit("Varlong");
    reveal_strlit("String");
    reveal_strlit("Short");
    reveal_strlit("ChatComponent");
    reveal_strlit("ByteArray");
    reveal_strlit("Uuid");
    reveal_strlit("Iterator");
    reveal_strlit("Identifier");
    reveal_strlit("Boolean");
    reveal_strlit("Double");
    reveal_strlit("Byte");
    reveal_strlit("Position");
    reveal_strlit("NbtCompound");
    reveal_strlit("Enum");
    reveal_strlit("Interface");
    reveal_strlit("Int");
    reveal_strlit("ItemStack");
    reveal_strlit("Float");
    reveal_strlit("Long");
    reveal_strlit("LongArray");
    reveal_strlit("Object");
    reveal_strlit("Metadata");
    reveal_strlit("VarintArray");
    assert forall|a: InstructionType, b: InstructionType| kind_name(a) == kind_name(b) implies a == b by {
        let x = kind_name(a);
        let y = kind_name(b);
        assert(x.len() == y.len() && x[0] == y[0] && x[x.len() - 1] == y[y.len() - 1]);
    }
}

/// The proxy refuses exactly the packets that only a server sends: a packet is
/// unexpected from a client exactly when it travels clientbound.
pub proof fn law_unexpected_is_clientbound(m: PacketModel)
    ensures
        unexpected(m) <==> model_home(m).1 == Direction::Clientbound,
        m is Handshake || m is StatusRequest || m is PingRequest || m is LoginStart ==> !unexpected(m),
{
}

/// The versions the proxy records are the not-yet-known marker `-1` and the
/// protocol numbers of the releases from 1.7.2 to 1.19.3, and no others.
pub proof fn law_known_versions(id: i32)
    ensures
        known_version(-1i32),
        known_version(4),
        known_version(5),
        known_version(47),
        known_version(107),
        known_version(108),
        known_version(109),
        known_version(110),
        known_version(210),
        known_version(315),
        known_version(316),
        known_version(335),
        known_version(338),
        known_version(340),
        known_version(393),
        known_version(401),
        known_version(404),
        known_version(477),
        known_version(480),
        known_version(485),
        known_version(490),
        known_version(498),
        known_version(573),
        known_version(575),
        known_version(578),
        known_version(735),
        known_version(736),
        known_version(751),
        known_version(753),
        known_version(754),
        known_version(755),
        known_version(756),
        known_version(757),
        known_version(758),
        known_version(759),
        known_version(760),
        known_version(761),
        known_version(id) <==> (id == -1 || id == 4 || id == 5 || id == 47 || id == 107 || id == 108 || id == 109 || id == 110 || id == 210 || id == 315 || id == 316 || id == 335 || id == 338 || id == 340 || id == 393 || id == 401 || id == 404 || id == 477 || id == 480 || id == 485 || id == 490 || id == 498 || id == 573 || id == 575 || id == 578 || id == 735 || id == 736 || id == 751 || id == 753 || id == 754 || id == 755 || id == 756 || id == 757 || id == 758 || id == 759 || id == 760 || id == 761),
{
}

/// A body and an id whose frame length fits in an `i32` (the body's length
/// plus the length of the id's VarInt) can always be written as a frame.
pub proof fn law_frame_fits(body_len: nat, id: i32)
    requires
        id >= 0,
        body_len + varint_bytes(id).len() <= i32::MAX,
    ensures
        frame_fits(body_len, id),
{
    lemma_varint_size_matches(id);
    assert((body_len as i32) == body_len);
}

} // verus!
