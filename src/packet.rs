use vstd::prelude::*;

use crate::bits::{
    bit_at, bit_vector_at, bits_value, bytes_at_bit, nul_len, nulstr_end, varint_len, varint_value,
    vec3_end, vec3_value, BitAngle, BitReader, CoordVec3,
};
use crate::error::DecodeError;
use crate::text::decoded_text;

verus! {

/// Bits of a message opcode.
pub const OPCODE_BITS: usize = 6;

/// One set console variable.
#[derive(Debug, Clone)]
pub struct ConVar {
    pub name: String,
    pub value: String,
}

/// One message of a packet. Opaque payloads are kept as bit vectors with
/// their bit length.
#[derive(Debug, Clone)]
pub enum NetMessage {
    Nop,
    /// Host frame times are fixed point, in units of 1/100000 s.
    Tick { tick: u32, host_frame_time: u32, host_frame_time_std_dev: u32 },
    StringCmd { command: String },
    SetConVar { vars: Vec<ConVar> },
    Print { message: String },
    SetPause { paused: bool },
    UpdateStringTable { table_id: u32, num_changed_entries: u32, length: u32, data: Vec<u8> },
    VoiceData { from_client: u32, proximity: bool, length: u32, data: Vec<u8> },
    Sounds { reliable_sound: bool, num_sounds: u32, length: u32, data: Vec<u8> },
    FixAngle { relative: bool, x: BitAngle, y: BitAngle, z: BitAngle },
    BspDecal {
        pos: CoordVec3,
        decal_texture_index: u32,
        entity_index: Option<u32>,
        model_index: Option<u32>,
        low_priority: bool,
    },
    UserMessage { msg_type: u32, length: u32, data: Vec<u8> },
    EntityMessage { entity_index: u32, class_id: u32, length: u32, data: Vec<u8> },
    GameEvent { length: u32, data: Vec<u8> },
    PacketEntities {
        max_entries: u32,
        delta_from: Option<u32>,
        baseline: u32,
        updated_entries: u32,
        length: u32,
        update_baseline: bool,
        data: Vec<u8>,
    },
    TempEntities { num_entries: u32, length: u32, data: Vec<u8> },
    Prefetch { sound_index: u32 },
}

/// The opcodes that are decoded.
pub open spec fn known_opcode(op: nat) -> bool {
    op == 0 || op == 3 || op == 4 || op == 5 || op == 7 || op == 11 || op == 13 || op == 15 || op
        == 17 || op == 19 || op == 21 || op == 23 || op == 24 || op == 25 || op == 26 || op == 27
        || op == 28
}

/// Text of the zero-terminated string at bit `q`.
pub open spec fn text_at(d: Seq<u8>, q: int) -> Seq<char> {
    decoded_text(bytes_at_bit(d, q, nul_len(d, q)))
}

/// Where pair `i` of a list of name/value string pairs at `q` starts.
pub open spec fn pair_pos(d: Seq<u8>, q: int, i: nat) -> int
    decreases i,
{
    if i == 0 {
        q
    } else {
        let a = pair_pos(d, q, (i - 1) as nat);
        nulstr_end(d, nulstr_end(d, a))
    }
}

/// Where the length field of a string-table update at `q` stands.
pub open spec fn ust_len_at(d: Seq<u8>, q: int) -> int {
    if bit_at(d, q + 5) {
        q + 22
    } else {
        q + 6
    }
}

/// Where the presence bit of a decal's entity and model indices stands.
pub open spec fn decal_flags_at(d: Seq<u8>, q: int) -> int {
    vec3_end(d, q) + 9
}

/// Where the baseline bit of an entity update stands, after the optional
/// delta reference.
pub open spec fn pe_rest_at(d: Seq<u8>, q: int) -> int {
    if bit_at(d, q + 11) {
        q + 44
    } else {
        q + 12
    }
}

pub open spec fn varint_end(d: Seq<u8>, q: int) -> int {
    q + 8 * varint_len(d, q)
}

/// Where the body of message `op` that starts at bit `q` ends.
pub open spec fn msg_end(d: Seq<u8>, q: int, op: nat) -> int {
    if op == 0 {
        q
    } else if op == 3 {
        q + 64
    } else if op == 4 || op == 7 {
        nulstr_end(d, q)
    } else if op == 5 {
        pair_pos(d, q + 8, bits_value(d, q, 8))
    } else if op == 11 {
        q + 1
    } else if op == 13 {
        let a = ust_len_at(d, q);
        a + 20 + bits_value(d, a, 20)
    } else if op == 15 {
        q + 32 + bits_value(d, q + 16, 16)
    } else if op == 17 {
        if bit_at(d, q) {
            q + 9 + bits_value(d, q + 1, 8)
        } else {
            q + 25 + bits_value(d, q + 9, 16)
        }
    } else if op == 19 {
        q + 49
    } else if op == 21 {
        let f = decal_flags_at(d, q);
        if bit_at(d, f) {
            f + 24
        } else {
            f + 2
        }
    } else if op == 23 {
        q + 19 + bits_value(d, q + 8, 11)
    } else if op == 24 {
        q + 31 + bits_value(d, q + 20, 11)
    } else if op == 25 {
        q + 11 + bits_value(d, q, 11)
    } else if op == 26 {
        let b = pe_rest_at(d, q);
        b + 33 + bits_value(d, b + 12, 20)
    } else if op == 27 {
        varint_end(d, q + 8) + varint_value(d, q + 8)
    } else {
        q + 14
    }
}

pub open spec fn angle_at(a: BitAngle, d: Seq<u8>, q: int) -> bool {
    a.raw == bits_value(d, q, 16) as u32 && a.bits == 16
}

/// `m` is the body of message `op` that starts at bit `q`.
pub open spec fn message_parsed(m: NetMessage, d: Seq<u8>, q: int, op: nat) -> bool {
    match m {
        NetMessage::Nop => op == 0,
        NetMessage::Tick { tick, host_frame_time, host_frame_time_std_dev } => {
            &&& op == 3
            &&& tick as nat == bits_value(d, q, 32)
            &&& host_frame_time as nat == bits_value(d, q + 32, 16)
            &&& host_frame_time_std_dev as nat == bits_value(d, q + 48, 16)
        },
        NetMessage::StringCmd { command } => op == 4 && command@ == text_at(d, q),
        NetMessage::SetConVar { vars } => {
            &&& op == 5
            &&& vars@.len() == bits_value(d, q, 8)
            &&& forall|i: int|
                0 <= i < vars@.len() ==> {
                    let a = pair_pos(d, q + 8, i as nat);
                    &&& (#[trigger] vars@[i]).name@ == text_at(d, a)
                    &&& vars@[i].value@ == text_at(d, nulstr_end(d, a))
                }
        },
        NetMessage::Print { message } => op == 7 && message@ == text_at(d, q),
        NetMessage::SetPause { paused } => op == 11 && paused == bit_at(d, q),
        NetMessage::UpdateStringTable { table_id, num_changed_entries, length, data } => {
            let a = ust_len_at(d, q);
            &&& op == 13
            &&& table_id as nat == bits_value(d, q, 5)
            &&& num_changed_entries as nat == if bit_at(d, q + 5) {
                bits_value(d, q + 6, 16)
            } else {
                1
            }
            &&& length as nat == bits_value(d, a, 20)
            &&& data@ == bit_vector_at(d, a + 20, length as nat)
        },
        NetMessage::VoiceData { from_client, proximity, length, data } => {
            &&& op == 15
            &&& from_client as nat == bits_value(d, q, 8)
            &&& proximity == (bits_value(d, q + 8, 8) != 0)
            &&& length as nat == bits_value(d, q + 16, 16)
            &&& data@ == bit_vector_at(d, q + 32, length as nat)
        },
        NetMessage::Sounds { reliable_sound, num_sounds, length, data } => {
            &&& op == 17
            &&& reliable_sound == bit_at(d, q)
            &&& num_sounds as nat == if reliable_sound {
                1
            } else {
                bits_value(d, q + 1, 8)
            }
            &&& length as nat == if reliable_sound {
                bits_value(d, q + 1, 8)
            } else {
                bits_value(d, q + 9, 16)
            }
            &&& data@ == bit_vector_at(
                d,
                if reliable_sound {
                    q + 9
                } else {
                    q + 25
                },
                length as nat,
            )
        },
        NetMessage::FixAngle { relative, x, y, z } => {
            &&& op == 19
            &&& relative == bit_at(d, q)
            &&& angle_at(x, d, q + 1)
            &&& angle_at(y, d, q + 17)
            &&& angle_at(z, d, q + 33)
        },
        NetMessage::BspDecal {
            pos,
            decal_texture_index,
            entity_index,
            model_index,
            low_priority,
        } => {
            let v = vec3_value(d, q);
            let f = decal_flags_at(d, q);
            &&& op == 21
            &&& pos.x as int == v.0 && pos.y as int == v.1 && pos.z as int == v.2
            &&& decal_texture_index as nat == bits_value(d, vec3_end(d, q), 9)
            &&& (entity_index is Some <==> bit_at(d, f))
            &&& (model_index is Some <==> bit_at(d, f))
            &&& entity_index is Some ==> entity_index->0 as nat == bits_value(d, f + 1, 11)
            &&& model_index is Some ==> model_index->0 as nat == bits_value(d, f + 12, 11)
            &&& low_priority == bit_at(
                d,
                if bit_at(d, f) {
                    f + 23
                } else {
                    f + 1
                },
            )
        },
        NetMessage::UserMessage { msg_type, length, data } => {
            &&& op == 23
            &&& msg_type as nat == bits_value(d, q, 8)
            &&& length as nat == bits_value(d, q + 8, 11)
            &&& data@ == bit_vector_at(d, q + 19, length as nat)
        },
        NetMessage::EntityMessage { entity_index, class_id, length, data } => {
            &&& op == 24
            &&& entity_index as nat == bits_value(d, q, 11)
            &&& class_id as nat == bits_value(d, q + 11, 9)
            &&& length as nat == bits_value(d, q + 20, 11)
            &&& data@ == bit_vector_at(d, q + 31, length as nat)
        },
        NetMessage::GameEvent { length, data } => {
            &&& op == 25
            &&& length as nat == bits_value(d, q, 11)
            &&& data@ == bit_vector_at(d, q + 11, length as nat)
        },
        NetMessage::PacketEntities {
            max_entries,
            delta_from,
            baseline,
            updated_entries,
            length,
            update_baseline,
            data,
        } => {
            let b = pe_rest_at(d, q);
            &&& op == 26
            &&& max_entries as nat == bits_value(d, q, 11)
            &&& (delta_from is Some <==> bit_at(d, q + 11))
            &&& delta_from is Some ==> delta_from->0 as nat == bits_value(d, q + 12, 32)
            &&& baseline as nat == bits_value(d, b, 1)
            &&& updated_entries as nat == bits_value(d, b + 1, 11)
            &&& length as nat == bits_value(d, b + 12, 20)
            &&& update_baseline == bit_at(d, b + 32)
            &&& data@ == bit_vector_at(d, b + 33, length as nat)
        },
        NetMessage::TempEntities { num_entries, length, data } => {
            &&& op == 27
            &&& num_entries as nat == bits_value(d, q, 8)
            &&& length as nat == varint_value(d, q + 8)
            &&& data@ == bit_vector_at(d, varint_end(d, q + 8), length as nat)
        },
        NetMessage::Prefetch { sound_index } => op == 28 && sound_index as nat == bits_value(
            d,
            q,
            14,
        ),
    }
}

/// `r` is what reading the body of message `op` at bit `q` of `d` gives,
/// with `total` bits in all and the cursor left at `at` on success.
pub open spec fn message_read(
    r: Result<NetMessage, DecodeError>,
    d: Seq<u8>,
    q: int,
    total: int,
    op: nat,
    at: int,
) -> bool {
    &&& msg_end(d, q, op) <= total ==> r is Ok
    &&& r is Ok ==> at == msg_end(d, q, op) && message_parsed(r->Ok_0, d, q, op)
    &&& r is Err ==> r == Err::<NetMessage, DecodeError>(DecodeError::TruncatedInput) && msg_end(
        d,
        q,
        op,
    ) > total
}

fn read_tick(br: &mut BitReader) -> (r: Result<NetMessage, DecodeError>)
    requires
        old(br).wf(),
    ensures
        final(br).bytes() == old(br).bytes(),
        final(br).wf(),
        message_read(r, old(br).bytes(), old(br).pos(), old(br).total_bits() as int, 3, final(br).pos()),
{
    if br.bits_remaining() < 64 {
        return Err(DecodeError::TruncatedInput);
    }
    let tick = br.read_bits(32)?;
    let host_frame_time = br.read_bits(16)?;
    let host_frame_time_std_dev = br.read_bits(16)?;
    Ok(NetMessage::Tick { tick, host_frame_time, host_frame_time_std_dev })
}

fn read_text(br: &mut BitReader, op: u32) -> (r: Result<NetMessage, DecodeError>)
    requires
        old(br).wf(),
        op == 4 || op == 7,
    ensures
        final(br).bytes() == old(br).bytes(),
        final(br).wf(),
        message_read(
            r,
            old(br).bytes(),
            old(br).pos(),
            old(br).total_bits() as int,
            op as nat,
            final(br).pos(),
        ),
{
    let s = br.read_nullstring()?;
    if op == 4 {
        Ok(NetMessage::StringCmd { command: s })
    } else {
        Ok(NetMessage::Print { message: s })
    }
}

proof fn lemma_pair_pos_mono(d: Seq<u8>, q: int, i: nat, j: nat)
    requires
        i <= j,
    ensures
        pair_pos(d, q, i) <= pair_pos(d, q, j),
    decreases j,
{
    if i < j {
        lemma_pair_pos_mono(d, q, i, (j - 1) as nat);
    }
}

fn read_set_con_var(br: &mut BitReader) -> (r: Result<NetMessage, DecodeError>)
    requires
        old(br).wf(),
    ensures
        final(br).bytes() == old(br).bytes(),
        final(br).wf(),
        message_read(r, old(br).bytes(), old(br).pos(), old(br).total_bits() as int, 5, final(br).pos()),
{
    let ghost d = br.bytes();
    let ghost q = br.pos();
    proof {
        lemma_pair_pos_mono(d, q + 8, 0, bits_value(d, q, 8));
    }
    let count = br.read_bits(8)?;
    let mut vars: Vec<ConVar> = Vec::new();
    let mut i: u32 = 0;
    while i < count
        invariant
            br.wf(),
            br.bytes() == d,
            d == old(br).bytes(),
            q == old(br).pos(),
            count as nat == bits_value(d, q, 8),
            i <= count,
            br.pos() == pair_pos(d, q + 8, i as nat),
            vars@.len() == i,
            forall|k: int|
                0 <= k < i ==> {
                    let a = pair_pos(d, q + 8, k as nat);
                    &&& (#[trigger] vars@[k]).name@ == text_at(d, a)
                    &&& vars@[k].value@ == text_at(d, nulstr_end(d, a))
                },
        decreases count - i,
    {
        proof {
            lemma_pair_pos_mono(d, q + 8, (i + 1) as nat, count as nat);
        }
        let name = br.read_nullstring()?;
        let value = br.read_nullstring()?;
        vars.push(ConVar { name, value });
        i = i + 1;
    }
    Ok(NetMessage::SetConVar { vars })
}

fn read_update_string_table(br: &mut BitReader) -> (r: Result<NetMessage, DecodeError>)
    requires
        old(br).wf(),
    ensures
        final(br).bytes() == old(br).bytes(),
        final(br).wf(),
        message_read(r, old(br).bytes(), old(br).pos(), old(br).total_bits() as int, 13, final(br).pos()),
{
    let table_id = br.read_bits(5)?;
    let num_changed_entries = match br.read_optional(16)? {
        Some(n) => n,
        None => 1,
    };
    let length = br.read_bits(20)?;
    let data = br.read_bits_vec(length as usize)?;
    Ok(NetMessage::UpdateStringTable { table_id, num_changed_entries, length, data })
}

fn read_voice_data(br: &mut BitReader) -> (r: Result<NetMessage, DecodeError>)
    requires
        old(br).wf(),
    ensures
        final(br).bytes() == old(br).bytes(),
        final(br).wf(),
        message_read(r, old(br).bytes(), old(br).pos(), old(br).total_bits() as int, 15, final(br).pos()),
{
    let from_client = br.read_bits(8)?;
    let proximity = br.read_bits(8)? != 0;
    let length = br.read_bits(16)?;
    let data = br.read_bits_vec(length as usize)?;
    Ok(NetMessage::VoiceData { from_client, proximity, length, data })
}

fn read_sounds(br: &mut BitReader) -> (r: Result<NetMessage, DecodeError>)
    requires
        old(br).wf(),
    ensures
        final(br).bytes() == old(br).bytes(),
        final(br).wf(),
        message_read(r, old(br).bytes(), old(br).pos(), old(br).total_bits() as int, 17, final(br).pos()),
{
    let reliable_sound = br.read_bit()?;
    let (num_sounds, length) = if reliable_sound {
        (1, br.read_bits(8)?)
    } else {
        let n = br.read_bits(8)?;
        (n, br.read_bits(16)?)
    };
    let data = br.read_bits_vec(length as usize)?;
    Ok(NetMessage::Sounds { reliable_sound, num_sounds, length, data })
}

fn read_fix_angle(br: &mut BitReader) -> (r: Result<NetMessage, DecodeError>)
    requires
        old(br).wf(),
    ensures
        final(br).bytes() == old(br).bytes(),
        final(br).wf(),
        message_read(r, old(br).bytes(), old(br).pos(), old(br).total_bits() as int, 19, final(br).pos()),
{
    if br.bits_remaining() < 49 {
        return Err(DecodeError::TruncatedInput);
    }
    let relative = br.read_bit()?;
    let x = br.read_angle(16)?;
    let y = br.read_angle(16)?;
    let z = br.read_angle(16)?;
    Ok(NetMessage::FixAngle { relative, x, y, z })
}

fn read_bsp_decal(br: &mut BitReader) -> (r: Result<NetMessage, DecodeError>)
    requires
        old(br).wf(),
    ensures
        final(br).bytes() == old(br).bytes(),
        final(br).wf(),
        message_read(r, old(br).bytes(), old(br).pos(), old(br).total_bits() as int, 21, final(br).pos()),
{
    let pos = br.read_vec3_compressed()?;
    let decal_texture_index = br.read_bits(9)?;
    let has_ids = br.read_bit()?;
    let (entity_index, model_index) = if has_ids {
        let e = br.read_bits(11)?;
        let m = br.read_bits(11)?;
        (Some(e), Some(m))
    } else {
        (None, None)
    };
    let low_priority = br.read_bit()?;
    Ok(NetMessage::BspDecal { pos, decal_texture_index, entity_index, model_index, low_priority })
}

fn read_user_message(br: &mut BitReader) -> (r: Result<NetMessage, DecodeError>)
    requires
        old(br).wf(),
    ensures
        final(br).bytes() == old(br).bytes(),
        final(br).wf(),
        message_read(r, old(br).bytes(), old(br).pos(), old(br).total_bits() as int, 23, final(br).pos()),
{
    let msg_type = br.read_bits(8)?;
    let length = br.read_bits(11)?;
    let data = br.read_bits_vec(length as usize)?;
    Ok(NetMessage::UserMessage { msg_type, length, data })
}

fn read_entity_message(br: &mut BitReader) -> (r: Result<NetMessage, DecodeError>)
    requires
        old(br).wf(),
    ensures
        final(br).bytes() == old(br).bytes(),
        final(br).wf(),
        message_read(r, old(br).bytes(), old(br).pos(), old(br).total_bits() as int, 24, final(br).pos()),
{
    let entity_index = br.read_bits(11)?;
    let class_id = br.read_bits(9)?;
    let length = br.read_bits(11)?;
    let data = br.read_bits_vec(length as usize)?;
    Ok(NetMessage::EntityMessage { entity_index, class_id, length, data })
}

fn read_game_event(br: &mut BitReader) -> (r: Result<NetMessage, DecodeError>)
    requires
        old(br).wf(),
    ensures
        final(br).bytes() == old(br).bytes(),
        final(br).wf(),
        message_read(r, old(br).bytes(), old(br).pos(), old(br).total_bits() as int, 25, final(br).pos()),
{
    let length = br.read_bits(11)?;
    let data = br.read_bits_vec(length as usize)?;
    Ok(NetMessage::GameEvent { length, data })
}

fn read_packet_entities(br: &mut BitReader) -> (r: Result<NetMessage, DecodeError>)
    requires
        old(br).wf(),
    ensures
        final(br).bytes() == old(br).bytes(),
        final(br).wf(),
        message_read(r, old(br).bytes(), old(br).pos(), old(br).total_bits() as int, 26, final(br).pos()),
{
    let max_entries = br.read_bits(11)?;
    let delta_from = br.read_optional(32)?;
    let baseline = br.read_bits(1)?;
    let updated_entries = br.read_bits(11)?;
    let length = br.read_bits(20)?;
    let update_baseline = br.read_bit()?;
    let data = br.read_bits_vec(length as usize)?;
    Ok(
        NetMessage::PacketEntities {
            max_entries,
            delta_from,
            baseline,
            updated_entries,
            length,
            update_baseline,
            data,
        },
    )
}

fn read_temp_entities(br: &mut BitReader) -> (r: Result<NetMessage, DecodeError>)
    requires
        old(br).wf(),
    ensures
        final(br).bytes() == old(br).bytes(),
        final(br).wf(),
        message_read(r, old(br).bytes(), old(br).pos(), old(br).total_bits() as int, 27, final(br).pos()),
{
    let num_entries = br.read_bits(8)?;
    let length = br.read_varint32()?;
    let data = br.read_bits_vec(length as usize)?;
    Ok(NetMessage::TempEntities { num_entries, length, data })
}

fn read_simple(br: &mut BitReader, op: u32) -> (r: Result<NetMessage, DecodeError>)
    requires
        old(br).wf(),
        op == 0 || op == 11 || op == 28,
    ensures
        final(br).bytes() == old(br).bytes(),
        final(br).wf(),
        message_read(
            r,
            old(br).bytes(),
            old(br).pos(),
            old(br).total_bits() as int,
            op as nat,
            final(br).pos(),
        ),
{
    if op == 0 {
        Ok(NetMessage::Nop)
    } else if op == 11 {
        let paused = br.read_bit()?;
        Ok(NetMessage::SetPause { paused })
    } else {
        let sound_index = br.read_bits(14)?;
        Ok(NetMessage::Prefetch { sound_index })
    }
}

/// Decodes the body of the message with opcode `op`, which must be known.
pub fn read_message(br: &mut BitReader, op: u32) -> (r: Result<NetMessage, DecodeError>)
    requires
        old(br).wf(),
        known_opcode(op as nat),
    ensures
        final(br).bytes() == old(br).bytes(),
        final(br).wf(),
        message_read(
            r,
            old(br).bytes(),
            old(br).pos(),
            old(br).total_bits() as int,
            op as nat,
            final(br).pos(),
        ),
{
    if op == 0 || op == 11 || op == 28 {
        read_simple(br, op)
    } else if op == 3 {
        read_tick(br)
    } else if op == 4 || op == 7 {
        read_text(br, op)
    } else if op == 5 {
        read_set_con_var(br)
    } else if op == 13 {
        read_update_string_table(br)
    } else if op == 15 {
        read_voice_data(br)
    } else if op == 17 {
        read_sounds(br)
    } else if op == 19 {
        read_fix_angle(br)
    } else if op == 21 {
        read_bsp_decal(br)
    } else if op == 23 {
        read_user_message(br)
    } else if op == 24 {
        read_entity_message(br)
    } else if op == 25 {
        read_game_event(br)
    } else if op == 26 {
        read_packet_entities(br)
    } else {
        read_temp_entities(br)
    }
}

/// Where frame `i` of a packet starts; a frame is a 6-bit opcode and the
/// body of that message.
pub open spec fn frame_pos(d: Seq<u8>, i: nat) -> int
    decreases i,
{
    if i == 0 {
        0
    } else {
        let f = frame_pos(d, (i - 1) as nat);
        msg_end(d, f + 6, bits_value(d, f, 6))
    }
}

/// The opcode of frame `i`.
pub open spec fn frame_op(d: Seq<u8>, i: nat) -> nat {
    bits_value(d, frame_pos(d, i), 6)
}

proof fn lemma_vec3_end_grows(d: Seq<u8>, q: int)
    ensures
        vec3_end(d, q) >= q + 3,
{
}

/// A message body never ends before it starts.
proof fn lemma_msg_end_grows(d: Seq<u8>, q: int, op: nat)
    ensures
        msg_end(d, q, op) >= q,
{
    if op == 5 {
        lemma_pair_pos_mono(d, q + 8, 0, bits_value(d, q, 8));
    }
    lemma_vec3_end_grows(d, q);
}

/// The messages of a packet payload, and how the walk over them ended.
#[derive(Debug, Clone)]
pub struct PacketMessages {
    pub messages: Vec<NetMessage>,
    /// Why decoding stopped early, if it did.
    pub error: Option<DecodeError>,
    /// Bits read: up to the end of the last message, or, after an error, up
    /// to the end of the opcode that failed.
    pub bits_consumed: usize,
}

/// Frame `i` of `d` is a complete, known message and `m` is its body.
pub open spec fn frame_decoded(m: NetMessage, d: Seq<u8>, i: nat) -> bool {
    let f = frame_pos(d, i);
    &&& f + 6 < 8 * d.len()
    &&& known_opcode(frame_op(d, i))
    &&& msg_end(d, f + 6, frame_op(d, i)) <= 8 * d.len()
    &&& message_parsed(m, d, f + 6, frame_op(d, i))
}

/// Decodes the messages of a packet payload while more than six bits are
/// left. An unknown opcode or a message cut short ends the walk with an
/// error; the messages before it are kept.
/// The walk starts at bit 0 of `br` and leaves the cursor at
/// `bits_consumed`, so `bits_remaining` tells what was not read.
pub fn read_packet_messages_from(br: &mut BitReader) -> (r: PacketMessages)
    requires
        old(br).wf(),
        old(br).pos() == 0,
    ensures
        final(br).bytes() == old(br).bytes(),
        final(br).wf(),
        final(br).pos() == r.bits_consumed,
        ({
            let d = old(br).bytes();
            let total = 8 * d.len();
            let n = r.messages@.len();
            let f = frame_pos(d, n);
            &&& forall|i: int| 0 <= i < n ==> frame_decoded(#[trigger] r.messages@[i], d, i as nat)
            &&& r.error is None ==> total - f <= 6 && r.bits_consumed == f
            &&& r.error is Some ==> {
                &&& total - f > 6
                &&& r.bits_consumed == f + 6
                &&& known_opcode(frame_op(d, n)) ==> r.error == Some(DecodeError::TruncatedInput)
                    && msg_end(d, f + 6, frame_op(d, n)) > total
                &&& !known_opcode(frame_op(d, n)) ==> r.error == Some(
                    DecodeError::UnsupportedOpcode(frame_op(d, n) as u32),
                )
            }
        }),
{
    let ghost d = br.bytes();
    let mut messages: Vec<NetMessage> = Vec::new();
    while br.bits_remaining() > OPCODE_BITS
        invariant
            d == old(br).bytes(),
            br.wf(),
            br.bytes() == d,
            br.pos() == frame_pos(d, messages@.len()),
            forall|i: int|
                0 <= i < messages@.len() ==> frame_decoded(#[trigger] messages@[i], d, i as nat),
        decreases br.total_bits() - br.pos(),
    {
        let ghost n = messages@.len();
        let op = match br.read_bits(OPCODE_BITS) {
            Ok(op) => op,
            Err(e) => {
                return PacketMessages { messages, error: Some(e), bits_consumed: br.position() };
            },
        };
        let after_op = br.position();
        let known = op == 0 || op == 3 || op == 4 || op == 5 || op == 7 || op == 11 || op == 13
            || op == 15 || op == 17 || op == 19 || op == 21 || op == 23 || op == 24 || op == 25
            || op == 26 || op == 27 || op == 28;
        if !known {
            return PacketMessages {
                messages,
                error: Some(DecodeError::UnsupportedOpcode(op)),
                bits_consumed: after_op,
            };
        }
        proof {
            lemma_msg_end_grows(d, after_op as int, op as nat);
        }
        match read_message(br, op) {
            Ok(m) => {
                messages.push(m);
                proof {
                    assert(frame_decoded(messages@[n as int], d, n));
                }
            },
            Err(e) => {
                br.set_position(after_op);
                return PacketMessages { messages, error: Some(e), bits_consumed: after_op };
            },
        }
    }
    let consumed = br.position();
    PacketMessages { messages, error: None, bits_consumed: consumed }
}

/// Decodes the messages of a packet payload; see `read_packet_messages_from`.
pub fn read_packet_messages(data: Vec<u8>) -> (r: PacketMessages)
    requires
        8 * data@.len() <= usize::MAX,
    ensures
        ({
            let d = data@;
            let total = 8 * d.len();
            let n = r.messages@.len();
            let f = frame_pos(d, n);
            &&& forall|i: int| 0 <= i < n ==> frame_decoded(#[trigger] r.messages@[i], d, i as nat)
            &&& r.error is None ==> total - f <= 6 && r.bits_consumed == f
            &&& r.error is Some ==> {
                &&& total - f > 6
                &&& r.bits_consumed == f + 6
                &&& known_opcode(frame_op(d, n)) ==> r.error == Some(DecodeError::TruncatedInput)
                    && msg_end(d, f + 6, frame_op(d, n)) > total
                &&& !known_opcode(frame_op(d, n)) ==> r.error == Some(
                    DecodeError::UnsupportedOpcode(frame_op(d, n) as u32),
                )
            }
        }),
{
    let mut br = BitReader::new(data);
    read_packet_messages_from(&mut br)
}

/// Type number of the chat message that carries a sender and text.
pub const USER_MESSAGE_SAY_TEXT2: u32 = 4;

/// Name of a user message type, for diagnostics.
pub open spec fn user_message_name_of(msg_type: u32) -> Seq<char> {
    match msg_type {
        0 => "Geiger"@,
        1 => "Train"@,
        2 => "HudText"@,
        3 => "SayText"@,
        4 => "SayText2"@,
        5 => "TextMsg"@,
        6 => "ResetHUD"@,
        7 => "GameTitle"@,
        8 => "ItemPickup"@,
        9 => "ShowMenu"@,
        10 => "Shake"@,
        11 => "Fade"@,
        12 => "VGuiMenu"@,
        13 => "Rumble"@,
        14 => "CloseCaption"@,
        15 => "SendAudio"@,
        16 => "VoiceMask"@,
        17 => "RequestState"@,
        18 => "Damage"@,
        19 => "HintText"@,
        20 => "KeyHintText"@,
        21 => "HudMsg"@,
        22 => "AmmoDenied"@,
        23 => "AchievementEvent"@,
        24 => "UpdateRadar"@,
        25 => "VoiceSubtitle"@,
        26 => "HudNotify"@,
        27 => "HudNotifyCustom"@,
        28 => "PlayerStatsUpdate"@,
        29 => "PlayerIgnited"@,
        30 => "PlayerIgnitedInv"@,
        31 => "HudArenaNotify"@,
        32 => "UpdateAchievement"@,
        33 => "TrainingMsg"@,
        34 => "TrainingObjective"@,
        35 => "DamageDodged"@,
        36 => "PlayerJarated"@,
        37 => "PlayerExtinguished"@,
        38 => "PlayerJaratedFade"@,
        39 => "PlayerShieldBlocked"@,
        40 => "BreakModel"@,
        41 => "CheapBreakModel"@,
        42 => "BreakModelPumpkin"@,
        43 => "BreakModelRocketDud"@,
        44 => "CallVoteFailed"@,
        45 => "VoteStart"@,
        46 => "VotePass"@,
        47 => "VoteFailed"@,
        48 => "VoteSetup"@,
        49 => "PlayerBonusPoints"@,
        50 => "SpawnFlyingBird"@,
        51 => "PlayerGodRayEffect"@,
        52 => "SPHapWeapEvent"@,
        53 => "HapDmg"@,
        54 => "HapPunch"@,
        55 => "HapSetDrag"@,
        56 => "HapSet"@,
        57 => "HapMeleeContact"@,
        _ => "<unknown>"@,
    }
}

/// Name of a user message type, for diagnostics; an unknown type gets a
/// generic label and never an error.
pub fn user_message_name(msg_type: u32) -> (r: &'static str)
    ensures
        r@ == user_message_name_of(msg_type),
{
    match msg_type {
        0 => "Geiger",
        1 => "Train",
        2 => "HudText",
        3 => "SayText",
        4 => "SayText2",
        5 => "TextMsg",
        6 => "ResetHUD",
        7 => "GameTitle",
        8 => "ItemPickup",
        9 => "ShowMenu",
        10 => "Shake",
        11 => "Fade",
        12 => "VGuiMenu",
        13 => "Rumble",
        14 => "CloseCaption",
        15 => "SendAudio",
        16 => "VoiceMask",
        17 => "RequestState",
        18 => "Damage",
        19 => "HintText",
        20 => "KeyHintText",
        21 => "HudMsg",
        22 => "AmmoDenied",
        23 => "AchievementEvent",
        24 => "UpdateRadar",
        25 => "VoiceSubtitle",
        26 => "HudNotify",
        27 => "HudNotifyCustom",
        28 => "PlayerStatsUpdate",
        29 => "PlayerIgnited",
        30 => "PlayerIgnitedInv",
        31 => "HudArenaNotify",
        32 => "UpdateAchievement",
        33 => "TrainingMsg",
        34 => "TrainingObjective",
        35 => "DamageDodged",
        36 => "PlayerJarated",
        37 => "PlayerExtinguished",
        38 => "PlayerJaratedFade",
        39 => "PlayerShieldBlocked",
        40 => "BreakModel",
        41 => "CheapBreakModel",
        42 => "BreakModelPumpkin",
        43 => "BreakModelRocketDud",
        44 => "CallVoteFailed",
        45 => "VoteStart",
        46 => "VotePass",
        47 => "VoteFailed",
        48 => "VoteSetup",
        49 => "PlayerBonusPoints",
        50 => "SpawnFlyingBird",
        51 => "PlayerGodRayEffect",
        52 => "SPHapWeapEvent",
        53 => "HapDmg",
        54 => "HapPunch",
        55 => "HapSetDrag",
        56 => "HapSet",
        57 => "HapMeleeContact",
        _ => "<unknown>",
    }
}

/// The chat message nested in a user message of type
/// `USER_MESSAGE_SAY_TEXT2`.
#[derive(Debug, Clone)]
pub struct SayText2 {
    pub client: u32,
    pub wants_to_chat: bool,
    pub msg_text: String,
    pub player_name: String,
    pub chat_text: String,
    pub buf3: String,
    pub buf4: String,
}

/// Where the four optional strings of a chat message start: after the
/// client, the flag and the message text.
pub open spec fn say_text_rest(d: Seq<u8>) -> int {
    nulstr_end(d, 16)
}

/// The four optional strings are present: more than 32 bits follow the
/// message text.
pub open spec fn say_text_has_rest(d: Seq<u8>) -> bool {
    8 * d.len() - say_text_rest(d) > 32
}

/// Where the `k`-th string after the message text starts.
pub open spec fn say_text_pos(d: Seq<u8>, k: nat) -> int
    decreases k,
{
    if k == 0 {
        say_text_rest(d)
    } else {
        nulstr_end(d, say_text_pos(d, (k - 1) as nat))
    }
}

proof fn lemma_say_text_pos_mono(d: Seq<u8>, k: nat, j: nat)
    requires
        k <= j,
    ensures
        say_text_pos(d, k) <= say_text_pos(d, j),
    decreases j,
{
    if k < j {
        lemma_say_text_pos_mono(d, k, (j - 1) as nat);
    }
}

pub open spec fn say_text_end(d: Seq<u8>) -> int {
    if say_text_has_rest(d) {
        say_text_pos(d, 4)
    } else {
        say_text_rest(d)
    }
}

pub open spec fn say_text_parsed(m: SayText2, d: Seq<u8>) -> bool {
    let rest = say_text_has_rest(d);
    &&& m.client as nat == bits_value(d, 0, 8)
    &&& m.wants_to_chat == (bits_value(d, 8, 8) != 0)
    &&& m.msg_text@ == text_at(d, 16)
    &&& m.player_name@ == if rest {
        text_at(d, say_text_pos(d, 0))
    } else {
        Seq::empty()
    }
    &&& m.chat_text@ == if rest {
        text_at(d, say_text_pos(d, 1))
    } else {
        Seq::empty()
    }
    &&& m.buf3@ == if rest {
        text_at(d, say_text_pos(d, 2))
    } else {
        Seq::empty()
    }
    &&& m.buf4@ == if rest {
        text_at(d, say_text_pos(d, 3))
    } else {
        Seq::empty()
    }
}

impl SayText2 {
    /// Decodes the body of a chat user message: client, flag and text, then,
    /// when more than 32 bits remain, four more strings.
    pub fn read(data: Vec<u8>) -> (r: Result<SayText2, DecodeError>)
        requires
            8 * data@.len() <= usize::MAX,
        ensures
            say_text_end(data@) <= 8 * data@.len() ==> r is Ok,
            r is Ok ==> say_text_parsed(r->Ok_0, data@),
            r is Err ==> r == Err::<SayText2, DecodeError>(DecodeError::TruncatedInput)
                && say_text_end(data@) > 8 * data@.len(),
    {
        let ghost d = data@;
        proof {
            lemma_say_text_pos_mono(d, 1, 4);
            lemma_say_text_pos_mono(d, 2, 4);
            lemma_say_text_pos_mono(d, 3, 4);
        }
        let mut br = BitReader::new(data);
        if br.bits_remaining() < 16 {
            return Err(DecodeError::TruncatedInput);
        }
        let client = br.read_bits(8)?;
        let wants_to_chat = br.read_bits(8)? != 0;
        let msg_text = br.read_nullstring()?;
        if br.bits_remaining() > 32 {
            assert(say_text_has_rest(d));
            assert(br.pos() == say_text_pos(d, 0));
            let player_name = match br.read_nullstring() {
                Ok(t) => t,
                Err(e) => {
                    assert(say_text_pos(d, 1) > 8 * d.len());
                    return Err(e);
                },
            };
            let chat_text = br.read_nullstring()?;
            let buf3 = br.read_nullstring()?;
            let buf4 = br.read_nullstring()?;
            Ok(SayText2 { client, wants_to_chat, msg_text, player_name, chat_text, buf3, buf4 })
        } else {
            Ok(
                SayText2 {
                    client,
                    wants_to_chat,
                    msg_text,
                    player_name: String::new(),
                    chat_text: String::new(),
                    buf3: String::new(),
                    buf4: String::new(),
                },
            )
        }
    }
}

/// The low byte of a character's code, which selects the chat colour codes.
pub open spec fn low_byte(c: char) -> nat {
    ((c as u32) % 256) as nat
}

/// Chat text without colour codes: characters whose low byte is 1 to 7
/// are dropped, and code 7 also drops the six characters after it.
pub open spec fn strip_colors(s: Seq<char>) -> Seq<char>
    decreases s.len(),
{
    if s.len() == 0 {
        s
    } else {
        let b = low_byte(s[0]);
        if b >= 8 || b == 0 {
            seq![s[0]] + strip_colors(s.drop_first())
        } else if b == 7 {
            strip_colors(s.subrange(if s.len() > 7 {
                7
            } else {
                s.len() as int
            }, s.len() as int))
        } else {
            strip_colors(s.drop_first())
        }
    }
}

/// Removes the colour codes from chat text.
pub fn strip_chat_color_codes(s: &Vec<char>) -> (r: Vec<char>)
    ensures
        r@ == strip_colors(s@),
{
    let mut out: Vec<char> = Vec::new();
    let mut i: usize = 0;
    proof {
        assert(s@.subrange(0, s@.len() as int) =~= s@);
        assert(out@ + strip_colors(s@) =~= strip_colors(s@));
    }
    while i < s.len()
        invariant
            i <= s@.len(),
            out@ + strip_colors(s@.subrange(i as int, s@.len() as int)) == strip_colors(s@),
        decreases s@.len() - i,
    {
        let c = s[i];
        let b = (c as u32) % 256;
        let ghost rest = s@.subrange(i as int, s@.len() as int);
        assert(rest[0] == c);
        if b >= 8 || b == 0 {
            proof {
                assert(rest.drop_first() =~= s@.subrange(i + 1, s@.len() as int));
                assert(strip_colors(rest) == seq![c] + strip_colors(rest.drop_first()));
                assert(out@.push(c) + strip_colors(rest.drop_first()) =~= out@ + strip_colors(rest));
            }
            out.push(c);
            i = i + 1;
        } else if b == 7 {
            let skip: usize = if s.len() - i > 7 {
                7
            } else {
                s.len() - i
            };
            proof {
                assert(rest.subrange(skip as int, rest.len() as int) =~= s@.subrange(
                    i + skip,
                    s@.len() as int,
                ));
            }
            i = i + skip;
        } else {
            proof {
                assert(rest.drop_first() =~= s@.subrange(i + 1, s@.len() as int));
            }
            i = i + 1;
        }
    }
    proof {
        assert(s@.subrange(s@.len() as int, s@.len() as int) =~= Seq::<char>::empty());
        assert(out@ + Seq::<char>::empty() =~= out@);
    }
    out
}

} // verus!
