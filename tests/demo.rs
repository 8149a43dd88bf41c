use powerjack::bits::BitReader;
use powerjack::demo::{Command, DemoHeader, DEMO_HEADER_SIZE};
use powerjack::error::DecodeError;
use powerjack::lumps::RawVec3;
use powerjack::packet::{
    read_packet_messages, read_packet_messages_from, strip_chat_color_codes, user_message_name, NetMessage, SayText2,
    USER_MESSAGE_SAY_TEXT2,
};
use powerjack::reader::ByteReader;
use powerjack::stringtables::StringTable;
use powerjack::usercmd::{MouseDelta, UserCmd};

struct BitWriter {
    bytes: Vec<u8>,
    bit: usize,
}

impl BitWriter {
    fn new() -> Self {
        BitWriter { bytes: Vec::new(), bit: 0 }
    }

    fn put(&mut self, value: u64, n: usize) {
        for i in 0..n {
            if self.bit / 8 >= self.bytes.len() {
                self.bytes.push(0);
            }
            if (value >> i) & 1 == 1 {
                self.bytes[self.bit / 8] |= 1 << (self.bit % 8);
            }
            self.bit += 1;
        }
    }

    fn put_str(&mut self, s: &str) {
        for b in s.as_bytes() {
            self.put(*b as u64, 8);
        }
        self.put(0, 8);
    }

    fn finish(self) -> Vec<u8> {
        self.bytes
    }
}

fn padded(s: &str) -> Vec<u8> {
    let mut v = s.as_bytes().to_vec();
    v.resize(260, 0);
    v
}

fn header_bytes() -> Vec<u8> {
    let mut d = b"HL2DEMO\0".to_vec();
    d.extend_from_slice(&3i32.to_le_bytes());
    d.extend_from_slice(&24i32.to_le_bytes());
    d.extend_from_slice(&padded("localhost:27015"));
    d.extend_from_slice(&padded("player"));
    d.extend_from_slice(&padded("ctf_2fort"));
    d.extend_from_slice(&padded("tf"));
    d.extend_from_slice(&12.5f32.to_bits().to_le_bytes());
    d.extend_from_slice(&1000i32.to_le_bytes());
    d.extend_from_slice(&990i32.to_le_bytes());
    d.extend_from_slice(&4i32.to_le_bytes());
    d
}

fn sample_header() -> DemoHeader {
    let mut r = ByteReader::new(header_bytes());
    DemoHeader::read(&mut r).unwrap()
}

fn prev_cmd() -> UserCmd {
    UserCmd {
        command_number: 10,
        tick_count: 500,
        view_angles: RawVec3 { x: 1, y: 2, z: 3 },
        movement: RawVec3 { x: 4, y: 5, z: 6 },
        buttons: 7,
        impulse: 8,
        weapon_select: 9,
        weapon_subtype: 11,
        mouse_delta: MouseDelta { x: -3, y: 4 },
    }
}

#[test]
fn demo_header_fields() {
    let bytes = header_bytes();
    assert_eq!(bytes.len(), DEMO_HEADER_SIZE);
    let h = sample_header();
    assert_eq!(h.demo_protocol, 3);
    assert_eq!(h.network_protocol, 24);
    assert_eq!(h.server_address, "localhost:27015");
    assert_eq!(h.client_name, "player");
    assert_eq!(h.map_name, "ctf_2fort");
    assert_eq!(h.game_directory, "tf");
    assert_eq!(f32::from_bits(h.playback_time), 12.5);
    assert_eq!(h.ticks, 1000);
    assert_eq!(h.frames, 990);
    assert_eq!(h.signon_length, 4);
}

#[test]
fn demo_header_bad_magic() {
    let mut bytes = header_bytes();
    bytes[2] = b'X';
    let mut r = ByteReader::new(bytes);
    assert!(matches!(DemoHeader::read(&mut r), Err(DecodeError::MalformedHeader)));
}

#[test]
fn demo_header_truncated() {
    let bytes = header_bytes();
    let mut r = ByteReader::new(bytes[..500].to_vec());
    assert!(matches!(DemoHeader::read(&mut r), Err(DecodeError::TruncatedInput)));
}

fn command(tag: u8, tick: u32, payload: &[u8]) -> Vec<u8> {
    let mut d = vec![tag];
    d.extend_from_slice(&tick.to_le_bytes());
    d.extend_from_slice(payload);
    d
}

#[test]
fn unknown_command_tag_is_error() {
    let h = sample_header();
    let mut r = ByteReader::new(command(99, 1, &[]));
    let res = Command::read(&mut r, &h, &UserCmd::default());
    assert!(matches!(res, Err(DecodeError::UnsupportedOpcode(99))));
}

#[test]
fn data_tables_tag_is_not_decoded() {
    let h = sample_header();
    let mut r = ByteReader::new(command(6, 1, &[0, 0, 0, 0]));
    let res = Command::read(&mut r, &h, &UserCmd::default());
    assert!(matches!(res, Err(DecodeError::UnsupportedOpcode(6))));
}

#[test]
fn sync_tick_and_stop() {
    let h = sample_header();
    let mut bytes = command(3, 77, &[]);
    bytes.extend_from_slice(&command(7, 78, &[]));
    let mut r = ByteReader::new(bytes);
    let (tick, c) = Command::read(&mut r, &h, &UserCmd::default()).unwrap();
    assert_eq!(tick, 77);
    assert!(matches!(c, Command::SyncTick));
    let (tick, c) = Command::read(&mut r, &h, &UserCmd::default()).unwrap();
    assert_eq!(tick, 78);
    assert!(matches!(c, Command::Stop));
}

#[test]
fn signon_uses_header_length() {
    let h = sample_header();
    let mut r = ByteReader::new(command(1, 0, &[1, 2, 3, 4, 5]));
    let (_, c) = Command::read(&mut r, &h, &UserCmd::default()).unwrap();
    match c {
        Command::SignOn(v) => assert_eq!(v, vec![1, 2, 3, 4]),
        other => panic!("unexpected {:?}", other),
    }
    assert_eq!(r.position(), 9);
}

#[test]
fn console_command_text() {
    let h = sample_header();
    let mut payload = 8u32.to_le_bytes().to_vec();
    payload.extend_from_slice(b"echo hi\0");
    let mut r = ByteReader::new(command(4, 5, &payload));
    let (_, c) = Command::read(&mut r, &h, &UserCmd::default()).unwrap();
    match c {
        Command::ConsoleCmd(s) => assert_eq!(s, "echo hi"),
        other => panic!("unexpected {:?}", other),
    }
}

#[test]
fn packet_command_blocks() {
    let h = sample_header();
    let mut payload = 1u32.to_le_bytes().to_vec();
    for i in 0..18u32 {
        payload.extend_from_slice(&(i + 100).to_le_bytes());
    }
    payload.extend_from_slice(&(-5i32).to_le_bytes());
    payload.extend_from_slice(&6i32.to_le_bytes());
    payload.extend_from_slice(&3u32.to_le_bytes());
    payload.extend_from_slice(&[7, 8, 9]);
    let mut r = ByteReader::new(command(2, 9, &payload));
    let (tick, c) = Command::read(&mut r, &h, &UserCmd::default()).unwrap();
    assert_eq!(tick, 9);
    match c {
        Command::Packet(info, seq, data) => {
            assert_eq!(info.flags, 1);
            assert_eq!(info.view_origin, RawVec3 { x: 100, y: 101, z: 102 });
            assert_eq!(info.local_view_angles2, RawVec3 { x: 115, y: 116, z: 117 });
            assert_eq!(seq.seq_nr_in, -5);
            assert_eq!(seq.seq_nr_out, 6);
            assert_eq!(data, vec![7, 8, 9]);
        }
        other => panic!("unexpected {:?}", other),
    }
}

#[test]
fn truncated_packet_command() {
    let h = sample_header();
    let mut r = ByteReader::new(command(2, 9, &[0; 20]));
    assert!(matches!(Command::read(&mut r, &h, &UserCmd::default()), Err(DecodeError::TruncatedInput)));
}

fn usercmd_command(payload: Vec<u8>) -> Vec<u8> {
    let mut p = 33i32.to_le_bytes().to_vec();
    p.extend_from_slice(&(payload.len() as u32).to_le_bytes());
    p.extend_from_slice(&payload);
    command(5, 40, &p)
}

#[test]
fn usercmd_absolute_command_number() {
    let mut w = BitWriter::new();
    w.put(1, 1);
    w.put(42, 32);
    w.put(0, 12);
    let prev = prev_cmd();
    let mut br = BitReader::new(w.finish());
    let cmd = UserCmd::read(&mut br, &prev).unwrap();
    assert_eq!(cmd.command_number, 42);
    assert_eq!(cmd.tick_count, prev.tick_count + 1);
    assert_eq!(cmd.view_angles, prev.view_angles);
    assert_eq!(cmd.movement, prev.movement);
    assert_eq!(cmd.buttons, prev.buttons);
    assert_eq!(cmd.impulse, prev.impulse);
    assert_eq!(cmd.weapon_select, prev.weapon_select);
    assert_eq!(cmd.weapon_subtype, prev.weapon_subtype);
    assert_eq!(cmd.mouse_delta, prev.mouse_delta);
    assert_eq!(br.position(), 45);
}

#[test]
fn usercmd_no_presence_bits() {
    let prev = prev_cmd();
    let mut br = BitReader::new(vec![0, 0]);
    let cmd = UserCmd::read(&mut br, &prev).unwrap();
    let mut expected = prev;
    expected.command_number = 11;
    expected.tick_count = 501;
    assert_eq!(cmd, expected);
    assert_eq!(br.position(), 13);
}

#[test]
fn usercmd_counter_wraps() {
    let mut prev = prev_cmd();
    prev.command_number = u32::MAX;
    let mut br = BitReader::new(vec![0, 0]);
    let cmd = UserCmd::read(&mut br, &prev).unwrap();
    assert_eq!(cmd.command_number, 0);
}

#[test]
fn usercmd_every_field() {
    let mut w = BitWriter::new();
    w.put(1, 1);
    w.put(100, 32);
    w.put(1, 1);
    w.put(200, 32);
    for v in [1u64, 2, 3, 4, 5, 6] {
        w.put(1, 1);
        w.put(v * 1000, 32);
    }
    w.put(1, 1);
    w.put(0xFFFF_FFFF, 32);
    w.put(1, 1);
    w.put(0x65, 8);
    w.put(1, 1);
    w.put(0x7FF, 11);
    w.put(1, 1);
    w.put(0x2A, 6);
    w.put(1, 1);
    w.put(0xFFFE, 16);
    w.put(1, 1);
    w.put(5, 16);
    let mut br = BitReader::new(w.finish());
    let cmd = UserCmd::read(&mut br, &UserCmd::default()).unwrap();
    assert_eq!(cmd.command_number, 100);
    assert_eq!(cmd.tick_count, 200);
    assert_eq!(cmd.view_angles, RawVec3 { x: 1000, y: 2000, z: 3000 });
    assert_eq!(cmd.movement, RawVec3 { x: 4000, y: 5000, z: 6000 });
    assert_eq!(cmd.buttons, 0xFFFF_FFFF);
    assert_eq!(cmd.impulse, 0x65);
    assert_eq!(cmd.weapon_select, 0x7FF);
    assert_eq!(cmd.weapon_subtype, 0x2A);
    assert_eq!(cmd.mouse_delta, MouseDelta { x: -2, y: 5 });
}

#[test]
fn usercmd_truncated_keeps_position() {
    let mut w = BitWriter::new();
    w.put(1, 1);
    w.put(7, 10);
    let mut br = BitReader::new(w.finish());
    assert_eq!(UserCmd::read(&mut br, &UserCmd::default()), Err(DecodeError::TruncatedInput));
    assert_eq!(br.position(), 0);
}

#[test]
fn usercmd_command_uses_previous() {
    let h = sample_header();
    let mut r = ByteReader::new(usercmd_command(vec![0, 0]));
    let (tick, c) = Command::read(&mut r, &h, &prev_cmd()).unwrap();
    assert_eq!(tick, 40);
    match c {
        Command::UserCmd(seq, cmd) => {
            assert_eq!(seq, 33);
            assert_eq!(cmd.command_number, 11);
            assert_eq!(cmd.tick_count, 501);
        }
        other => panic!("unexpected {:?}", other),
    }
}

fn table_bits(w: &mut BitWriter) {
    w.put_str("downloadables");
    w.put(2, 16);
    w.put_str("a");
    w.put(1, 1);
    w.put(2, 16);
    w.put(9, 8);
    w.put(8, 8);
    w.put_str("b");
    w.put(0, 1);
    w.put(1, 1);
    w.put(1, 16);
    w.put_str("c");
    w.put(1, 1);
    w.put(1, 16);
    w.put(3, 8);
}

#[test]
fn string_table_entries() {
    let mut w = BitWriter::new();
    table_bits(&mut w);
    let mut br = BitReader::new(w.finish());
    let t = StringTable::read(&mut br).unwrap();
    assert_eq!(t.name, "downloadables");
    assert_eq!(t.entries.len(), 3);
    assert_eq!(t.entries[0].string, "a");
    assert!(t.entries[0].is_server);
    assert_eq!(t.entries[0].userdata, Some(vec![9, 8]));
    assert_eq!(t.entries[1].string, "b");
    assert!(!t.entries[1].is_server);
    assert_eq!(t.entries[1].userdata, None);
    assert_eq!(t.entries[2].string, "c");
    assert!(!t.entries[2].is_server);
    assert_eq!(t.entries[2].userdata, Some(vec![3]));
}

#[test]
fn string_table_truncated() {
    let mut w = BitWriter::new();
    w.put_str("t");
    w.put(3, 16);
    w.put_str("a");
    let mut br = BitReader::new(w.finish());
    assert!(matches!(StringTable::read(&mut br), Err(DecodeError::TruncatedInput)));
    assert_eq!(br.position(), 0);
}

#[test]
fn string_tables_command() {
    let h = sample_header();
    let mut w = BitWriter::new();
    w.put(1, 8);
    table_bits(&mut w);
    let blob = w.finish();
    let mut payload = (blob.len() as u32).to_le_bytes().to_vec();
    payload.extend_from_slice(&blob);
    let mut r = ByteReader::new(command(8, 2, &payload));
    let (_, c) = Command::read(&mut r, &h, &UserCmd::default()).unwrap();
    match c {
        Command::StringTables(ts) => {
            assert_eq!(ts.len(), 1);
            assert_eq!(ts[0].name, "downloadables");
        }
        other => panic!("unexpected {:?}", other),
    }
}

#[test]
fn packet_messages_until_unknown_opcode() {
    let mut w = BitWriter::new();
    w.put(3, 6);
    w.put(1234, 32);
    w.put(1500, 16);
    w.put(20, 16);
    w.put(11, 6);
    w.put(1, 1);
    w.put(1, 6);
    w.put(0xFFFF, 16);
    let r = read_packet_messages(w.finish());
    assert_eq!(r.messages.len(), 2);
    match &r.messages[0] {
        NetMessage::Tick { tick, host_frame_time, host_frame_time_std_dev } => {
            assert_eq!(*tick, 1234);
            assert_eq!(*host_frame_time, 1500);
            assert_eq!(*host_frame_time_std_dev, 20);
        }
        other => panic!("unexpected {:?}", other),
    }
    assert!(matches!(r.messages[1], NetMessage::SetPause { paused: true }));
    assert_eq!(r.error, Some(DecodeError::UnsupportedOpcode(1)));
    assert_eq!(r.bits_consumed, 6 + 64 + 6 + 1 + 6);
}

#[test]
fn packet_messages_complete() {
    let mut w = BitWriter::new();
    w.put(4, 6);
    w.put_str("say hi");
    w.put(5, 6);
    w.put(1, 8);
    w.put_str("sv_cheats");
    w.put_str("1");
    w.put(27, 6);
    w.put(2, 8);
    w.put(12, 8);
    w.put(0xABC, 12);
    w.put(28, 6);
    w.put(77, 14);
    let total = w.bit;
    let r = read_packet_messages(w.finish());
    assert_eq!(r.error, None);
    assert_eq!(r.messages.len(), 4);
    match &r.messages[0] {
        NetMessage::StringCmd { command } => assert_eq!(command, "say hi"),
        other => panic!("unexpected {:?}", other),
    }
    match &r.messages[1] {
        NetMessage::SetConVar { vars } => {
            assert_eq!(vars.len(), 1);
            assert_eq!(vars[0].name, "sv_cheats");
            assert_eq!(vars[0].value, "1");
        }
        other => panic!("unexpected {:?}", other),
    }
    match &r.messages[2] {
        NetMessage::TempEntities { num_entries, length, data } => {
            assert_eq!(*num_entries, 2);
            assert_eq!(*length, 12);
            assert_eq!(data, &vec![0xBC, 0x0A]);
        }
        other => panic!("unexpected {:?}", other),
    }
    assert!(matches!(r.messages[3], NetMessage::Prefetch { sound_index: 77 }));
    assert_eq!(r.bits_consumed, total);
}

#[test]
fn packet_message_cut_short() {
    let mut w = BitWriter::new();
    w.put(25, 6);
    w.put(200, 11);
    w.put(0, 8);
    let r = read_packet_messages(w.finish());
    assert!(r.messages.is_empty());
    assert_eq!(r.error, Some(DecodeError::TruncatedInput));
    assert_eq!(r.bits_consumed, 6);
}

#[test]
fn packet_decal_and_angles() {
    let mut w = BitWriter::new();
    w.put(19, 6);
    w.put(1, 1);
    w.put(0x4000, 16);
    w.put(0x8000, 16);
    w.put(0, 16);
    w.put(21, 6);
    w.put(0, 3);
    w.put(5, 9);
    w.put(1, 1);
    w.put(3, 11);
    w.put(4, 11);
    w.put(0, 1);
    let r = read_packet_messages(w.finish());
    assert_eq!(r.messages.len(), 3);
    assert!(matches!(r.messages[2], NetMessage::Nop));
    assert_eq!(r.error, None);
    match &r.messages[0] {
        NetMessage::FixAngle { relative, x, y, z } => {
            assert!(*relative);
            assert_eq!(x.raw, 0x4000);
            assert_eq!(y.raw, 0x8000);
            assert_eq!(z.raw, 0);
            assert_eq!(x.bits, 16);
        }
        other => panic!("unexpected {:?}", other),
    }
    match &r.messages[1] {
        NetMessage::BspDecal { pos, decal_texture_index, entity_index, model_index, low_priority } => {
            assert_eq!((pos.x, pos.y, pos.z), (0, 0, 0));
            assert_eq!(*decal_texture_index, 5);
            assert_eq!(*entity_index, Some(3));
            assert_eq!(*model_index, Some(4));
            assert!(!*low_priority);
        }
        other => panic!("unexpected {:?}", other),
    }
}

#[test]
fn user_message_names() {
    assert_eq!(user_message_name(0), "Geiger");
    assert_eq!(user_message_name(USER_MESSAGE_SAY_TEXT2), "SayText2");
    assert_eq!(user_message_name(57), "HapMeleeContact");
    assert_eq!(user_message_name(58), "<unknown>");
    assert_eq!(user_message_name(255), "<unknown>");
}

#[test]
fn say_text2_with_all_strings() {
    let mut w = BitWriter::new();
    w.put(3, 8);
    w.put(1, 8);
    w.put_str("hello");
    w.put_str("bob");
    w.put_str("hi there");
    w.put_str("x");
    w.put_str("y");
    let m = SayText2::read(w.finish()).unwrap();
    assert_eq!(m.client, 3);
    assert!(m.wants_to_chat);
    assert_eq!(m.msg_text, "hello");
    assert_eq!(m.player_name, "bob");
    assert_eq!(m.chat_text, "hi there");
    assert_eq!(m.buf3, "x");
    assert_eq!(m.buf4, "y");
}

#[test]
fn say_text2_short_body() {
    let mut w = BitWriter::new();
    w.put(1, 8);
    w.put(0, 8);
    w.put_str("gg");
    w.put(0, 16);
    let m = SayText2::read(w.finish()).unwrap();
    assert!(!m.wants_to_chat);
    assert_eq!(m.msg_text, "gg");
    assert_eq!(m.player_name, "");
    assert_eq!(m.buf4, "");
}

#[test]
fn say_text2_truncated() {
    assert!(matches!(SayText2::read(vec![1]), Err(DecodeError::TruncatedInput)));
    assert!(matches!(SayText2::read(vec![1, 0, b'a']), Err(DecodeError::TruncatedInput)));
}

#[test]
fn chat_color_codes_removed() {
    let text: Vec<char> = "\u{1}red \u{3}name\u{7}FF0000done".chars().collect();
    let out: String = strip_chat_color_codes(&text).into_iter().collect();
    assert_eq!(out, "red namedone");
    let plain: Vec<char> = "plain".chars().collect();
    assert_eq!(strip_chat_color_codes(&plain), plain);
}

#[test]
fn padded_field_is_trimmed() {
    let mut r = ByteReader::new(b"abc\0\0x".to_vec());
    assert_eq!(r.read_string(5), Ok("abc".to_string()));
    assert_eq!(r.position(), 5);
}

#[test]
fn small_string_table() {
    let mut br = BitReader::new(vec![0x74, 0x00, 0x01, 0x00, 0x61, 0x00, 0x00]);
    let t = StringTable::read(&mut br).unwrap();
    assert_eq!(t.name, "t");
    assert_eq!(t.entries.len(), 1);
    assert_eq!(t.entries[0].string, "a");
    assert_eq!(t.entries[0].userdata, None);
    assert_eq!(br.bits_remaining(), 6);
}

#[test]
fn usercmd_full_button_mask() {
    let mut w = BitWriter::new();
    w.put(0, 8);
    w.put(1, 1);
    w.put(0xFC00_0001, 32);
    w.put(0, 4);
    let mut br = BitReader::new(w.finish());
    let cmd = UserCmd::read(&mut br, &UserCmd::default()).unwrap();
    assert_eq!(cmd.buttons, 0xFC00_0001);
}

#[test]
fn packet_walk_leaves_cursor_after_bad_opcode() {
    let mut w = BitWriter::new();
    w.put(11, 6);
    w.put(0, 1);
    w.put(2, 6);
    w.put(0xABCD, 16);
    let mut br = BitReader::new(w.finish());
    let r = read_packet_messages_from(&mut br);
    assert_eq!(r.messages.len(), 1);
    assert_eq!(r.error, Some(DecodeError::UnsupportedOpcode(2)));
    assert_eq!(r.bits_consumed, 13);
    assert_eq!(br.bits_remaining(), 32 - 13);
}
