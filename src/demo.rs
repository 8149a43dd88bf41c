use vstd::prelude::*;

use crate::bits::BitReader;
use crate::error::DecodeError;
use crate::lumps::{LumpRecord, RawVec3};
use crate::reader::{le_i32, le_u32, ByteReader};
use crate::stringtables::{read_tables, table_parsed, tables_pos, StringTable};
use crate::text::{trim_trailing_nul, decoded_text};
use crate::usercmd::{usercmd_delta, usercmd_end, UserCmd};

verus! {

/// Width of each path or name field of the header.
pub const MAX_OSPATH: usize = 260;

/// Byte size of the header.
pub const DEMO_HEADER_SIZE: usize = 1072;

/// "HL2DEMO" and a zero byte.
pub open spec fn demo_magic() -> Seq<u8> {
    seq![0x48u8, 0x4C, 0x32, 0x44, 0x45, 0x4D, 0x4F, 0x00]
}

/// The header of a recording. The playback time is a single-precision
/// float kept as its bit pattern.
#[derive(Debug, Clone)]
pub struct DemoHeader {
    pub demo_protocol: i32,
    pub network_protocol: i32,
    pub server_address: String,
    pub client_name: String,
    pub map_name: String,
    pub game_directory: String,
    pub playback_time: u32,
    pub ticks: i32,
    pub frames: i32,
    pub signon_length: i32,
}

/// Text of the padded field of width 260 at byte `at`.
pub open spec fn path_field(d: Seq<u8>, at: int) -> Seq<char> {
    decoded_text(trim_trailing_nul(d.subrange(at, at + 260)))
}

/// `h` is the header at byte `p` of `d`.
pub open spec fn demo_header_parsed(h: DemoHeader, d: Seq<u8>, p: int) -> bool {
    &&& h.demo_protocol as int == le_i32(d, p + 8)
    &&& h.network_protocol as int == le_i32(d, p + 12)
    &&& h.server_address@ == path_field(d, p + 16)
    &&& h.client_name@ == path_field(d, p + 276)
    &&& h.map_name@ == path_field(d, p + 536)
    &&& h.game_directory@ == path_field(d, p + 796)
    &&& h.playback_time as nat == le_u32(d, p + 1056)
    &&& h.ticks as int == le_i32(d, p + 1060)
    &&& h.frames as int == le_i32(d, p + 1064)
    &&& h.signon_length as int == le_i32(d, p + 1068)
}

impl DemoHeader {
    /// Checks the magic and reads the header fields.
    pub fn read(r: &mut ByteReader) -> (res: Result<DemoHeader, DecodeError>)
        requires
            old(r).wf(),
        ensures
            ({
                let d = old(r).bytes();
                let p = old(r).pos();
                &&& old(r).short(8) ==> res == Err::<DemoHeader, DecodeError>(
                    DecodeError::TruncatedInput,
                )
                &&& !old(r).short(8) && d.subrange(p, p + 8) != demo_magic() ==> res == Err::<
                    DemoHeader,
                    DecodeError,
                >(DecodeError::MalformedHeader)
                &&& !old(r).short(8) && d.subrange(p, p + 8) == demo_magic() && old(r).short(
                    DEMO_HEADER_SIZE as int,
                ) ==> res == Err::<DemoHeader, DecodeError>(DecodeError::TruncatedInput)
                &&& !old(r).short(DEMO_HEADER_SIZE as int) && d.subrange(p, p + 8) == demo_magic()
                    ==> res is Ok
                &&& res is Ok ==> demo_header_parsed(res->Ok_0, d, p) && old(r).at(
                    final(r),
                    p + DEMO_HEADER_SIZE,
                )
            }),
    {
        let ghost d = r.bytes();
        let ghost p = r.pos();
        let magic = r.read_bytes(8)?;
        let ok = magic[0] == 0x48 && magic[1] == 0x4C && magic[2] == 0x32 && magic[3] == 0x44
            && magic[4] == 0x45 && magic[5] == 0x4D && magic[6] == 0x4F && magic[7] == 0x00;
        if !ok {
            proof {
                if d.subrange(p, p + 8) == demo_magic() {
                    assert(magic@[0] == demo_magic()[0]);
                    assert(magic@[1] == demo_magic()[1]);
                    assert(magic@[2] == demo_magic()[2]);
                    assert(magic@[3] == demo_magic()[3]);
                    assert(magic@[4] == demo_magic()[4]);
                    assert(magic@[5] == demo_magic()[5]);
                    assert(magic@[6] == demo_magic()[6]);
                    assert(magic@[7] == demo_magic()[7]);
                }
            }
            return Err(DecodeError::MalformedHeader);
        }
        assert(magic@ =~= demo_magic());
        if r.remaining() < DEMO_HEADER_SIZE - 8 {
            return Err(DecodeError::TruncatedInput);
        }
        let demo_protocol = r.read_i32()?;
        let network_protocol = r.read_i32()?;
        let server_address = r.read_string(MAX_OSPATH)?;
        let client_name = r.read_string(MAX_OSPATH)?;
        let map_name = r.read_string(MAX_OSPATH)?;
        let game_directory = r.read_string(MAX_OSPATH)?;
        let playback_time = r.read_u32()?;
        let ticks = r.read_i32()?;
        let frames = r.read_i32()?;
        let signon_length = r.read_i32()?;
        Ok(DemoHeader {
            demo_protocol,
            network_protocol,
            server_address,
            client_name,
            map_name,
            game_directory,
            playback_time,
            ticks,
            frames,
            signon_length,
        })
    }
}

/// View state of a packet: flags and six vectors of floats kept as bit
/// patterns.
#[derive(Debug, Clone, Copy, PartialEq, Eq, Structural)]
pub struct CmdInfo {
    pub flags: u32,
    pub view_origin: RawVec3,
    pub view_angles: RawVec3,
    pub local_view_angles: RawVec3,
    pub view_origin2: RawVec3,
    pub view_angles2: RawVec3,
    pub local_view_angles2: RawVec3,
}

/// Byte size of a `CmdInfo` block.
pub const CMD_INFO_SIZE: usize = 76;

pub open spec fn vec3_at(v: RawVec3, d: Seq<u8>, at: int) -> bool {
    v.parsed_from(d.subrange(at, at + 12))
}

pub open spec fn cmd_info_parsed(c: CmdInfo, d: Seq<u8>, at: int) -> bool {
    &&& c.flags as nat == le_u32(d, at)
    &&& vec3_at(c.view_origin, d, at + 4)
    &&& vec3_at(c.view_angles, d, at + 16)
    &&& vec3_at(c.local_view_angles, d, at + 28)
    &&& vec3_at(c.view_origin2, d, at + 40)
    &&& vec3_at(c.view_angles2, d, at + 52)
    &&& vec3_at(c.local_view_angles2, d, at + 64)
}

fn read_vec3(r: &mut ByteReader) -> (res: Result<RawVec3, DecodeError>)
    requires
        old(r).wf(),
    ensures
        !old(r).short(12) ==> res is Ok && old(r).at(final(r), old(r).pos() + 12) && vec3_at(
            res->Ok_0,
            old(r).bytes(),
            old(r).pos(),
        ),
        old(r).short(12) ==> res == Err::<RawVec3, DecodeError>(DecodeError::TruncatedInput),
{
    if r.remaining() < 12 {
        return Err(DecodeError::TruncatedInput);
    }
    let x = r.read_u32()?;
    let y = r.read_u32()?;
    let z = r.read_u32()?;
    Ok(RawVec3 { x, y, z })
}

impl CmdInfo {
    pub fn read(r: &mut ByteReader) -> (res: Result<CmdInfo, DecodeError>)
        requires
            old(r).wf(),
        ensures
            !old(r).short(CMD_INFO_SIZE as int) ==> res is Ok && old(r).at(
                final(r),
                old(r).pos() + CMD_INFO_SIZE,
            ) && cmd_info_parsed(res->Ok_0, old(r).bytes(), old(r).pos()),
            old(r).short(CMD_INFO_SIZE as int) ==> res == Err::<CmdInfo, DecodeError>(
                DecodeError::TruncatedInput,
            ),
    {
        if r.remaining() < CMD_INFO_SIZE {
            return Err(DecodeError::TruncatedInput);
        }
        let flags = r.read_u32()?;
        let view_origin = read_vec3(r)?;
        let view_angles = read_vec3(r)?;
        let local_view_angles = read_vec3(r)?;
        let view_origin2 = read_vec3(r)?;
        let view_angles2 = read_vec3(r)?;
        let local_view_angles2 = read_vec3(r)?;
        Ok(CmdInfo {
            flags,
            view_origin,
            view_angles,
            local_view_angles,
            view_origin2,
            view_angles2,
            local_view_angles2,
        })
    }
}

/// Incoming and outgoing sequence numbers of a packet.
#[derive(Debug, Clone, Copy, PartialEq, Eq, Structural)]
pub struct SequenceInfo {
    pub seq_nr_in: i32,
    pub seq_nr_out: i32,
}

impl SequenceInfo {
    pub fn read(r: &mut ByteReader) -> (res: Result<SequenceInfo, DecodeError>)
        requires
            old(r).wf(),
        ensures
            !old(r).short(8) ==> res == Ok::<SequenceInfo, DecodeError>(
                SequenceInfo {
                    seq_nr_in: le_i32(old(r).bytes(), old(r).pos()) as i32,
                    seq_nr_out: le_i32(old(r).bytes(), old(r).pos() + 4) as i32,
                },
            ) && old(r).at(final(r), old(r).pos() + 8),
            old(r).short(8) ==> res == Err::<SequenceInfo, DecodeError>(
                DecodeError::TruncatedInput,
            ),
    {
        if r.remaining() < 8 {
            return Err(DecodeError::TruncatedInput);
        }
        let seq_nr_in = r.read_i32()?;
        let seq_nr_out = r.read_i32()?;
        Ok(SequenceInfo { seq_nr_in, seq_nr_out })
    }
}

/// One record of the command stream.
#[derive(Debug, Clone)]
pub enum Command {
    SignOn(Vec<u8>),
    Packet(CmdInfo, SequenceInfo, Vec<u8>),
    SyncTick,
    ConsoleCmd(String),
    UserCmd(i32, UserCmd),
    /// Not decoded: its tag is reported as unsupported.
    DataTables(Vec<u8>),
    Stop,
    StringTables(Vec<StringTable>),
}

pub const ID_SIGNON: u8 = 1;
pub const ID_PACKET: u8 = 2;
pub const ID_SYNCTICK: u8 = 3;
pub const ID_CONSOLECMD: u8 = 4;
pub const ID_USERCMD: u8 = 5;
pub const ID_DATATABLES: u8 = 6;
pub const ID_STOP: u8 = 7;
pub const ID_STRINGTABLES: u8 = 8;

/// The command tags that are decoded.
pub open spec fn known_tag(t: u8) -> bool {
    t == ID_SIGNON || t == ID_PACKET || t == ID_SYNCTICK || t == ID_CONSOLECMD || t == ID_USERCMD
        || t == ID_STOP || t == ID_STRINGTABLES
}

/// The length-prefixed blob whose length stands at byte `at`.
pub open spec fn blob_at(d: Seq<u8>, at: int) -> Seq<u8> {
    d.subrange(at + 4, at + 4 + le_u32(d, at))
}

pub open spec fn blob_fits(d: Seq<u8>, at: int) -> bool {
    at + 4 <= d.len() && at + 4 + le_u32(d, at) <= d.len()
}

/// The command whose tag is at byte `p` decodes without error.
pub open spec fn command_fits(d: Seq<u8>, p: int, h: DemoHeader) -> bool {
    let tag = d[p];
    if tag == ID_SIGNON {
        h.signon_length >= 0 && p + 5 + h.signon_length <= d.len()
    } else if tag == ID_PACKET {
        blob_fits(d, p + 89)
    } else if tag == ID_CONSOLECMD {
        blob_fits(d, p + 5)
    } else if tag == ID_USERCMD {
        p + 9 <= d.len() && blob_fits(d, p + 9) && 8 * blob_at(d, p + 9).len() <= usize::MAX
            && usercmd_end(blob_at(d, p + 9), 0) <= 8 * blob_at(d, p + 9).len()
    } else if tag == ID_STRINGTABLES {
        blob_fits(d, p + 5) && 8 * blob_at(d, p + 5).len() <= usize::MAX && blob_at(
            d,
            p + 5,
        ).len() >= 1 && tables_pos(
            blob_at(d, p + 5),
            8,
            blob_at(d, p + 5)[0] as nat,
        ) <= 8 * blob_at(d, p + 5).len()
    } else {
        true
    }
}

/// `c` is the command whose tag is at byte `p`, decoded against the
/// header `h` and the previous user command `prev`.
pub open spec fn command_parsed(c: Command, d: Seq<u8>, p: int, h: DemoHeader, prev: UserCmd) -> bool {
    let tag = d[p];
    match c {
        Command::SignOn(v) => tag == ID_SIGNON && v@ == d.subrange(p + 5, p + 5 + h.signon_length),
        Command::Packet(info, seq, data) => {
            &&& tag == ID_PACKET
            &&& cmd_info_parsed(info, d, p + 5)
            &&& seq.seq_nr_in as int == le_i32(d, p + 81)
            &&& seq.seq_nr_out as int == le_i32(d, p + 85)
            &&& data@ == blob_at(d, p + 89)
        },
        Command::SyncTick => tag == ID_SYNCTICK,
        Command::ConsoleCmd(s) => tag == ID_CONSOLECMD && s@ == decoded_text(
            trim_trailing_nul(blob_at(d, p + 5)),
        ),
        Command::UserCmd(out, cmd) => {
            &&& tag == ID_USERCMD
            &&& out as int == le_i32(d, p + 5)
            &&& cmd == usercmd_delta(blob_at(d, p + 9), 0, prev)
        },
        Command::DataTables(_) => false,
        Command::Stop => tag == ID_STOP,
        Command::StringTables(ts) => {
            let b = blob_at(d, p + 5);
            &&& tag == ID_STRINGTABLES
            &&& ts@.len() == b[0]
            &&& forall|i: int|
                0 <= i < ts@.len() ==> table_parsed(#[trigger] ts@[i], b, tables_pos(b, 8, i as nat))
        },
    }
}

/// Where the command whose tag is at byte `p` ends.
pub open spec fn command_end(d: Seq<u8>, p: int, h: DemoHeader) -> int {
    let tag = d[p];
    if tag == ID_SIGNON {
        p + 5 + h.signon_length
    } else if tag == ID_PACKET {
        p + 93 + le_u32(d, p + 89)
    } else if tag == ID_CONSOLECMD || tag == ID_STRINGTABLES {
        p + 9 + le_u32(d, p + 5)
    } else if tag == ID_USERCMD {
        p + 13 + le_u32(d, p + 9)
    } else {
        p + 5
    }
}

impl Command {
    /// Reads one command: a tag byte, a 32-bit tick, then the payload of that
    /// tag. A user command is decoded against `usercmd`, the previous one.
    /// Returns the tick and the command.
    pub fn read(r: &mut ByteReader, header: &DemoHeader, usercmd: &UserCmd) -> (res: Result<
        (u32, Command),
        DecodeError,
    >)
        requires
            old(r).wf(),
        ensures
            ({
                let d = old(r).bytes();
                let p = old(r).pos();
                &&& old(r).short(5) ==> res == Err::<(u32, Command), DecodeError>(
                    DecodeError::TruncatedInput,
                )
                &&& !old(r).short(5) && !known_tag(d[p]) ==> res == Err::<
                    (u32, Command),
                    DecodeError,
                >(DecodeError::UnsupportedOpcode(d[p] as u32))
                &&& !old(r).short(5) && known_tag(d[p]) ==> (res is Ok <==> command_fits(
                    d,
                    p,
                    *header,
                ))
                &&& res is Err && !old(r).short(5) && known_tag(d[p]) ==> res == Err::<
                    (u32, Command),
                    DecodeError,
                >(DecodeError::TruncatedInput)
                &&& res is Ok ==> {
                    &&& res->Ok_0.0 as nat == le_u32(d, p + 1)
                    &&& command_parsed(res->Ok_0.1, d, p, *header, *usercmd)
                    &&& old(r).at(final(r), command_end(d, p, *header))
                }
            }),
    {
        let ghost d = r.bytes();
        let ghost p = r.pos();
        if r.remaining() < 5 {
            return Err(DecodeError::TruncatedInput);
        }
        let tag = r.read_u8()?;
        let tick = r.read_u32()?;
        if tag == ID_SIGNON {
            if header.signon_length < 0 {
                return Err(DecodeError::TruncatedInput);
            }
            let v = r.read_bytes(header.signon_length as usize)?;
            Ok((tick, Command::SignOn(v)))
        } else if tag == ID_PACKET {
            let info = CmdInfo::read(r)?;
            let sequence = SequenceInfo::read(r)?;
            let len = r.read_u32()?;
            let data = r.read_bytes(len as usize)?;
            Ok((tick, Command::Packet(info, sequence, data)))
        } else if tag == ID_SYNCTICK {
            Ok((tick, Command::SyncTick))
        } else if tag == ID_CONSOLECMD {
            let len = r.read_u32()?;
            let s = r.read_string(len as usize)?;
            Ok((tick, Command::ConsoleCmd(s)))
        } else if tag == ID_USERCMD {
            let outgoing_sequence = r.read_i32()?;
            let len = r.read_u32()?;
            let data = r.read_bytes(len as usize)?;
            if data.len() > usize::MAX / 8 {
                return Err(DecodeError::TruncatedInput);
            }
            let mut br = BitReader::new(data);
            let cmd = UserCmd::read(&mut br, usercmd)?;
            Ok((tick, Command::UserCmd(outgoing_sequence, cmd)))
        } else if tag == ID_STOP {
            Ok((tick, Command::Stop))
        } else if tag == ID_STRINGTABLES {
            let len = r.read_u32()?;
            let data = r.read_bytes(len as usize)?;
            if data.len() > usize::MAX / 8 {
                return Err(DecodeError::TruncatedInput);
            }
            let mut br = BitReader::new(data);
            let num_tables = br.read_u8()?;
            proof {
                crate::bits::lemma_aligned_byte(data@, 0);
            }
            let tables = read_tables(&mut br, num_tables)?;
            Ok((tick, Command::StringTables(tables)))
        } else {
            Err(DecodeError::UnsupportedOpcode(tag as u32))
        }
    }
}

} // verus!
