use vstd::prelude::*;

use crate::bits::{bit_at, bits_value, bytes_at_bit, nul_len, nulstr_end, BitReader};
use crate::error::DecodeError;
use crate::text::decoded_text;

verus! {

/// One string of a table, with the user data that may follow it.
#[derive(Debug, Clone)]
pub struct StringTableString {
    pub is_server: bool,
    pub string: String,
    pub userdata: Option<Vec<u8>>,
}

/// A named table of strings.
#[derive(Debug, Clone)]
pub struct StringTable {
    pub name: String,
    pub entries: Vec<StringTableString>,
}

/// Where the entry at bit `q` ends: a zero-terminated string, a presence
/// bit, and if it is set a 16-bit byte count and that many bytes.
pub open spec fn entry_end(d: Seq<u8>, q: int) -> int {
    let s = nulstr_end(d, q);
    if bit_at(d, s) {
        s + 17 + 8 * bits_value(d, s + 1, 16)
    } else {
        s + 1
    }
}

/// Where entry `i` of a list that starts at bit `q` starts.
pub open spec fn entry_pos(d: Seq<u8>, q: int, i: nat) -> int
    decreases i,
{
    if i == 0 {
        q
    } else {
        entry_end(d, entry_pos(d, q, (i - 1) as nat))
    }
}

/// Where table `i` of a run of tables that starts at bit `q` starts.
pub open spec fn tables_pos(d: Seq<u8>, q: int, i: nat) -> int
    decreases i,
{
    if i == 0 {
        q
    } else {
        table_end(d, tables_pos(d, q, (i - 1) as nat))
    }
}

/// A table takes at least one bit.
pub proof fn lemma_table_end_grows(d: Seq<u8>, p: int)
    ensures
        table_end(d, p) > p,
{
    lemma_entry_pos_mono(d, server_count_at(d, p) + 16, 0, server_count(d, p));
    lemma_entry_pos_mono(d, server_list_end(d, p) + 17, 0, client_count(d, p));
}

pub proof fn lemma_tables_pos_mono(d: Seq<u8>, q: int, i: nat, j: nat)
    requires
        i <= j,
    ensures
        tables_pos(d, q, i) <= tables_pos(d, q, j),
    decreases j,
{
    if i < j {
        lemma_tables_pos_mono(d, q, i, (j - 1) as nat);
        lemma_table_end_grows(d, tables_pos(d, q, (j - 1) as nat));
    }
}

/// `e` is the entry at bit `q`; entries of the server list that carry user
/// data are marked as server entries.
#[verifier::opaque]
pub open spec fn entry_parsed(e: StringTableString, d: Seq<u8>, q: int, server: bool) -> bool {
    let s = nulstr_end(d, q);
    &&& e.string@ == decoded_text(bytes_at_bit(d, q, nul_len(d, q)))
    &&& (e.userdata is Some <==> bit_at(d, s))
    &&& e.is_server == (server && bit_at(d, s))
    &&& e.userdata is Some ==> e.userdata->0@ == bytes_at_bit(
        d,
        s + 17,
        bits_value(d, s + 1, 16),
    )
}

/// Layout of a table at bit `p`: its name, the server count and list, the
/// client presence bit, and the optional client count and list.
pub open spec fn server_count_at(d: Seq<u8>, p: int) -> int {
    nulstr_end(d, p)
}

pub open spec fn server_count(d: Seq<u8>, p: int) -> nat {
    bits_value(d, server_count_at(d, p), 16)
}

pub open spec fn server_list_end(d: Seq<u8>, p: int) -> int {
    entry_pos(d, server_count_at(d, p) + 16, server_count(d, p))
}

pub open spec fn has_client_list(d: Seq<u8>, p: int) -> bool {
    bit_at(d, server_list_end(d, p))
}

pub open spec fn client_count(d: Seq<u8>, p: int) -> nat {
    bits_value(d, server_list_end(d, p) + 1, 16)
}

pub open spec fn table_end(d: Seq<u8>, p: int) -> int {
    let a = server_list_end(d, p);
    if bit_at(d, a) {
        entry_pos(d, a + 17, client_count(d, p))
    } else {
        a + 1
    }
}

/// `t` is the table at bit `p` of `d`.
pub open spec fn table_parsed(t: StringTable, d: Seq<u8>, p: int) -> bool {
    let n1 = server_count(d, p);
    let q1 = server_count_at(d, p) + 16;
    let a = server_list_end(d, p);
    let n2: nat = if has_client_list(d, p) {
        client_count(d, p)
    } else {
        0
    };
    &&& t.name@ == decoded_text(bytes_at_bit(d, p, nul_len(d, p)))
    &&& t.entries@.len() == n1 + n2
    &&& forall|i: int|
        0 <= i < n1 ==> entry_parsed(#[trigger] t.entries@[i], d, entry_pos(d, q1, i as nat), true)
    &&& forall|j: int|
        0 <= j < n2 ==> entry_parsed(
            #[trigger] t.entries@[n1 + j],
            d,
            entry_pos(d, a + 17, j as nat),
            false,
        )
}

pub proof fn lemma_entry_pos_mono(d: Seq<u8>, q: int, i: nat, j: nat)
    requires
        i <= j,
    ensures
        entry_pos(d, q, i) <= entry_pos(d, q, j),
    decreases j,
{
    if i < j {
        lemma_entry_pos_mono(d, q, i, (j - 1) as nat);
    }
}

fn read_entry(br: &mut BitReader, server: bool) -> (r: Result<StringTableString, DecodeError>)
    requires
        old(br).wf(),
    ensures
        ({
            let d = old(br).bytes();
            let q = old(br).pos();
            &&& final(br).bytes() == d
            &&& final(br).wf()
            &&& entry_end(d, q) <= old(br).total_bits() ==> r is Ok
            &&& r is Ok ==> final(br).pos() == entry_end(d, q) && entry_parsed(
                r->Ok_0,
                d,
                q,
                server,
            )
            &&& r is Err ==> r == Err::<StringTableString, DecodeError>(
                DecodeError::TruncatedInput,
            ) && entry_end(d, q) > old(br).total_bits()
        }),
{
    proof {
        reveal(entry_parsed);
    }
    let string = br.read_nullstring()?;
    if br.read_bit()? {
        let size = br.read_u16()?;
        let userdata = br.read_bytes(size as usize)?;
        Ok(StringTableString { is_server: server, string, userdata: Some(userdata) })
    } else {
        Ok(StringTableString { is_server: false, string, userdata: None })
    }
}

fn read_entries(br: &mut BitReader, count: u16, server: bool, entries: &mut Vec<StringTableString>) -> (r: Result<(), DecodeError>)
    requires
        old(br).wf(),
    ensures
        ({
            let d = old(br).bytes();
            let q = old(br).pos();
            let end = entry_pos(d, q, count as nat);
            &&& final(br).bytes() == d
            &&& final(br).wf()
            &&& end <= old(br).total_bits() ==> r is Ok
            &&& r is Ok ==> final(br).pos() == end && final(entries)@.len() == old(entries)@.len()
                + count && (forall|i: int|
                0 <= i < old(entries)@.len() ==> #[trigger] final(entries)@[i] == old(entries)@[i])
                && forall|i: int|
                0 <= i < count ==> entry_parsed(
                    #[trigger] final(entries)@[old(entries)@.len() + i],
                    d,
                    entry_pos(d, q, i as nat),
                    server,
                )
            &&& r is Err ==> r == Err::<(), DecodeError>(DecodeError::TruncatedInput) && end
                > old(br).total_bits()
        }),
{
    let ghost d = br.bytes();
    let ghost q = br.pos();
    let ghost base = entries@;
    let mut i: u16 = 0;
    while i < count
        invariant
            br.wf(),
            br.bytes() == d,
            d == old(br).bytes(),
            q == old(br).pos(),
            base == old(entries)@,
            i <= count,
            br.pos() == entry_pos(d, q, i as nat),
            entries@.len() == base.len() + i,
            forall|k: int| 0 <= k < base.len() ==> #[trigger] entries@[k] == base[k],
            forall|k: int|
                0 <= k < i ==> entry_parsed(
                    #[trigger] entries@[base.len() + k],
                    d,
                    entry_pos(d, q, k as nat),
                    server,
                ),
        decreases count - i,
    {
        let e = match read_entry(br, server) {
            Ok(e) => e,
            Err(err) => {
                proof {
                    lemma_entry_pos_mono(d, q, (i + 1) as nat, count as nat);
                }
                return Err(err);
            },
        };
        entries.push(e);
        i = i + 1;
    }
    Ok(())
}

/// Reads `count` tables one after another.
pub fn read_tables(br: &mut BitReader, count: u8) -> (r: Result<Vec<StringTable>, DecodeError>)
    requires
        old(br).wf(),
    ensures
        ({
            let d = old(br).bytes();
            let q = old(br).pos();
            let end = tables_pos(d, q, count as nat);
            &&& final(br).bytes() == d
            &&& final(br).wf()
            &&& end <= old(br).total_bits() ==> r is Ok
            &&& r is Ok ==> final(br).pos() == end && r->Ok_0@.len() == count && forall|i: int|
                0 <= i < count ==> table_parsed(
                    #[trigger] r->Ok_0@[i],
                    d,
                    tables_pos(d, q, i as nat),
                )
            &&& r is Err ==> r == Err::<Vec<StringTable>, DecodeError>(DecodeError::TruncatedInput)
                && end > old(br).total_bits()
        }),
{
    let ghost d = br.bytes();
    let ghost q = br.pos();
    let mut tables: Vec<StringTable> = Vec::new();
    let mut i: u8 = 0;
    while i < count
        invariant
            br.wf(),
            br.bytes() == d,
            d == old(br).bytes(),
            q == old(br).pos(),
            i <= count,
            br.pos() == tables_pos(d, q, i as nat),
            tables@.len() == i,
            forall|k: int|
                0 <= k < i ==> table_parsed(#[trigger] tables@[k], d, tables_pos(d, q, k as nat)),
        decreases count - i,
    {
        let t = match StringTable::read(br) {
            Ok(t) => t,
            Err(e) => {
                proof {
                    lemma_tables_pos_mono(d, q, (i + 1) as nat, count as nat);
                }
                return Err(e);
            },
        };
        tables.push(t);
        i = i + 1;
    }
    Ok(tables)
}

impl StringTable {
    /// Reads a table: its name, the server entries, then, behind a presence
    /// bit, the client entries. On failure the cursor is left where it was.
    pub fn read(br: &mut BitReader) -> (r: Result<StringTable, DecodeError>)
        requires
            old(br).wf(),
        ensures
            ({
                let d = old(br).bytes();
                let p = old(br).pos();
                &&& table_end(d, p) <= old(br).total_bits() ==> r is Ok && old(br).at(
                    final(br),
                    table_end(d, p),
                )
                &&& table_end(d, p) > old(br).total_bits() ==> r == Err::<StringTable, DecodeError>(
                    DecodeError::TruncatedInput,
                ) && old(br).at(final(br), p)
                &&& r is Ok ==> table_parsed(r->Ok_0, d, p)
            }),
    {
        let start = br.position();
        let r = read_table(br);
        if r.is_err() {
            br.set_position(start);
        }
        r
    }
}

#[verifier::rlimit(50)]
fn read_table(br: &mut BitReader) -> (r: Result<StringTable, DecodeError>)
    requires
        old(br).wf(),
    ensures
        ({
            let d = old(br).bytes();
            let p = old(br).pos();
            &&& final(br).bytes() == d
            &&& final(br).wf()
            &&& table_end(d, p) <= old(br).total_bits() ==> r is Ok
            &&& r is Ok ==> final(br).pos() == table_end(d, p)
            &&& r is Err ==> r == Err::<StringTable, DecodeError>(DecodeError::TruncatedInput)
                && table_end(d, p) > old(br).total_bits()
            &&& r is Ok ==> table_parsed(r->Ok_0, d, p)
        }),
{
    let ghost d = br.bytes();
    let ghost p = br.pos();
    let ghost q1 = server_count_at(d, p) + 16;
    proof {
        lemma_entry_pos_mono(d, q1, 0, server_count(d, p));
        lemma_entry_pos_mono(d, server_list_end(d, p) + 17, 0, client_count(d, p));
    }
    let name = br.read_nullstring()?;
    let n1 = br.read_u16()?;
    let mut entries: Vec<StringTableString> = Vec::new();
    read_entries(br, n1, true, &mut entries)?;
    let ghost server_part = entries@;
    assert(forall|i: int|
        0 <= i < n1 ==> entry_parsed(#[trigger] server_part[i], d, entry_pos(d, q1, i as nat), true))
        by {
        assert forall|i: int| 0 <= i < n1 implies entry_parsed(
            #[trigger] server_part[i],
            d,
            entry_pos(d, q1, i as nat),
            true,
        ) by {
            assert(server_part[i] == server_part[0 + i]);
        }
    }
    assert(br.pos() == server_list_end(d, p));
    if br.read_bit()? {
        let n2 = br.read_u16()?;
        read_entries(br, n2, false, &mut entries)?;
        assert forall|i: int| 0 <= i < n1 implies entry_parsed(
            #[trigger] entries@[i],
            d,
            entry_pos(d, q1, i as nat),
            true,
        ) by {
            assert(entries@[i] == server_part[i]);
        }
    }
    let t = StringTable { name, entries };
    Ok(t)
}

} // verus!
