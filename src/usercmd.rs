use vstd::prelude::*;

use crate::bits::{bit_at, bits_value, i16_from_bits, opt_next, signed16, BitReader};
use crate::error::DecodeError;
use crate::lumps::RawVec3;

verus! {

/// Bits of the weapon selection and of the weapon subtype.
pub const WEAPON_SELECT_BITS: usize = 11;
pub const WEAPON_SUBTYPE_BITS: usize = 6;

/// Mouse movement since the previous command.
#[derive(Debug, Clone, Copy, PartialEq, Eq, Structural)]
pub struct MouseDelta {
    pub x: i16,
    pub y: i16,
}

/// A snapshot of player input. View angles and movement are
/// single-precision floats kept as bit patterns.
#[derive(Debug, Clone, Copy, PartialEq, Eq, Structural)]
pub struct UserCmd {
    pub command_number: u32,
    pub tick_count: u32,
    pub view_angles: RawVec3,
    pub movement: RawVec3,
    pub buttons: u32,
    pub impulse: u8,
    pub weapon_select: u32,
    pub weapon_subtype: u32,
    pub mouse_delta: MouseDelta,
}

pub open spec fn zero_usercmd() -> UserCmd {
    UserCmd {
        command_number: 0,
        tick_count: 0,
        view_angles: RawVec3 { x: 0, y: 0, z: 0 },
        movement: RawVec3 { x: 0, y: 0, z: 0 },
        buttons: 0,
        impulse: 0,
        weapon_select: 0,
        weapon_subtype: 0,
        mouse_delta: MouseDelta { x: 0, y: 0 },
    }
}

impl Default for UserCmd {
    fn default() -> (r: UserCmd)
        ensures
            r == zero_usercmd(),
    {
        UserCmd {
            command_number: 0,
            tick_count: 0,
            view_angles: RawVec3 { x: 0, y: 0, z: 0 },
            movement: RawVec3 { x: 0, y: 0, z: 0 },
            buttons: 0,
            impulse: 0,
            weapon_select: 0,
            weapon_subtype: 0,
            mouse_delta: MouseDelta { x: 0, y: 0 },
        }
    }
}

/// Value width of delta field `k`, in wire order: command number, tick
/// count, three view angles, three movement components, buttons (0 to 8),
/// impulse (9), weapon (10, see `weapon_next`), mouse x and y (11, 12).
pub open spec fn field_width(k: nat) -> nat {
    if k <= 8 {
        32
    } else if k == 9 {
        8
    } else {
        16
    }
}

/// Where the weapon field whose presence bit is at `q` ends: an 11-bit
/// selection, then a presence bit and a 6-bit subtype.
pub open spec fn weapon_next(d: Seq<u8>, q: int) -> int {
    if bit_at(d, q) {
        if bit_at(d, q + 12) {
            q + 19
        } else {
            q + 13
        }
    } else {
        q + 1
    }
}

/// Bit at which the presence bit of delta field `k` stands; field 13 is the
/// end of the payload.
#[verifier::opaque]
pub open spec fn uc_pos(d: Seq<u8>, p: int, k: nat) -> int
    decreases k,
{
    if k == 0 {
        p
    } else {
        let q = uc_pos(d, p, (k - 1) as nat);
        if k - 1 == 10 {
            weapon_next(d, q)
        } else {
            opt_next(d, q, field_width((k - 1) as nat))
        }
    }
}

pub open spec fn usercmd_end(d: Seq<u8>, p: int) -> int {
    uc_pos(d, p, 13)
}

pub open spec fn uc_has(d: Seq<u8>, p: int, k: nat) -> bool {
    bit_at(d, uc_pos(d, p, k))
}

pub open spec fn uc_field(d: Seq<u8>, p: int, k: nat) -> nat {
    bits_value(d, uc_pos(d, p, k) + 1, field_width(k))
}

pub open spec fn next_counter(v: u32) -> u32 {
    if v == u32::MAX {
        0
    } else {
        (v + 1) as u32
    }
}

pub open spec fn opt_u32(d: Seq<u8>, p: int, k: nat, prev: u32) -> u32 {
    if uc_has(d, p, k) {
        uc_field(d, p, k) as u32
    } else {
        prev
    }
}

pub open spec fn opt_i16(d: Seq<u8>, p: int, k: nat, prev: i16) -> i16 {
    if uc_has(d, p, k) {
        signed16(uc_field(d, p, k)) as i16
    } else {
        prev
    }
}

/// The command that the delta payload at bit `p` makes of `from`: each
/// field present on the wire replaces the previous one; the command number
/// and the tick count otherwise advance by one.
pub open spec fn usercmd_delta(d: Seq<u8>, p: int, from: UserCmd) -> UserCmd {
    let w = uc_pos(d, p, 10);
    UserCmd {
        command_number: if uc_has(d, p, 0) {
            uc_field(d, p, 0) as u32
        } else {
            next_counter(from.command_number)
        },
        tick_count: if uc_has(d, p, 1) {
            uc_field(d, p, 1) as u32
        } else {
            next_counter(from.tick_count)
        },
        view_angles: RawVec3 {
            x: opt_u32(d, p, 2, from.view_angles.x),
            y: opt_u32(d, p, 3, from.view_angles.y),
            z: opt_u32(d, p, 4, from.view_angles.z),
        },
        movement: RawVec3 {
            x: opt_u32(d, p, 5, from.movement.x),
            y: opt_u32(d, p, 6, from.movement.y),
            z: opt_u32(d, p, 7, from.movement.z),
        },
        buttons: opt_u32(d, p, 8, from.buttons),
        impulse: if uc_has(d, p, 9) {
            uc_field(d, p, 9) as u8
        } else {
            from.impulse
        },
        weapon_select: if bit_at(d, w) {
            bits_value(d, w + 1, 11) as u32
        } else {
            from.weapon_select
        },
        weapon_subtype: if bit_at(d, w) && bit_at(d, w + 12) {
            bits_value(d, w + 13, 6) as u32
        } else {
            from.weapon_subtype
        },
        mouse_delta: MouseDelta {
            x: opt_i16(d, p, 11, from.mouse_delta.x),
            y: opt_i16(d, p, 12, from.mouse_delta.y),
        },
    }
}

proof fn lemma_uc_pos_mono(d: Seq<u8>, p: int, k: nat, j: nat)
    requires
        k <= j,
    ensures
        uc_pos(d, p, k) <= uc_pos(d, p, j),
        uc_pos(d, p, 0) == p,
    decreases j,
{
    reveal(uc_pos);
    if k < j {
        lemma_uc_pos_mono(d, p, k, (j - 1) as nat);
    }
}

fn next_counter_exec(v: u32) -> (r: u32)
    ensures
        r == next_counter(v),
{
    if v == u32::MAX {
        0
    } else {
        v + 1
    }
}

/// Reads delta field `k` (not the weapon field): its value, or `prev` when
/// it is absent.
fn read_step(
    br: &mut BitReader,
    Ghost(d): Ghost<Seq<u8>>,
    Ghost(p): Ghost<int>,
    Ghost(k): Ghost<nat>,
    w: usize,
    prev: u32,
) -> (r: Result<u32, DecodeError>)
    requires
        old(br).wf(),
        old(br).bytes() == d,
        old(br).pos() == uc_pos(d, p, k),
        k < 13,
        k != 10,
        w == field_width(k),
    ensures
        final(br).bytes() == d,
        final(br).wf(),
        uc_pos(d, p, k + 1) <= old(br).total_bits() ==> r is Ok,
        r is Ok ==> final(br).pos() == uc_pos(d, p, k + 1) && r->Ok_0 == if uc_has(d, p, k) {
            uc_field(d, p, k) as u32
        } else {
            prev
        },
        r is Err ==> r == Err::<u32, DecodeError>(DecodeError::TruncatedInput) && uc_pos(
            d,
            p,
            k + 1,
        ) > old(br).total_bits(),
{
    proof {
        reveal(uc_pos);
    }
    match br.read_optional(w)? {
        Some(v) => Ok(v),
        None => Ok(prev),
    }
}

/// Reads delta field `k` (not the weapon field) as an option.
fn read_step_opt(
    br: &mut BitReader,
    Ghost(d): Ghost<Seq<u8>>,
    Ghost(p): Ghost<int>,
    Ghost(k): Ghost<nat>,
    w: usize,
) -> (r: Result<Option<u32>, DecodeError>)
    requires
        old(br).wf(),
        old(br).bytes() == d,
        old(br).pos() == uc_pos(d, p, k),
        k < 13,
        k != 10,
        w == field_width(k),
    ensures
        final(br).bytes() == d,
        final(br).wf(),
        uc_pos(d, p, k + 1) <= old(br).total_bits() ==> r is Ok,
        r is Ok ==> final(br).pos() == uc_pos(d, p, k + 1) && (r->Ok_0 is Some <==> uc_has(
            d,
            p,
            k,
        )) && (r->Ok_0 is Some ==> r->Ok_0->0 as nat == uc_field(d, p, k)),
        r is Err ==> r == Err::<Option<u32>, DecodeError>(DecodeError::TruncatedInput) && uc_pos(
            d,
            p,
            k + 1,
        ) > old(br).total_bits(),
{
    proof {
        reveal(uc_pos);
    }
    let r = br.read_optional(w);
    proof {
        if r is Ok && r->Ok_0 is Some {
            crate::bits::lemma_bits_value_bound(d, uc_pos(d, p, k) + 1, w as nat);
        }
    }
    r
}

/// Reads the weapon field: the new selection and subtype.
fn read_weapon(
    br: &mut BitReader,
    Ghost(d): Ghost<Seq<u8>>,
    Ghost(p): Ghost<int>,
    sel: u32,
    sub: u32,
) -> (r: Result<(u32, u32), DecodeError>)
    requires
        old(br).wf(),
        old(br).bytes() == d,
        old(br).pos() == uc_pos(d, p, 10),
    ensures
        final(br).bytes() == d,
        final(br).wf(),
        uc_pos(d, p, 11) <= old(br).total_bits() ==> r is Ok,
        r is Ok ==> {
            let w = uc_pos(d, p, 10);
            &&& final(br).pos() == uc_pos(d, p, 11)
            &&& r->Ok_0.0 == if bit_at(d, w) {
                bits_value(d, w + 1, 11) as u32
            } else {
                sel
            }
            &&& r->Ok_0.1 == if bit_at(d, w) && bit_at(d, w + 12) {
                bits_value(d, w + 13, 6) as u32
            } else {
                sub
            }
        },
        r is Err ==> r == Err::<(u32, u32), DecodeError>(DecodeError::TruncatedInput) && uc_pos(
            d,
            p,
            11,
        ) > old(br).total_bits(),
{
    proof {
        reveal(uc_pos);
    }
    let has_weapon = br.read_bit()?;
    if !has_weapon {
        return Ok((sel, sub));
    }
    let s = br.read_bits(WEAPON_SELECT_BITS)?;
    match br.read_optional(WEAPON_SUBTYPE_BITS)? {
        Some(v) => Ok((s, v)),
        None => Ok((s, sub)),
    }
}

impl UserCmd {
    /// Decodes a delta-compressed command from `br` against the previous
    /// command `from`. On failure the cursor is left where it was.
    pub fn read(br: &mut BitReader, from: &UserCmd) -> (r: Result<UserCmd, DecodeError>)
        requires
            old(br).wf(),
        ensures
            ({
                let d = old(br).bytes();
                let p = old(br).pos();
                let end = usercmd_end(d, p);
                &&& end <= old(br).total_bits() ==> r == Ok::<UserCmd, DecodeError>(
                    usercmd_delta(d, p, *from),
                ) && old(br).at(final(br), end)
                &&& end > old(br).total_bits() ==> r == Err::<UserCmd, DecodeError>(
                    DecodeError::TruncatedInput,
                ) && old(br).at(final(br), p)
            }),
    {
        let start = br.position();
        let r = read_delta(br, from);
        if r.is_err() {
            br.set_position(start);
        }
        r
    }
}

fn read_delta(br: &mut BitReader, from: &UserCmd) -> (r: Result<UserCmd, DecodeError>)
    requires
        old(br).wf(),
    ensures
        ({
            let d = old(br).bytes();
            let p = old(br).pos();
            let end = usercmd_end(d, p);
            &&& end <= old(br).total_bits() ==> r == Ok::<UserCmd, DecodeError>(
                usercmd_delta(d, p, *from),
            ) && old(br).at(final(br), end)
            &&& end > old(br).total_bits() ==> r == Err::<UserCmd, DecodeError>(
                DecodeError::TruncatedInput,
            ) && final(br).bytes() == d && final(br).wf()
        }),
{
    let ghost d = br.bytes();
    let ghost p = br.pos();
    proof {
        lemma_uc_pos_mono(d, p, 1, 13);
        lemma_uc_pos_mono(d, p, 2, 13);
        lemma_uc_pos_mono(d, p, 3, 13);
        lemma_uc_pos_mono(d, p, 4, 13);
        lemma_uc_pos_mono(d, p, 5, 13);
        lemma_uc_pos_mono(d, p, 6, 13);
        lemma_uc_pos_mono(d, p, 7, 13);
        lemma_uc_pos_mono(d, p, 8, 13);
        lemma_uc_pos_mono(d, p, 9, 13);
        lemma_uc_pos_mono(d, p, 10, 13);
        lemma_uc_pos_mono(d, p, 11, 13);
        lemma_uc_pos_mono(d, p, 12, 13);
        lemma_uc_pos_mono(d, p, 0, 0);
    }
    let command_number = read_step(
        br,
        Ghost(d),
        Ghost(p),
        Ghost(0),
        32,
        next_counter_exec(from.command_number),
    )?;
    let tick_count = read_step(br, Ghost(d), Ghost(p), Ghost(1), 32, next_counter_exec(from.tick_count))?;
    let ax = read_step(br, Ghost(d), Ghost(p), Ghost(2), 32, from.view_angles.x)?;
    let ay = read_step(br, Ghost(d), Ghost(p), Ghost(3), 32, from.view_angles.y)?;
    let az = read_step(br, Ghost(d), Ghost(p), Ghost(4), 32, from.view_angles.z)?;
    let mx = read_step(br, Ghost(d), Ghost(p), Ghost(5), 32, from.movement.x)?;
    let my = read_step(br, Ghost(d), Ghost(p), Ghost(6), 32, from.movement.y)?;
    let mz = read_step(br, Ghost(d), Ghost(p), Ghost(7), 32, from.movement.z)?;
    let buttons = read_step(br, Ghost(d), Ghost(p), Ghost(8), 32, from.buttons)?;
    let impulse = match read_step_opt(br, Ghost(d), Ghost(p), Ghost(9), 8)? {
        Some(v) => {
            proof {
                vstd::arithmetic::power2::lemma2_to64();
                crate::bits::lemma_bits_value_bound(d, uc_pos(d, p, 9) + 1, 8);
            }
            v as u8
        },
        None => from.impulse,
    };
    let (weapon_select, weapon_subtype) = read_weapon(
        br,
        Ghost(d),
        Ghost(p),
        from.weapon_select,
        from.weapon_subtype,
    )?;
    let dx = match read_step_opt(br, Ghost(d), Ghost(p), Ghost(11), 16)? {
        Some(v) => {
            proof {
                vstd::arithmetic::power2::lemma2_to64();
                crate::bits::lemma_bits_value_bound(d, uc_pos(d, p, 11) + 1, 16);
            }
            i16_from_bits(v as u16)
        },
        None => from.mouse_delta.x,
    };
    let dy = match read_step_opt(br, Ghost(d), Ghost(p), Ghost(12), 16)? {
        Some(v) => {
            proof {
                vstd::arithmetic::power2::lemma2_to64();
                crate::bits::lemma_bits_value_bound(d, uc_pos(d, p, 12) + 1, 16);
            }
            i16_from_bits(v as u16)
        },
        None => from.mouse_delta.y,
    };
    let cmd = UserCmd {
        command_number,
        tick_count,
        view_angles: RawVec3 { x: ax, y: ay, z: az },
        movement: RawVec3 { x: mx, y: my, z: mz },
        buttons,
        impulse,
        weapon_select,
        weapon_subtype,
        mouse_delta: MouseDelta { x: dx, y: dy },
    };
    Ok(cmd)
}

proof fn lemma_uc_pos_clear(d: Seq<u8>, p: int, k: nat)
    requires
        k <= 13,
        forall|j: int| 0 <= j < 13 ==> !#[trigger] bit_at(d, p + j),
    ensures
        uc_pos(d, p, k) == p + k,
    decreases k,
{
    reveal(uc_pos);
    if k > 0 {
        lemma_uc_pos_clear(d, p, (k - 1) as nat);
        assert(!bit_at(d, p + (k - 1)));
    }
}

/// A delta payload whose presence bits are all clear takes 13 bits, keeps
/// every field of the previous command, and advances the command number and
/// the tick count by one.
pub proof fn lemma_empty_delta(d: Seq<u8>, p: int, from: UserCmd)
    requires
        forall|k: int| 0 <= k < 13 ==> !#[trigger] bit_at(d, p + k),
    ensures
        usercmd_end(d, p) == p + 13,
        usercmd_delta(d, p, from) == (UserCmd {
            command_number: next_counter(from.command_number),
            tick_count: next_counter(from.tick_count),
            ..from
        }),
{
    lemma_uc_pos_clear(d, p, 13);
    assert forall|k: nat| k < 13 implies !uc_has(d, p, k) by {
        lemma_uc_pos_clear(d, p, k);
        assert(!bit_at(d, p + k));
    }
    assert(!uc_has(d, p, 0));
    assert(!uc_has(d, p, 1));
    assert(!uc_has(d, p, 10));
}

proof fn lemma_uc_pos_first_only(d: Seq<u8>, p: int, k: nat)
    requires
        1 <= k <= 13,
        bit_at(d, p),
        forall|j: int| 0 <= j < 12 ==> !#[trigger] bit_at(d, p + 33 + j),
    ensures
        uc_pos(d, p, k) == p + 32 + k,
    decreases k,
{
    reveal(uc_pos);
    if k > 1 {
        lemma_uc_pos_first_only(d, p, (k - 1) as nat);
        assert(!bit_at(d, p + 33 + (k - 2)));
        assert(uc_pos(d, p, (k - 1) as nat) == p + 33 + (k - 2));
    } else {
        assert(uc_pos(d, p, 0) == p);
        assert(uc_pos(d, p, 1) == opt_next(d, p, 32));
    }
}

/// A delta payload whose only set presence bit is the command number's
/// takes 45 bits: the command number becomes the 32-bit value on the wire,
/// the tick count advances by one, and every other field is kept.
pub proof fn lemma_command_number_only(d: Seq<u8>, p: int, from: UserCmd)
    requires
        bit_at(d, p),
        forall|j: int| 0 <= j < 12 ==> !#[trigger] bit_at(d, p + 33 + j),
    ensures
        usercmd_end(d, p) == p + 45,
        usercmd_delta(d, p, from) == (UserCmd {
            command_number: bits_value(d, p + 1, 32) as u32,
            tick_count: next_counter(from.tick_count),
            ..from
        }),
{
    lemma_uc_pos_first_only(d, p, 13);
    assert(uc_pos(d, p, 0) == p) by {
        reveal(uc_pos);
    }
    assert forall|k: nat| 1 <= k < 13 implies !uc_has(d, p, k) by {
        lemma_uc_pos_first_only(d, p, k);
        assert(!bit_at(d, p + 33 + (k - 1)));
    }
    assert(uc_has(d, p, 0));
    assert(!uc_has(d, p, 1));
    assert(!uc_has(d, p, 10));
}

} // verus!
