//! Tints: a solid colour that replaces texture sampling for some blocks.

use vstd::prelude::*;
use crate::table::StringMap;
use crate::text::same_text;

verus! {

/// The value that stands for a colour channel at full strength.
pub const TINT_ONE: u16 = 2250;

/// An opaque colour; each channel is a fraction of `TINT_ONE`.
#[derive(Clone, Copy, PartialEq, Eq, Debug, Structural)]
pub struct Tint {
    pub r: u16,
    pub g: u16,
    pub b: u16,
}

/// The tints that are known.
#[derive(Clone, Copy, PartialEq, Eq, Debug, Structural)]
pub enum TintKind {
    /// The colour of a power wire, which follows its power.
    PowerWire,
    /// Any other request; it is answered with white.
    Unsupported,
}

/// `v`, held between `lo` and `hi`.
pub open spec fn clamp(v: int, lo: int, hi: int) -> int {
    if v < lo {
        lo
    } else if v > hi {
        hi
    } else {
        v
    }
}

/// The colour of a power wire at power `p`. With `f = p / 15`: red is
/// `0.6 f + 0.4`, or `0.3` without power; green is `0.7 f^2 - 0.5` and blue
/// `0.6 f^2 - 0.7`, both held between 0 and 1.
pub open spec fn power_tint(p: int) -> Tint {
    Tint {
        r: (if p > 0 {
            90 * p + 900
        } else {
            675
        }) as u16,
        g: clamp(7 * p * p - 1125, 0, 2250) as u16,
        b: clamp(6 * p * p - 1575, 0, 2250) as u16,
    }
}

/// Opaque white, the colour of every tint of an unknown kind.
pub open spec fn white() -> Tint {
    Tint { r: 2250, g: 2250, b: 2250 }
}

/// Whether `c` is a decimal digit.
pub open spec fn is_digit(c: char) -> bool {
    '0' <= c <= '9'
}

/// Whether `s` is one or more decimal digits.
pub open spec fn is_digits(s: Seq<char>) -> bool {
    s.len() > 0 && forall|i: int| 0 <= i < s.len() ==> is_digit(#[trigger] s[i])
}

/// The number that the digits `s` write.
pub open spec fn decimal_value(s: Seq<char>) -> int
    decreases s.len(),
{
    if s.len() == 0 {
        0
    } else {
        10 * decimal_value(s.drop_last()) + (s.last() as int - '0' as int)
    }
}

/// The power that the text `s` states: its number if it is made of digits
/// and at most 15, else 0.
pub open spec fn power_of(s: Seq<char>) -> int {
    if is_digits(s) && decimal_value(s) <= 15 {
        decimal_value(s)
    } else {
        0
    }
}

/// The power that a block's properties state.
pub open spec fn power_from(props: Map<Seq<char>, Seq<char>>) -> int {
    if props.contains_key("power"@) {
        power_of(props["power"@])
    } else {
        0
    }
}

/// The kind of tint number `tint_idx` of the block `block_name`: only
/// tint 0 of the power wire is known.
pub open spec fn tint_kind(block_name: Seq<char>, tint_idx: int) -> TintKind {
    if block_name == "minecraft:redstone_wire"@ && tint_idx == 0 {
        TintKind::PowerWire
    } else {
        TintKind::Unsupported
    }
}

/// The tint of a block: the power-wire colour where that is the kind, else
/// white.
pub open spec fn tint_for(block_name: Seq<char>, props: Map<Seq<char>, Seq<char>>, tint_idx: int)
    -> Tint {
    match tint_kind(block_name, tint_idx) {
        TintKind::PowerWire => power_tint(power_from(props)),
        TintKind::Unsupported => white(),
    }
}

/// The power that the text `value` states.
pub fn parse_power(value: &str) -> (p: u8)
    ensures
        p == power_of(value@),
        p <= 15,
{
    let n = value.unicode_len();
    if n == 0 {
        return 0;
    }
    let mut acc: u32 = 0;
    let mut i: usize = 0;
    assert(value@.take(0) =~= Seq::<char>::empty());
    while i < n
        invariant
            n == value@.len(),
            0 <= i <= n,
            forall|j: int| 0 <= j < i ==> is_digit(#[trigger] value@[j]),
            acc <= 16,
            acc < 16 ==> acc == decimal_value(value@.take(i as int)),
            acc == 16 ==> decimal_value(value@.take(i as int)) >= 16,
        decreases n - i,
    {
        let c = value.get_char(i);
        if c < '0' || c > '9' {
            assert(!is_digit(value@[i as int]));
            return 0;
        }
        let digit: u32 = c as u32 - '0' as u32;
        assert(value@.take(i + 1).drop_last() =~= value@.take(i as int));
        assert(value@.take(i + 1).last() == c);
        let next: u32 = acc * 10 + digit;
        acc = if next > 16 {
            16
        } else {
            next
        };
        i += 1;
    }
    assert(value@.take(n as int) =~= value@);
    if acc > 15 {
        0
    } else {
        acc as u8
    }
}

/// The colour of a power wire at power `p`.
pub fn power_wire_tint(p: u8) -> (t: Tint)
    requires
        p <= 15,
    ensures
        t == power_tint(p as int),
{
    let q: u16 = p as u16;
    let r: u16 = if q > 0 {
        90 * q + 900
    } else {
        675
    };
    assert(q * q <= 225) by (nonlinear_arith)
        requires
            0 <= q <= 15,
    ;
    let sq: u16 = q * q;
    assert(7 * p * p == 7 * sq && 6 * p * p == 6 * sq) by (nonlinear_arith)
        requires
            sq == q * q,
            q == p,
    ;
    let g: u16 = if 7 * sq > 1125 {
        7 * sq - 1125
    } else {
        0
    };
    let b: u16 = if 6 * sq > 1575 {
        6 * sq - 1575
    } else {
        0
    };
    Tint { r, g, b }
}

/// The kind of tint number `tint_idx` of the block `block_name`.
pub fn classify_tint(block_name: &str, tint_idx: usize) -> (k: TintKind)
    ensures
        k == tint_kind(block_name@, tint_idx as int),
{
    if tint_idx == 0 && same_text(block_name, "minecraft:redstone_wire") {
        TintKind::PowerWire
    } else {
        TintKind::Unsupported
    }
}

/// The tint of tint number `tint_idx` of the block `block_name` with the
/// properties `block_props`. A tint of an unknown kind is white; this never
/// fails.
pub fn get_tint_for_block(block_name: &str, block_props: &StringMap, tint_idx: usize) -> (t: Tint)
    ensures
        t == tint_for(block_name@, block_props@, tint_idx as int),
{
    match classify_tint(block_name, tint_idx) {
        TintKind::PowerWire => {
            let power = match block_props.get("power") {
                Some(value) => parse_power(value),
                None => 0,
            };
            power_wire_tint(power)
        },
        TintKind::Unsupported => Tint { r: 2250, g: 2250, b: 2250 },
    }
}

} // verus!
