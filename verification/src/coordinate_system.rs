//! Work coordinate system identifiers (G54 to G59) and the zeroing
//! operations of the coordinate-system panel.

use vstd::prelude::*;

verus! {

/// Coordinate system identifier.
#[derive(Debug, Clone, Copy, PartialEq, Eq, Structural, Hash, PartialOrd, Ord)]
pub enum CoordinateSystemId {
    /// G54 - Work coordinate system 1
    G54,
    /// G55 - Work coordinate system 2
    G55,
    /// G56 - Work coordinate system 3
    G56,
    /// G57 - Work coordinate system 4
    G57,
    /// G58 - Work coordinate system 5
    G58,
    /// G59 - Work coordinate system 6
    G59,
}

/// The six systems, in G-code order.
pub open spec fn all_system_ids() -> Seq<CoordinateSystemId> {
    seq![
        CoordinateSystemId::G54,
        CoordinateSystemId::G55,
        CoordinateSystemId::G56,
        CoordinateSystemId::G57,
        CoordinateSystemId::G58,
        CoordinateSystemId::G59,
    ]
}

impl CoordinateSystemId {
    /// The number of the system, 1 for G54 up to 6 for G59.
    pub open spec fn spec_number(self) -> u8 {
        match self {
            CoordinateSystemId::G54 => 1,
            CoordinateSystemId::G55 => 2,
            CoordinateSystemId::G56 => 3,
            CoordinateSystemId::G57 => 4,
            CoordinateSystemId::G58 => 5,
            CoordinateSystemId::G59 => 6,
        }
    }

    /// The G-code word that selects the system: "G" followed by 53 plus its
    /// number.
    pub open spec fn spec_gcode(self) -> Seq<char> {
        match self {
            CoordinateSystemId::G54 => seq!['G', '5', '4'],
            CoordinateSystemId::G55 => seq!['G', '5', '5'],
            CoordinateSystemId::G56 => seq!['G', '5', '6'],
            CoordinateSystemId::G57 => seq!['G', '5', '7'],
            CoordinateSystemId::G58 => seq!['G', '5', '8'],
            CoordinateSystemId::G59 => seq!['G', '5', '9'],
        }
    }

    /// Get all coordinate systems
    pub fn all() -> (v: Vec<Self>)
        ensures
            v@ == all_system_ids(),
    {
        vec![
            CoordinateSystemId::G54,
            CoordinateSystemId::G55,
            CoordinateSystemId::G56,
            CoordinateSystemId::G57,
            CoordinateSystemId::G58,
            CoordinateSystemId::G59,
        ]
    }

    /// Get G-code command
    pub fn gcode(&self) -> (s: &'static str)
        ensures
            s@ == self.spec_gcode(),
    {
        proof {
            reveal_strlit("G54");
            reveal_strlit("G55");
            reveal_strlit("G56");
            reveal_strlit("G57");
            reveal_strlit("G58");
            reveal_strlit("G59");
        }
        match self {
            CoordinateSystemId::G54 => "G54",
            CoordinateSystemId::G55 => "G55",
            CoordinateSystemId::G56 => "G56",
            CoordinateSystemId::G57 => "G57",
            CoordinateSystemId::G58 => "G58",
            CoordinateSystemId::G59 => "G59",
        }
    }

    /// Get system number (1-6)
    pub fn number(&self) -> (n: u8)
        ensures
            n == self.spec_number(),
            1 <= n <= 6,
    {
        match self {
            CoordinateSystemId::G54 => 1,
            CoordinateSystemId::G55 => 2,
            CoordinateSystemId::G56 => 3,
            CoordinateSystemId::G57 => 4,
            CoordinateSystemId::G58 => 5,
            CoordinateSystemId::G59 => 6,
        }
    }

    /// The displayed form of the identifier: its G-code word.
    pub fn to_string(&self) -> (s: String)
        ensures
            s@ == self.spec_gcode(),
    {
        self.gcode().to_owned()
    }
}

impl CoordinateSystemId {
    /// The description a work coordinate system starts with:
    /// "Work Coordinate System " and its number.
    pub fn default_description(&self) -> (s: String)
        ensures
            s@ == "Work Coordinate System "@ + crate::text::decimal(self.spec_number() as nat),
    {
        let mut s = "Work Coordinate System ".to_owned();
        let n = crate::text::decimal_string(self.number() as u64);
        crate::text::push_str(&mut s, n.as_str());
        s
    }

    /// The short label of a system: "WCS " and its number.
    pub fn short_label(&self) -> (s: String)
        ensures
            s@ == "WCS "@ + crate::text::decimal(self.spec_number() as nat),
    {
        let mut s = "WCS ".to_owned();
        let n = crate::text::decimal_string(self.number() as u64);
        crate::text::push_str(&mut s, n.as_str());
        s
    }
}

/// The number of axes a panel works with: the requested count brought into
/// the range 3 to 6.
pub fn clamp_axis_count(count: u8) -> (n: u8)
    ensures
        n == if count > 6 { 6 } else if count < 3 { 3 } else { count },
{
    let m = if count < 6 { count } else { 6 };
    if m > 3 { m } else { 3 }
}

/// Whether a machine with `axis_count` axes has rotary axes (4 or more
/// axes).
pub fn rotary_axes_available(axis_count: u8) -> (b: bool)
    ensures
        b == (axis_count >= 4),
{
    axis_count >= 4
}

/// The G-code word of every system is "G" followed by the decimal form of
/// 53 plus the system's number, and `all` lists each system once, ordered by
/// number from 1 to 6.
pub proof fn law_gcode_follows_number(id: CoordinateSystemId)
    ensures
        id.spec_gcode() == seq!['G'] + crate::text::decimal((53 + id.spec_number()) as nat),
        all_system_ids().len() == 6,
        all_system_ids()[id.spec_number() - 1] == id,
        forall|i: int| 0 <= i < 6 ==> (#[trigger] all_system_ids()[i]).spec_number() == i + 1,
{
    let n = (53 + id.spec_number()) as nat;
    assert(crate::text::decimal(n / 10) == seq!['5']);
    assert(crate::text::decimal(n) =~= seq!['5', crate::text::digit_char((n % 10) as int)]);
    assert(id.spec_gcode() =~= seq!['G'] + crate::text::decimal(n));
}

/// Zero operation type
#[derive(Debug, Clone, Copy, PartialEq, Eq, Structural)]
pub enum ZeroType {
    /// Zero X axis only
    X,
    /// Zero Y axis only
    Y,
    /// Zero Z axis only
    Z,
    /// Zero A axis only (4th axis)
    A,
    /// Zero B axis only (5th axis)
    B,
    /// Zero C axis only (6th axis)
    C,
    /// Zero all axes
    All,
}

/// The axis words that a zero operation of this type sets to zero:
/// " X0" for X, and so on; all six for `All`.
pub open spec fn zero_words(t: ZeroType) -> Seq<char> {
    match t {
        ZeroType::X => " X0"@,
        ZeroType::Y => " Y0"@,
        ZeroType::Z => " Z0"@,
        ZeroType::A => " A0"@,
        ZeroType::B => " B0"@,
        ZeroType::C => " C0"@,
        ZeroType::All => " X0 Y0 Z0 A0 B0 C0"@,
    }
}

impl ZeroType {
    /// The axis letter of a single-axis zero operation.
    pub open spec fn spec_axis_char(self) -> Option<char> {
        match self {
            ZeroType::X => Some('X'),
            ZeroType::Y => Some('Y'),
            ZeroType::Z => Some('Z'),
            ZeroType::A => Some('A'),
            ZeroType::B => Some('B'),
            ZeroType::C => Some('C'),
            ZeroType::All => None,
        }
    }

    /// Get G-code command for setting this axis to zero (G92)
    pub fn to_g92_command(&self) -> (s: &'static str)
        ensures
            s@ == "G92"@ + zero_words(*self),
    {
        proof {
            reveal_strlit("G92");
            reveal_strlit(" X0");
            reveal_strlit(" Y0");
            reveal_strlit(" Z0");
            reveal_strlit(" A0");
            reveal_strlit(" B0");
            reveal_strlit(" C0");
            reveal_strlit(" X0 Y0 Z0 A0 B0 C0");
            reveal_strlit("G92 X0");
            reveal_strlit("G92 Y0");
            reveal_strlit("G92 Z0");
            reveal_strlit("G92 A0");
            reveal_strlit("G92 B0");
            reveal_strlit("G92 C0");
            reveal_strlit("G92 X0 Y0 Z0 A0 B0 C0");
        }
        let s = match self {
            ZeroType::X => "G92 X0",
            ZeroType::Y => "G92 Y0",
            ZeroType::Z => "G92 Z0",
            ZeroType::A => "G92 A0",
            ZeroType::B => "G92 B0",
            ZeroType::C => "G92 C0",
            ZeroType::All => "G92 X0 Y0 Z0 A0 B0 C0",
        };
        assert(s@ =~= "G92"@ + zero_words(*self));
        s
    }

    /// Get G-code command for setting this axis to zero (G10)
    pub fn to_g10_command(&self) -> (s: &'static str)
        ensures
            s@ == "G10 L20 P0"@ + zero_words(*self),
    {
        proof {
            reveal_strlit("G10 L20 P0");
            reveal_strlit(" X0");
            reveal_strlit(" Y0");
            reveal_strlit(" Z0");
            reveal_strlit(" A0");
            reveal_strlit(" B0");
            reveal_strlit(" C0");
            reveal_strlit(" X0 Y0 Z0 A0 B0 C0");
            reveal_strlit("G10 L20 P0 X0");
            reveal_strlit("G10 L20 P0 Y0");
            reveal_strlit("G10 L20 P0 Z0");
            reveal_strlit("G10 L20 P0 A0");
            reveal_strlit("G10 L20 P0 B0");
            reveal_strlit("G10 L20 P0 C0");
            reveal_strlit("G10 L20 P0 X0 Y0 Z0 A0 B0 C0");
        }
        let s = match self {
            ZeroType::X => "G10 L20 P0 X0",
            ZeroType::Y => "G10 L20 P0 Y0",
            ZeroType::Z => "G10 L20 P0 Z0",
            ZeroType::A => "G10 L20 P0 A0",
            ZeroType::B => "G10 L20 P0 B0",
            ZeroType::C => "G10 L20 P0 C0",
            ZeroType::All => "G10 L20 P0 X0 Y0 Z0 A0 B0 C0",
        };
        assert(s@ =~= "G10 L20 P0"@ + zero_words(*self));
        s
    }

    /// Get axis character if single axis
    pub fn axis_char(&self) -> (c: Option<char>)
        ensures
            c == self.spec_axis_char(),
    {
        match self {
            ZeroType::X => Some('X'),
            ZeroType::Y => Some('Y'),
            ZeroType::Z => Some('Z'),
            ZeroType::A => Some('A'),
            ZeroType::B => Some('B'),
            ZeroType::C => Some('C'),
            ZeroType::All => None,
        }
    }

    /// The displayed name of the operation: "Zero " and the axis letter, or
    /// "Zero All".
    pub fn to_string(&self) -> (s: String)
        ensures
            s@ == "Zero "@ + match self.spec_axis_char() {
                Some(a) => seq![a],
                None => "All"@,
            },
    {
        proof {
            reveal_strlit("Zero ");
            reveal_strlit("All");
        }
        let mut s = String::new();
        crate::text::push_str(&mut s, "Zero ");
        match self.axis_char() {
            Some(a) => crate::text::push_char(&mut s, a),
            None => crate::text::push_str(&mut s, "All"),
        }
        s
    }
}

/// A single-axis zero operation sets just its own axis word: a space, the
/// axis letter and "0", in both the G92 and the G10 form.
pub proof fn law_single_axis_zero_word(t: ZeroType)
    requires
        t != ZeroType::All,
    ensures
        t.spec_axis_char() matches Some(a) && zero_words(t) == seq![' ', a, '0'],
{
    reveal_strlit(" X0");
    reveal_strlit(" Y0");
    reveal_strlit(" Z0");
    reveal_strlit(" A0");
    reveal_strlit(" B0");
    reveal_strlit(" C0");
    assert(zero_words(t) =~= seq![' ', t.spec_axis_char().unwrap(), '0']);
}

/// Whether a machine with `axis_count` axes has the axis that a zero
/// operation sets: X, Y, Z and all axes always; A from 4 axes, B from 5, C
/// from 6.
pub open spec fn zero_available(t: ZeroType, axis_count: u8) -> bool {
    match t {
        ZeroType::A => axis_count >= 4,
        ZeroType::B => axis_count >= 5,
        ZeroType::C => axis_count >= 6,
        _ => true,
    }
}

/// The G92 command that zeroes an axis on a machine with `axis_count` axes,
/// or none when the machine lacks that axis.
pub fn zero_gcode_for_axes(zero_type: ZeroType, axis_count: u8) -> (r: Option<&'static str>)
    ensures
        r is Some <==> zero_available(zero_type, axis_count),
        r matches Some(s) ==> s@ == "G92"@ + zero_words(zero_type),
{
    let available = match zero_type {
        ZeroType::A => axis_count >= 4,
        ZeroType::B => axis_count >= 5,
        ZeroType::C => axis_count >= 6,
        _ => true,
    };
    if available {
        Some(zero_type.to_g92_command())
    } else {
        None
    }
}

/// The position of an axis in the order X, Y, Z, A, B, C (1 to 6); 0 for
/// zeroing all axes.
pub open spec fn axis_index(t: ZeroType) -> int {
    match t.spec_axis_char() {
        Some(a) => if a == 'X' { 1 } else if a == 'Y' { 2 } else if a == 'Z' { 3 } else if a == 'A' { 4 } else if a == 'B' { 5 } else { 6 },
        None => 0,
    }
}

/// On a machine with `n` axes, the rotary axes A, B and C (positions 4, 5
/// and 6) can be zeroed exactly when their position is at most `n`; the
/// linear axes X, Y and Z and the zeroing of all axes are always available.
/// An available zeroing gives the G92 command of that axis.
pub proof fn law_zero_available_by_axis_count(t: ZeroType, n: u8)
    ensures
        axis_index(t) >= 4 ==> (zero_available(t, n) <==> axis_index(t) <= n),
        axis_index(t) < 4 ==> zero_available(t, n),
        t == ZeroType::A ==> axis_index(t) == 4,
        t == ZeroType::B ==> axis_index(t) == 5,
        t == ZeroType::C ==> axis_index(t) == 6,
        t == ZeroType::B && n >= 5 ==> zero_available(t, n) && "G92"@ + zero_words(t) == "G92 B0"@,
{
    reveal_strlit("G92");
    reveal_strlit(" B0");
    reveal_strlit("G92 B0");
    assert("G92"@ + " B0"@ =~= "G92 B0"@);
}

} // verus!
