//! Digital readout (DRO): unit systems and the G54-G59 coordinate systems it
//! shows. Positions themselves are floating point and live outside the
//! verified library.

use vstd::prelude::*;

verus! {

/// Unit system for coordinates
#[derive(Debug, Clone, Copy, PartialEq, Eq, Structural)]
pub enum UnitSystem {
    /// Millimeters
    Millimeters,
    /// Inches
    Inches,
}

impl UnitSystem {
    /// The other unit system: what toggling the units switches to.
    pub fn toggled(&self) -> (u: UnitSystem)
        ensures
            u != *self,
    {
        match self {
            UnitSystem::Millimeters => UnitSystem::Inches,
            UnitSystem::Inches => UnitSystem::Millimeters,
        }
    }

    /// The abbreviation shown for the unit: "mm" or "in".
    pub fn to_string(&self) -> (s: String)
        ensures
            s@ == match self {
                UnitSystem::Millimeters => "mm"@,
                UnitSystem::Inches => "in"@,
            },
    {
        match self {
            UnitSystem::Millimeters => "mm".to_owned(),
            UnitSystem::Inches => "in".to_owned(),
        }
    }
}

/// Coordinate system (G54-G59)
#[derive(Debug, Clone, Copy, PartialEq, Eq, Structural)]
pub enum CoordinateSystem {
    /// G54 - Work coordinate system 1
    G54,
    /// G55 - Work coordinate system 2
    G55,
    /// G56 - Work coordinate system 3
    G56,
    /// G57 - Work coordinate system 4
    G57,
    /// G58 - Work coordinate system 5
    G58,
    /// G59 - Work coordinate system 6
    G59,
}

/// The six systems, in G-code order.
pub open spec fn all_coordinate_systems() -> Seq<CoordinateSystem> {
    seq![
        CoordinateSystem::G54,
        CoordinateSystem::G55,
        CoordinateSystem::G56,
        CoordinateSystem::G57,
        CoordinateSystem::G58,
        CoordinateSystem::G59,
    ]
}

impl CoordinateSystem {
    /// The G-code word of the system.
    pub open spec fn spec_name(self) -> Seq<char> {
        match self {
            CoordinateSystem::G54 => seq!['G', '5', '4'],
            CoordinateSystem::G55 => seq!['G', '5', '5'],
            CoordinateSystem::G56 => seq!['G', '5', '6'],
            CoordinateSystem::G57 => seq!['G', '5', '7'],
            CoordinateSystem::G58 => seq!['G', '5', '8'],
            CoordinateSystem::G59 => seq!['G', '5', '9'],
        }
    }

    /// Get all coordinate systems
    pub fn all() -> (v: Vec<Self>)
        ensures
            v@ == all_coordinate_systems(),
    {
        vec![
            CoordinateSystem::G54,
            CoordinateSystem::G55,
            CoordinateSystem::G56,
            CoordinateSystem::G57,
            CoordinateSystem::G58,
            CoordinateSystem::G59,
        ]
    }

    /// The displayed form: the G-code word of the system.
    pub fn to_string(&self) -> (s: String)
        ensures
            s@ == self.spec_name(),
    {
        proof {
            reveal_strlit("G54");
            reveal_strlit("G55");
            reveal_strlit("G56");
            reveal_strlit("G57");
            reveal_strlit("G58");
            reveal_strlit("G59");
        }
        match self {
            CoordinateSystem::G54 => "G54".to_owned(),
            CoordinateSystem::G55 => "G55".to_owned(),
            CoordinateSystem::G56 => "G56".to_owned(),
            CoordinateSystem::G57 => "G57".to_owned(),
            CoordinateSystem::G58 => "G58".to_owned(),
            CoordinateSystem::G59 => "G59".to_owned(),
        }
    }
}

} // verus!
