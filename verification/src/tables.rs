//! The fixed sight-distance tables of the two design standards.
//!
//! AASHTO's table (Green Book table 3-35) gives stopping and passing
//! sight distances; CALTRANS's (HDM tables 201-1 and 201-7, 2020 7th
//! edition) gives stopping, passing and decision sight distances. Both
//! are keyed by design speed in miles per hour; distances are in feet.

use vstd::prelude::*;

use crate::datatypes::{DesignStandard, SightType};
use crate::fixed::{Fixed, SCALE};

verus! {

/// The AASHTO row for a design speed: (stopping, passing), in feet.
pub open spec fn aashto_row(speed: int) -> Option<(int, int)> {
    if speed == 15 {
        Some((80, 400))
    } else if speed == 20 {
        Some((115, 400))
    } else if speed == 25 {
        Some((155, 450))
    } else if speed == 30 {
        Some((200, 500))
    } else if speed == 35 {
        Some((250, 550))
    } else if speed == 40 {
        Some((305, 600))
    } else if speed == 45 {
        Some((360, 700))
    } else if speed == 50 {
        Some((425, 800))
    } else if speed == 55 {
        Some((495, 900))
    } else if speed == 60 {
        Some((570, 1000))
    } else if speed == 65 {
        Some((645, 1100))
    } else if speed == 70 {
        Some((730, 1200))
    } else if speed == 75 {
        Some((820, 1300))
    } else if speed == 80 {
        Some((910, 1400))
    } else {
        None
    }
}

/// The CALTRANS/HDM row for a design speed: (stopping, passing,
/// decision), in feet.
pub open spec fn hdm_row(speed: int) -> Option<(int, int, int)> {
    if speed == 10 {
        Some((50, 800, 450))
    } else if speed == 15 {
        Some((100, 800, 450))
    } else if speed == 20 {
        Some((125, 800, 450))
    } else if speed == 25 {
        Some((150, 950, 450))
    } else if speed == 30 {
        Some((200, 1100, 450))
    } else if speed == 35 {
        Some((250, 1300, 525))
    } else if speed == 40 {
        Some((300, 1500, 600))
    } else if speed == 45 {
        Some((360, 1650, 675))
    } else if speed == 50 {
        Some((430, 1800, 750))
    } else if speed == 55 {
        Some((500, 1950, 865))
    } else if speed == 60 {
        Some((580, 2100, 990))
    } else if speed == 65 {
        Some((660, 2300, 1050))
    } else if speed == 70 {
        Some((750, 2500, 1105))
    } else if speed == 75 {
        Some((840, 2600, 1180))
    } else if speed == 80 {
        Some((930, 2700, 1260))
    } else {
        None
    }
}

/// The minimum sight distance a (speed, standard, sight type) asks for,
/// in nano-feet: the tabled feet scaled, `None` where the tables leave
/// the combination undefined (AASHTO tables no decision distances).
pub open spec fn spec_min_sight(speed: int, standard: DesignStandard, sight: SightType) -> Option<
    int,
> {
    match standard {
        DesignStandard::AASHTO => match aashto_row(speed) {
            None => None,
            Some(row) => match sight {
                SightType::Stopping => Some(row.0 * (SCALE as int)),
                SightType::Passing => Some(row.1 * (SCALE as int)),
                SightType::Decision => None,
            },
        },
        DesignStandard::CALTRANS => match hdm_row(speed) {
            None => None,
            Some(row) => match sight {
                SightType::Stopping => Some(row.0 * (SCALE as int)),
                SightType::Passing => Some(row.1 * (SCALE as int)),
                SightType::Decision => Some(row.2 * (SCALE as int)),
            },
        },
    }
}

/// A whole number of feet as a scalar.
fn from_feet(v: i128) -> (r: Fixed)
    requires
        0 <= v <= 1_000_000,
    ensures
        r@ == v * (SCALE as int),
{
    Fixed::from_nano(v * SCALE).unwrap()
}

/// The AASHTO row for a design speed, as scalars.
fn aashto_row_exec(speed: i32) -> (r: Option<(Fixed, Fixed)>)
    ensures
        r is Some <==> aashto_row(speed as int) is Some,
        r matches Some(p) ==> {
            let row = aashto_row(speed as int).unwrap();
            p.0@ == row.0 * (SCALE as int) && p.1@ == row.1 * (SCALE as int)
        },
{
    let row: (i128, i128) = if speed == 15 {
        (80, 400)
    } else if speed == 20 {
        (115, 400)
    } else if speed == 25 {
        (155, 450)
    } else if speed == 30 {
        (200, 500)
    } else if speed == 35 {
        (250, 550)
    } else if speed == 40 {
        (305, 600)
    } else if speed == 45 {
        (360, 700)
    } else if speed == 50 {
        (425, 800)
    } else if speed == 55 {
        (495, 900)
    } else if speed == 60 {
        (570, 1000)
    } else if speed == 65 {
        (645, 1100)
    } else if speed == 70 {
        (730, 1200)
    } else if speed == 75 {
        (820, 1300)
    } else if speed == 80 {
        (910, 1400)
    } else {
        return None;
    };
    Some((from_feet(row.0), from_feet(row.1)))
}

/// The CALTRANS/HDM row for a design speed, as scalars.
fn hdm_row_exec(speed: i32) -> (r: Option<(Fixed, Fixed, Fixed)>)
    ensures
        r is Some <==> hdm_row(speed as int) is Some,
        r matches Some(p) ==> {
            let row = hdm_row(speed as int).unwrap();
            p.0@ == row.0 * (SCALE as int) && p.1@ == row.1 * (SCALE as int) && p.2@ == row.2 * (
            SCALE as int)
        },
{
    let row: (i128, i128, i128) = if speed == 10 {
        (50, 800, 450)
    } else if speed == 15 {
        (100, 800, 450)
    } else if speed == 20 {
        (125, 800, 450)
    } else if speed == 25 {
        (150, 950, 450)
    } else if speed == 30 {
        (200, 1100, 450)
    } else if speed == 35 {
        (250, 1300, 525)
    } else if speed == 40 {
        (300, 1500, 600)
    } else if speed == 45 {
        (360, 1650, 675)
    } else if speed == 50 {
        (430, 1800, 750)
    } else if speed == 55 {
        (500, 1950, 865)
    } else if speed == 60 {
        (580, 2100, 990)
    } else if speed == 65 {
        (660, 2300, 1050)
    } else if speed == 70 {
        (750, 2500, 1105)
    } else if speed == 75 {
        (840, 2600, 1180)
    } else if speed == 80 {
        (930, 2700, 1260)
    } else {
        return None;
    };
    Some((from_feet(row.0), from_feet(row.1), from_feet(row.2)))
}

/// Looks up the minimum sight distance, exactly as [`spec_min_sight`]
/// describes.
pub fn get_min_sight(
    design_speed: i32,
    design_standard: DesignStandard,
    sight_type: SightType,
) -> (r: Option<Fixed>)
    ensures
        r is Some <==> spec_min_sight(design_speed as int, design_standard, sight_type) is Some,
        r matches Some(v) ==> spec_min_sight(design_speed as int, design_standard, sight_type)
            == Some(v@),
        r matches Some(v) ==> 0 < v@ <= 2_700_000_000_000,
{
    match design_standard {
        DesignStandard::AASHTO => {
            let row = match aashto_row_exec(design_speed) {
                None => {
                    return None;
                },
                Some(row) => row,
            };
            match sight_type {
                SightType::Stopping => Some(row.0),
                SightType::Passing => Some(row.1),
                SightType::Decision => None,
            }
        },
        DesignStandard::CALTRANS => {
            let row = match hdm_row_exec(design_speed) {
                None => {
                    return None;
                },
                Some(row) => row,
            };
            match sight_type {
                SightType::Stopping => Some(row.0),
                SightType::Passing => Some(row.1),
                SightType::Decision => Some(row.2),
            }
        },
    }
}

} // verus!
