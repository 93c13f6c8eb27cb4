//! The table of particle tiers: value, unlock cost and colour of each.

use vstd::prelude::*;
use vstd::arithmetic::power::pow;

verus! {

/// Number of particle tiers.
pub const TIER_COUNT: u32 = 12;

/// A colour as its red, green and blue channels.
#[derive(Clone, Copy, Debug, PartialEq, Eq, Structural)]
pub struct Rgb {
    pub r: u8,
    pub g: u8,
    pub b: u8,
}

impl Rgb {
    pub fn from_rgb(r: u8, g: u8, b: u8) -> (c: Rgb)
        ensures
            c == (Rgb { r, g, b }),
    {
        Rgb { r, g, b }
    }

    pub fn white() -> (c: Rgb)
        ensures
            c == (Rgb { r: 255, g: 255, b: 255 }),
    {
        Rgb { r: 255, g: 255, b: 255 }
    }
}

/// The kinds of sand, from the cheapest to the most valuable.
#[derive(Clone, Copy, Debug, PartialEq, Eq, Structural, Hash)]
pub enum SandParticle {
    Sand,
    Quartz,
    Shell,
    Coral,
    Pinksand,
    Volcanic,
    Glauconite,
    Gemstones,
    Iron,
    Starsand,
    Gold,
    Diamond,
}

/// Price of unlocking the tier of ordinal `n`; nothing for an ordinal past the table.
pub open spec fn unlock_cost(n: int) -> int {
    if n == 0 {
        0
    } else if n == 1 {
        100
    } else if n == 2 {
        500
    } else if n == 3 {
        2000
    } else if n == 4 {
        8000
    } else if n == 5 {
        10000
    } else if n == 6 {
        50000
    } else if n == 7 {
        100000
    } else if n == 8 {
        500000
    } else if n == 9 {
        1000000
    } else if n == 10 {
        5000000
    } else if n == 11 {
        10000000
    } else {
        0
    }
}

/// The tier of ordinal `n`, if there is one.
pub open spec fn tier_of(n: int) -> Option<SandParticle> {
    if n == 0 {
        Some(SandParticle::Sand)
    } else if n == 1 {
        Some(SandParticle::Quartz)
    } else if n == 2 {
        Some(SandParticle::Shell)
    } else if n == 3 {
        Some(SandParticle::Coral)
    } else if n == 4 {
        Some(SandParticle::Pinksand)
    } else if n == 5 {
        Some(SandParticle::Volcanic)
    } else if n == 6 {
        Some(SandParticle::Glauconite)
    } else if n == 7 {
        Some(SandParticle::Gemstones)
    } else if n == 8 {
        Some(SandParticle::Iron)
    } else if n == 9 {
        Some(SandParticle::Starsand)
    } else if n == 10 {
        Some(SandParticle::Gold)
    } else if n == 11 {
        Some(SandParticle::Diamond)
    } else {
        None
    }
}

impl SandParticle {
    /// Position of the tier in the table, from 0.
    pub open spec fn ordinal(self) -> nat {
        match self {
            SandParticle::Sand => 0,
            SandParticle::Quartz => 1,
            SandParticle::Shell => 2,
            SandParticle::Coral => 3,
            SandParticle::Pinksand => 4,
            SandParticle::Volcanic => 5,
            SandParticle::Glauconite => 6,
            SandParticle::Gemstones => 7,
            SandParticle::Iron => 8,
            SandParticle::Starsand => 9,
            SandParticle::Gold => 10,
            SandParticle::Diamond => 11,
        }
    }

    /// Money one grain of this tier sells for: two to the power of its ordinal.
    pub open spec fn worth(self) -> int {
        pow(2, self.ordinal())
    }

    pub open spec fn spec_color(self) -> Rgb {
        match self {
            SandParticle::Sand => Rgb { r: 243, g: 213, b: 103 },
            SandParticle::Quartz => Rgb { r: 169, g: 170, b: 171 },
            SandParticle::Shell => Rgb { r: 255, g: 241, b: 231 },
            SandParticle::Coral => Rgb { r: 248, g: 131, b: 121 },
            SandParticle::Pinksand => Rgb { r: 246, g: 196, b: 193 },
            SandParticle::Volcanic => Rgb { r: 162, g: 151, b: 158 },
            SandParticle::Glauconite => Rgb { r: 46, g: 111, b: 64 },
            SandParticle::Gemstones => Rgb { r: 153, g: 102, b: 204 },
            SandParticle::Iron => Rgb { r: 133, g: 81, b: 65 },
            SandParticle::Starsand => Rgb { r: 255, g: 250, b: 134 },
            SandParticle::Gold => Rgb { r: 211, g: 175, b: 55 },
            SandParticle::Diamond => Rgb { r: 154, g: 197, b: 219 },
        }
    }

    /// The ordinal as a machine integer.
    pub fn index(&self) -> (n: u32)
        ensures
            n == self.ordinal(),
    {
        match self {
            SandParticle::Sand => 0,
            SandParticle::Quartz => 1,
            SandParticle::Shell => 2,
            SandParticle::Coral => 3,
            SandParticle::Pinksand => 4,
            SandParticle::Volcanic => 5,
            SandParticle::Glauconite => 6,
            SandParticle::Gemstones => 7,
            SandParticle::Iron => 8,
            SandParticle::Starsand => 9,
            SandParticle::Gold => 10,
            SandParticle::Diamond => 11,
        }
    }

    /// Money one grain of this tier sells for.
    pub fn value(&self) -> (v: i64)
        ensures
            v == self.worth(),
            1 <= v <= 2048,
    {
        proof {
            reveal_with_fuel(pow, 12);
        }
        match self {
            SandParticle::Sand => 1,
            SandParticle::Quartz => 2,
            SandParticle::Shell => 4,
            SandParticle::Coral => 8,
            SandParticle::Pinksand => 16,
            SandParticle::Volcanic => 32,
            SandParticle::Glauconite => 64,
            SandParticle::Gemstones => 128,
            SandParticle::Iron => 256,
            SandParticle::Starsand => 512,
            SandParticle::Gold => 1024,
            SandParticle::Diamond => 2048,
        }
    }

    /// Display colour of the tier.
    pub fn color(&self) -> (c: Rgb)
        ensures
            c == self.spec_color(),
    {
        match self {
            SandParticle::Sand => Rgb::from_rgb(243, 213, 103),
            SandParticle::Quartz => Rgb::from_rgb(169, 170, 171),
            SandParticle::Shell => Rgb::from_rgb(255, 241, 231),
            SandParticle::Coral => Rgb::from_rgb(248, 131, 121),
            SandParticle::Pinksand => Rgb::from_rgb(246, 196, 193),
            SandParticle::Volcanic => Rgb::from_rgb(162, 151, 158),
            SandParticle::Glauconite => Rgb::from_rgb(46, 111, 64),
            SandParticle::Gemstones => Rgb::from_rgb(153, 102, 204),
            SandParticle::Iron => Rgb::from_rgb(133, 81, 65),
            SandParticle::Starsand => Rgb::from_rgb(255, 250, 134),
            SandParticle::Gold => Rgb::from_rgb(211, 175, 55),
            SandParticle::Diamond => Rgb::from_rgb(154, 197, 219),
        }
    }

    /// Price of unlocking the tier of ordinal `num`; nothing past the last tier.
    pub fn cost(num: u32) -> (c: i64)
        ensures
            c == unlock_cost(num as int),
    {
        match SandParticle::from_u32(num) {
            Some(particle) => match particle {
                SandParticle::Sand => 0,
                SandParticle::Quartz => 100,
                SandParticle::Shell => 500,
                SandParticle::Coral => 2000,
                SandParticle::Pinksand => 8000,
                SandParticle::Volcanic => 10000,
                SandParticle::Glauconite => 50000,
                SandParticle::Gemstones => 100000,
                SandParticle::Iron => 500000,
                SandParticle::Starsand => 1000000,
                SandParticle::Gold => 5000000,
                SandParticle::Diamond => 10000000,
            },
            None => 0,
        }
    }

    /// The tier of ordinal `num`, or `None` past the last tier.
    pub fn from_u32(num: u32) -> (p: Option<SandParticle>)
        ensures
            p == tier_of(num as int),
            p.is_some() <==> num < TIER_COUNT,
            p matches Some(t) ==> t.ordinal() == num,
    {
        match num {
            0 => Some(SandParticle::Sand),
            1 => Some(SandParticle::Quartz),
            2 => Some(SandParticle::Shell),
            3 => Some(SandParticle::Coral),
            4 => Some(SandParticle::Pinksand),
            5 => Some(SandParticle::Volcanic),
            6 => Some(SandParticle::Glauconite),
            7 => Some(SandParticle::Gemstones),
            8 => Some(SandParticle::Iron),
            9 => Some(SandParticle::Starsand),
            10 => Some(SandParticle::Gold),
            11 => Some(SandParticle::Diamond),
            _ => None,
        }
    }

    /// Number of tiers, which is also the highest level of the tier upgrade.
    pub fn max_level() -> (n: u32)
        ensures
            n == TIER_COUNT,
    {
        TIER_COUNT
    }
}

/// Unlock costs rise strictly along the table.
pub proof fn lemma_unlock_cost_increasing(a: int, b: int)
    requires
        0 <= a < b < TIER_COUNT,
    ensures
        unlock_cost(a) < unlock_cost(b),
{
}

} // verus!
