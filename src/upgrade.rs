//! The upgrades that money buys, their prices and their level caps.

use vstd::prelude::*;
use crate::catalog::{SandParticle, TIER_COUNT, unlock_cost, lemma_unlock_cost_increasing};
use crate::growth::{PRICE_LIMIT, capped_price, price_after_growth, lemma_capped_price_rises};

verus! {

/// Price of the first container upgrade.
pub const BIGGER_CONTAINER_BASE_COST: u64 = 50;

/// Price of the first auto clicker.
pub const AUTO_CLICKER_BASE_COST: u64 = 700;

/// Price of the first extra particle per click.
pub const MORE_PARTICLES_BASE_COST: u64 = 1000;

/// Highest level of the auto clicker.
pub const AUTO_CLICKER_MAX_LEVEL: u32 = 100;

/// Highest level of the extra particles per click.
pub const MORE_PARTICLES_MAX_LEVEL: u32 = 50;

/// The kinds of upgrade.
#[derive(Clone, Copy, Debug, PartialEq, Eq, Structural, Hash)]
pub enum Upgrade {
    /// Adds container space.
    BiggerContainer,
    /// Unlocks the next, more valuable, tier of sand.
    ParticleTier,
    /// Drops sand on its own; each level makes it faster.
    AutoClicker,
    /// Drops one more grain per click.
    MoreParticles,
}

impl Upgrade {
    pub open spec fn button_text(self) -> Seq<char> {
        match self {
            Upgrade::BiggerContainer => "Buy Bigger Container"@,
            Upgrade::ParticleTier => "Improve Sand Quality"@,
            Upgrade::AutoClicker => "Buy Auto Clicker"@,
            Upgrade::MoreParticles => "Buy More Particles"@,
        }
    }

    pub open spec fn description(self) -> Seq<char> {
        match self {
            Upgrade::BiggerContainer => "This will increase your container size:"@,
            Upgrade::ParticleTier => "This will allow you a chances to drop better sand:"@,
            Upgrade::AutoClicker => "This will drop sand for you:"@,
            Upgrade::MoreParticles => "This will allow you to drop more sand per click:"@,
        }
    }

    /// Price of the first level of a kind whose price grows by a tenth per level.
    pub open spec fn base_cost(self) -> int {
        match self {
            Upgrade::BiggerContainer => BIGGER_CONTAINER_BASE_COST as int,
            Upgrade::ParticleTier => 0,
            Upgrade::AutoClicker => AUTO_CLICKER_BASE_COST as int,
            Upgrade::MoreParticles => MORE_PARTICLES_BASE_COST as int,
        }
    }

    /// Price of going from level `n` to level `n + 1`: the unlock cost of the
    /// next tier for the tier upgrade, `base · 1.1^n` rounded for the others.
    pub open spec fn price_at(self, n: int) -> int {
        if self == Upgrade::ParticleTier {
            unlock_cost(n)
        } else {
            capped_price(self.base_cost(), n as nat)
        }
    }

    /// Highest level of the kind, if it has one.
    pub open spec fn level_cap(self) -> Option<u32> {
        match self {
            Upgrade::BiggerContainer => None,
            Upgrade::ParticleTier => Some(TIER_COUNT),
            Upgrade::AutoClicker => Some(AUTO_CLICKER_MAX_LEVEL),
            Upgrade::MoreParticles => Some(MORE_PARTICLES_MAX_LEVEL),
        }
    }

    /// Label of the button that buys this kind.
    pub fn btn_txt(&self) -> (t: &str)
        ensures
            t@ == self.button_text(),
    {
        match self {
            Upgrade::BiggerContainer => "Buy Bigger Container",
            Upgrade::ParticleTier => "Improve Sand Quality",
            Upgrade::AutoClicker => "Buy Auto Clicker",
            Upgrade::MoreParticles => "Buy More Particles",
        }
    }

    /// What buying this kind does.
    pub fn desc(&self) -> (t: &str)
        ensures
            t@ == self.description(),
    {
        match self {
            Upgrade::BiggerContainer => "This will increase your container size:",
            Upgrade::ParticleTier => "This will allow you a chances to drop better sand:",
            Upgrade::AutoClicker => "This will drop sand for you:",
            Upgrade::MoreParticles => "This will allow you to drop more sand per click:",
        }
    }

    /// Price of going from level `n` to level `n + 1`, in whole units.
    pub fn cost(&self, n: u32) -> (c: i64)
        ensures
            c == self.price_at(n as int),
            0 <= c,
    {
        match self {
            Upgrade::BiggerContainer => price_after_growth(BIGGER_CONTAINER_BASE_COST, n),
            Upgrade::ParticleTier => SandParticle::cost(n),
            Upgrade::AutoClicker => price_after_growth(AUTO_CLICKER_BASE_COST, n),
            Upgrade::MoreParticles => price_after_growth(MORE_PARTICLES_BASE_COST, n),
        }
    }

    /// Highest level of the kind, or `None` where it has no cap.
    pub fn max_level(&self) -> (m: Option<u32>)
        ensures
            m == self.level_cap(),
    {
        match self {
            Upgrade::ParticleTier => Some(SandParticle::max_level()),
            Upgrade::AutoClicker => Some(AUTO_CLICKER_MAX_LEVEL),
            Upgrade::MoreParticles => Some(MORE_PARTICLES_MAX_LEVEL),
            Upgrade::BiggerContainer => None,
        }
    }

    /// Every kind, in the order they are offered.
    pub fn all() -> (v: Vec<Upgrade>)
        ensures
            v@ == seq![
                Upgrade::BiggerContainer,
                Upgrade::ParticleTier,
                Upgrade::AutoClicker,
                Upgrade::MoreParticles,
            ],
    {
        let v = vec![
            Upgrade::BiggerContainer,
            Upgrade::ParticleTier,
            Upgrade::AutoClicker,
            Upgrade::MoreParticles,
        ];
        assert(v@ =~= seq![
            Upgrade::BiggerContainer,
            Upgrade::ParticleTier,
            Upgrade::AutoClicker,
            Upgrade::MoreParticles,
        ]);
        v
    }
}

/// One value for each kind of upgrade.
#[derive(Clone, Copy, Debug)]
pub struct PerUpgrade<T> {
    pub bigger_container: T,
    pub particle_tier: T,
    pub auto_clicker: T,
    pub more_particles: T,
}

impl<T: Copy> PerUpgrade<T> {
    pub open spec fn at(self, kind: Upgrade) -> T {
        match kind {
            Upgrade::BiggerContainer => self.bigger_container,
            Upgrade::ParticleTier => self.particle_tier,
            Upgrade::AutoClicker => self.auto_clicker,
            Upgrade::MoreParticles => self.more_particles,
        }
    }

    pub open spec fn with(self, kind: Upgrade, v: T) -> Self {
        match kind {
            Upgrade::BiggerContainer => PerUpgrade { bigger_container: v, ..self },
            Upgrade::ParticleTier => PerUpgrade { particle_tier: v, ..self },
            Upgrade::AutoClicker => PerUpgrade { auto_clicker: v, ..self },
            Upgrade::MoreParticles => PerUpgrade { more_particles: v, ..self },
        }
    }

    pub open spec fn uniform_spec(v: T) -> Self {
        PerUpgrade { bigger_container: v, particle_tier: v, auto_clicker: v, more_particles: v }
    }

    pub fn uniform(v: T) -> (p: Self)
        ensures
            p == Self::uniform_spec(v),
    {
        PerUpgrade { bigger_container: v, particle_tier: v, auto_clicker: v, more_particles: v }
    }

    pub fn get(&self, kind: Upgrade) -> (v: T)
        ensures
            v == self.at(kind),
    {
        match kind {
            Upgrade::BiggerContainer => self.bigger_container,
            Upgrade::ParticleTier => self.particle_tier,
            Upgrade::AutoClicker => self.auto_clicker,
            Upgrade::MoreParticles => self.more_particles,
        }
    }

    pub fn set(&mut self, kind: Upgrade, v: T)
        ensures
            *final(self) == old(self).with(kind, v),
    {
        match kind {
            Upgrade::BiggerContainer => self.bigger_container = v,
            Upgrade::ParticleTier => self.particle_tier = v,
            Upgrade::AutoClicker => self.auto_clicker = v,
            Upgrade::MoreParticles => self.more_particles = v,
        }
    }
}

/// The price of every kind never falls as its level rises. Kinds whose price
/// grows by a tenth per level rise strictly until the price reaches
/// `PRICE_LIMIT`; the tier upgrade follows the unlock table, which rises
/// strictly along the tiers that it holds.
pub proof fn lemma_cost_non_decreasing(kind: Upgrade, a: nat, b: nat)
    requires
        a <= b,
        kind == Upgrade::ParticleTier ==> b < TIER_COUNT,
    ensures
        kind.price_at(a as int) <= kind.price_at(b as int),
        kind == Upgrade::ParticleTier && a < b ==> kind.price_at(a as int) < kind.price_at(
            b as int,
        ),
        kind != Upgrade::ParticleTier && a < b && kind.price_at(a as int) < PRICE_LIMIT
            ==> kind.price_at(a as int) < kind.price_at(b as int),
        kind != Upgrade::ParticleTier && a < b && kind.price_at(b as int) < PRICE_LIMIT
            ==> kind.price_at(a as int) < kind.price_at(b as int),
    decreases b - a,
{
    if kind == Upgrade::ParticleTier {
        if a < b {
            lemma_unlock_cost_increasing(a as int, b as int);
        }
    } else if a < b {
        let m = (b - 1) as nat;
        lemma_cost_non_decreasing(kind, a, m);
        lemma_capped_price_rises(kind.base_cost(), m);
    }
}

} // verus!
