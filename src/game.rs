//! The state of one game and the rules that change it: dropping grains into
//! the container, the physics step, the auto clicker, selling and buying.

use vstd::prelude::*;
use vstd::arithmetic::power::{pow, lemma_pow_positive};
use crate::catalog::{SandParticle, TIER_COUNT};
use crate::grain::{Grain, FIELD_WIDTH, GRAIN_SIZE, MAX_STEP};
use crate::growth::{PRICE_LIMIT, min_int};
use crate::random::{random_between, random_u32};
use crate::upgrade::{Upgrade, PerUpgrade, AUTO_CLICKER_MAX_LEVEL, MORE_PARTICLES_MAX_LEVEL};

verus! {

/// Grains that the container holds before any upgrade.
pub const BASE_CAPACITY: u64 = 25;

/// Time between two drops of an auto clicker of level one, five seconds.
pub const AUTO_CLICK_PERIOD: u64 = 5000000;

/// Farthest that an extra grain of one drop lands from the point asked for,
/// 50 pixels on each axis.
pub const SCATTER: i64 = 50000000;

/// One step of the physics, a thirtieth of a second.
pub const TICK: u64 = 33333;

/// Farthest from the origin that a drop can be asked for, vertically.
pub const DROP_LIMIT: i64 = 400000000000000;

/// Grains that the container holds with `level` container upgrades.
pub open spec fn capacity_for(level: u32) -> int {
    BASE_CAPACITY * (1 + level)
}

/// Number of grains that per-tier counts stand for.
pub open spec fn count_total(c: Seq<u64>) -> int
    decreases c.len(),
{
    if c.len() == 0 {
        0
    } else {
        count_total(c.drop_last()) + c.last()
    }
}

/// Money that per-tier counts sell for: each grain of ordinal `i` is worth `2^i`.
pub open spec fn stock_value(c: Seq<u64>) -> int
    decreases c.len(),
{
    if c.len() == 0 {
        0
    } else {
        stock_value(c.drop_last()) + c.last() * pow(2, (c.len() - 1) as nat)
    }
}

/// Ordinal of the tier picked at tier level `level` by the random number `draw`:
/// the draw reduced below the level, and the first tier when no tier is unlocked.
pub open spec fn drawn_ordinal(level: u32, draw: u32) -> int {
    if level == 0 {
        0
    } else if draw % level < TIER_COUNT {
        (draw % level) as int
    } else {
        0
    }
}

/// Each of `grains` after a physics step of `dt` microseconds.
pub open spec fn all_stepped(grains: Seq<Grain>, dt: nat) -> Seq<Grain> {
    Seq::new(grains.len(), |i: int| grains[i].stepped(dt))
}

/// The grain has the colour of a tier of ordinal below `n`.
pub open spec fn colored_below(g: Grain, n: int) -> bool {
    exists|p: SandParticle| p.ordinal() < n && #[trigger] p.spec_color() == g.color
}

/// Where a grain lands across the field: `x` held between the walls.
pub open spec fn clamped_x(x: int) -> int {
    if x < 0 {
        0
    } else if x > FIELD_WIDTH {
        FIELD_WIDTH as int
    } else {
        x
    }
}

proof fn lemma_count_update(c: Seq<u64>, i: int, v: u64)
    requires
        0 <= i < c.len(),
    ensures
        count_total(c.update(i, v)) == count_total(c) - c[i] + v,
        stock_value(c.update(i, v)) == stock_value(c) + (v - c[i]) * pow(2, i as nat),
    decreases c.len(),
{
    let d = c.update(i, v);
    if i < c.len() - 1 {
        assert(d.drop_last() =~= c.drop_last().update(i, v));
        lemma_count_update(c.drop_last(), i, v);
        assert(d.last() == c.last());
    } else {
        assert(d.drop_last() =~= c.drop_last());
        let p = pow(2, i as nat);
        assert(v * p == c[i] * p + (v - c[i]) * p) by (nonlinear_arith);
    }
}

proof fn lemma_count_bounds(c: Seq<u64>, i: int)
    requires
        0 <= i < c.len(),
    ensures
        0 <= c[i] <= count_total(c),
        0 <= c[i] * pow(2, i as nat) <= stock_value(c),
        0 <= count_total(c),
        0 <= stock_value(c),
    decreases c.len(),
{
    lemma_count_nonneg(c);
    lemma_pow_positive(2, i as nat);
    if i < c.len() - 1 {
        lemma_count_bounds(c.drop_last(), i);
        let p = pow(2, (c.len() - 1) as nat);
        lemma_pow_positive(2, (c.len() - 1) as nat);
        assert(0 <= c.last() * p) by (nonlinear_arith)
            requires
                0 < p,
        ;
    } else {
        lemma_count_nonneg(c.drop_last());
    }
    assert(0 <= c[i] * pow(2, i as nat)) by (nonlinear_arith)
        requires
            0 < pow(2, i as nat),
    ;
}

proof fn lemma_count_nonneg(c: Seq<u64>)
    ensures
        0 <= count_total(c),
        0 <= stock_value(c),
    decreases c.len(),
{
    if c.len() > 0 {
        lemma_count_nonneg(c.drop_last());
        let p = pow(2, (c.len() - 1) as nat);
        lemma_pow_positive(2, (c.len() - 1) as nat);
        assert(0 <= c.last() * p) by (nonlinear_arith)
            requires
                0 < p,
        ;
    }
}

proof fn lemma_zero_counts(c: Seq<u64>)
    requires
        forall|i: int| 0 <= i < c.len() ==> #[trigger] c[i] == 0,
    ensures
        count_total(c) == 0,
        stock_value(c) == 0,
    decreases c.len(),
{
    if c.len() > 0 {
        lemma_zero_counts(c.drop_last());
        assert(c.last() == 0);
    }
}

/// A count of zero for every tier.
fn zero_counts() -> (v: Vec<u64>)
    ensures
        v@ == Seq::new(TIER_COUNT as nat, |i: int| 0u64),
        count_total(v@) == 0,
        stock_value(v@) == 0,
{
    let mut v: Vec<u64> = Vec::new();
    let mut i: u32 = 0;
    while i < TIER_COUNT
        invariant
            i <= TIER_COUNT,
            v@ == Seq::new(i as nat, |j: int| 0u64),
        decreases TIER_COUNT - i,
    {
        v.push(0);
        i += 1;
        assert(v@ =~= Seq::new(i as nat, |j: int| 0u64));
    }
    proof {
        lemma_zero_counts(v@);
    }
    v
}

/// Counts one more grain of the tier of ordinal `i`.
fn count_one(counts: &mut Vec<u64>, i: usize)
    requires
        i < old(counts)@.len(),
        count_total(old(counts)@) < u64::MAX,
    ensures
        final(counts)@ == old(counts)@.update(i as int, (old(counts)@[i as int] + 1) as u64),
        final(counts)@[i as int] == old(counts)@[i as int] + 1,
        count_total(final(counts)@) == count_total(old(counts)@) + 1,
        stock_value(final(counts)@) == stock_value(old(counts)@) + pow(2, i as nat),
{
    proof {
        lemma_count_bounds(counts@, i as int);
    }
    let n = counts[i];
    counts[i] = n + 1;
    proof {
        lemma_count_update(old(counts)@, i as int, (n + 1) as u64);
        let p = pow(2, i as nat);
        let d: int = ((n + 1) as u64) - n;
        assert(d == 1);
        assert(d * p == p) by (nonlinear_arith)
            requires
                d == 1,
        ;
    }
}

/// Picks the tier for tier level `level` from the random number `draw`.
pub fn tier_for_draw(level: u32, draw: u32) -> (p: SandParticle)
    ensures
        p.ordinal() == drawn_ordinal(level, draw),
{
    if level == 0 {
        SandParticle::Sand
    } else {
        match SandParticle::from_u32(draw % level) {
            Some(p) => p,
            None => SandParticle::Sand,
        }
    }
}

/// The whole state of a game.
#[derive(Debug)]
pub struct SandDropClicker {
    /// Money held.
    pub money: i64,
    /// Grains held of each tier, by ordinal.
    pub particles: Vec<u64>,
    /// Grains in the container, falling or at rest.
    pub grains: Vec<Grain>,
    /// Level of each kind of upgrade.
    pub upgrades: PerUpgrade<u32>,
    /// Drops asked for by the player.
    pub total_clicks: u32,
    /// Time simulated, in microseconds.
    pub total_time: u64,
    /// Kinds of upgrade that have been offered.
    pub unlock: PerUpgrade<bool>,
    /// Whether the player's statistics are shown.
    pub show_info: bool,
    /// Time gathered towards the next drop of the auto clicker, in microseconds.
    pub autoclicker_timer: u64,
}

impl SandDropClicker {
    pub open spec fn level_of(self, kind: Upgrade) -> u32 {
        self.upgrades.at(kind)
    }

    /// Grains that the container holds.
    pub open spec fn capacity(self) -> int {
        capacity_for(self.level_of(Upgrade::BiggerContainer))
    }

    /// Price of the next level of `kind`.
    pub open spec fn price(self, kind: Upgrade) -> int {
        kind.price_at(self.level_of(kind) as int)
    }

    pub open spec fn maxed(self, kind: Upgrade) -> bool {
        match kind.level_cap() {
            Some(m) => self.level_of(kind) >= m,
            None => false,
        }
    }

    /// Grains dropped by one click.
    pub open spec fn per_drop(self) -> int {
        1 + self.level_of(Upgrade::MoreParticles)
    }

    /// Time between two drops of the auto clicker, at a level above zero.
    pub open spec fn click_period(self) -> int {
        AUTO_CLICK_PERIOD as int / self.level_of(Upgrade::AutoClicker) as int
    }

    /// Money, upgrades, statistics and display are as in `other`.
    pub open spec fn same_holdings(self, other: Self) -> bool {
        &&& self.money == other.money
        &&& self.upgrades == other.upgrades
        &&& self.total_clicks == other.total_clicks
        &&& self.total_time == other.total_time
        &&& self.unlock == other.unlock
        &&& self.show_info == other.show_info
    }

    /// Everything but the grains and their counts is as in `other`.
    pub open spec fn same_account(self, other: Self) -> bool {
        &&& self.same_holdings(other)
        &&& self.autoclicker_timer == other.autoclicker_timer
    }

    /// The grains, their counts and the auto clicker are as in `other`.
    pub open spec fn same_play(self, other: Self) -> bool {
        &&& self.grains@ == other.grains@
        &&& self.particles@ == other.particles@
        &&& self.total_clicks == other.total_clicks
        &&& self.total_time == other.total_time
        &&& self.show_info == other.show_info
        &&& self.autoclicker_timer == other.autoclicker_timer
    }

    /// The grains from `from` on were dropped by one drop at `(x, y)`: each
    /// is a new grain, at rest in the air, the first centred on `(x, y)` and
    /// the others scattered around it, inside the walls.
    pub open spec fn dropped_at(self, from: int, x: int, y: int) -> bool {
        &&& forall|j: int|
            from <= j < self.grains@.len() ==> {
                let g = #[trigger] self.grains@[j];
                &&& g.y_v == 0
                &&& g.rotation == 0
                &&& g.rect.w == GRAIN_SIZE
                &&& g.rect.h == GRAIN_SIZE
            }
        &&& from < self.grains@.len() ==> self.grains@[from].rect.x == x - GRAIN_SIZE / 2
            && self.grains@[from].rect.y == y - GRAIN_SIZE / 2
        &&& forall|j: int|
            from < j < self.grains@.len() ==> {
                let g = #[trigger] self.grains@[j];
                &&& 0 <= g.rect.x + GRAIN_SIZE / 2 <= FIELD_WIDTH
                &&& clamped_x(x - SCATTER) <= g.rect.x + GRAIN_SIZE / 2 <= clamped_x(x + SCATTER)
                &&& y - SCATTER <= g.rect.y + GRAIN_SIZE / 2 < y + SCATTER
            }
    }

    /// The auto clicker can drop: it has a level and the container has room.
    pub open spec fn clicker_active(self) -> bool {
        self.level_of(Upgrade::AutoClicker) > 0 && self.grains@.len() < self.capacity()
    }

    /// The grains are `kept` followed by one drop of the auto clicker made
    /// from `before`: at a random place across the top of the field, as many
    /// grains as a drop holds and the container has room for, drawn from the
    /// tiers that `before` could draw.
    pub open spec fn drops_after(self, before: Self, kept: Seq<Grain>) -> bool {
        &&& self.grains@.len() == min_int(kept.len() + before.per_drop(), before.capacity())
        &&& self.grains@.subrange(0, kept.len() as int) == kept
        &&& exists|x: int| 0 <= x < FIELD_WIDTH && #[trigger] self.dropped_at(kept.len() as int, x, 0)
        &&& self.drawn_from(before, kept.len() as int)
    }

    /// Number of tiers that can be drawn: the tier level, and at least one.
    pub open spec fn drawable_tiers(self) -> int {
        if self.level_of(Upgrade::ParticleTier) == 0 {
            1
        } else {
            self.level_of(Upgrade::ParticleTier) as int
        }
    }

    /// The grains from `from` on were drawn from the tiers that `before`
    /// could draw: no count fell, the counts of the other tiers are as in
    /// `before`, and each of those grains has the colour of a drawable tier.
    pub open spec fn drawn_from(self, before: Self, from: int) -> bool {
        &&& self.particles@.len() == before.particles@.len()
        &&& forall|t: int|
            0 <= t < self.particles@.len() ==> before.particles@[t] <= #[trigger] self.particles@[t]
        &&& forall|t: int|
            before.drawable_tiers() <= t < self.particles@.len() ==> #[trigger] self.particles@[t]
                == before.particles@[t]
        &&& forall|j: int|
            from <= j < self.grains@.len() ==> colored_below(
                #[trigger] self.grains@[j],
                before.drawable_tiers(),
            )
    }

    pub open spec fn wf(self) -> bool {
        &&& self.particles@.len() == TIER_COUNT
        &&& count_total(self.particles@) == self.grains@.len()
        &&& self.grains@.len() <= self.capacity()
        &&& forall|i: int| 0 <= i < self.grains@.len() ==> (#[trigger] self.grains@[i]).wf()
        &&& 0 <= self.money
        &&& self.level_of(Upgrade::ParticleTier) <= TIER_COUNT
        &&& self.level_of(Upgrade::AutoClicker) <= AUTO_CLICKER_MAX_LEVEL
        &&& self.level_of(Upgrade::MoreParticles) <= MORE_PARTICLES_MAX_LEVEL
        &&& self.autoclicker_timer < AUTO_CLICK_PERIOD
    }

    /// A new game: no money, an empty container, the first tier of sand
    /// unlocked and no other upgrade.
    pub fn new() -> (g: Self)
        ensures
            g.wf(),
            g.money == 0,
            g.grains@.len() == 0,
            g.particles@ == Seq::new(TIER_COUNT as nat, |i: int| 0u64),
            g.upgrades == PerUpgrade::<u32>::uniform_spec(0).with(Upgrade::ParticleTier, 1),
            g.total_clicks == 0,
            g.total_time == 0,
            g.unlock == PerUpgrade::<bool>::uniform_spec(false),
            !g.show_info,
            g.autoclicker_timer == 0,
    {
        let particles = zero_counts();
        let mut upgrades = PerUpgrade::uniform(0u32);
        upgrades.set(Upgrade::ParticleTier, 1);
        SandDropClicker {
            money: 0,
            particles,
            grains: Vec::new(),
            upgrades,
            total_clicks: 0,
            total_time: 0,
            unlock: PerUpgrade::uniform(false),
            show_info: false,
            autoclicker_timer: 0,
        }
    }

    /// Level of `kind`.
    pub fn level(&self, kind: Upgrade) -> (l: u32)
        ensures
            l == self.level_of(kind),
    {
        self.upgrades.get(kind)
    }

    /// Whether `kind` has been offered to the player.
    pub fn is_unlocked(&self, kind: Upgrade) -> (u: bool)
        ensures
            u == self.unlock.at(kind),
    {
        self.unlock.get(kind)
    }

    /// Grains that the container holds.
    pub fn get_size(&self) -> (s: u64)
        ensures
            s == self.capacity(),
    {
        BASE_CAPACITY * (1 + self.upgrades.get(Upgrade::BiggerContainer) as u64)
    }

    /// Grains in the container.
    pub fn get_amount(&self) -> (n: u64)
        ensures
            n == self.grains@.len(),
    {
        self.grains.len() as u64
    }

    /// Whether the container holds no more grains.
    pub fn is_full(&self) -> (f: bool)
        ensures
            f == (self.grains@.len() >= self.capacity()),
    {
        self.get_amount() >= self.get_size()
    }

    /// Price of the next level of `upgrade`.
    pub fn upgrade_cost(&self, upgrade: Upgrade) -> (c: i64)
        ensures
            c == self.price(upgrade),
            0 <= c,
    {
        upgrade.cost(self.upgrades.get(upgrade))
    }

    /// Whether `upgrade` has reached its highest level.
    pub fn is_maxed(&self, upgrade: Upgrade) -> (m: bool)
        ensures
            m == self.maxed(upgrade),
    {
        match upgrade.max_level() {
            Some(max) => self.upgrades.get(upgrade) >= max,
            None => false,
        }
    }

    /// Drops grains at `(x, y)`: one, and one more for each level of extra
    /// particles, the first at `(x, y)` and the others scattered around it.
    /// Drops stop, without error, once the container is full.
    pub fn add_grain(&mut self, x: i64, y: i64)
        requires
            old(self).wf(),
            -DROP_LIMIT <= x <= DROP_LIMIT,
            -DROP_LIMIT <= y <= DROP_LIMIT,
        ensures
            final(self).wf(),
            final(self).grains@.len() == min_int(
                old(self).grains@.len() + old(self).per_drop(),
                old(self).capacity(),
            ),
            final(self).grains@.subrange(0, old(self).grains@.len() as int) == old(self).grains@,
            final(self).dropped_at(old(self).grains@.len() as int, x as int, y as int),
            final(self).drawn_from(*old(self), old(self).grains@.len() as int),
            final(self).same_account(*old(self)),
    {
        let amount: u32 = 1 + self.upgrades.get(Upgrade::MoreParticles);
        let container_size = self.get_size();
        let current_amount = self.get_amount();
        let ghost start = self.grains@;
        let mut i: u32 = 0;
        while i < amount
            invariant
                i <= amount,
                amount == old(self).per_drop(),
                container_size == old(self).capacity(),
                current_amount == start.len(),
                start == old(self).grains@,
                self.grains@.len() == start.len() + i,
                current_amount + i <= container_size,
                self.grains@.subrange(0, start.len() as int) == start,
                self.wf(),
                self.same_account(*old(self)),
                self.capacity() == old(self).capacity(),
                self.dropped_at(start.len() as int, x as int, y as int),
                self.drawn_from(*old(self), start.len() as int),
                -DROP_LIMIT <= x <= DROP_LIMIT,
                -DROP_LIMIT <= y <= DROP_LIMIT,
            ensures
                self.grains@.len() == min_int(start.len() + amount, container_size as int),
                self.grains@.subrange(0, start.len() as int) == start,
                self.wf(),
                self.same_account(*old(self)),
                self.dropped_at(start.len() as int, x as int, y as int),
                self.drawn_from(*old(self), start.len() as int),
            decreases amount - i,
        {
            let mut new_x = x;
            let mut new_y = y;
            // the grains after the first land a little apart
            if i > 0 {
                let offset_x = random_between(-SCATTER, SCATTER);
                let offset_y = random_between(-SCATTER, SCATTER);
                let moved_x = x + offset_x;
                new_x = if moved_x < 0 {
                    0
                } else if moved_x > FIELD_WIDTH {
                    FIELD_WIDTH
                } else {
                    moved_x
                };
                new_y = y + offset_y;
            }
            assert(i > 0 ==> clamped_x(x - SCATTER) <= new_x <= clamped_x(x + SCATTER) && y
                - SCATTER <= new_y < y + SCATTER);
            if current_amount + i as u64 >= container_size {
                break;
            }
            let sand = self.rand_sand();
            let grain = Grain::new(new_x, new_y, GRAIN_SIZE, sand.color());
            let ghost counts_before = self.particles@;
            count_one(&mut self.particles, sand.index() as usize);
            let ghost before = self.grains@;
            self.grains.push(grain);
            proof {
                let o = *old(self);
                assert(sand.ordinal() < o.drawable_tiers());
                assert forall|t: int| 0 <= t < self.particles@.len() implies o.particles@[t]
                    <= #[trigger] self.particles@[t] by {
                    assert(o.particles@[t] <= counts_before[t]);
                    if t != sand.ordinal() {
                        assert(self.particles@[t] == counts_before[t]);
                    } else {
                        assert(self.particles@[t] == counts_before[t] + 1);
                    }
                }
                assert forall|t: int|
                    o.drawable_tiers() <= t < self.particles@.len() implies #[trigger] self.particles@[t]
                    == o.particles@[t] by {
                    assert(counts_before[t] == o.particles@[t]);
                    assert(self.particles@[t] == counts_before[t]);
                }
                assert forall|j: int| start.len() <= j < self.grains@.len() implies colored_below(
                    #[trigger] self.grains@[j],
                    o.drawable_tiers(),
                ) by {
                    if j < before.len() {
                        assert(self.grains@[j] == before[j]);
                    } else {
                        assert(sand.spec_color() == self.grains@[j].color);
                    }
                }
                assert(self.grains@.subrange(0, start.len() as int) =~= before.subrange(
                    0,
                    start.len() as int,
                ));
                assert forall|j: int| 0 <= j < self.grains@.len() implies (
                #[trigger] self.grains@[j]).wf() by {
                    if j < before.len() {
                        assert(self.grains@[j] == before[j]);
                    }
                }
                assert forall|j: int| start.len() <= j < self.grains@.len() implies {
                    let g = #[trigger] self.grains@[j];
                    &&& g.y_v == 0
                    &&& g.rotation == 0
                    &&& g.rect.w == GRAIN_SIZE
                    &&& g.rect.h == GRAIN_SIZE
                } by {
                    if j < before.len() {
                        assert(self.grains@[j] == before[j]);
                    }
                }
                assert forall|j: int| start.len() < j < self.grains@.len() implies {
                    let g = #[trigger] self.grains@[j];
                    &&& 0 <= g.rect.x + GRAIN_SIZE / 2 <= FIELD_WIDTH
                    &&& y - SCATTER <= g.rect.y + GRAIN_SIZE / 2 < y + SCATTER
                } by {
                    if j < before.len() {
                        assert(self.grains@[j] == before[j]);
                    }
                }
            }
            i += 1;
        }
    }

    /// Sells every grain held. The money grows by the worth of their tiers,
    /// held at `PRICE_LIMIT`, and the container is left empty.
    pub fn make_money(&mut self)
        requires
            old(self).wf(),
        ensures
            final(self).wf(),
            final(self).grains@.len() == 0,
            final(self).particles@ == Seq::new(TIER_COUNT as nat, |i: int| 0u64),
            final(self).money == min_int(
                old(self).money + stock_value(old(self).particles@),
                PRICE_LIMIT as int,
            ),
            final(self).upgrades == old(self).upgrades,
            final(self).total_clicks == old(self).total_clicks,
            final(self).total_time == old(self).total_time,
            final(self).unlock == old(self).unlock,
            final(self).show_info == old(self).show_info,
            final(self).autoclicker_timer == old(self).autoclicker_timer,
    {
        let mut earned: u128 = 0;
        let mut i: usize = 0;
        proof {
            assert(self.particles@.take(0) =~= Seq::<u64>::empty());
        }
        while i < self.particles.len()
            invariant
                i <= self.particles@.len(),
                self.particles@.len() == TIER_COUNT,
                *self == *old(self),
                earned == stock_value(self.particles@.take(i as int)),
                earned <= i * 0x8_0000_0000_0000_0000_0000,
            decreases self.particles@.len() - i,
        {
            let count = self.particles[i];
            let value: i64 = match SandParticle::from_u32(i as u32) {
                Some(p) => p.value(),
                None => 0,
            };
            proof {
                let next = self.particles@.take(i + 1);
                assert(next.drop_last() =~= self.particles@.take(i as int));
                assert(count as u128 * value as u128 <= 0x8_0000_0000_0000_0000_0000)
                    by (nonlinear_arith)
                    requires
                        count < 0x1_0000_0000_0000_0000,
                        0 <= value <= 2048,
                ;
            }
            earned = earned + count as u128 * value as u128;
            i += 1;
        }
        assert(self.particles@.take(TIER_COUNT as int) =~= self.particles@);
        self.money = if earned > (PRICE_LIMIT - self.money) as u128 {
            PRICE_LIMIT
        } else {
            self.money + earned as i64
        };
        self.particles = zero_counts();
        self.grains = Vec::new();
    }

    /// Buys the next level of `upgrade` when the money covers its price and
    /// the upgrade is below its highest level; otherwise changes nothing.
    pub fn buy(&mut self, upgrade: Upgrade)
        requires
            old(self).wf(),
        ensures
            final(self).wf(),
            final(self).same_play(*old(self)),
            final(self).unlock == old(self).unlock,
            old(self).money >= old(self).price(upgrade) && !old(self).maxed(upgrade)
                && old(self).level_of(upgrade) < u32::MAX ==> final(self).money == old(self).money
                - old(self).price(upgrade) && final(self).upgrades == old(self).upgrades.with(
                upgrade,
                (old(self).level_of(upgrade) + 1) as u32,
            ),
            !(old(self).money >= old(self).price(upgrade) && !old(self).maxed(upgrade)
                && old(self).level_of(upgrade) < u32::MAX) ==> final(self).money == old(
                self,
            ).money && final(self).upgrades == old(self).upgrades,
    {
        let cost = self.upgrade_cost(upgrade);
        let level = self.upgrades.get(upgrade);
        if self.money >= cost && !self.is_maxed(upgrade) && level < u32::MAX {
            self.money = self.money - cost;
            self.upgrades.set(upgrade, level + 1);
        }
    }

    /// Offers `kind` once the money has reached its price; an offer is never
    /// taken back.
    fn offer_if_affordable(&mut self, kind: Upgrade)
        requires
            old(self).wf(),
        ensures
            final(self).wf(),
            final(self).same_play(*old(self)),
            final(self).money == old(self).money,
            final(self).upgrades == old(self).upgrades,
            final(self).unlock == old(self).unlock.with(
                kind,
                old(self).unlock.at(kind) || old(self).money >= old(self).price(kind),
            ),
    {
        let cost = self.upgrade_cost(kind);
        let offered = self.unlock.get(kind) || self.money >= cost;
        self.unlock.set(kind, offered);
    }

    /// Offers every kind of upgrade whose price the money has reached.
    pub fn refresh_unlocks(&mut self)
        requires
            old(self).wf(),
        ensures
            final(self).wf(),
            final(self).same_play(*old(self)),
            final(self).money == old(self).money,
            final(self).upgrades == old(self).upgrades,
            forall|k: Upgrade|
                #[trigger] final(self).unlock.at(k) == (old(self).unlock.at(k) || old(
                    self,
                ).money >= old(self).price(k)),
    {
        self.offer_if_affordable(Upgrade::BiggerContainer);
        self.offer_if_affordable(Upgrade::ParticleTier);
        self.offer_if_affordable(Upgrade::AutoClicker);
        self.offer_if_affordable(Upgrade::MoreParticles);
    }

    /// Moves every grain by one physics step of `dt` microseconds.
    pub fn step_grains(&mut self, dt: u64)
        requires
            old(self).wf(),
            dt <= MAX_STEP,
        ensures
            final(self).wf(),
            final(self).same_account(*old(self)),
            final(self).particles@ == old(self).particles@,
            final(self).grains@.len() == old(self).grains@.len(),
            forall|i: int|
                0 <= i < old(self).grains@.len() ==> #[trigger] final(self).grains@[i] == old(
                    self,
                ).grains@[i].stepped(dt as nat),
    {
        let mut i: usize = 0;
        while i < self.grains.len()
            invariant
                i <= self.grains@.len(),
                self.grains@.len() == old(self).grains@.len(),
                self.particles@ == old(self).particles@,
                self.same_account(*old(self)),
                self.wf(),
                dt <= MAX_STEP,
                forall|j: int|
                    0 <= j < i ==> #[trigger] self.grains@[j] == old(self).grains@[j].stepped(
                        dt as nat,
                    ),
                forall|j: int| i <= j < self.grains@.len() ==> #[trigger] self.grains@[j] == old(
                    self,
                ).grains@[j],
            decreases self.grains@.len() - i,
        {
            let mut grain = self.grains[i];
            assert(grain.wf());
            grain.update(dt);
            let ghost before = self.grains@;
            self.grains[i] = grain;
            proof {
                assert forall|j: int| 0 <= j < self.grains@.len() implies (
                #[trigger] self.grains@[j]).wf() by {
                    if j != i {
                        assert(self.grains@[j] == before[j]);
                    }
                }
            }
            i += 1;
        }
    }

    /// The auto clicker, over `elapsed` microseconds. While it has a level
    /// and the container has room, it gathers time, and once a period has
    /// gathered it drops grains at a random place across the top of the
    /// field and starts again from nothing, however many periods had passed.
    pub fn autoclicker(&mut self, elapsed: u64)
        requires
            old(self).wf(),
            elapsed <= u64::MAX - AUTO_CLICK_PERIOD,
        ensures
            final(self).wf(),
            final(self).same_holdings(*old(self)),
            !old(self).clicker_active() ==> *final(self) == *old(self),
            old(self).clicker_active() && old(self).autoclicker_timer + elapsed < old(
                self,
            ).click_period() ==> final(self).autoclicker_timer == old(self).autoclicker_timer
                + elapsed && final(self).grains@ == old(self).grains@ && final(self).particles@
                == old(self).particles@,
            old(self).clicker_active() && old(self).autoclicker_timer + elapsed >= old(
                self,
            ).click_period() ==> final(self).autoclicker_timer == 0 && final(self).drops_after(
                *old(self),
                old(self).grains@,
            ),
    {
        let autoclicker_level = self.upgrades.get(Upgrade::AutoClicker);
        if autoclicker_level > 0 && !self.is_full() {
            self.autoclicker_timer = self.autoclicker_timer + elapsed;
            let period: u64 = AUTO_CLICK_PERIOD / autoclicker_level as u64;
            if self.autoclicker_timer >= period {
                let x = random_between(0, FIELD_WIDTH);
                self.autoclicker_timer = 0;
                let ghost before = *self;
                self.add_grain(x, 0);
                assert(self.dropped_at(old(self).grains@.len() as int, x as int, 0));
                assert(before.particles@ == old(self).particles@);
                assert(before.drawable_tiers() == old(self).drawable_tiers());
            }
        }
    }

    /// One step of the simulation, `dt` microseconds long: the clock moves
    /// on, every grain moves, then the auto clicker has its turn, as
    /// `autoclicker` describes it, on the grains as they have moved. Grains
    /// it drops are not moved in that step.
    pub fn advance(&mut self, dt: u64)
        requires
            old(self).wf(),
            dt <= MAX_STEP,
        ensures
            final(self).wf(),
            final(self).total_time == min_int(old(self).total_time + dt, u64::MAX as int),
            final(self).money == old(self).money,
            final(self).upgrades == old(self).upgrades,
            final(self).unlock == old(self).unlock,
            final(self).total_clicks == old(self).total_clicks,
            final(self).show_info == old(self).show_info,
            old(self).grains@.len() <= final(self).grains@.len(),
            forall|i: int|
                0 <= i < old(self).grains@.len() ==> #[trigger] final(self).grains@[i] == old(
                    self,
                ).grains@[i].stepped(dt as nat),
            !old(self).clicker_active() ==> final(self).grains@ == all_stepped(
                old(self).grains@,
                dt as nat,
            ) && final(self).autoclicker_timer == old(self).autoclicker_timer
                && final(self).particles@ == old(self).particles@,
            old(self).clicker_active() && old(self).autoclicker_timer + dt < old(
                self,
            ).click_period() ==> final(self).grains@ == all_stepped(old(self).grains@, dt as nat)
                && final(self).autoclicker_timer == old(self).autoclicker_timer + dt
                && final(self).particles@ == old(self).particles@,
            old(self).clicker_active() && old(self).autoclicker_timer + dt >= old(
                self,
            ).click_period() ==> final(self).autoclicker_timer == 0 && final(self).drops_after(
                *old(self),
                all_stepped(old(self).grains@, dt as nat),
            ),
    {
        self.total_time = self.total_time.saturating_add(dt);
        self.step_grains(dt);
        let ghost stepped = self.grains@;
        let ghost mid = *self;
        proof {
            assert(stepped =~= all_stepped(old(self).grains@, dt as nat));
            assert(mid.clicker_active() == old(self).clicker_active());
            assert(mid.drawable_tiers() == old(self).drawable_tiers());
        }
        self.autoclicker(dt);
        proof {
            assert forall|i: int| 0 <= i < stepped.len() implies #[trigger] self.grains@[i]
                == stepped[i] by {
                if self.grains@.len() != stepped.len() {
                    assert(self.grains@.subrange(0, stepped.len() as int)[i] == stepped[i]);
                }
            }
        }
    }

    /// A click at `(x, y)`: unless the container is full, it counts as a
    /// click and drops grains there, with `x` held between the walls.
    pub fn spawn_at(&mut self, x: i64, y: i64)
        requires
            old(self).wf(),
            -DROP_LIMIT <= y <= DROP_LIMIT,
        ensures
            final(self).wf(),
            old(self).grains@.len() >= old(self).capacity() ==> *final(self) == *old(self),
            old(self).grains@.len() < old(self).capacity() ==> final(self).total_clicks == min_int(
                old(self).total_clicks + 1,
                u32::MAX as int,
            ) && final(self).grains@.len() == min_int(
                old(self).grains@.len() + old(self).per_drop(),
                old(self).capacity(),
            ) && final(self).grains@.subrange(0, old(self).grains@.len() as int) == old(
                self,
            ).grains@ && final(self).dropped_at(
                old(self).grains@.len() as int,
                clamped_x(x as int),
                y as int,
            ) && final(self).drawn_from(*old(self), old(self).grains@.len() as int),
            final(self).money == old(self).money,
            final(self).upgrades == old(self).upgrades,
            final(self).unlock == old(self).unlock,
            final(self).total_time == old(self).total_time,
            final(self).show_info == old(self).show_info,
            final(self).autoclicker_timer == old(self).autoclicker_timer,
    {
        if !self.is_full() {
            self.total_clicks = self.total_clicks.saturating_add(1);
            let ghost before = *self;
            let cx = if x < 0 {
                0
            } else if x > FIELD_WIDTH {
                FIELD_WIDTH
            } else {
                x
            };
            self.add_grain(cx, y);
            assert(before.particles@ == old(self).particles@);
            assert(before.drawable_tiers() == old(self).drawable_tiers());
        }
    }

    /// Shows or hides the player's statistics.
    pub fn toggle_info(&mut self)
        ensures
            final(self).show_info == !old(self).show_info,
            final(self).money == old(self).money,
            final(self).upgrades == old(self).upgrades,
            final(self).unlock == old(self).unlock,
            final(self).same_play(
                SandDropClicker { show_info: final(self).show_info, ..*old(self) },
            ),
    {
        self.show_info = !self.show_info;
    }

    /// Money held.
    pub fn money(&self) -> (m: i64)
        ensures
            m == self.money,
    {
        self.money
    }

    /// Grains in the container.
    pub fn grains(&self) -> (g: &Vec<Grain>)
        ensures
            g@ == self.grains@,
    {
        &self.grains
    }

    /// Grains held of the tier `p`.
    pub fn held(&self, p: SandParticle) -> (n: u64)
        requires
            self.wf(),
        ensures
            n == self.particles@[p.ordinal() as int],
    {
        self.particles[p.index() as usize]
    }

    /// A tier of sand drawn at random among those unlocked; the first tier
    /// while fewer than two are unlocked.
    pub fn rand_sand(&self) -> (p: SandParticle)
        ensures
            p.ordinal() < self.level_of(Upgrade::ParticleTier) || p.ordinal() == 0,
            self.level_of(Upgrade::ParticleTier) <= 1 ==> p == SandParticle::Sand,
    {
        let level = self.upgrades.get(Upgrade::ParticleTier);
        let draw = random_u32();
        tier_for_draw(level, draw)
    }
}

} // verus!
