//! Reproducible packet impairment for qualification runs.

use vstd::prelude::*;

verus! {

pub const BASIS_POINTS_PER_100_PERCENT: u16 = 10_000;

/// Deterministic packet impairment settings used only by benchmarks and qualification tools.
///
/// Percentages are represented in basis points so tests never depend on floating-point random
/// comparisons. For example, 300 means 3.00%.
#[derive(Debug, Clone, Copy, PartialEq, Eq, Structural)]
pub struct ImpairmentConfig {
    pub loss_basis_points: u16,
    pub reorder_basis_points: u16,
    pub jitter_max_us: u64,
    pub reorder_extra_delay_us: u64,
    pub seed: u64,
}

impl Default for ImpairmentConfig {
    fn default() -> (config: Self)
        ensures
            config == (ImpairmentConfig {
                loss_basis_points: 0,
                reorder_basis_points: 0,
                jitter_max_us: 0,
                reorder_extra_delay_us: 0,
                seed: 1,
            }),
    {
        ImpairmentConfig {
            loss_basis_points: 0,
            reorder_basis_points: 0,
            jitter_max_us: 0,
            reorder_extra_delay_us: 0,
            seed: 1,
        }
    }
}

#[derive(Debug, Clone, Copy, PartialEq, Eq, Structural)]
pub enum ImpairmentConfigError {
    LossOutOfRange,
    ReorderOutOfRange,
}

impl ImpairmentConfigError {
    /// What the error says.
    pub open spec fn spec_message(self) -> Seq<char> {
        match self {
            ImpairmentConfigError::LossOutOfRange =>
                "loss percentage must be between 0% and 100%"@,
            ImpairmentConfigError::ReorderOutOfRange =>
                "reorder percentage must be between 0% and 100%"@,
        }
    }

    /// The text for people.
    #[must_use]
    pub fn message(&self) -> (text: String)
        ensures
            text@ == self.spec_message(),
    {
        let text: &str = match self {
            ImpairmentConfigError::LossOutOfRange => "loss percentage must be between 0% and 100%",
            ImpairmentConfigError::ReorderOutOfRange =>
                "reorder percentage must be between 0% and 100%",
        };
        text.to_owned()
    }
}

impl ImpairmentConfig {
    /// Both percentages lie between 0% and 100%; if not, which one does not.
    pub open spec fn spec_validate(self) -> Result<Self, ImpairmentConfigError> {
        if self.loss_basis_points > BASIS_POINTS_PER_100_PERCENT {
            Err(ImpairmentConfigError::LossOutOfRange)
        } else if self.reorder_basis_points > BASIS_POINTS_PER_100_PERCENT {
            Err(ImpairmentConfigError::ReorderOutOfRange)
        } else {
            Ok(self)
        }
    }

    pub fn validate(self) -> (result: Result<Self, ImpairmentConfigError>)
        ensures
            result == self.spec_validate(),
    {
        if self.loss_basis_points > BASIS_POINTS_PER_100_PERCENT {
            return Err(ImpairmentConfigError::LossOutOfRange);
        }
        if self.reorder_basis_points > BASIS_POINTS_PER_100_PERCENT {
            return Err(ImpairmentConfigError::ReorderOutOfRange);
        }
        Ok(self)
    }
}

#[derive(Debug, Clone, Copy, PartialEq, Eq, Structural)]
pub enum ImpairmentDecision {
    Drop,
    DeliverAt { due_us: u64, reordered: bool },
}

/// The number that follows `x` in the generator's sequence.
pub open spec fn spec_next(x: u64) -> u64 {
    let a = x ^ (x << 13);
    let b = a ^ (a >> 7);
    b ^ (b << 17)
}

/// The state that a seed stands for. The all-zero state would be absorbing, so zero stands
/// for a fixed other state; every other seed stands for itself.
pub open spec fn spec_seeded(seed: u64) -> u64 {
    if seed == 0 {
        0x9E37_79B9_7F4A_7C15
    } else {
        seed
    }
}

/// A delay up to `max_us` drawn with `drawn`.
pub open spec fn spec_delay(drawn: u64, max_us: u64) -> u64 {
    if max_us == u64::MAX {
        (drawn as int % u64::MAX as int) as u64
    } else {
        (drawn as int % (max_us + 1)) as u64
    }
}

/// An engine's settings, the state of its generator and what it has done.
pub struct EngineView {
    pub config: ImpairmentConfig,
    pub state: u64,
    pub packets_seen: u64,
    pub packets_dropped: u64,
    pub packets_reordered: u64,
}

impl EngineView {
    /// The next packet is lost.
    pub open spec fn spec_loses(self) -> bool {
        spec_next(self.state) % 10_000 < self.config.loss_basis_points
    }

    /// The generator's state after the draw of the jitter, which is drawn only where there
    /// is any.
    pub open spec fn spec_after_jitter(self) -> u64 {
        let drawn = spec_next(self.state);
        if self.config.jitter_max_us == 0 {
            drawn
        } else {
            spec_next(drawn)
        }
    }

    /// The next packet's jitter.
    pub open spec fn spec_jitter(self) -> u64 {
        if self.config.jitter_max_us == 0 {
            0
        } else {
            spec_delay(self.spec_after_jitter(), self.config.jitter_max_us)
        }
    }

    /// The next packet is held back, so that later packets can overtake it.
    pub open spec fn spec_reorders(self) -> bool {
        spec_next(self.spec_after_jitter()) % 10_000 < self.config.reorder_basis_points
    }

    /// What happens to the next packet.
    pub open spec fn spec_plan(self, now_us: u64) -> ImpairmentDecision {
        if self.spec_loses() {
            ImpairmentDecision::Drop
        } else {
            let jittered = crate::counting::saturating_sum(now_us, self.spec_jitter() as int);
            ImpairmentDecision::DeliverAt {
                due_us: crate::counting::saturating_sum(
                    jittered,
                    if self.spec_reorders() {
                        self.config.reorder_extra_delay_us as int
                    } else {
                        0
                    },
                ),
                reordered: self.spec_reorders(),
            }
        }
    }

    /// The engine after that.
    pub open spec fn spec_planned(self) -> Self {
        let seen = crate::counting::saturating_sum(self.packets_seen, 1);
        if self.spec_loses() {
            EngineView {
                state: spec_next(self.state),
                packets_seen: seen,
                packets_dropped: crate::counting::saturating_sum(self.packets_dropped, 1),
                ..self
            }
        } else {
            EngineView {
                state: spec_next(self.spec_after_jitter()),
                packets_seen: seen,
                packets_reordered: if self.spec_reorders() {
                    crate::counting::saturating_sum(self.packets_reordered, 1)
                } else {
                    self.packets_reordered
                },
                ..self
            }
        }
    }
}

/// Small reproducible impairment engine for media qualification.
///
/// This is intentionally not cryptographic randomness. Given the same configuration and packet
/// order it produces exactly the same loss/jitter/reorder decisions, which makes regressions
/// repeatable in CI and on physical LAN tests.
#[derive(Debug, Clone)]
pub struct ImpairmentEngine {
    config: ImpairmentConfig,
    rng: XorShift64,
    packets_seen: u64,
    packets_dropped: u64,
    packets_reordered: u64,
}

impl View for ImpairmentEngine {
    type V = EngineView;

    closed spec fn view(&self) -> EngineView {
        EngineView {
            config: self.config,
            state: self.rng.state,
            packets_seen: self.packets_seen,
            packets_dropped: self.packets_dropped,
            packets_reordered: self.packets_reordered,
        }
    }
}

impl ImpairmentEngine {
    pub fn new(config: ImpairmentConfig) -> (result: Result<Self, ImpairmentConfigError>)
        ensures
            match result {
                Ok(engine) => config.spec_validate() is Ok && engine@ == (EngineView {
                    config,
                    state: spec_seeded(config.seed),
                    packets_seen: 0,
                    packets_dropped: 0,
                    packets_reordered: 0,
                }),
                Err(error) => config.spec_validate() == Err::<ImpairmentConfig, _>(error),
            },
    {
        let config = match config.validate() {
            Ok(config) => config,
            Err(error) => return Err(error),
        };
        Ok(
            ImpairmentEngine {
                rng: XorShift64::new(config.seed),
                config,
                packets_seen: 0,
                packets_dropped: 0,
                packets_reordered: 0,
            },
        )
    }

    #[must_use]
    pub fn config(&self) -> (config: ImpairmentConfig)
        ensures
            config == self@.config,
    {
        self.config
    }

    #[must_use]
    pub fn packets_seen(&self) -> (seen: u64)
        ensures
            seen == self@.packets_seen,
    {
        self.packets_seen
    }

    #[must_use]
    pub fn packets_dropped(&self) -> (dropped: u64)
        ensures
            dropped == self@.packets_dropped,
    {
        self.packets_dropped
    }

    #[must_use]
    pub fn packets_reordered(&self) -> (reordered: u64)
        ensures
            reordered == self@.packets_reordered,
    {
        self.packets_reordered
    }

    /// Chooses loss and delivery timing for one packet at `now_us`.
    ///
    /// Jitter is a deterministic uniform delay in `[0, jitter_max_us]`. A packet selected for
    /// reordering receives an additional configured delay; later packets can therefore overtake it
    /// naturally in the proxy's bounded scheduler.
    pub fn plan(&mut self, now_us: u64) -> (decision: ImpairmentDecision)
        ensures
            decision == old(self)@.spec_plan(now_us),
            final(self)@ == old(self)@.spec_planned(),
    {
        self.packets_seen = self.packets_seen.saturating_add(1);
        if self.draw_basis_points() < self.config.loss_basis_points {
            self.packets_dropped = self.packets_dropped.saturating_add(1);
            return ImpairmentDecision::Drop;
        }
        let jitter_us: u64 = self.draw_delay(self.config.jitter_max_us);
        let reordered = self.draw_basis_points() < self.config.reorder_basis_points;
        let reorder_delay_us: u64 = if reordered {
            self.packets_reordered = self.packets_reordered.saturating_add(1);
            self.config.reorder_extra_delay_us
        } else {
            0
        };
        ImpairmentDecision::DeliverAt {
            due_us: now_us.saturating_add(jitter_us).saturating_add(reorder_delay_us),
            reordered,
        }
    }

    fn draw_basis_points(&mut self) -> (drawn: u16)
        ensures
            drawn == spec_next(old(self)@.state) % 10_000,
            final(self)@ == (EngineView { state: spec_next(old(self)@.state), ..old(self)@ }),
    {
        let value: u64 = self.rng.next_u64() % BASIS_POINTS_PER_100_PERCENT as u64;
        value as u16
    }

    fn draw_delay(&mut self, max_us: u64) -> (delay: u64)
        ensures
            max_us == 0 ==> delay == 0 && final(self)@ == old(self)@,
            max_us > 0 ==> delay == spec_delay(spec_next(old(self)@.state), max_us)
                && final(self)@ == (EngineView { state: spec_next(old(self)@.state), ..old(self)@ }),
    {
        if max_us == 0 {
            return 0;
        }
        self.rng.next_u64() % max_us.saturating_add(1)
    }
}

#[derive(Debug, Clone, Copy)]
struct XorShift64 {
    state: u64,
}

impl XorShift64 {
    fn new(seed: u64) -> (rng: Self)
        ensures
            rng.state == spec_seeded(seed),
    {
        XorShift64 {
            state: if seed == 0 {
                0x9E37_79B9_7F4A_7C15
            } else {
                seed
            },
        }
    }

    fn next_u64(&mut self) -> (next: u64)
        ensures
            next == spec_next(old(self).state),
            final(self).state == next,
    {
        let x: u64 = self.state;
        let a: u64 = x ^ (x << 13);
        let b: u64 = a ^ (a >> 7);
        let c: u64 = b ^ (b << 17);
        self.state = c;
        c
    }
}

/// The generator never falls into its absorbing state.
pub proof fn law_generator_never_stalls(seed: u64, x: u64)
    ensures
        spec_seeded(seed) != 0,
        x != 0 ==> spec_next(x) != 0,
{
    if x != 0 {
        let a = x ^ (x << 13);
        let b = a ^ (a >> 7);
        assert(x != 0 ==> x ^ (x << 13) != 0) by (bit_vector);
        assert(a != 0 ==> a ^ (a >> 7) != 0) by (bit_vector);
        assert(b != 0 ==> b ^ (b << 17) != 0) by (bit_vector);
    }
}

/// A full loss rate drops every packet, and a zero one drops none.
pub proof fn law_loss_extremes(engine: EngineView, now_us: u64)
    ensures
        engine.config.loss_basis_points >= BASIS_POINTS_PER_100_PERCENT ==> engine.spec_plan(now_us)
            is Drop,
        engine.config.loss_basis_points == 0 ==> engine.spec_plan(now_us) is DeliverAt,
{
}

/// Without impairment every packet is delivered at once and in order.
pub proof fn law_zero_impairment_delivers_at_once(engine: EngineView, now_us: u64)
    requires
        engine.config.loss_basis_points == 0,
        engine.config.reorder_basis_points == 0,
        engine.config.jitter_max_us == 0,
    ensures
        engine.spec_plan(now_us) == (ImpairmentDecision::DeliverAt {
            due_us: now_us,
            reordered: false,
        }),
{
}

/// A delivery is never early, and never later than the configured jitter and the extra delay
/// of a packet that is held back. Times that cannot be counted any more stay at the largest.
pub proof fn law_delay_is_bounded(engine: EngineView, now_us: u64)
    requires
        engine.spec_plan(now_us) is DeliverAt,
    ensures
        ({
            let due = engine.spec_plan(now_us)->due_us;
            let extra: int = if engine.spec_plan(now_us)->reordered {
                engine.config.reorder_extra_delay_us as int
            } else {
                0
            };
            crate::counting::saturating_sum(now_us, extra) <= due
                <= crate::counting::saturating_sum(now_us, extra + engine.config.jitter_max_us)
        }),
{
    let max = engine.config.jitter_max_us;
    if max > 0 {
        let drawn = engine.spec_after_jitter();
        assert(0 <= drawn as int % (max + 1) <= max) by (nonlinear_arith)
            requires
                max > 0,
        ;
        assert(0 <= drawn as int % u64::MAX as int <= u64::MAX);
    }
}

/// A share of packets is lost or reordered in hundredths of a percent, up to all of them.
pub proof fn law_shares_are_bounded(config: ImpairmentConfig)
    ensures
        config.loss_basis_points > 10_000 ==> config.spec_validate() == Err::<ImpairmentConfig, _>(
            ImpairmentConfigError::LossOutOfRange,
        ),
        config.loss_basis_points <= 10_000 && config.reorder_basis_points > 10_000
            ==> config.spec_validate() == Err::<ImpairmentConfig, _>(
            ImpairmentConfigError::ReorderOutOfRange,
        ),
        config.loss_basis_points <= 10_000 && config.reorder_basis_points <= 10_000
            ==> config.spec_validate() == Ok::<_, ImpairmentConfigError>(config),
{
}

/// Every packet counts as seen, and as lost or as reordered if and only if it is; the settings
/// stay. With the largest share every packet that is delivered is reordered, with none no packet
/// is.
pub proof fn law_counts_follow_the_decisions(engine: EngineView, now_us: u64)
    ensures
        ({
            let decision = engine.spec_plan(now_us);
            let after = engine.spec_planned();
            let reordered = decision matches ImpairmentDecision::DeliverAt { reordered, .. }
                && reordered;
            &&& after.config == engine.config
            &&& engine.packets_seen < u64::MAX ==> after.packets_seen == engine.packets_seen + 1
            &&& decision is Drop && engine.packets_dropped < u64::MAX ==> after.packets_dropped
                == engine.packets_dropped + 1
            &&& !(decision is Drop) ==> after.packets_dropped == engine.packets_dropped
            &&& reordered && engine.packets_reordered < u64::MAX ==> after.packets_reordered
                == engine.packets_reordered + 1
            &&& !reordered ==> after.packets_reordered == engine.packets_reordered
            &&& engine.config.reorder_basis_points >= 10_000 && decision is DeliverAt ==> reordered
            &&& engine.config.reorder_basis_points == 0 ==> !reordered
        }),
{
}

/// More loss never delivers a packet that less loss would lose, and the delay of a packet does not
/// depend on the loss.
pub proof fn law_more_loss_loses_more(engine: EngineView, config: ImpairmentConfig, now_us: u64)
    requires
        config.loss_basis_points >= engine.config.loss_basis_points,
        config.reorder_basis_points == engine.config.reorder_basis_points,
        config.jitter_max_us == engine.config.jitter_max_us,
        config.reorder_extra_delay_us == engine.config.reorder_extra_delay_us,
    ensures
        ({
            let worse = EngineView { config, ..engine };
            &&& engine.spec_plan(now_us) is Drop ==> worse.spec_plan(now_us) is Drop
            &&& worse.spec_plan(now_us) is DeliverAt ==> worse.spec_plan(now_us)
                == engine.spec_plan(now_us)
        }),
{
}

/// A drawn delay takes every value up to the largest, and no larger one.
pub proof fn law_drawn_delay(drawn: u64, max_us: u64)
    ensures
        spec_delay(drawn, max_us) <= max_us,
        drawn <= max_us && drawn < u64::MAX ==> spec_delay(drawn, max_us) == drawn,
{
    if drawn <= max_us && max_us < u64::MAX {
        vstd::arithmetic::div_mod::lemma_small_mod(drawn as nat, (max_us + 1) as nat);
    }
    if max_us == u64::MAX && drawn < u64::MAX {
        vstd::arithmetic::div_mod::lemma_small_mod(drawn as nat, u64::MAX as nat);
    }
}

/// A seed of its own starts the generator where it is not zero.
pub proof fn law_seed_is_kept(seed: u64)
    requires
        seed != 0,
    ensures
        spec_seeded(seed) == seed,
{
}

/// What becomes of a packet follows from the numbers that are drawn for it, in this order: the
/// first decides whether it is lost, the next, where there is jitter, by how much it is late, and
/// the last whether it is reordered. Nothing is drawn for jitter where there is none, nor anything
/// more for a packet that is lost.
pub proof fn law_draws_decide(engine: EngineView, now_us: u64)
    requires
        engine.config.jitter_max_us < u64::MAX,
        now_us + engine.config.jitter_max_us + engine.config.reorder_extra_delay_us <= u64::MAX,
    ensures
        ({
            let first = spec_next(engine.state);
            let second = spec_next(first);
            let last = if engine.config.jitter_max_us == 0 {
                second
            } else {
                spec_next(second)
            };
            let late = if engine.config.jitter_max_us == 0 {
                0
            } else {
                second as int % (engine.config.jitter_max_us + 1)
            };
            let lost = first % 10_000 < engine.config.loss_basis_points;
            let reordered = last % 10_000 < engine.config.reorder_basis_points;
            let decision = engine.spec_plan(now_us);
            let after = engine.spec_planned();
            &&& lost ==> decision is Drop && after.state == first
            &&& !lost && !reordered ==> decision == (ImpairmentDecision::DeliverAt {
                due_us: (now_us + late) as u64,
                reordered: false,
            })
            &&& !lost && reordered ==> decision == (ImpairmentDecision::DeliverAt {
                due_us: (now_us + late + engine.config.reorder_extra_delay_us) as u64,
                reordered: true,
            })
            &&& !lost ==> after.state == last
        }),
{
    let second = spec_next(spec_next(engine.state)) as int;
    let bound = engine.config.jitter_max_us + 1;
    assert(0 <= second % bound < bound) by {
        vstd::arithmetic::div_mod::lemma_mod_bound(second, bound);
    }
}

/// Two states lead to the same next one only where they are the same, so that no run of numbers
/// runs into another.
pub proof fn law_generator_steps_are_distinct(x: u64, y: u64)
    requires
        x != y,
    ensures
        spec_next(x) != spec_next(y),
{
    let z = x ^ y;
    assert(z != 0) by (bit_vector)
        requires
            x != y,
            z == x ^ y,
    ;
    law_generator_never_stalls(1, z);
    let a = x ^ (x << 13);
    let b = a ^ (a >> 7);
    let c = y ^ (y << 13);
    let d = c ^ (c >> 7);
    let e = z ^ (z << 13);
    let f = e ^ (e >> 7);
    assert(e == a ^ c) by (bit_vector)
        requires
            z == x ^ y,
            a == x ^ (x << 13),
            c == y ^ (y << 13),
            e == z ^ (z << 13),
    ;
    assert(f == b ^ d) by (bit_vector)
        requires
            e == a ^ c,
            b == a ^ (a >> 7),
            d == c ^ (c >> 7),
            f == e ^ (e >> 7),
    ;
    assert((f ^ (f << 17)) == (b ^ (b << 17)) ^ (d ^ (d << 17))) by (bit_vector)
        requires
            f == b ^ d,
    ;
    let p = spec_next(x);
    let q = spec_next(y);
    assert(p ^ q != 0 ==> p != q) by (bit_vector);
}

} // verus!
