//! Which renditions of a presentation to encode.

use vstd::prelude::*;

verus! {

#[derive(Debug, Clone, Copy, PartialEq, Eq, PartialOrd, Ord, Structural)]
pub enum RenditionTier {
    Low,
    Medium,
    High,
}

#[derive(Debug, Clone, Copy, PartialEq, Eq, Structural)]
pub struct RenditionProfile {
    pub tier: RenditionTier,
    pub width: u16,
    pub height: u16,
    pub fps: u8,
    pub bitrate_kbps: u32,
}

impl RenditionProfile {
    /// The profile of a tier.
    pub open spec fn of(tier: RenditionTier) -> Self {
        match tier {
            RenditionTier::High => RenditionProfile {
                tier,
                width: 1920,
                height: 1080,
                fps: 30,
                bitrate_kbps: 5_000,
            },
            RenditionTier::Medium => RenditionProfile {
                tier,
                width: 1280,
                height: 720,
                fps: 30,
                bitrate_kbps: 2_500,
            },
            RenditionTier::Low => RenditionProfile {
                tier,
                width: 854,
                height: 480,
                fps: 20,
                bitrate_kbps: 900,
            },
        }
    }

    #[must_use]
    pub fn high() -> (profile: Self)
        ensures
            profile == Self::of(RenditionTier::High),
    {
        RenditionProfile {
            tier: RenditionTier::High,
            width: 1920,
            height: 1080,
            fps: 30,
            bitrate_kbps: 5_000,
        }
    }

    #[must_use]
    pub fn medium() -> (profile: Self)
        ensures
            profile == Self::of(RenditionTier::Medium),
    {
        RenditionProfile {
            tier: RenditionTier::Medium,
            width: 1280,
            height: 720,
            fps: 30,
            bitrate_kbps: 2_500,
        }
    }

    #[must_use]
    pub fn low() -> (profile: Self)
        ensures
            profile == Self::of(RenditionTier::Low),
    {
        RenditionProfile {
            tier: RenditionTier::Low,
            width: 854,
            height: 480,
            fps: 20,
            bitrate_kbps: 900,
        }
    }
}

#[derive(Debug, Clone, Copy, PartialEq, Eq, Structural)]
pub struct RenditionPlannerConfig {
    pub max_renditions: u8,
    /// Do not spend another encoder/rendition for one isolated weak receiver unless policy decides
    /// it is worth it. This keeps GPU cost bounded.
    pub min_receivers_for_extra_rendition: usize,
}

impl Default for RenditionPlannerConfig {
    fn default() -> (config: Self)
        ensures
            config.max_renditions == 3,
            config.min_receivers_for_extra_rendition == 3,
    {
        RenditionPlannerConfig { max_renditions: 3, min_receivers_for_extra_rendition: 3 }
    }
}

#[derive(Debug, Clone, Copy, PartialEq, Eq, Structural)]
pub struct ReceiverDemand {
    pub tier: RenditionTier,
}

#[derive(Debug, Clone, PartialEq, Eq)]
pub struct RenditionPlan {
    pub profiles: Vec<RenditionProfile>,
}

/// The number of receivers that want a tier.
pub open spec fn demand_count(demands: Seq<ReceiverDemand>, tier: RenditionTier) -> nat
    decreases demands.len(),
{
    if demands.len() == 0 {
        0
    } else {
        demand_count(demands.drop_last(), tier) + if demands.last().tier == tier {
            1nat
        } else {
            0nat
        }
    }
}

/// Enough receivers want the tier, where there are any receivers.
pub open spec fn spec_requested(
    config: RenditionPlannerConfig,
    demands: Seq<ReceiverDemand>,
    tier: RenditionTier,
) -> bool {
    demands.len() > 0 && demand_count(demands, tier) >= config.min_receivers_for_extra_rendition
}

/// The budget: one rendition at least.
pub open spec fn spec_budget(config: RenditionPlannerConfig) -> int {
    if config.max_renditions == 0 {
        1
    } else {
        config.max_renditions as int
    }
}

/// The tiers that are encoded: always the high one, then the low one and the medium one, in
/// this order, as far as they are requested and the budget allows. A low rendition is the
/// most likely to rescue a constrained receiver.
pub open spec fn spec_plan(
    config: RenditionPlannerConfig,
    demands: Seq<ReceiverDemand>,
) -> Seq<RenditionTier> {
    let max = spec_budget(config);
    let low = max >= 2 && spec_requested(config, demands, RenditionTier::Low);
    let used = if low {
        2
    } else {
        1int
    };
    let medium = max > used && spec_requested(config, demands, RenditionTier::Medium);
    seq![RenditionTier::High] + (if low {
        seq![RenditionTier::Low]
    } else {
        Seq::empty()
    }) + (if medium {
        seq![RenditionTier::Medium]
    } else {
        Seq::empty()
    })
}

/// The number of receivers that want a tier.
fn count_demand(demands: &[ReceiverDemand], tier: RenditionTier) -> (count: usize)
    ensures
        count == demand_count(demands@, tier),
        count <= demands@.len(),
{
    let mut count: usize = 0;
    let mut i: usize = 0;
    while i < demands.len()
        invariant
            i <= demands@.len(),
            count <= i,
            count == demand_count(demands@.take(i as int), tier),
        decreases demands@.len() - i,
    {
        proof {
            assert(demands@.take(i + 1).drop_last() =~= demands@.take(i as int));
        }
        if demands[i].tier == tier {
            count += 1;
        }
        i += 1;
    }
    proof {
        assert(demands@.take(i as int) =~= demands@);
    }
    count
}

/// Builds a small, deterministic set of presentation renditions.
///
/// Simulcast is deliberately optional. The default is one high-quality classroom stream; extra
/// renditions are added only when enough receivers need them and encoder budget allows it.
#[must_use]
pub fn plan_renditions(config: RenditionPlannerConfig, demands: &[ReceiverDemand]) -> (plan:
    RenditionPlan)
    ensures
        plan.profiles@.len() == spec_plan(config, demands@).len(),
        forall|i: int|
            0 <= i < plan.profiles@.len() ==> #[trigger] plan.profiles@[i] == RenditionProfile::of(
                spec_plan(config, demands@)[i],
            ),
{
    let max: usize = if config.max_renditions == 0 {
        1
    } else {
        config.max_renditions as usize
    };
    let mut profiles: Vec<RenditionProfile> = Vec::new();
    profiles.push(RenditionProfile::high());
    if max == 1 || demands.is_empty() {
        return RenditionPlan { profiles };
    }
    let low_count: usize = count_demand(demands, RenditionTier::Low);
    let medium_count: usize = count_demand(demands, RenditionTier::Medium);
    if low_count >= config.min_receivers_for_extra_rendition {
        profiles.push(RenditionProfile::low());
    }
    if profiles.len() < max && medium_count >= config.min_receivers_for_extra_rendition {
        profiles.push(RenditionProfile::medium());
    }
    RenditionPlan { profiles }
}

/// The plan never exceeds the encoder budget, and always holds the high rendition.
pub proof fn law_plan_stays_within_budget(
    config: RenditionPlannerConfig,
    demands: Seq<ReceiverDemand>,
)
    ensures
        1 <= spec_plan(config, demands).len() <= spec_budget(config),
        spec_plan(config, demands)[0] == RenditionTier::High,
{
}

/// Too few weak receivers do not bring about another encoder, however many strong ones there are.
pub proof fn law_isolated_receivers_add_no_rendition(
    config: RenditionPlannerConfig,
    demands: Seq<ReceiverDemand>,
)
    requires
        demand_count(demands, RenditionTier::Low) < config.min_receivers_for_extra_rendition,
        demand_count(demands, RenditionTier::Medium) < config.min_receivers_for_extra_rendition,
    ensures
        spec_plan(config, demands) == seq![RenditionTier::High],
{
    assert(spec_plan(config, demands) =~= seq![RenditionTier::High]);
}

/// Counting a demand is keeping the receivers that want the tier.
pub proof fn law_demand_counts_the_receivers(demands: Seq<ReceiverDemand>, tier: RenditionTier)
    ensures
        demand_count(demands, tier) == demands.filter(|d: ReceiverDemand| d.tier == tier).len(),
    decreases demands.len(),
{
    let wanted = |d: ReceiverDemand| d.tier == tier;
    reveal(Seq::filter);
    if demands.len() > 0 {
        law_demand_counts_the_receivers(demands.drop_last(), tier);
    }
}

/// A tier that enough receivers want is in the plan where the budget has room for it: for Low
/// that is room beside the high rendition, for Medium room beside the high one and beside the low
/// one where that is wanted too. Where only one more fits, Low goes first. A tier that too few
/// want is not in the plan, and none is there twice.
pub proof fn law_wanted_tiers_are_planned(
    config: RenditionPlannerConfig,
    demands: Seq<ReceiverDemand>,
)
    ensures
        ({
            let plan = spec_plan(config, demands);
            let lows = demands.filter(|d: ReceiverDemand| d.tier == RenditionTier::Low).len();
            let mediums = demands.filter(|d: ReceiverDemand| d.tier == RenditionTier::Medium).len();
            let least = config.min_receivers_for_extra_rendition;
            let low = demands.len() > 0 && lows >= least;
            let medium = demands.len() > 0 && mediums >= least;
            &&& plan.contains(RenditionTier::High)
            &&& low && config.max_renditions >= 2 ==> plan.contains(RenditionTier::Low)
            &&& medium && config.max_renditions >= 3 ==> plan.contains(RenditionTier::Medium)
            &&& medium && !low && config.max_renditions >= 2 ==> plan.contains(
                RenditionTier::Medium,
            )
            &&& low && config.max_renditions == 2 ==> !plan.contains(RenditionTier::Medium)
            &&& plan.contains(RenditionTier::Low) ==> low && config.max_renditions >= 2
            &&& plan.contains(RenditionTier::Medium) ==> medium && config.max_renditions >= 2
            &&& plan.no_duplicates()
            &&& plan.len() == 1 || plan.len() <= config.max_renditions
        }),
{
    law_demand_counts_the_receivers(demands, RenditionTier::Low);
    law_demand_counts_the_receivers(demands, RenditionTier::Medium);
    let plan = spec_plan(config, demands);
    let max = spec_budget(config);
    let low = max >= 2 && spec_requested(config, demands, RenditionTier::Low);
    let medium = max > (if low { 2int } else { 1int }) && spec_requested(
        config,
        demands,
        RenditionTier::Medium,
    );
    assert(plan[0] == RenditionTier::High);
    if low {
        assert(plan[1] == RenditionTier::Low);
        if medium {
            assert(plan[2] == RenditionTier::Medium);
        }
    } else if medium {
        assert(plan[1] == RenditionTier::Medium);
    }
}

/// Whether a tier is planned depends on its own demand and on the room that the budget leaves:
/// another tier's demand matters only where it takes the last room.
pub proof fn law_tiers_do_not_depend_on_each_other(
    config: RenditionPlannerConfig,
    demands: Seq<ReceiverDemand>,
    others: Seq<ReceiverDemand>,
)
    requires
        demands.len() > 0,
        others.len() > 0,
    ensures
        demand_count(demands, RenditionTier::Low) == demand_count(others, RenditionTier::Low)
            ==> spec_plan(config, demands).contains(RenditionTier::Low) == spec_plan(
            config,
            others,
        ).contains(RenditionTier::Low),
        config.max_renditions >= 3 && demand_count(demands, RenditionTier::Medium) == demand_count(
            others,
            RenditionTier::Medium,
        ) ==> spec_plan(config, demands).contains(RenditionTier::Medium) == spec_plan(
            config,
            others,
        ).contains(RenditionTier::Medium),
{
    law_demand_counts_the_receivers(demands, RenditionTier::Low);
    law_demand_counts_the_receivers(demands, RenditionTier::Medium);
    law_demand_counts_the_receivers(others, RenditionTier::Low);
    law_demand_counts_the_receivers(others, RenditionTier::Medium);
    law_wanted_tiers_are_planned(config, demands);
    law_wanted_tiers_are_planned(config, others);
}

/// A profile is that of its tier, a better tier costs more in every respect, and the pictures
/// have an even size.
pub proof fn law_better_renditions_cost_more(tier: RenditionTier)
    ensures
        ({
            let low = RenditionProfile::of(RenditionTier::Low);
            let medium = RenditionProfile::of(RenditionTier::Medium);
            let high = RenditionProfile::of(RenditionTier::High);
            let profile = RenditionProfile::of(tier);
            &&& profile.tier == tier
            &&& profile.width % 2 == 0 && profile.height % 2 == 0
            &&& (low.width, low.height, low.fps, low.bitrate_kbps) == (854u16, 480u16, 20u8, 900u32)
            &&& medium.width == 1280 && 9 * medium.width == 16 * medium.height
            &&& 2 * high.width == 3 * medium.width && 9 * high.width == 16 * high.height
            &&& high.fps == medium.fps && medium.fps == low.fps + 10
            &&& high.bitrate_kbps == 2 * medium.bitrate_kbps && medium.bitrate_kbps == 2_500
        }),
{
}

} // verus!
