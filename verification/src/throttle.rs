//! The throttle: whether a hook is to inject its context again.

use vstd::prelude::*;
use crate::state::{
    current_totals, files_after_reset, law_read_gives_back_write, law_reset_forgets,
    law_writes_do_not_interfere, leads_away, read_consumer_state, read_monitor_status, status_in,
    status_text, write_consumer_state, written_around, MonitorStatus, StateDir, MONITOR_STATUS,
};
use crate::types::{InjectReason, ThrottleConfig, ThrottleDecision};

verus! {

/// Two readings of the context held against each other, in tokens or in bytes.
pub struct Comparison {
    /// What growth is measured by, now and at the last injection.
    pub now: int,
    pub before: int,
    /// Growth beyond this calls for an injection.
    pub growth_limit: int,
    /// The size of the whole context, now and at the last injection.
    pub context: int,
    pub context_before: int,
    /// Up to this size of the context the position does not matter.
    pub context_floor: int,
}

/// Compares the totals of the monitor with the baseline of a hook.
///
/// Where both know the load of the context window, tokens count, and the byte
/// thresholds are taken at three bytes a token.  Otherwise bytes count: growth
/// goes by non-thinking bytes, the size of the context by all bytes.
pub open spec fn compare(
    config: ThrottleConfig,
    monitor: MonitorStatus,
    saved: MonitorStatus,
) -> Comparison {
    match (monitor.usage_tokens, saved.usage_tokens) {
        (Some(tokens), Some(saved_tokens)) => Comparison {
            now: tokens as int,
            before: saved_tokens as int,
            growth_limit: config.growth_bytes as int / 3,
            context: tokens as int,
            context_before: saved_tokens as int,
            context_floor: config.min_context_bytes as int / 3,
        },
        _ => Comparison {
            now: monitor.non_thinking_bytes as int,
            before: saved.non_thinking_bytes as int,
            growth_limit: config.growth_bytes as int,
            context: monitor.non_thinking_bytes + monitor.thinking_bytes,
            context_before: saved.non_thinking_bytes + saved.thinking_bytes,
            context_floor: config.min_context_bytes as int,
        },
    }
}

impl Comparison {
    /// The context has shrunk.
    pub open spec fn compacted(self) -> bool {
        self.now < self.before
    }

    pub open spec fn delta(self) -> int {
        self.now - self.before
    }

    /// The context has grown by more than the limit.
    pub open spec fn outgrown(self) -> bool {
        self.delta() > self.growth_limit
    }

    /// The context is large enough for the position to matter.
    pub open spec fn position_matters(self) -> bool {
        self.context > self.context_floor && self.context > 0
    }

    /// Where the last injection sits, in percent of the context, rounded down.
    pub open spec fn position_pct(self) -> int {
        self.context_before * 100 / self.context
    }

    /// The last injection sits in the dead zone.
    pub open spec fn in_dead_zone(self, config: ThrottleConfig) -> bool {
        &&& self.position_matters()
        &&& config.primacy_threshold < self.position_pct() < config.recency_threshold
    }

    /// What a hook with a baseline is to do.
    pub open spec fn decision(self, config: ThrottleConfig) -> ThrottleDecision {
        if self.compacted() {
            ThrottleDecision::Inject(InjectReason::CompactionDetected)
        } else if self.outgrown() {
            ThrottleDecision::Inject(
                InjectReason::GrowthExceeded {
                    delta: self.delta() as u64,
                    threshold: self.growth_limit as u64,
                },
            )
        } else if self.in_dead_zone(config) {
            ThrottleDecision::Inject(
                InjectReason::DeadZone { position_pct: self.position_pct() as u64 },
            )
        } else {
            ThrottleDecision::Skip
        }
    }

    /// Whether the position can be worked out in 64 bits, where it is asked for.
    pub open spec fn in_range(self) -> bool {
        !self.compacted() && !self.outgrown() ==> {
            &&& self.context <= u64::MAX
            &&& self.position_matters() ==> self.context_before * 100 <= u64::MAX
        }
    }
}

/// What a hook is to do, from the totals of the monitor and its own baseline.
pub open spec fn decide(
    config: ThrottleConfig,
    monitor: Option<MonitorStatus>,
    saved: Option<MonitorStatus>,
) -> ThrottleDecision {
    match (monitor, saved) {
        (_, None) => ThrottleDecision::Inject(InjectReason::FirstRun),
        (None, Some(_)) => ThrottleDecision::Skip,
        (Some(m), Some(s)) => compare(config, m, s).decision(config),
    }
}

/// The baseline that a decision leaves behind.  A first run and a compaction
/// set it to the totals of the monitor; nothing else touches it.
pub open spec fn new_baseline(
    decision: ThrottleDecision,
    monitor: Option<MonitorStatus>,
) -> Option<MonitorStatus> {
    let current = match monitor {
        Some(m) => m,
        None => MonitorStatus::nothing(),
    };
    match decision {
        ThrottleDecision::Inject(InjectReason::FirstRun) => Some(current),
        ThrottleDecision::Inject(InjectReason::CompactionDetected) => Some(current),
        _ => None,
    }
}

/// The decision for a hook in the state directory `dir`.
pub open spec fn decide_in(
    dir: Map<Seq<char>, Seq<char>>,
    hook_name: Seq<char>,
    config: ThrottleConfig,
) -> ThrottleDecision {
    decide(config, status_in(dir, MONITOR_STATUS@), status_in(dir, hook_name))
}

/// The state directory after the decision for a hook.
pub open spec fn dir_after(
    dir: Map<Seq<char>, Seq<char>>,
    hook_name: Seq<char>,
    config: ThrottleConfig,
) -> Map<Seq<char>, Seq<char>> {
    match new_baseline(decide_in(dir, hook_name, config), status_in(dir, MONITOR_STATUS@)) {
        Some(baseline) => dir.insert(hook_name, status_text(baseline)),
        None => dir,
    }
}

/// What the decision for a hook leaves of the rest of the state directory.
pub open spec fn rest_after(
    before: StateDir,
    after: StateDir,
    hook_name: Seq<char>,
    config: ThrottleConfig,
) -> bool {
    if new_baseline(
        decide_in(before@, hook_name, config),
        status_in(before@, MONITOR_STATUS@),
    ) is Some {
        written_around(before, after, hook_name)
    } else {
        after == before
    }
}

/// Whether the decision for a hook can be worked out in 64 bits.
pub open spec fn decidable_in(
    dir: Map<Seq<char>, Seq<char>>,
    hook_name: Seq<char>,
    config: ThrottleConfig,
) -> bool {
    match (status_in(dir, MONITOR_STATUS@), status_in(dir, hook_name)) {
        (Some(monitor), Some(saved)) => compare(config, monitor, saved).in_range(),
        _ => true,
    }
}

/// Decides whether the named hook is to inject its context now.
///
/// 1. Without a baseline the hook injects: it is its first run.
/// 2. With a baseline but no totals of the monitor it does not.
/// 3. With both, it injects where the context has shrunk, where it has grown by
///    more than the threshold, and where the last injection has drifted into
///    the dead zone.
///
/// On a first run and after a compaction the baseline is set here.  After any
/// other injection the caller sets it, with [`record`].
pub fn should_reinject(
    hook_name: &str,
    config: &ThrottleConfig,
    state_dir: &mut StateDir,
) -> (decision: ThrottleDecision)
    requires
        decidable_in(old(state_dir)@, hook_name@, *config),
    ensures
        decision == decide_in(old(state_dir)@, hook_name@, *config),
        final(state_dir)@ == dir_after(old(state_dir)@, hook_name@, *config),
        rest_after(*old(state_dir), *final(state_dir), hook_name@, *config),
{
    let monitor = read_monitor_status(state_dir);
    let consumer = read_consumer_state(state_dir, hook_name);
    match (monitor, consumer) {
        (None, None) => {
            record(state_dir, hook_name, &MonitorStatus::default());
            ThrottleDecision::Inject(InjectReason::FirstRun)
        },
        (None, Some(_)) => ThrottleDecision::Skip,
        (Some(monitor), None) => {
            record(state_dir, hook_name, &monitor);
            ThrottleDecision::Inject(InjectReason::FirstRun)
        },
        (Some(monitor), Some(saved)) => decide_with_state(
            hook_name,
            config,
            state_dir,
            &monitor,
            &saved,
        ),
    }
}

/// Sets the baseline of the hook to `status`.
pub fn record(state_dir: &mut StateDir, hook_name: &str, status: &MonitorStatus)
    ensures
        final(state_dir)@ == old(state_dir)@.insert(hook_name@, status_text(*status)),
        written_around(*old(state_dir), *final(state_dir), hook_name@),
{
    write_consumer_state(state_dir, hook_name, status);
}

/// Decides for a hook with a baseline.  Where the context has shrunk, the
/// totals of the monitor become the new baseline.
pub fn decide_with_state(
    hook_name: &str,
    config: &ThrottleConfig,
    state_dir: &mut StateDir,
    monitor: &MonitorStatus,
    saved: &MonitorStatus,
) -> (decision: ThrottleDecision)
    requires
        compare(*config, *monitor, *saved).in_range(),
    ensures
        decision == compare(*config, *monitor, *saved).decision(*config),
        final(state_dir)@ == if compare(*config, *monitor, *saved).compacted() {
            old(state_dir)@.insert(hook_name@, status_text(*monitor))
        } else {
            old(state_dir)@
        },
        if compare(*config, *monitor, *saved).compacted() {
            written_around(*old(state_dir), *final(state_dir), hook_name@)
        } else {
            *final(state_dir) == *old(state_dir)
        },
        match (monitor.usage_tokens, saved.usage_tokens) {
            (Some(now), Some(before)) => {
                &&& decision == ThrottleDecision::Inject(InjectReason::CompactionDetected) <==> now
                    < before
                &&& (decision is Inject && decision->0 is GrowthExceeded) <==> 3 * (now - before)
                    > config.growth_bytes
            },
            _ => {
                &&& decision == ThrottleDecision::Inject(InjectReason::CompactionDetected)
                    <==> monitor.non_thinking_bytes < saved.non_thinking_bytes
                &&& (decision is Inject && decision->0 is GrowthExceeded)
                    <==> monitor.non_thinking_bytes - saved.non_thinking_bytes > config.growth_bytes
            },
        },
{
    let compacted = match (monitor.usage_tokens, saved.usage_tokens) {
        (Some(tokens), Some(saved_tokens)) => tokens < saved_tokens,
        _ => monitor.non_thinking_bytes < saved.non_thinking_bytes,
    };
    if compacted {
        record(state_dir, hook_name, monitor);
        return ThrottleDecision::Inject(InjectReason::CompactionDetected);
    }
    if let (Some(tokens), Some(saved_tokens)) = (monitor.usage_tokens, saved.usage_tokens) {
        let delta: u64 = tokens - saved_tokens;
        let threshold: u64 = config.growth_bytes / 3;
        if delta > threshold {
            return ThrottleDecision::Inject(InjectReason::GrowthExceeded { delta, threshold });
        }
        let floor: u64 = config.min_context_bytes / 3;
        if tokens > floor && tokens > 0 {
            let position_pct: u64 = saved_tokens * 100 / tokens;
            if position_pct > config.primacy_threshold && position_pct < config.recency_threshold {
                return ThrottleDecision::Inject(InjectReason::DeadZone { position_pct });
            }
        }
    } else {
        let delta: u64 = monitor.non_thinking_bytes - saved.non_thinking_bytes;
        if delta > config.growth_bytes {
            return ThrottleDecision::Inject(
                InjectReason::GrowthExceeded { delta, threshold: config.growth_bytes },
            );
        }
        let total: u64 = monitor.non_thinking_bytes + monitor.thinking_bytes;
        if total > config.min_context_bytes && total > 0 {
            let saved_total: u64 = saved.non_thinking_bytes + saved.thinking_bytes;
            let position_pct: u64 = saved_total * 100 / total;
            if position_pct > config.primacy_threshold && position_pct < config.recency_threshold {
                return ThrottleDecision::Inject(InjectReason::DeadZone { position_pct });
            }
        }
    }
    ThrottleDecision::Skip
}

/// Whether the two readings can be compared in 64 bits.
pub fn comparable(config: &ThrottleConfig, monitor: &MonitorStatus, saved: &MonitorStatus) -> (ok:
    bool)
    ensures
        ok == compare(*config, *monitor, *saved).in_range(),
{
    if let (Some(tokens), Some(saved_tokens)) = (monitor.usage_tokens, saved.usage_tokens) {
        tokens < saved_tokens || tokens - saved_tokens > config.growth_bytes / 3 || tokens
            <= config.min_context_bytes / 3 || saved_tokens <= u64::MAX / 100
    } else {
        let total: u128 = monitor.non_thinking_bytes as u128 + monitor.thinking_bytes as u128;
        let saved_total: u128 = saved.non_thinking_bytes as u128 + saved.thinking_bytes as u128;
        monitor.non_thinking_bytes < saved.non_thinking_bytes || monitor.non_thinking_bytes
            - saved.non_thinking_bytes > config.growth_bytes || (total <= u64::MAX as u128 && (total
            <= config.min_context_bytes as u128 || saved_total <= (u64::MAX / 100) as u128))
    }
}

/// Whether [`should_reinject`] can decide for the hook: the counts in its files
/// are not so large that their sum, or a hundred times the position, exceeds 64
/// bits.
pub fn can_decide(hook_name: &str, config: &ThrottleConfig, state_dir: &StateDir) -> (ok: bool)
    ensures
        ok == decidable_in(state_dir@, hook_name@, *config),
{
    match (read_monitor_status(state_dir), read_consumer_state(state_dir, hook_name)) {
        (Some(monitor), Some(saved)) => comparable(config, &monitor, &saved),
        _ => true,
    }
}

// ── Laws ─────────────────────────────────────────────────────────────────────

/// After a reset, whatever the directory held, every hook whose baseline stands
/// directly in it injects the next time it asks.
pub proof fn law_reset_leads_to_injection(
    dir: Map<Seq<char>, Seq<char>>,
    hook_name: Seq<char>,
    config: ThrottleConfig,
)
    requires
        !leads_away(hook_name),
    ensures
        decide_in(files_after_reset(dir), hook_name, config) == ThrottleDecision::Inject(
            InjectReason::FirstRun,
        ),
        decidable_in(files_after_reset(dir), hook_name, config),
{
    law_reset_forgets(dir, hook_name);
}

/// Once the current totals are recorded as its baseline, a hook does not inject
/// again as long as the totals stay the same.
pub proof fn law_fresh_baseline_skips(
    dir: Map<Seq<char>, Seq<char>>,
    hook_name: Seq<char>,
    config: ThrottleConfig,
)
    requires
        config.recency_threshold <= 100,
    ensures
        decide_in(
            dir.insert(hook_name, status_text(current_totals(dir))),
            hook_name,
            config,
        ) == ThrottleDecision::Skip,
{
    let current = current_totals(dir);
    let recorded = dir.insert(hook_name, status_text(current));
    law_read_gives_back_write(dir, hook_name, current);
    if hook_name != MONITOR_STATUS@ {
        law_writes_do_not_interfere(dir, hook_name, status_text(current), MONITOR_STATUS@);
    }
    if let Some(monitor) = status_in(recorded, MONITOR_STATUS@) {
        assert(monitor == current);
        let c = compare(config, current, current);
        if c.context > 0 {
            let size = c.context;
            assert(size * 100 / size == 100) by (nonlinear_arith)
                requires
                    size > 0,
            ;
        }
    }
}

/// A first run and a compaction are reported once: asked again, the hook does
/// not inject.
pub proof fn law_self_recorded_injection_is_not_repeated(
    dir: Map<Seq<char>, Seq<char>>,
    hook_name: Seq<char>,
    config: ThrottleConfig,
)
    requires
        config.recency_threshold <= 100,
        decide_in(dir, hook_name, config) == ThrottleDecision::Inject(InjectReason::FirstRun)
            || decide_in(dir, hook_name, config) == ThrottleDecision::Inject(
            InjectReason::CompactionDetected,
        ),
    ensures
        decide_in(dir_after(dir, hook_name, config), hook_name, config) == ThrottleDecision::Skip,
{
    law_fresh_baseline_skips(dir, hook_name, config);
}

/// Any other decision only reads: asked again, it is the same, until the caller
/// records a baseline.
pub proof fn law_other_decisions_only_read(
    dir: Map<Seq<char>, Seq<char>>,
    hook_name: Seq<char>,
    config: ThrottleConfig,
)
    requires
        decide_in(dir, hook_name, config) != ThrottleDecision::Inject(InjectReason::FirstRun),
        decide_in(dir, hook_name, config) != ThrottleDecision::Inject(
            InjectReason::CompactionDetected,
        ),
    ensures
        dir_after(dir, hook_name, config) == dir,
{
}

/// Asking for one hook does not change the answer for another, nor the totals
/// of the monitor.
pub proof fn law_hooks_are_independent(
    dir: Map<Seq<char>, Seq<char>>,
    asked: Seq<char>,
    other: Seq<char>,
    config: ThrottleConfig,
    other_config: ThrottleConfig,
)
    requires
        asked != other,
        asked != MONITOR_STATUS@,
    ensures
        decide_in(dir_after(dir, asked, config), other, other_config) == decide_in(
            dir,
            other,
            other_config,
        ),
        status_in(dir_after(dir, asked, config), MONITOR_STATUS@) == status_in(
            dir,
            MONITOR_STATUS@,
        ),
{
}

/// Where both readings know the tokens, byte counts have no say.
pub proof fn law_tokens_outrank_bytes(
    config: ThrottleConfig,
    monitor: MonitorStatus,
    saved: MonitorStatus,
    other_monitor: MonitorStatus,
    other_saved: MonitorStatus,
)
    requires
        monitor.usage_tokens is Some,
        saved.usage_tokens is Some,
        other_monitor.usage_tokens == monitor.usage_tokens,
        other_saved.usage_tokens == saved.usage_tokens,
    ensures
        decide(config, Some(monitor), Some(saved)) == decide(
            config,
            Some(other_monitor),
            Some(other_saved),
        ),
{
}

/// A drop in tokens is a compaction, however much the bytes have grown.
pub proof fn law_token_drop_is_compaction(
    config: ThrottleConfig,
    monitor: MonitorStatus,
    saved: MonitorStatus,
)
    requires
        monitor.usage_tokens is Some,
        saved.usage_tokens is Some,
        monitor.usage_tokens->0 < saved.usage_tokens->0,
    ensures
        decide(config, Some(monitor), Some(saved)) == ThrottleDecision::Inject(
            InjectReason::CompactionDetected,
        ),
{
}

/// Where either reading lacks the tokens, byte counts decide alone.
pub proof fn law_bytes_decide_without_tokens(
    config: ThrottleConfig,
    monitor: MonitorStatus,
    saved: MonitorStatus,
)
    requires
        monitor.usage_tokens is None || saved.usage_tokens is None,
    ensures
        decide(config, Some(monitor), Some(saved)) == decide(
            config,
            Some(MonitorStatus { usage_tokens: None, ..monitor }),
            Some(MonitorStatus { usage_tokens: None, ..saved }),
        ),
{
}

/// Thinking bytes have no say in whether the context has shrunk or outgrown the
/// threshold.
pub proof fn law_thinking_does_not_count_as_growth(
    config: ThrottleConfig,
    monitor: MonitorStatus,
    saved: MonitorStatus,
    monitor_thinking: u64,
    saved_thinking: u64,
)
    ensures
        ({
            let c = compare(config, monitor, saved);
            let d = compare(
                config,
                MonitorStatus { thinking_bytes: monitor_thinking, ..monitor },
                MonitorStatus { thinking_bytes: saved_thinking, ..saved },
            );
            &&& c.compacted() == d.compacted()
            &&& c.outgrown() == d.outgrown()
            &&& c.compacted() || c.outgrown() ==> c.decision(config) == d.decision(config)
        }),
{
}

/// An injection for growth means growth beyond the threshold, and one for the
/// dead zone a position strictly inside it, in a context above the floor.
pub proof fn law_reasons_are_true(
    config: ThrottleConfig,
    monitor: MonitorStatus,
    saved: MonitorStatus,
)
    ensures
        decide(config, Some(monitor), Some(saved)) matches ThrottleDecision::Inject(
            InjectReason::GrowthExceeded { delta, threshold },
        ) ==> delta > threshold && delta == compare(config, monitor, saved).delta() && threshold
            == compare(config, monitor, saved).growth_limit,
        decide(config, Some(monitor), Some(saved)) matches ThrottleDecision::Inject(
            InjectReason::DeadZone { position_pct },
        ) ==> config.primacy_threshold < position_pct < config.recency_threshold && position_pct
            == compare(config, monitor, saved).position_pct() && compare(
            config,
            monitor,
            saved,
        ).position_matters(),
{
}

/// A hook that has outgrown its threshold goes on injecting as the context
/// grows further.
pub proof fn law_growth_keeps_calling(
    config: ThrottleConfig,
    monitor: MonitorStatus,
    larger: MonitorStatus,
    saved: MonitorStatus,
)
    requires
        compare(config, monitor, saved).outgrown(),
        compare(config, larger, saved).now >= compare(config, monitor, saved).now,
        larger.usage_tokens is Some == monitor.usage_tokens is Some,
    ensures
        decide(config, Some(larger), Some(saved)) matches ThrottleDecision::Inject(
            InjectReason::GrowthExceeded { .. },
        ),
{
}

/// A lower growth threshold never makes a hook inject less often.
pub proof fn law_stricter_tier_injects_as_often(
    strict: ThrottleConfig,
    lax: ThrottleConfig,
    monitor: Option<MonitorStatus>,
    saved: Option<MonitorStatus>,
)
    requires
        strict.growth_bytes <= lax.growth_bytes,
        strict == (ThrottleConfig { growth_bytes: strict.growth_bytes, ..lax }),
        decide(lax, monitor, saved) is Inject,
    ensures
        decide(strict, monitor, saved) is Inject,
{
}

/// Where both readings know the tokens, the two counts and the thresholds settle
/// the decision.  A drop is a compaction.  Growth calls for an injection where
/// three times the tokens gained exceed the growth threshold, which is in bytes.
/// Otherwise the position decides, once three times the tokens exceed the floor:
/// the tokens at the last injection, in percent of those now and rounded down, lie
/// strictly between the two ends of the dead zone.  Nothing else leads to an
/// injection.
pub proof fn law_token_decision(
    config: ThrottleConfig,
    monitor: MonitorStatus,
    saved: MonitorStatus,
    now: u64,
    before: u64,
)
    requires
        monitor.usage_tokens == Some(now),
        saved.usage_tokens == Some(before),
    ensures
        decide(config, Some(monitor), Some(saved)) == ThrottleDecision::Inject(
            InjectReason::CompactionDetected,
        ) <==> now < before,
        decide(config, Some(monitor), Some(saved)) matches ThrottleDecision::Inject(
            InjectReason::GrowthExceeded { .. },
        ) <==> 3 * (now - before) > config.growth_bytes,
        decide(config, Some(monitor), Some(saved)) matches ThrottleDecision::Inject(
            InjectReason::DeadZone { .. },
        ) <==> {
            &&& now >= before
            &&& 3 * (now - before) <= config.growth_bytes
            &&& 3 * now > config.min_context_bytes
            &&& now > 0
            &&& before * 100 >= (config.primacy_threshold + 1) * now
            &&& before * 100 < config.recency_threshold * now
        },
        decide(config, Some(monitor), Some(saved)) != ThrottleDecision::Inject(
            InjectReason::FirstRun,
        ),
        decide(config, Some(monitor), Some(saved)) matches ThrottleDecision::Inject(
            InjectReason::GrowthExceeded { delta, threshold },
        ) ==> delta == now - before && 3 * threshold <= config.growth_bytes < 3 * threshold + 3,
        decide(config, Some(monitor), Some(saved)) matches ThrottleDecision::Inject(
            InjectReason::DeadZone { position_pct },
        ) ==> position_pct * now <= before * 100 < (position_pct + 1) * now,
{
    if now > 0 {
        lemma_percent(
            before as int,
            now as int,
            config.primacy_threshold as int,
            config.recency_threshold as int,
        );
    }
}

/// Where either reading lacks the tokens, byte counts settle the decision.  Fewer
/// non-thinking bytes mean a compaction, and more of them than the growth threshold
/// call for an injection.  Otherwise the position decides, once all bytes,
/// thinking included, exceed the floor.
pub proof fn law_byte_decision(
    config: ThrottleConfig,
    monitor: MonitorStatus,
    saved: MonitorStatus,
    total: int,
    saved_total: int,
)
    requires
        monitor.usage_tokens is None || saved.usage_tokens is None,
        total == monitor.non_thinking_bytes + monitor.thinking_bytes,
        saved_total == saved.non_thinking_bytes + saved.thinking_bytes,
    ensures
        decide(config, Some(monitor), Some(saved)) == ThrottleDecision::Inject(
            InjectReason::CompactionDetected,
        ) <==> monitor.non_thinking_bytes < saved.non_thinking_bytes,
        decide(config, Some(monitor), Some(saved)) matches ThrottleDecision::Inject(
            InjectReason::GrowthExceeded { .. },
        ) <==> monitor.non_thinking_bytes - saved.non_thinking_bytes > config.growth_bytes,
        decide(config, Some(monitor), Some(saved)) matches ThrottleDecision::Inject(
            InjectReason::DeadZone { .. },
        ) <==> {
            &&& monitor.non_thinking_bytes >= saved.non_thinking_bytes
            &&& monitor.non_thinking_bytes - saved.non_thinking_bytes <= config.growth_bytes
            &&& total > config.min_context_bytes
            &&& total > 0
            &&& saved_total * 100 >= (config.primacy_threshold + 1) * total
            &&& saved_total * 100 < config.recency_threshold * total
        },
        decide(config, Some(monitor), Some(saved)) != ThrottleDecision::Inject(
            InjectReason::FirstRun,
        ),
        decide(config, Some(monitor), Some(saved)) matches ThrottleDecision::Inject(
            InjectReason::GrowthExceeded { delta, threshold },
        ) ==> delta == monitor.non_thinking_bytes - saved.non_thinking_bytes && threshold
            == config.growth_bytes,
        decide(config, Some(monitor), Some(saved)) matches ThrottleDecision::Inject(
            InjectReason::DeadZone { position_pct },
        ) ==> position_pct * total <= saved_total * 100 < (position_pct + 1) * total,
{
    if total > 0 {
        lemma_percent(
            saved_total,
            total,
            config.primacy_threshold as int,
            config.recency_threshold as int,
        );
    }
}

/// What a percentage that is rounded down lies between, without division.
proof fn lemma_percent(part: int, whole: int, low: int, high: int)
    requires
        part >= 0,
        whole > 0,
    ensures
        part * 100 / whole > low <==> part * 100 >= (low + 1) * whole,
        part * 100 / whole < high <==> part * 100 < high * whole,
        (part * 100 / whole) * whole <= part * 100 < (part * 100 / whole + 1) * whole,
{
    let scaled = part * 100;
    let pct = scaled / whole;
    assert(pct * whole <= scaled < (pct + 1) * whole) by (nonlinear_arith)
        requires
            whole > 0,
            pct == scaled / whole,
    ;
    assert(pct >= low + 1 ==> pct * whole >= (low + 1) * whole) by (nonlinear_arith)
        requires
            whole > 0,
    ;
    assert(pct < low + 1 ==> (pct + 1) * whole <= (low + 1) * whole) by (nonlinear_arith)
        requires
            whole > 0,
    ;
    assert(pct >= high ==> pct * whole >= high * whole) by (nonlinear_arith)
        requires
            whole > 0,
    ;
    assert(pct < high ==> (pct + 1) * whole <= high * whole) by (nonlinear_arith)
        requires
            whole > 0,
    ;
}

/// The growth that calls for an injection goes with the threshold: with a threshold
/// `factor` times as large, `factor` times the growth is as much, in tokens as in
/// bytes.
pub proof fn law_growth_scales_with_the_threshold(
    config: ThrottleConfig,
    scaled_config: ThrottleConfig,
    monitor: MonitorStatus,
    saved: MonitorStatus,
    scaled_monitor: MonitorStatus,
    scaled_saved: MonitorStatus,
    factor: int,
)
    requires
        factor > 0,
        scaled_config.growth_bytes == factor * config.growth_bytes,
        ({
            ||| {
                &&& monitor.usage_tokens is Some
                &&& saved.usage_tokens is Some
                &&& scaled_monitor.usage_tokens is Some
                &&& scaled_saved.usage_tokens is Some
                &&& scaled_monitor.usage_tokens->0 - scaled_saved.usage_tokens->0 == factor * (
                monitor.usage_tokens->0 - saved.usage_tokens->0)
            }
            ||| {
                &&& monitor.usage_tokens is None || saved.usage_tokens is None
                &&& scaled_monitor.usage_tokens is None || scaled_saved.usage_tokens is None
                &&& scaled_monitor.non_thinking_bytes - scaled_saved.non_thinking_bytes == factor
                    * (monitor.non_thinking_bytes - saved.non_thinking_bytes)
            }
        }),
    ensures
        (decide(config, Some(monitor), Some(saved)) matches ThrottleDecision::Inject(
            InjectReason::GrowthExceeded { .. },
        )) == (decide(
            scaled_config,
            Some(scaled_monitor),
            Some(scaled_saved),
        ) matches ThrottleDecision::Inject(InjectReason::GrowthExceeded { .. })),
{
    let limit = config.growth_bytes as int;
    if monitor.usage_tokens is Some && saved.usage_tokens is Some {
        let now = monitor.usage_tokens->0;
        let before = saved.usage_tokens->0;
        let scaled_now = scaled_monitor.usage_tokens->0;
        let scaled_before = scaled_saved.usage_tokens->0;
        law_token_decision(config, monitor, saved, now, before);
        law_token_decision(
            scaled_config,
            scaled_monitor,
            scaled_saved,
            scaled_now,
            scaled_before,
        );
        let gain = now - before;
        assert(3 * gain > limit <==> 3 * (factor * gain) > factor * limit) by (nonlinear_arith)
            requires
                factor > 0,
        ;
    } else {
        let gain = monitor.non_thinking_bytes - saved.non_thinking_bytes;
        assert(gain > limit <==> factor * gain > factor * limit) by (nonlinear_arith)
            requires
                factor > 0,
        ;
    }
}

/// A hook without a baseline always injects.  One with a baseline does not as long
/// as the monitor has no totals.
pub proof fn law_missing_readings(
    config: ThrottleConfig,
    monitor: Option<MonitorStatus>,
    saved: MonitorStatus,
)
    ensures
        decide(config, monitor, None) == ThrottleDecision::Inject(InjectReason::FirstRun),
        decide(config, None, Some(saved)) == ThrottleDecision::Skip,
{
}

/// A hook is decided on from the file `monitor-status` and the file of its own name.
pub proof fn law_files_decide(
    dir: Map<Seq<char>, Seq<char>>,
    hook_name: Seq<char>,
    config: ThrottleConfig,
    monitor: MonitorStatus,
    saved: MonitorStatus,
)
    requires
        hook_name != "monitor-status"@,
    ensures
        decide_in(
            dir.insert("monitor-status"@, status_text(monitor)).insert(
                hook_name,
                status_text(saved),
            ),
            hook_name,
            config,
        ) == decide(config, Some(monitor), Some(saved)),
        decide_in(dir.remove(hook_name), hook_name, config) == ThrottleDecision::Inject(
            InjectReason::FirstRun,
        ),
        decide_in(
            dir.insert(hook_name, status_text(saved)).remove("monitor-status"@),
            hook_name,
            config,
        ) == ThrottleDecision::Skip,
{
    let with_monitor = dir.insert("monitor-status"@, status_text(monitor));
    law_read_gives_back_write(dir, "monitor-status"@, monitor);
    law_read_gives_back_write(with_monitor, hook_name, saved);
    law_read_gives_back_write(dir, hook_name, saved);
}

/// A first run and a compaction leave the totals of the monitor as the baseline of
/// the hook, zeros where there are none.  No decision touches any other file, and
/// any other decision touches none at all.
pub proof fn law_baseline_after_a_decision(
    dir: Map<Seq<char>, Seq<char>>,
    hook_name: Seq<char>,
    config: ThrottleConfig,
    other: Seq<char>,
)
    requires
        other != hook_name,
    ensures
        ({
            let decision = decide_in(dir, hook_name, config);
            let after = dir_after(dir, hook_name, config);
            &&& decision == ThrottleDecision::Inject(InjectReason::FirstRun) || decision
                == ThrottleDecision::Inject(InjectReason::CompactionDetected) ==> status_in(
                after,
                hook_name,
            ) == Some(
                match status_in(dir, "monitor-status"@) {
                    Some(totals) => totals,
                    None => MonitorStatus {
                        non_thinking_bytes: 0,
                        thinking_bytes: 0,
                        usage_tokens: None,
                    },
                },
            )
            &&& decision != ThrottleDecision::Inject(InjectReason::FirstRun) && decision
                != ThrottleDecision::Inject(InjectReason::CompactionDetected) ==> after == dir
            &&& after.contains_key(other) == dir.contains_key(other)
            &&& dir.contains_key(other) ==> after[other] == dir[other]
        }),
{
    law_read_gives_back_write(dir, hook_name, current_totals(dir));
}

/// A decision leaves the entries of the directory that are no files as they are.
/// Only one that sets the baseline can bring the directory into being.
pub proof fn law_rest_after_a_decision(
    before: StateDir,
    after: StateDir,
    hook_name: Seq<char>,
    config: ThrottleConfig,
)
    requires
        rest_after(before, after, hook_name, config),
    ensures
        after.others() == before.others(),
        ({
            let decision = decide_in(before@, hook_name, config);
            let sets_baseline = decision == ThrottleDecision::Inject(InjectReason::FirstRun)
                || decision == ThrottleDecision::Inject(InjectReason::CompactionDetected);
            after.present() == (before.present() || (sets_baseline && !hook_name.contains('/')))
        }),
{
}

/// With two readings a decision can be worked out unless the position is asked for
/// and a number on the way to it exceeds 64 bits; otherwise it always can.
pub proof fn law_what_can_be_decided(
    dir: Map<Seq<char>, Seq<char>>,
    hook_name: Seq<char>,
    config: ThrottleConfig,
)
    ensures
        decidable_in(dir, hook_name, config) <==> match (
            status_in(dir, "monitor-status"@),
            status_in(dir, hook_name),
        ) {
            (Some(monitor), Some(saved)) => match (monitor.usage_tokens, saved.usage_tokens) {
                (Some(now), Some(before)) => {
                    ||| now < before
                    ||| 3 * (now - before) > config.growth_bytes
                    ||| 3 * now <= config.min_context_bytes
                    ||| before * 100 <= u64::MAX
                },
                _ => {
                    ||| monitor.non_thinking_bytes < saved.non_thinking_bytes
                    ||| monitor.non_thinking_bytes - saved.non_thinking_bytes > config.growth_bytes
                    ||| monitor.non_thinking_bytes + monitor.thinking_bytes
                        <= config.min_context_bytes
                    ||| monitor.non_thinking_bytes + monitor.thinking_bytes <= u64::MAX && (
                    saved.non_thinking_bytes + saved.thinking_bytes) * 100 <= u64::MAX
                },
            },
            _ => true,
        },
{
}

/// With the standard thresholds, growth by more than 105,000 bytes or 35,000 tokens
/// calls for an injection, and without such growth a position from 16 to 84 percent
/// in a context of more than 21,000 bytes or 7,000 tokens.
pub proof fn law_standard_thresholds(monitor: MonitorStatus, saved: MonitorStatus)
    ensures
        ({
            let decision = decide(ThrottleConfig::standard(), Some(monitor), Some(saved));
            match (monitor.usage_tokens, saved.usage_tokens) {
                (Some(now), Some(before)) => decision is Inject <==> {
                    ||| now < before
                    ||| now - before > 35_000
                    ||| now > 7_000 && 16 * now <= 100 * before < 85 * now
                },
                _ => {
                    let total = monitor.non_thinking_bytes + monitor.thinking_bytes;
                    let saved_total = saved.non_thinking_bytes + saved.thinking_bytes;
                    decision is Inject <==> {
                        ||| monitor.non_thinking_bytes < saved.non_thinking_bytes
                        ||| monitor.non_thinking_bytes - saved.non_thinking_bytes > 105_000
                        ||| total > 21_000 && 16 * total <= 100 * saved_total < 85 * total
                    }
                },
            }
        }),
{
    let config = ThrottleConfig::standard();
    match (monitor.usage_tokens, saved.usage_tokens) {
        (Some(now), Some(before)) => {
            law_token_decision(config, monitor, saved, now, before);
        },
        _ => {
            law_byte_decision(
                config,
                monitor,
                saved,
                monitor.non_thinking_bytes + monitor.thinking_bytes,
                saved.non_thinking_bytes + saved.thinking_bytes,
            );
        },
    }
}

} // verus!
