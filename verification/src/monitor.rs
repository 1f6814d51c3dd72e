//! The monitor: keeps running totals of what a transcript holds.

use vstd::prelude::*;
use crate::parser::Usage;
use crate::state::{
    content, current_totals, law_offset_round_trip, law_read_gives_back_write,
    law_writes_do_not_interfere, lemma_monitor_files_are_direct, offset_of, read_monitor_status,
    status_in, status_text, write_monitor_status, write_offset, written_around, MonitorStatus,
    StateDir, MONITOR_OFFSET, MONITOR_STATUS,
};
use crate::text::decimal;
use crate::throttle::decide;
use crate::transcript::lines_from;
use crate::types::{InjectReason, ThrottleConfig, ThrottleDecision};

verus! {

/// Whether the totals fit into 64 bits once the transcript has gained `counts`
/// and reports `usage`.
pub open spec fn totals_fit(
    totals: MonitorStatus,
    counts: (u64, u64),
    usage: Option<Usage>,
) -> bool {
    &&& totals.non_thinking_bytes + counts.0 <= u64::MAX
    &&& totals.thinking_bytes + counts.1 <= u64::MAX
    &&& usage matches Some(u) ==> u.sum() <= u64::MAX
}

/// The totals once the transcript has gained `counts` and reports `usage`.
pub open spec fn next_totals(
    totals: MonitorStatus,
    counts: (u64, u64),
    usage: Option<Usage>,
) -> MonitorStatus {
    MonitorStatus {
        non_thinking_bytes: (totals.non_thinking_bytes + counts.0) as u64,
        thinking_bytes: (totals.thinking_bytes + counts.1) as u64,
        usage_tokens: match usage {
            Some(u) => Some(u.sum() as u64),
            None => None,
        },
    }
}

/// The state directory once the monitor has read the transcript up to byte
/// `length`.
pub open spec fn monitored_dir(
    dir: Map<Seq<char>, Seq<char>>,
    length: u64,
    counts: (u64, u64),
    usage: Option<Usage>,
) -> Map<Seq<char>, Seq<char>> {
    dir.insert(MONITOR_STATUS@, status_text(next_totals(current_totals(dir), counts, usage))).insert(
        MONITOR_OFFSET@,
        decimal(length as nat),
    )
}

/// Adds what the transcript has gained to the totals of the monitor, and notes
/// the length of the transcript as the offset to go on from.
///
/// `counts` holds the non-thinking and the thinking bytes gained, and `usage`
/// the latest token usage.  Where a total exceeds 64 bits the result is `None`
/// and nothing is written.
pub fn update_monitor(
    state_dir: &mut StateDir,
    length: u64,
    counts: (u64, u64),
    usage: Option<Usage>,
) -> (totals: Option<MonitorStatus>)
    ensures
        match totals {
            Some(status) => {
                &&& totals_fit(current_totals(old(state_dir)@), counts, usage)
                &&& status == next_totals(current_totals(old(state_dir)@), counts, usage)
                &&& final(state_dir)@ == monitored_dir(old(state_dir)@, length, counts, usage)
                &&& written_around(*old(state_dir), *final(state_dir), MONITOR_STATUS@)
                &&& status.non_thinking_bytes == current_totals(
                    old(state_dir)@,
                ).non_thinking_bytes + counts.0
                &&& status.thinking_bytes == current_totals(old(state_dir)@).thinking_bytes
                    + counts.1
                &&& match usage {
                    Some(u) => status.usage_tokens is Some && status.usage_tokens->0
                        == u.input_tokens + u.cache_creation_input_tokens
                        + u.cache_read_input_tokens + u.output_tokens,
                    None => status.usage_tokens is None,
                }
            },
            None => {
                &&& !totals_fit(current_totals(old(state_dir)@), counts, usage)
                &&& *final(state_dir) == *old(state_dir)
            },
        },
{
    let totals = match read_monitor_status(state_dir) {
        Some(status) => status,
        None => MonitorStatus::default(),
    };
    let non_thinking_bytes = totals.non_thinking_bytes.checked_add(counts.0);
    let thinking_bytes = totals.thinking_bytes.checked_add(counts.1);
    let usage_tokens = match usage {
        Some(u) => match u.checked_total() {
            Some(total) => Some(total),
            None => {
                return None;
            },
        },
        None => None,
    };
    match (non_thinking_bytes, thinking_bytes) {
        (Some(nt), Some(th)) => {
            let status = MonitorStatus {
                non_thinking_bytes: nt,
                thinking_bytes: th,
                usage_tokens,
            };
            proof {
                lemma_monitor_files_are_direct();
            }
            write_monitor_status(state_dir, &status);
            write_offset(state_dir, length);
            Some(status)
        },
        _ => None,
    }
}

/// After an update the status file holds the new totals, the offset file the
/// length of the transcript, and every other file what it held.
pub proof fn law_update_is_recorded(
    dir: Map<Seq<char>, Seq<char>>,
    length: u64,
    counts: (u64, u64),
    usage: Option<Usage>,
    other: Seq<char>,
)
    requires
        other != MONITOR_STATUS@,
        other != MONITOR_OFFSET@,
    ensures
        status_in(monitored_dir(dir, length, counts, usage), MONITOR_STATUS@) == Some(
            next_totals(current_totals(dir), counts, usage),
        ),
        offset_of(content(monitored_dir(dir, length, counts, usage), MONITOR_OFFSET@)) == length,
        content(monitored_dir(dir, length, counts, usage), other) == content(dir, other),
{
    reveal_strlit("monitor-status");
    reveal_strlit("monitor-offset");
    assert(MONITOR_STATUS@[8] != MONITOR_OFFSET@[8]);
    let totals = next_totals(current_totals(dir), counts, usage);
    let with_status = dir.insert(MONITOR_STATUS@, status_text(totals));
    law_read_gives_back_write(dir, MONITOR_STATUS@, totals);
    law_writes_do_not_interfere(
        with_status,
        MONITOR_OFFSET@,
        decimal(length as nat),
        MONITOR_STATUS@,
    );
    law_offset_round_trip(with_status, length);
}

/// Each byte total after an update is the total before plus the bytes gained.  The
/// tokens are the sum of the four fields of the usage given, whatever they were
/// before, and unknown without one.  An update fits exactly where each of these
/// numbers does.
pub proof fn law_totals_are_cumulative(
    totals: MonitorStatus,
    counts: (u64, u64),
    usage: Option<Usage>,
)
    ensures
        totals_fit(totals, counts, usage) ==> {
            let next = next_totals(totals, counts, usage);
            &&& next.non_thinking_bytes == totals.non_thinking_bytes + counts.0
            &&& next.thinking_bytes == totals.thinking_bytes + counts.1
            &&& match usage {
                Some(u) => next.usage_tokens is Some && next.usage_tokens->0 == u.input_tokens
                    + u.cache_creation_input_tokens + u.cache_read_input_tokens + u.output_tokens,
                None => next.usage_tokens is None,
            }
        },
        totals_fit(totals, counts, usage) <==> {
            &&& totals.non_thinking_bytes + counts.0 <= u64::MAX
            &&& totals.thinking_bytes + counts.1 <= u64::MAX
            &&& usage is Some ==> usage->0.input_tokens + usage->0.cache_creation_input_tokens
                + usage->0.cache_read_input_tokens + usage->0.output_tokens <= u64::MAX
        },
{
}

/// Two updates leave the byte totals of a single one that gains as much as both, and
/// the offset and the tokens of the second.
pub proof fn law_two_updates_are_one(
    dir: Map<Seq<char>, Seq<char>>,
    first_length: u64,
    first: (u64, u64),
    first_usage: Option<Usage>,
    length: u64,
    second: (u64, u64),
    usage: Option<Usage>,
    both: (u64, u64),
)
    requires
        both.0 == first.0 + second.0,
        both.1 == first.1 + second.1,
        totals_fit(current_totals(dir), first, first_usage),
        totals_fit(current_totals(dir), both, usage),
    ensures
        ({
            let once = monitored_dir(dir, first_length, first, first_usage);
            let twice = monitored_dir(once, length, second, usage);
            let at_once = monitored_dir(dir, length, both, usage);
            &&& status_in(twice, "monitor-status"@) == status_in(at_once, "monitor-status"@)
            &&& status_in(twice, "monitor-status"@) is Some
            &&& status_in(twice, "monitor-status"@)->0.non_thinking_bytes == current_totals(
                dir,
            ).non_thinking_bytes + first.0 + second.0
            &&& status_in(twice, "monitor-status"@)->0.thinking_bytes == current_totals(
                dir,
            ).thinking_bytes + first.1 + second.1
            &&& offset_of(content(twice, "monitor-offset"@)) == length
        }),
{
    let other = seq!['x'];
    reveal_strlit("monitor-status");
    reveal_strlit("monitor-offset");
    assert(other.len() == 1);
    let once = monitored_dir(dir, first_length, first, first_usage);
    law_update_is_recorded(dir, first_length, first, first_usage, other);
    law_update_is_recorded(once, length, second, usage, other);
    law_update_is_recorded(dir, length, both, usage, other);
}

/// The first update of a session starts from zero, and every later one from what the
/// file `monitor-status` holds.
pub proof fn law_updates_start_from_the_file(dir: Map<Seq<char>, Seq<char>>, totals: MonitorStatus)
    ensures
        current_totals(dir.remove("monitor-status"@)) == (MonitorStatus {
            non_thinking_bytes: 0,
            thinking_bytes: 0,
            usage_tokens: None,
        }),
        current_totals(dir.insert("monitor-status"@, status_text(totals))) == totals,
{
    law_read_gives_back_write(dir, "monitor-status"@, totals);
}

/// Byte totals never shrink.
pub proof fn law_byte_totals_never_shrink(
    totals: MonitorStatus,
    counts: (u64, u64),
    usage: Option<Usage>,
)
    requires
        totals_fit(totals, counts, usage),
    ensures
        next_totals(totals, counts, usage).non_thinking_bytes >= totals.non_thinking_bytes,
        next_totals(totals, counts, usage).thinking_bytes >= totals.thinking_bytes,
{
}

/// Where tokens are unknown, a transcript that only gains text is never taken
/// for a compacted one: a baseline from earlier totals stays at or below those
/// that follow.
pub proof fn law_growing_transcript_is_no_compaction(
    config: ThrottleConfig,
    totals: MonitorStatus,
    counts: (u64, u64),
    usage: Option<Usage>,
    saved: MonitorStatus,
)
    requires
        totals_fit(totals, counts, usage),
        saved.non_thinking_bytes <= totals.non_thinking_bytes,
        usage is None || saved.usage_tokens is None,
    ensures
        decide(config, Some(next_totals(totals, counts, usage)), Some(saved))
            != ThrottleDecision::Inject(InjectReason::CompactionDetected),
{
}

/// A transcript that has not grown since the last update has no lines to count,
/// so byte totals stay as they are.
pub proof fn law_unchanged_transcript_adds_nothing(
    dir: Map<Seq<char>, Seq<char>>,
    data: Seq<u8>,
    counts: (u64, u64),
    usage: Option<Usage>,
)
    requires
        data.len() <= u64::MAX,
    ensures
        ({
            let after = monitored_dir(dir, data.len() as u64, counts, usage);
            lines_from(data, offset_of(content(after, MONITOR_OFFSET@)) as int).len() == 0
        }),
        ({
            let totals = current_totals(dir);
            let again = next_totals(totals, (0, 0), usage);
            again.non_thinking_bytes == totals.non_thinking_bytes && again.thinking_bytes
                == totals.thinking_bytes
        }),
{
    law_offset_round_trip(
        dir.insert(MONITOR_STATUS@, status_text(next_totals(current_totals(dir), counts, usage))),
        data.len() as u64,
    );
}

} // verus!
