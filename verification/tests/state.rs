use reinject::state::{
    parse_status, read_two_u64, render_status, write_two_u64, StateError, MONITOR_OFFSET,
    MONITOR_STATUS,
};
use reinject::{
    delta_lines, read_consumer_state, read_monitor_status, read_offset, reset_state, state_dir,
    update_monitor, write_consumer_state, write_monitor_status, write_offset, MonitorStatus,
    StateDir, Usage,
};

#[test]
fn monitor_status_roundtrip() {
    let mut dir = StateDir::new();
    let status = MonitorStatus {
        non_thinking_bytes: 1234,
        thinking_bytes: 567,
        ..Default::default()
    };
    write_monitor_status(&mut dir, &status);
    let read_back = read_monitor_status(&dir).unwrap();
    assert_eq!(read_back, status);
}

#[test]
fn monitor_status_missing_returns_none() {
    let dir = StateDir::new();
    assert!(read_monitor_status(&dir).is_none());
}

#[test]
fn consumer_state_roundtrip() {
    let mut dir = StateDir::new();
    let status = MonitorStatus {
        non_thinking_bytes: 99,
        thinking_bytes: 11,
        ..Default::default()
    };
    write_consumer_state(&mut dir, "my-hook", &status);
    let read_back = read_consumer_state(&dir, "my-hook").unwrap();
    assert_eq!(read_back, status);
}

#[test]
fn consumer_state_missing_returns_none() {
    let dir = StateDir::new();
    assert!(read_consumer_state(&dir, "nonexistent-hook").is_none());
}

#[test]
fn offset_roundtrip() {
    let mut dir = StateDir::new();
    write_offset(&mut dir, 8192);
    assert_eq!(read_offset(&dir), 8192);
}

#[test]
fn offset_missing_returns_zero() {
    let dir = StateDir::new();
    assert_eq!(read_offset(&dir), 0);
}

#[test]
fn reset_state_removes_files() {
    let mut dir = StateDir::new();
    let status = MonitorStatus {
        non_thinking_bytes: 10,
        thinking_bytes: 5,
        ..Default::default()
    };
    write_monitor_status(&mut dir, &status);
    write_consumer_state(&mut dir, "hook-a", &status);
    write_offset(&mut dir, 100);
    reset_state(&mut dir);
    assert!(read_monitor_status(&dir).is_none());
    assert!(read_consumer_state(&dir, "hook-a").is_none());
    assert_eq!(read_offset(&dir), 0);
}

#[test]
fn reset_state_nonexistent_dir_is_ok() {
    let mut nonexistent = StateDir::missing();
    reset_state(&mut nonexistent);
    assert!(!nonexistent.is_there());
    assert!(read_monitor_status(&nonexistent).is_none());
}

#[test]
fn reset_spares_subdirectories() {
    let mut dir = StateDir::new();
    let status = MonitorStatus {
        non_thinking_bytes: 1,
        ..Default::default()
    };
    dir.put_other("sub");
    write_consumer_state(&mut dir, "sub/hook", &status);
    write_consumer_state(&mut dir, "hook", &status);
    for _ in 0..2 {
        reset_state(&mut dir);
        assert!(dir.is_there());
        assert!(dir.has_other("sub"));
        assert!(!dir.has_other("hook"));
        assert_eq!(read_consumer_state(&dir, "sub/hook"), Some(status));
        assert_eq!(dir.get("hook"), None);
    }
}

#[test]
fn writing_creates_the_directory() {
    let mut dir = StateDir::missing();
    assert!(!dir.is_there());
    write_monitor_status(&mut dir, &MonitorStatus::default());
    assert!(dir.is_there());
    assert_eq!(read_monitor_status(&dir), Some(MonitorStatus::default()));
}

#[test]
fn status_files_are_numbers_on_lines() {
    let mut dir = StateDir::new();
    let status = MonitorStatus {
        non_thinking_bytes: 1234,
        thinking_bytes: 0,
        usage_tokens: None,
    };
    write_monitor_status(&mut dir, &status);
    assert_eq!(dir.get(MONITOR_STATUS), Some("1234\n0\n"));
    let with_tokens = MonitorStatus {
        usage_tokens: Some(56),
        ..status
    };
    assert_eq!(render_status(&with_tokens), "1234\n0\n56\n");
    assert_eq!(write_two_u64(7, 8), "7\n8\n");
    write_offset(&mut dir, 90);
    assert_eq!(dir.get(MONITOR_OFFSET), Some("90"));
}

#[test]
fn status_round_trip_at_the_limits() {
    for tokens in [None, Some(0), Some(u64::MAX)] {
        let status = MonitorStatus {
            non_thinking_bytes: u64::MAX,
            thinking_bytes: 0,
            usage_tokens: tokens,
        };
        assert_eq!(parse_status(&render_status(&status)), Some(status));
    }
}

#[test]
fn missing_lines_count_as_zero() {
    assert_eq!(read_two_u64(""), Ok((0, 0)));
    assert_eq!(read_two_u64("5"), Ok((5, 0)));
    assert_eq!(read_two_u64("5\n"), Ok((5, 0)));
    assert_eq!(read_two_u64(" 5 \r\n\t+6\u{a0}\n7"), Ok((5, 6)));
}

#[test]
fn lines_that_are_no_numbers_are_errors() {
    assert_eq!(read_two_u64("\n"), Err(StateError::InvalidFirstLine));
    assert_eq!(read_two_u64("x\ny"), Err(StateError::InvalidFirstLine));
    assert_eq!(read_two_u64("-1\n2"), Err(StateError::InvalidFirstLine));
    assert_eq!(read_two_u64("5\n\n"), Err(StateError::InvalidSecondLine));
    assert_eq!(
        read_two_u64("5\n18446744073709551616"),
        Err(StateError::InvalidSecondLine)
    );
    assert_eq!(read_two_u64("5\n18446744073709551615"), Ok((5, u64::MAX)));
}

#[test]
fn third_line_is_optional() {
    let two = MonitorStatus {
        non_thinking_bytes: 1,
        thinking_bytes: 2,
        usage_tokens: None,
    };
    assert_eq!(parse_status("1\n2"), Some(two));
    assert_eq!(parse_status("1\n2\nx"), Some(two));
    assert_eq!(
        parse_status("1\n2\n3"),
        Some(MonitorStatus {
            usage_tokens: Some(3),
            ..two
        })
    );
    assert_eq!(parse_status("1\nx\n3"), None);
}

#[test]
fn broken_offset_counts_as_zero() {
    let mut dir = StateDir::new();
    dir.put(MONITOR_OFFSET, "abc".to_string());
    assert_eq!(read_offset(&dir), 0);
    dir.put(MONITOR_OFFSET, " 12\n".to_string());
    assert_eq!(read_offset(&dir), 12);
}

#[test]
fn writes_do_not_interfere() {
    let mut dir = StateDir::new();
    let a = MonitorStatus {
        non_thinking_bytes: 1,
        ..Default::default()
    };
    let b = MonitorStatus {
        non_thinking_bytes: 2,
        ..Default::default()
    };
    write_consumer_state(&mut dir, "hook-a", &a);
    write_consumer_state(&mut dir, "hook-b", &b);
    write_monitor_status(&mut dir, &MonitorStatus::default());
    assert_eq!(read_consumer_state(&dir, "hook-a"), Some(a));
    assert_eq!(read_consumer_state(&dir, "hook-b"), Some(b));
    assert_eq!(read_monitor_status(&dir), Some(MonitorStatus::default()));
}

#[test]
fn state_dir_is_named_after_the_session() {
    assert_eq!(state_dir("host", "abc"), "/tmp/host-reinject-abc");
    assert_ne!(state_dir("host", "abc"), state_dir("host", "abd"));
}

#[test]
fn monitor_adds_up_and_moves_on() {
    let mut dir = StateDir::new();
    let usage = Usage {
        input_tokens: 30,
        output_tokens: 4,
        ..Usage::default()
    };
    assert_eq!(
        update_monitor(&mut dir, 100, (10, 5), None),
        Some(MonitorStatus {
            non_thinking_bytes: 10,
            thinking_bytes: 5,
            usage_tokens: None,
        })
    );
    let totals = MonitorStatus {
        non_thinking_bytes: 17,
        thinking_bytes: 5,
        usage_tokens: Some(34),
    };
    assert_eq!(update_monitor(&mut dir, 150, (7, 0), Some(usage)), Some(totals));
    assert_eq!(read_monitor_status(&dir), Some(totals));
    assert_eq!(read_offset(&dir), 150);
}

#[test]
fn monitor_refuses_totals_beyond_64_bits() {
    let mut dir = StateDir::new();
    let full = MonitorStatus {
        non_thinking_bytes: u64::MAX,
        ..Default::default()
    };
    write_monitor_status(&mut dir, &full);
    assert_eq!(update_monitor(&mut dir, 9, (1, 0), None), None);
    let usage = Usage {
        input_tokens: u64::MAX,
        output_tokens: 1,
        ..Usage::default()
    };
    assert_eq!(update_monitor(&mut dir, 9, (0, 0), Some(usage)), None);
    assert_eq!(read_monitor_status(&dir), Some(full));
    assert_eq!(read_offset(&dir), 0);
}

#[test]
fn unchanged_transcript_adds_nothing() {
    let data = b"one\ntwo\n";
    let mut dir = StateDir::new();
    update_monitor(&mut dir, data.len() as u64, (7, 2), None);
    assert!(delta_lines(data, read_offset(&dir)).is_empty());
    let again = update_monitor(&mut dir, data.len() as u64, (0, 0), None).unwrap();
    assert_eq!((again.non_thinking_bytes, again.thinking_bytes), (7, 2));
}
