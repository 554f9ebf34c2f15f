use pam_daemon::admission::{
    parse_snapshot, parse_swapouts, query_action, split_words, swap_trend_from_samples,
    AdmissionError, QueryAction, QueryState, RuntimeMemoryPressure, RuntimeSwapTrend,
};

const GIB: u64 = 1024 * 1024 * 1024;

#[test]
fn a_sysctl_answer_gives_the_memory_of_the_host() {
    let reading = parse_snapshot(b"34359738368\n75\n1\n", RuntimeSwapTrend::Stable).unwrap();
    assert_eq!(reading.total_bytes, 32 * GIB);
    assert_eq!(reading.available_bytes, 24 * GIB);
    assert_eq!(reading.pressure, RuntimeMemoryPressure::Normal);
    assert_eq!(reading.swap_trend, RuntimeSwapTrend::Stable);
    let largest = parse_snapshot(b"18446744073709551615 100 4", RuntimeSwapTrend::Rising).unwrap();
    assert_eq!(largest.available_bytes, u64::MAX);
}

#[test]
fn maps_pressure_levels_and_preserves_unknown_values() {
    for (level, expected) in [
        ("1", RuntimeMemoryPressure::Normal),
        ("2", RuntimeMemoryPressure::Warning),
        ("4", RuntimeMemoryPressure::Critical),
        ("0", RuntimeMemoryPressure::Unknown),
        ("8", RuntimeMemoryPressure::Unknown),
    ] {
        let input = format!("34359738368\n80\n{level}\n");
        assert_eq!(
            parse_snapshot(input.as_bytes(), RuntimeSwapTrend::Stable)
                .unwrap()
                .pressure,
            expected
        );
    }
}

#[test]
fn rejects_malformed_or_ambiguous_snapshots() {
    for input in [
        b"".as_slice(),
        b"0\n50\n1\n",
        b"34359738368\n101\n1\n",
        b"34359738368\n50\n",
        b"34359738368\n50\n1\nextra\n",
        b"34359738368\nnope\n1\n",
        b"34359738368\n+50\n1\n",
    ] {
        assert!(parse_snapshot(input, RuntimeSwapTrend::Stable).is_err());
    }
    let long = format!("34359738368\n50\n1{}", " ".repeat(300));
    assert_eq!(
        parse_snapshot(long.as_bytes(), RuntimeSwapTrend::Stable),
        Err(AdmissionError::InvalidData)
    );
    assert!(parse_snapshot("34359738368\n50\n1\u{a0}".as_bytes(), RuntimeSwapTrend::Stable).is_err());
}

#[test]
fn parses_exact_vm_stat_swapout_counter_and_rejects_ambiguity() {
    let valid = b"Mach Virtual Memory Statistics: (page size of 16384 bytes)\nPages free: 1.\nSwapouts: 43160.\n";
    assert_eq!(parse_swapouts(valid).unwrap(), 43_160);
    for invalid in [
        b"".as_slice(),
        b"Swapouts: 1\n",
        b"Swapouts: +1.\n",
        b"Swapouts: one.\n",
        b"Swapouts: 1.\nSwapouts: 1.\n",
        b"swapouts: 1.\n",
    ] {
        assert!(parse_swapouts(invalid).is_err());
    }
    assert_eq!(parse_swapouts(b"Swapouts:   7.\r\n").unwrap(), 7);
}

#[test]
fn swapout_samples_fail_closed_unless_the_counter_is_stable() {
    assert_eq!(swap_trend_from_samples(7, 7), RuntimeSwapTrend::Stable);
    assert_eq!(swap_trend_from_samples(7, 8), RuntimeSwapTrend::Rising);
    assert_eq!(swap_trend_from_samples(8, 7), RuntimeSwapTrend::Unknown);
}

#[test]
fn queries_end_in_time() {
    assert_eq!(
        query_action(QueryState::Exited { success: true }),
        QueryAction::ReadOutput
    );
    assert_eq!(
        query_action(QueryState::Exited { success: false }),
        QueryAction::Report(AdmissionError::QueryFailed)
    );
    assert_eq!(
        query_action(QueryState::Unknown),
        QueryAction::Report(AdmissionError::QueryFailed)
    );
    assert_eq!(
        query_action(QueryState::Running { in_time: true }),
        QueryAction::LookAgain
    );
    assert_eq!(
        query_action(QueryState::Running { in_time: false }),
        QueryAction::Kill(AdmissionError::QueryTimedOut)
    );
    assert_eq!(AdmissionError::QueryFailed.text(), "host admission query failed");
    assert_eq!(AdmissionError::QueryTimedOut.text(), "host admission query timed out");
    assert_eq!(
        AdmissionError::InvalidData.text(),
        "host memory query returned invalid data"
    );
}

#[test]
fn words_are_split_as_the_standard_library_splits_them() {
    for text in ["", " ", "a", " a\tb\n\nc\r", "a\u{b}b c\u{c}d"] {
        let expected: Vec<&str> = text.split_ascii_whitespace().collect();
        assert_eq!(split_words(text), expected);
    }
}
