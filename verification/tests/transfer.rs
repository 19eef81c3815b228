use punch::resume::{resume_notices, size_mb, ResumeNotice};
use punch::time::Timestamp;
use punch::token_store::{StoredToken, StoredTokenType};
use punch::transfer::{
    bytes_completed, chunk_bounds, chunk_size_for, chunk_size_label, chunk_span, div_ceil, fetch_plan,
    initial_chunk_states, mark_chunk_done, partial_file_name, plan_chunk, plan_transfer, record_progress,
    settle_chunk, state_file_name, stream_ranges, verify_file_checksum, ChunkAction, ChunkSpan, RetryCounter,
    SaveTicker, TransferError, MB, PARALLEL_STREAMS, RETRY_ATTEMPTS, SAVE_INTERVAL_BYTES,
};

#[test]
fn chunk_size_grows_with_the_file() {
    assert_eq!(chunk_size_for(0), MB);
    assert_eq!(chunk_size_for(104_857_599), MB);
    assert_eq!(chunk_size_for(104_857_600), 4 * MB);
    assert_eq!(chunk_size_for(104_857_601), 4 * MB);
    assert_eq!(chunk_size_for(1_073_741_824), 4 * MB);
    assert_eq!(chunk_size_for(1_073_741_825), 16 * MB);
    assert_eq!(chunk_size_for(10_737_418_240), 16 * MB);
    assert_eq!(chunk_size_for(10_737_418_241), 64 * MB);
    assert_eq!(chunk_size_for(u64::MAX), 64 * MB);
}

#[test]
fn chunk_label_names_chunk_size() {
    for size in [0u64, 5, 104_857_599, 104_857_600, 104_857_601, 1_073_741_824, 1_073_741_825, 10_737_418_240, 10_737_418_241] {
        let label = chunk_size_label(size);
        let mb = chunk_size_for(size) / MB;
        assert_eq!(label, format!("{}MB", mb));
    }
}

#[test]
fn div_ceil_rounds_up() {
    assert_eq!(div_ceil(0, 4), 0);
    assert_eq!(div_ceil(8, 4), 2);
    assert_eq!(div_ceil(9, 4), 3);
    assert_eq!(div_ceil(u64::MAX, 1), u64::MAX);
}

#[test]
fn plan_for_a_small_file() {
    let m = plan_transfer("a.bin".to_string(), 10 * MB + 1, "cs".to_string(), "addr".to_string());
    assert_eq!(m.chunk_size, MB);
    assert_eq!(m.chunk_count, 11);
    assert_eq!(m.parallel_streams, PARALLEL_STREAMS);
    assert_eq!(PARALLEL_STREAMS, 4);
    assert_eq!(m.filename, "a.bin");
    let empty = plan_transfer("e".to_string(), 0, "cs".to_string(), "addr".to_string());
    assert_eq!(empty.chunk_count, 0);
}

#[test]
fn chunk_layout_covers_file() {
    let m = plan_transfer("a.bin".to_string(), 3 * MB + 10, "cs".to_string(), "addr".to_string());
    let states = initial_chunk_states(&m);
    assert_eq!(states.len(), 4);
    let total: u64 = states.iter().map(|c| c.size).sum();
    assert_eq!(total, m.total_size);
    assert_eq!(states[3].offset, 3 * MB);
    assert_eq!(states[3].size, 10);
    assert!(states.iter().all(|c| c.received == 0 && !c.done && c.checksum.is_empty()));
    assert_eq!(states[2].index, 2);
}

#[test]
fn progress_runs_from_zero_to_file_size() {
    let m = plan_transfer("a.bin".to_string(), 2 * MB + 7, "cs".to_string(), "addr".to_string());
    let mut states = initial_chunk_states(&m);
    assert_eq!(bytes_completed(&states), 0);
    record_progress(&mut states, 1, 100);
    assert_eq!(bytes_completed(&states), 100);
    for i in 0..states.len() {
        let size = states[i].size;
        mark_chunk_done(&mut states, i as u64, size, "x".to_string());
    }
    assert_eq!(bytes_completed(&states), m.total_size);
}

#[test]
fn progress_counts_at_most_a_chunk() {
    let m = plan_transfer("a.bin".to_string(), 10, "cs".to_string(), "addr".to_string());
    let mut states = initial_chunk_states(&m);
    record_progress(&mut states, 0, 50);
    assert_eq!(bytes_completed(&states), 10);
}

#[test]
fn stream_ranges_partition_the_chunks() {
    let r = stream_ranges(20, 8);
    assert_eq!(r, vec![(0, 3), (3, 6), (6, 9), (9, 12), (12, 15), (15, 18), (18, 20)]);
    assert_eq!(stream_ranges(0, 8), vec![]);
    assert_eq!(stream_ranges(5, 0), vec![(0, 5)]);
    assert_eq!(stream_ranges(3, 8), vec![(0, 1), (1, 2), (2, 3)]);
}

#[test]
fn sender_span_of_a_resumed_chunk() {
    let sp = chunk_span(3 * MB + 10, 3, 4);
    assert_eq!(sp, ChunkSpan { chunk_start: 3 * MB, chunk_end: 3 * MB + 10, file_offset: 3 * MB + 4, remaining: 6 });
    let past = chunk_span(10, 0, 20);
    assert_eq!(past.remaining, 0);
}

#[test]
fn receiver_bounds() {
    let m = plan_transfer("a.bin".to_string(), 2 * MB + 7, "cs".to_string(), "addr".to_string());
    assert_eq!(chunk_bounds(&m, 0), (0, MB, MB));
    assert_eq!(chunk_bounds(&m, 2), (2 * MB, 2 * MB + 7, 7));
}

#[test]
fn chunk_plans() {
    let m = plan_transfer("a.bin".to_string(), 100, "cs".to_string(), "addr".to_string());
    let mut states = initial_chunk_states(&m);
    assert_eq!(plan_chunk(&states[0], 100), ChunkAction::Fetch { resume_from: 0, remaining: 100 });
    record_progress(&mut states, 0, 40);
    assert_eq!(plan_chunk(&states[0], 100), ChunkAction::Fetch { resume_from: 40, remaining: 60 });
    record_progress(&mut states, 0, 100);
    assert_eq!(plan_chunk(&states[0], 100), ChunkAction::CheckOnDisk);
    mark_chunk_done(&mut states, 0, 100, "abc".to_string());
    assert_eq!(plan_chunk(&states[0], 100), ChunkAction::AlreadyDone);
    assert_eq!(fetch_plan(3, 10), ChunkAction::Fetch { resume_from: 3, remaining: 7 });
}

#[test]
fn settling_accepts_only_matching_checksums() {
    let m = plan_transfer("a.bin".to_string(), 100, "cs".to_string(), "addr".to_string());
    let mut states = initial_chunk_states(&m);
    record_progress(&mut states, 0, 100);
    assert!(!settle_chunk(&mut states, 0, 100, "aaaa", "bbbb".to_string()));
    assert_eq!(states[0].received, 0);
    assert!(!states[0].done);
    record_progress(&mut states, 0, 100);
    assert!(settle_chunk(&mut states, 0, 100, "aaaa", "aaaa".to_string()));
    assert!(states[0].done);
    assert_eq!(states[0].received, 100);
    assert_eq!(states[0].checksum, "aaaa");
}

#[test]
fn retries_are_bounded() {
    let mut r = RetryCounter::new();
    assert_eq!(r.begin_attempt(), Ok(false));
    for _ in 1..RETRY_ATTEMPTS {
        assert_eq!(r.begin_attempt(), Ok(true));
    }
    assert_eq!(r.attempt, RETRY_ATTEMPTS);
    assert_eq!(r.begin_attempt(), Err(TransferError::TooManyRetries));
}

#[test]
fn progress_is_saved_every_half_mebibyte() {
    let mut t = SaveTicker::new();
    assert!(!t.wrote(SAVE_INTERVAL_BYTES - 1));
    assert!(t.wrote(1));
    assert_eq!(t.since_last_save, 0);
    assert!(!t.wrote(10));
    assert_eq!(t.since_last_save, 10);
}

#[test]
fn whole_file_checksum() {
    assert_eq!(verify_file_checksum("abc", "abc"), Ok(()));
    assert_eq!(verify_file_checksum("abc", "abd"), Err(TransferError::ChecksumMismatch));
}

#[test]
fn side_file_names() {
    assert_eq!(partial_file_name("movie.mp4"), "movie.mp4.punch_partial");
    assert_eq!(state_file_name("movie.mp4"), "movie.mp4.punch_state");
}

fn stored(code: &str, token_type: StoredTokenType) -> StoredToken {
    StoredToken { code: code.to_string(), token_type, created_at: Timestamp { secs: 0, nanos: 0 }, last_used: None }
}

#[test]
fn resume_warnings() {
    assert_eq!(size_mb(3 * MB + 5), 3);
    let big = 600 * MB;
    let small = 10 * MB;

    let none = resume_notices(big, &vec![]);
    assert_eq!(none.len(), 1);
    assert!(matches!(none[0], ResumeNotice::NoStoredCode { large_mb: Some(600) }));
    let none_small = resume_notices(small, &vec![]);
    assert!(matches!(none_small[0], ResumeNotice::NoStoredCode { large_mb: None }));

    let tokens = vec![
        stored("1111", StoredTokenType::QNo { remaining: 1 }),
        stored("2222", StoredTokenType::QNo { remaining: 3 }),
        stored("3333", StoredTokenType::QNo { remaining: 4 }),
        stored("4444", StoredTokenType::PNo { verified: false }),
        stored("5555", StoredTokenType::PNo { verified: true }),
        stored("6666", StoredTokenType::TNo),
    ];
    let n = resume_notices(big, &tokens);
    assert_eq!(n.len(), 4);
    match &n[0] {
        ResumeNotice::LastUse { code, large_mb } => {
            assert_eq!(code, "1111");
            assert_eq!(*large_mb, Some(600));
        }
        other => panic!("unexpected {:?}", other),
    }
    assert!(matches!(n[1], ResumeNotice::FewUsesLeft { remaining: 3 }));
    assert!(matches!(n[2], ResumeNotice::UnverifiedPermanent));
    assert!(matches!(n[3], ResumeNotice::TemporaryCode { large_mb: Some(600) }));
    // Exactly 500 MiB is not "large".
    let edge = resume_notices(500 * MB, &vec![stored("6666", StoredTokenType::TNo)]);
    assert!(matches!(edge[0], ResumeNotice::TemporaryCode { large_mb: None }));
}
