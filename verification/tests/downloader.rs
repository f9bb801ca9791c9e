use voiceload::fetch::{assemble_segmented, assemble_whole, range_header_value, run_range_worker};
use voiceload::outcome::{aggregate, choose_path, DownloadError, FetchError, TransferPath};
use voiceload::output::OutputBuffer;
use voiceload::plan::{plan, Segment};
use voiceload::probe::{probe_headers, ProbeError};

#[test]
fn plan_hundred_bytes_four_workers() {
    let segs = plan(100, 4);
    assert_eq!(segs.len(), 4);
    assert_eq!(segs[0], Segment { start: 0, end: Some(24) });
    assert_eq!(segs[1], Segment { start: 25, end: Some(49) });
    assert_eq!(segs[2], Segment { start: 50, end: Some(74) });
    assert_eq!(segs[3], Segment { start: 75, end: None });
}

#[test]
fn plan_absorbs_remainder_in_final_segment() {
    let segs = plan(103, 4);
    assert_eq!(segs.len(), 4);
    assert_eq!(segs[3], Segment { start: 75, end: None });
}

#[test]
fn plan_clamps_zero_workers() {
    let segs = plan(100, 0);
    assert_eq!(segs.len(), 1);
    assert_eq!(segs[0], Segment { start: 0, end: None });
}

#[test]
fn plan_degrades_when_resource_shorter_than_worker_count() {
    let segs = plan(3, 8);
    assert_eq!(segs.len(), 1);
    assert_eq!(segs[0], Segment { start: 0, end: None });

    let segs = plan(0, 4);
    assert_eq!(segs.len(), 1);
    assert_eq!(segs[0], Segment { start: 0, end: None });
}

#[test]
fn plan_partitions_exactly() {
    for (total, workers) in [(100u64, 4u64), (101, 7), (5, 5), (1, 1), (1000, 12)] {
        let segs = plan(total, workers);
        let mut expected_start = 0u64;
        let mut summed = 0u64;
        for (i, seg) in segs.iter().enumerate() {
            assert_eq!(seg.start, expected_start);
            let end_excl = match seg.end {
                Some(e) => e + 1,
                None => {
                    assert_eq!(i, segs.len() - 1);
                    total
                }
            };
            assert!(end_excl >= seg.start);
            summed += end_excl - seg.start;
            expected_start = end_excl;
        }
        assert_eq!(expected_start, total);
        assert_eq!(summed, total);
    }
}

#[test]
fn probe_reads_headers() {
    let d = probe_headers(Some("1000"), Some("bytes")).unwrap();
    assert_eq!(d.total_len, 1000);
    assert!(d.range_capable);

    let d = probe_headers(Some("7"), Some("none")).unwrap();
    assert_eq!(d.total_len, 7);
    assert!(!d.range_capable);

    let d = probe_headers(Some("7"), Some("Bytes")).unwrap();
    assert!(!d.range_capable);

    let d = probe_headers(Some("7"), None).unwrap();
    assert!(!d.range_capable);
}

#[test]
fn probe_rejects_bad_length() {
    assert_eq!(probe_headers(None, Some("bytes")), Err(ProbeError::MissingLength));
    assert_eq!(probe_headers(Some(""), None), Err(ProbeError::MalformedLength));
    assert_eq!(probe_headers(Some("12kb"), None), Err(ProbeError::MalformedLength));
    assert_eq!(
        probe_headers(Some("18446744073709551616"), None),
        Err(ProbeError::MalformedLength)
    );
}

#[test]
fn range_header_forms() {
    assert_eq!(range_header_value(&Segment { start: 25, end: Some(49) }), "bytes=25-49");
    assert_eq!(range_header_value(&Segment { start: 75, end: None }), "bytes=75-");
    assert_eq!(range_header_value(&Segment { start: 0, end: Some(0) }), "bytes=0-0");
}

#[test]
fn segmented_path_matches_whole_path() {
    let source: Vec<u8> = (0..=255u8).cycle().take(1000).collect();
    let whole = assemble_whole(&source);
    for workers in [1u64, 2, 3, 4, 7, 12, 999, 2000] {
        let segmented = assemble_segmented(&source, workers);
        assert_eq!(segmented, whole);
        assert_eq!(segmented, source);
    }
}

#[test]
fn worker_places_chunks_at_running_offset() {
    let mut buf = OutputBuffer::new(10);
    let seg = Segment { start: 2, end: None };
    let chunks = vec![vec![1u8, 2], vec![3], vec![], vec![4, 5, 6, 7, 8]];
    run_range_worker(&mut buf, seg, &chunks);
    assert_eq!(buf.into_bytes(), vec![0, 0, 1, 2, 3, 4, 5, 6, 7, 8]);
}

#[test]
fn incapable_source_uses_single_whole_file_worker() {
    let d = probe_headers(Some("100"), Some("none")).unwrap();
    assert_eq!(choose_path(&d), TransferPath::WholeFile);

    let d = probe_headers(Some("100"), Some("bytes")).unwrap();
    assert_eq!(choose_path(&d), TransferPath::Segmented);
}

#[test]
fn one_failed_worker_fails_the_download() {
    let results: Vec<Result<(), FetchError>> =
        vec![Ok(()), Ok(()), Err(FetchError::Transport), Ok(())];
    assert_eq!(aggregate(&results), Err(DownloadError::Failed));

    let results: Vec<Result<(), FetchError>> = vec![Ok(()), Err(FetchError::Status(503))];
    assert_eq!(aggregate(&results), Err(DownloadError::Failed));
}

#[test]
fn all_workers_ok_is_success() {
    let results: Vec<Result<(), FetchError>> = vec![Ok(()), Ok(()), Ok(()), Ok(())];
    assert_eq!(aggregate(&results), Ok(()));
    let none: Vec<Result<(), FetchError>> = vec![];
    assert_eq!(aggregate(&none), Ok(()));
}
