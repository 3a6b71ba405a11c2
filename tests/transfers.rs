use celestial_bootstrap::error::DownloadError;
use celestial_bootstrap::hashing::{ExpectedHash, HashAlgorithm, HashingError};
use celestial_bootstrap::plan::ByteRange;
use celestial_bootstrap::reassembly::reassembly_order;
use celestial_bootstrap::retry::NextStep;
use celestial_bootstrap::transfer::{after_stream_attempt, StreamStep, choose_transfer, conclude_transfer, parse_content_length, TransferPlan, PARALLEL_THRESHOLD};
use sha2::Digest;

fn fixture() -> Vec<u8> {
    (0..100000usize).map(|i| (i % 251) as u8).collect()
}

#[test]
fn small_resource_is_one_stream() {
    assert!(matches!(choose_transfer(Some(4096), 4), TransferPlan::SingleStream));
    assert!(matches!(choose_transfer(Some(PARALLEL_THRESHOLD), 4), TransferPlan::SingleStream));
    assert!(matches!(choose_transfer(Some(0), 4), TransferPlan::SingleStream));
}

#[test]
fn unknown_length_is_one_stream() {
    assert!(matches!(choose_transfer(None, 8), TransferPlan::SingleStream));
}

#[test]
fn unplannable_length_falls_back_to_one_stream() {
    assert!(matches!(choose_transfer(Some(6000), 0), TransferPlan::SingleStream));
}

#[test]
fn large_resource_is_chunked() {
    match choose_transfer(Some(5121), 4) {
        TransferPlan::Chunked(v) => {
            assert_eq!(v.len(), 4);
            assert_eq!(v[3], ByteRange { start: 3840, end: 5120 });
        }
        TransferPlan::SingleStream => panic!("expected a chunked plan"),
    }
}

#[test]
fn content_length_values() {
    assert_eq!(parse_content_length("100000"), Some(100000));
    assert_eq!(parse_content_length("0"), Some(0));
    assert_eq!(parse_content_length("+5"), Some(5));
    assert_eq!(parse_content_length("007"), Some(7));
    assert_eq!(parse_content_length("18446744073709551615"), Some(usize::MAX));
    assert_eq!(parse_content_length("18446744073709551616"), None);
    assert_eq!(parse_content_length(""), None);
    assert_eq!(parse_content_length("+"), None);
    assert_eq!(parse_content_length("-1"), None);
    assert_eq!(parse_content_length("12a"), None);
    assert_eq!(parse_content_length(" 12"), None);
}

#[test]
fn chunked_transfer_reassembles_in_order_and_verifies() {
    let data = fixture();
    let plan = match choose_transfer(Some(data.len()), 4) {
        TransferPlan::Chunked(v) => v,
        TransferPlan::SingleStream => panic!("expected a chunked plan"),
    };
    assert_eq!(plan.len(), 4);
    // completions arrive out of order
    let arrival = vec![2usize, 0, 3, 1];
    let order = reassembly_order(&arrival, plan.len()).unwrap();
    assert_eq!(order, vec![1, 3, 0, 2]);
    let mut hasher = sha2::Sha256::new();
    let mut written: Vec<u8> = Vec::new();
    for &pos in &order {
        let r = plan[arrival[pos]];
        let chunk = &data[r.start..=r.end];
        assert_eq!(chunk.len(), 25000);
        hasher.update(chunk);
        written.extend_from_slice(chunk);
    }
    assert_eq!(written, data);
    let digest = hasher.finalize().to_vec();
    let expected = ExpectedHash::new(
        HashAlgorithm::Sha256,
        "cd2df694e424bc7968cc37f47751019e5ca0cd1bdf2e479ea537c3a1c32ee1aa".to_string(),
    );
    assert!(conclude_transfer(Some(&expected), &digest).is_ok());
    // verifying the same bytes again gives the same outcome
    assert!(conclude_transfer(Some(&expected), &digest).is_ok());
}

#[test]
fn lost_chunk_fails_the_transfer() {
    // chunk 2 of 4 used up its attempts; chunks 0, 1 and 3 arrived
    let arrival = vec![3usize, 0, 1];
    match reassembly_order(&arrival, 4) {
        Err(DownloadError::ChunkLost { index }) => assert_eq!(index, 2),
        other => panic!("expected a lost chunk, got {:?}", other),
    }
}

#[test]
fn first_lost_chunk_is_named() {
    match reassembly_order(&vec![1usize, 3], 4) {
        Err(DownloadError::ChunkLost { index }) => assert_eq!(index, 0),
        other => panic!("expected a lost chunk, got {:?}", other),
    }
    match reassembly_order(&vec![], 2) {
        Err(DownloadError::ChunkLost { index }) => assert_eq!(index, 0),
        other => panic!("expected a lost chunk, got {:?}", other),
    }
}

#[test]
fn invalid_completion_indices() {
    match reassembly_order(&vec![0usize, 1, 1], 3) {
        Err(DownloadError::InvalidChunkIndex { index }) => assert_eq!(index, 1),
        other => panic!("expected an invalid index, got {:?}", other),
    }
    match reassembly_order(&vec![0usize, 4], 2) {
        Err(DownloadError::InvalidChunkIndex { index }) => assert_eq!(index, 4),
        other => panic!("expected an invalid index, got {:?}", other),
    }
}

#[test]
fn empty_plan_orders_nothing() {
    assert_eq!(reassembly_order(&vec![], 0).unwrap(), Vec::<usize>::new());
}

#[test]
fn no_expected_hash_means_no_verification() {
    assert!(conclude_transfer(None, &[]).is_ok());
    assert!(conclude_transfer(None, &[1, 2, 3]).is_ok());
}

#[test]
fn mismatching_digest_is_a_hash_failure() {
    let expected = ExpectedHash::new(HashAlgorithm::Md5, "deadbeefdeadbeefdeadbeefdeadbeef".to_string());
    let digest = md5::Md5::digest(b"abc").to_vec();
    match conclude_transfer(Some(&expected), &digest) {
        Err(DownloadError::Hashing(HashingError::HashNotMatch { expected_hash, actual_hash })) => {
            assert_eq!(expected_hash.value(), "deadbeefdeadbeefdeadbeefdeadbeef");
            assert_eq!(actual_hash, "900150983cd24fb0d6963f7d28e17f72");
        }
        other => panic!("expected a hash mismatch, got {:?}", other),
    }
}

#[test]
fn single_stream_steps() {
    assert!(matches!(
        after_stream_attempt(1, 3, None),
        StreamStep::Continue(NextStep::Attempt { number: 2 })
    ));
    assert!(matches!(after_stream_attempt(3, 3, None), StreamStep::Continue(NextStep::GiveUp)));
    assert!(matches!(after_stream_attempt(2, 3, Some(Ok(()))), StreamStep::Continue(NextStep::Done)));
    let expected = ExpectedHash::new(HashAlgorithm::Md5, "deadbeef".to_string());
    let mismatch = conclude_transfer(Some(&expected), &[0x00]);
    assert!(matches!(
        after_stream_attempt(1, 3, Some(mismatch)),
        StreamStep::Fail(DownloadError::Hashing(HashingError::HashNotMatch { .. }))
    ));
}
