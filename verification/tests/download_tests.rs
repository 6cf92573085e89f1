use ingenuity_dl::download::Downloader;
use ingenuity_dl::errors::PipelineError;

#[test]
fn output_preserves_input_order_despite_jitter() {
    let mut d = Downloader::new(3, 2);
    assert_eq!(d.total(), 3);

    // The in-flight cap hands out at most two fetches at once.
    assert_eq!(d.begin_fetch(), Some(0));
    assert_eq!(d.begin_fetch(), Some(1));
    assert_eq!(d.begin_fetch(), None);

    // Completions arrive out of order; each writes only its own slot.
    d.record(1, b"body-b".to_vec());
    assert_eq!(d.begin_fetch(), Some(2));
    d.record(2, b"body-c".to_vec());
    d.record(0, b"body-a".to_vec());
    assert!(d.is_complete());

    let bodies = d.finish().unwrap();
    assert_eq!(
        bodies,
        vec![b"body-a".to_vec(), b"body-b".to_vec(), b"body-c".to_vec()]
    );
}

#[test]
fn progress_counter_counts_completions() {
    let mut d = Downloader::new(2, 4);
    assert_eq!(d.completed(), 0);
    assert_eq!(d.begin_fetch(), Some(0));
    assert_eq!(d.begin_fetch(), Some(1));
    d.record(0, vec![1]);
    assert_eq!(d.completed(), 1);
    d.record(1, vec![2]);
    assert_eq!(d.completed(), 2);
}

#[test]
fn missing_slot_fails_whole_batch_with_first_index() {
    let mut d = Downloader::new(3, 4);
    assert_eq!(d.begin_fetch(), Some(0));
    assert_eq!(d.begin_fetch(), Some(1));
    assert_eq!(d.begin_fetch(), Some(2));
    d.record(2, vec![9]);
    assert!(!d.is_complete());
    assert_eq!(
        d.finish(),
        Err(PipelineError::PartialDownloadFailure { index: 0 })
    );
}

#[test]
fn empty_batch_finishes_empty() {
    let mut d = Downloader::new(0, 4);
    assert_eq!(d.begin_fetch(), None);
    assert_eq!(d.finish(), Ok(Vec::new()));
}

#[test]
fn cap_opens_as_completions_arrive() {
    let mut d = Downloader::new(4, 1);
    assert_eq!(d.begin_fetch(), Some(0));
    assert_eq!(d.begin_fetch(), None);
    d.record(0, vec![0]);
    assert_eq!(d.begin_fetch(), Some(1));
    assert_eq!(d.begin_fetch(), None);
    d.record(1, vec![1]);
    assert_eq!(d.begin_fetch(), Some(2));
    d.record(2, vec![2]);
    assert_eq!(d.begin_fetch(), Some(3));
    d.record(3, vec![3]);
    assert!(d.is_complete());
    assert_eq!(d.finish(), Ok(vec![vec![0], vec![1], vec![2], vec![3]]));
}
