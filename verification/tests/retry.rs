use channel_copier::retry::{
    download_with_retry, invoke_with_retry, rest_range, rest_seconds, send_with_retry,
    upload_with_retry, Failure, MyPolicy, Retry, TransferFailure,
};

fn rpc(name: &str, value: Option<u32>) -> Failure {
    Failure::Rpc { name: name.to_string(), value }
}

#[test]
fn flood_wait_gives_the_seconds() {
    assert_eq!(rpc("FLOOD_WAIT", Some(31)).flood_wait(), Some(31));
    assert_eq!(rpc("FLOOD_WAIT", Some(u32::MAX)).flood_wait(), Some(4294967295));
}

#[test]
fn flood_wait_without_a_number_is_a_minute() {
    assert_eq!(rpc("FLOOD_WAIT", None).flood_wait(), Some(60));
}

#[test]
fn other_failures_are_no_flood_wait() {
    assert_eq!(rpc("FLOOD_WAIT_X", Some(3)).flood_wait(), None);
    assert_eq!(rpc("flood_wait", Some(3)).flood_wait(), None);
    assert_eq!(Failure::Other.flood_wait(), None);
}

#[test]
fn restricted_forwards() {
    assert!(rpc("CHAT_FORWARDS_RESTRICTED", None).forwards_restricted());
    assert!(!rpc("FLOOD_WAIT", None).forwards_restricted());
    assert!(!Failure::Other.forwards_restricted());
}

#[test]
fn requests_are_repeated_after_flood_waits_only() {
    assert_eq!(invoke_with_retry(&Ok(())), Retry::Return);
    assert_eq!(invoke_with_retry(&Err(rpc("FLOOD_WAIT", Some(5)))), Retry::Sleep(5));
    assert_eq!(invoke_with_retry(&Err(rpc("PEER_ID_INVALID", None))), Retry::Fail);
    assert_eq!(invoke_with_retry(&Err(Failure::Other)), Retry::Fail);
}

#[test]
fn messages_are_sent_again_after_flood_waits_only() {
    assert_eq!(send_with_retry(&Ok(())), Retry::Return);
    assert_eq!(send_with_retry(&Err(rpc("FLOOD_WAIT", None))), Retry::Sleep(60));
    assert_eq!(send_with_retry(&Err(rpc("PEER_ID_INVALID", Some(1)))), Retry::Fail);
    assert_eq!(send_with_retry(&Err(Failure::Other)), Retry::Fail);
}

#[test]
fn only_flood_waits_delay_a_request() {
    let outcomes = [
        Err(rpc("FLOOD_WAIT", Some(1))),
        Err(rpc("FLOOD_WAIT", Some(2))),
        Ok(()),
        Err(Failure::Other),
    ];
    let mut slept = 0;
    let mut attempts = 0;
    for outcome in &outcomes {
        attempts += 1;
        match invoke_with_retry(outcome) {
            Retry::Sleep(seconds) => slept += seconds,
            other => {
                assert_eq!(other, Retry::Return);
                break;
            }
        }
    }
    assert_eq!((attempts, slept), (3, 3));
}

#[test]
fn refused_downloads_are_repeated() {
    let refused = |name| Err(TransferFailure::Invocation(rpc(name, Some(9))));
    assert_eq!(download_with_retry(&Ok(())), Retry::Return);
    assert_eq!(download_with_retry(&refused("FLOOD_WAIT")), Retry::Sleep(9));
    assert_eq!(download_with_retry(&refused("FILE_MIGRATE")), Retry::Again);
    assert_eq!(
        download_with_retry(&Err(TransferFailure::Invocation(Failure::Other))),
        Retry::Fail
    );
    assert_eq!(download_with_retry(&Err(TransferFailure::Io)), Retry::Fail);
}

#[test]
fn refused_uploads_are_repeated() {
    let refused = |name| Err(TransferFailure::Invocation(rpc(name, None)));
    assert_eq!(upload_with_retry(&Ok(())), Retry::Return);
    assert_eq!(upload_with_retry(&refused("FLOOD_WAIT")), Retry::Sleep(60));
    assert_eq!(upload_with_retry(&refused("FILE_PART_MISSING")), Retry::Again);
    assert_eq!(
        upload_with_retry(&Err(TransferFailure::Invocation(Failure::Other))),
        Retry::Fail
    );
}

#[test]
fn an_upload_outlasts_a_missing_file() {
    assert_eq!(upload_with_retry(&Err(TransferFailure::Io)), Retry::Again);
}

#[test]
fn pauses_double_up_to_ten_seconds() {
    let pauses: Vec<u64> = (0..16).map(|n| MyPolicy.should_retry(n)).collect();
    assert_eq!(
        pauses,
        vec![1, 2, 4, 8, 16, 32, 64, 128, 256, 512, 1024, 2048, 4096, 8192, 10000, 10000]
    );
    assert_eq!(MyPolicy.should_retry(63), 10000);
}

#[test]
fn bounds_of_rests() {
    assert_eq!(rest_range(1), (60, 180));
    assert_eq!(rest_range(9), (60, 180));
    assert_eq!(rest_range(10), (1000, 1200));
    assert_eq!(rest_range(20), (1000, 1200));
    assert_eq!(rest_range(0), (60, 180));
    assert_eq!(rest_range(-10), (60, 180));
}

#[test]
fn rests_are_random_within_bounds() {
    let short: Vec<u64> = (0..200).map(|_| rest_seconds(3)).collect();
    assert!(short.iter().all(|s| (60..=180).contains(s)));
    assert!(short.iter().any(|s| *s != short[0]));
    let long: Vec<u64> = (0..200).map(|_| rest_seconds(30)).collect();
    assert!(long.iter().all(|s| (1000..=1200).contains(s)));
}
