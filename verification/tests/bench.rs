use taiga::bench::{aggregate_median, median_u64, messages_per_client, Connecting, Latencies, ReadAll};

#[test]
fn medians() {
    assert_eq!(median_u64(&vec![5]), 5);
    assert_eq!(median_u64(&vec![9, 1, 5]), 5);
    assert_eq!(median_u64(&vec![4, 1, 3, 2]), 2);
    assert_eq!(median_u64(&vec![7, 7, 7, 7]), 7);
    assert_eq!(median_u64(&vec![u64::MAX, u64::MAX - 2]), u64::MAX - 1);
}

#[test]
fn medians_of_runs() {
    let run = |p50, p95, p99, max| Latencies { p50, p95, p99, max };
    let runs = vec![run(1, 20, 300, 4000), run(3, 10, 100, 9000), run(2, 30, 200, 1000)];
    assert_eq!(aggregate_median(&runs), run(2, 20, 200, 4000));
    assert_eq!(aggregate_median(&vec![run(1, 2, 3, 4)]), run(1, 2, 3, 4));
}

#[test]
fn latencies_are_in_microseconds() {
    let latencies = Latencies::from_nanos(1_999, 2_000, 999, 12_345_678);
    assert_eq!(latencies, Latencies { p50: 1, p95: 2, p99: 0, max: 12_345 });
}

#[test]
fn messages_are_shared_out() {
    assert_eq!(messages_per_client(10_000, 50), 200);
    assert_eq!(messages_per_client(7, 2), 3);
}

#[test]
fn a_message_is_read_to_its_end() {
    let mut all = ReadAll::new(10);
    assert_eq!(all.next(), Some(0));
    assert!(all.got(4));
    assert_eq!(all.next(), Some(4));
    assert!(!all.got(6));
    assert_eq!(all.next(), None);
    let mut cut = ReadAll::new(10);
    assert!(!cut.got(0));
}

#[test]
fn a_client_tries_a_hundred_times() {
    let mut connecting = Connecting::new();
    for _ in 0..100 {
        assert_eq!(connecting.next(), Some(5));
    }
    assert_eq!(connecting.next(), None);
    assert_eq!(connecting.next(), None);
}
