use jheap_histo::ingest::{
    bulk_batches, bulk_failed, choose_connection, choose_login, default_index_name,
    index_name_of, record_of, Connection, HistoEntry, Login,
};
use jheap_histo::{Entry, Histogram, HistogramWithTimestamp, Timestamp};

fn histogram(count: usize) -> HistogramWithTimestamp {
    let mut entries = vec![];
    for i in 0..count {
        entries.push(Entry {
            rank: i + 1,
            instances_count: 10 * i,
            bytes: 100 * i,
            class_name: format!("Class{}", i),
        });
    }
    HistogramWithTimestamp {
        timestamp: Timestamp { seconds: 1600000000, nanoseconds: 5 },
        histogram: Histogram(entries),
    }
}

fn ranks(batches: &Vec<Vec<HistoEntry>>) -> Vec<Vec<usize>> {
    batches.iter().map(|b| b.iter().map(|r| r.rank).collect()).collect()
}

#[test]
fn record_joins_entry_and_timestamp() {
    let e = Entry { rank: 14, instances_count: 7999, bytes: 1290520, class_name: "[C".to_string() };
    let t = Timestamp { seconds: 851042397, nanoseconds: 1 };
    assert_eq!(
        HistoEntry {
            timestamp: t,
            rank: 14,
            instances_count: 7999,
            bytes: 1290520,
            class_name: "[C".to_string(),
        },
        record_of(t, &e)
    );
}

#[test]
fn batches_hold_the_records_in_order() {
    let h = histogram(5);
    let batches = bulk_batches(&h, 2);
    assert_eq!(vec![vec![1, 2], vec![3, 4], vec![5]], ranks(&batches));
    for batch in batches.iter() {
        for record in batch.iter() {
            assert_eq!(h.timestamp, record.timestamp);
            assert_eq!(record_of(h.timestamp, &h.histogram.0[record.rank - 1]), *record);
        }
    }
}

#[test]
fn batches_are_full_but_the_last() {
    assert_eq!(vec![vec![1, 2, 3, 4, 5]], ranks(&bulk_batches(&histogram(5), 5)));
    assert_eq!(vec![vec![1, 2, 3, 4, 5]], ranks(&bulk_batches(&histogram(5), 7)));
    assert_eq!(vec![vec![1, 2, 3], vec![4, 5, 6]], ranks(&bulk_batches(&histogram(6), 3)));
    assert_eq!(
        vec![vec![1], vec![2], vec![3]],
        ranks(&bulk_batches(&histogram(3), 1))
    );
    assert_eq!(Vec::<Vec<usize>>::new(), ranks(&bulk_batches(&histogram(0), 500)));
    assert_eq!(vec![vec![1]], ranks(&bulk_batches(&histogram(1), usize::MAX)));
    let batches = bulk_batches(&histogram(1201), 500);
    assert_eq!(vec![500, 500, 201], batches.iter().map(|b| b.len()).collect::<Vec<_>>());
}

#[test]
fn batch_fails_on_status_or_errors() {
    assert!(!bulk_failed(true, Some(false)));
    assert!(!bulk_failed(true, None));
    assert!(bulk_failed(true, Some(true)));
    assert!(bulk_failed(false, Some(false)));
    assert!(bulk_failed(false, None));
    assert!(bulk_failed(false, Some(true)));
}

#[test]
fn connection_prefers_the_cloud_id() {
    let s = |t: &str| Some(t.to_string());
    assert_eq!(Connection::Cloud("c".to_string()), choose_connection(s("c"), s("u")));
    assert_eq!(Connection::Cloud("c".to_string()), choose_connection(s("c"), None));
    assert_eq!(Connection::Node("u".to_string()), choose_connection(None, s("u")));
    assert_eq!(Connection::Default, choose_connection(None, None));
}

#[test]
fn login_prefers_the_api_key() {
    let s = |t: &str| Some(t.to_string());
    assert_eq!(
        Login::ApiKey("id".to_string(), "key".to_string()),
        choose_login(s("id"), s("key"), s("user"), s("word"))
    );
    assert_eq!(
        Login::ApiKey("id".to_string(), "key".to_string()),
        choose_login(s("id"), s("key"), None, None)
    );
    assert_eq!(
        Login::Basic("user".to_string(), "word".to_string()),
        choose_login(s("id"), None, s("user"), s("word"))
    );
    assert_eq!(
        Login::Basic("user".to_string(), "word".to_string()),
        choose_login(None, s("key"), s("user"), s("word"))
    );
    assert_eq!(
        Login::Basic("user".to_string(), "word".to_string()),
        choose_login(None, None, s("user"), s("word"))
    );
    assert_eq!(Login::Anonymous, choose_login(s("id"), None, s("user"), None));
    assert_eq!(Login::Anonymous, choose_login(None, s("key"), None, s("word")));
    assert_eq!(Login::Anonymous, choose_login(None, None, None, None));
}

#[test]
fn index_is_named_after_the_moment() {
    assert_eq!(
        "jheap-histo-ingest_2020-09-13t12-26-40.500+00-00",
        default_index_name("2020-09-13T12:26:40.500+00:00")
    );
    assert_eq!("jheap-histo-ingest_", default_index_name(""));
    assert_eq!("jheap-histo-ingest_a-b-c", index_name_of("a:b-c"));
    assert_eq!("jheap-histo-ingest_T--", index_name_of("T::"));
}
