use nft_burn::history::{HistoryLog, UserHistories};
use nft_burn::types::History;

fn entry(i: u64) -> History {
    History { token_id: i.to_string(), message: String::new(), date: i, rewards: i as u128 }
}

#[test]
fn pages_follow_append_order() {
    let mut log: HistoryLog<u32> = HistoryLog::new();
    for k in 0..7u32 {
        log.push(k);
    }
    assert_eq!(log.count(), 7);
    assert_eq!(log.page(0, 3), &[0, 1, 2]);
    assert_eq!(log.page(1, 3), &[3, 4, 5]);
    assert_eq!(log.page(2, 3), &[6]);
    assert!(log.page(3, 3).is_empty());
    assert!(log.page(u32::MAX, u32::MAX).is_empty());
    assert!(log.page(0, 0).is_empty());
}

#[test]
fn count_follows_appends() {
    let mut log: HistoryLog<u32> = HistoryLog::new();
    for k in 0..100u32 {
        assert_eq!(log.count(), k);
        log.push(k);
    }
    assert_eq!(log.count(), 100);
    assert_eq!(log.page(9, 10), &[90, 91, 92, 93, 94, 95, 96, 97, 98, 99]);
    assert!(log.page(10, 10).is_empty());
}

#[test]
fn empty_log_counts_zero() {
    let log: HistoryLog<u32> = HistoryLog::new();
    assert_eq!(log.count(), 0);
    assert!(log.page(0, 10).is_empty());
}

#[test]
fn submitters_have_separate_histories() {
    let mut h = UserHistories::new();
    h.append_all(&"a".to_string(), vec![entry(1), entry(2)]);
    h.append_all(&"b".to_string(), vec![entry(3)]);
    h.append_all(&"a".to_string(), vec![entry(4)]);
    assert_eq!(h.count(&"a".to_string()), 3);
    assert_eq!(h.count(&"b".to_string()), 1);
    assert_eq!(h.count(&"c".to_string()), 0);
    let page = h.page(&"a".to_string(), 0, 10);
    assert_eq!(page.iter().map(|e| e.date).collect::<Vec<_>>(), vec![1, 2, 4]);
    assert_eq!(h.page(&"a".to_string(), 1, 2)[0].date, 4);
    assert!(h.page(&"c".to_string(), 0, 10).is_empty());
}
