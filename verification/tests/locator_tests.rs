use anime_dl::locator::{find_bot_name, find_package, find_packages, Bot, LocatorError, SearchHit};
use anime_dl::resume::ResumeTable;
use anime_dl::descriptor::TransferDescriptor;

fn bots() -> Option<Vec<Bot>> {
    Some(vec![
        Bot { id: 7, name: "Archive".to_string() },
        Bot { id: 9, name: "Mirror".to_string() },
        Bot { id: 7, name: "Shadow".to_string() },
    ])
}

#[test]
fn bot_lookup_takes_the_first_matching_id() {
    assert_eq!(find_bot_name(&7, &bots()), Some("Archive".to_string()));
    assert_eq!(find_bot_name(&9, &bots()), Some("Mirror".to_string()));
    assert_eq!(find_bot_name(&8, &bots()), None);
    assert_eq!(find_bot_name(&7, &None), None);
}

#[test]
fn package_selection_takes_the_first_hit() {
    let search = Some(vec![
        SearchHit { bot_id: 7, number: 12 },
        SearchHit { bot_id: 9, number: 99 },
    ]);
    let p = find_package(&search, &bots()).unwrap();
    assert_eq!(p.number, 12);
    assert_eq!(p.bot, "Archive".to_string());
}

#[test]
fn each_selection_failure_names_its_reason() {
    assert!(matches!(find_package(&None, &bots()), Err(LocatorError::SearchFailed)));
    assert!(matches!(find_package(&Some(vec![]), &bots()), Err(LocatorError::NoResults)));
    let unknown = Some(vec![SearchHit { bot_id: 42, number: 1 }]);
    assert!(matches!(find_package(&unknown, &bots()), Err(LocatorError::BotUnavailable)));
    assert!(matches!(find_package(&unknown, &None), Err(LocatorError::BotUnavailable)));
}

#[test]
fn multi_episode_orders_resolve_in_order() {
    let episodes = vec![1u16, 2u16];
    let searches = vec![
        Some(vec![SearchHit { bot_id: 7, number: 12 }]),
        Some(vec![SearchHit { bot_id: 9, number: 45 }]),
    ];
    let v = find_packages(&episodes, &searches, &bots()).unwrap();
    assert_eq!(v.len(), 2);
    assert_eq!(v[0].number, 12);
    assert_eq!(v[0].bot, "Archive".to_string());
    assert_eq!(v[1].number, 45);
    assert_eq!(v[1].bot, "Mirror".to_string());
}

#[test]
fn first_failing_episode_is_named() {
    let episodes = vec![3u16, 4u16, 5u16];
    let searches = vec![
        Some(vec![SearchHit { bot_id: 7, number: 12 }]),
        Some(vec![]),
        None,
    ];
    assert!(matches!(
        find_packages(&episodes, &searches, &bots()),
        Err((4u16, LocatorError::NoResults))
    ));
}

fn d(port: &[u8], size: u64) -> TransferDescriptor {
    TransferDescriptor {
        filename: b"f".to_vec(),
        ip: 1,
        port: port.to_vec(),
        file_size: size,
        resume_position: 0,
    }
}

#[test]
fn resume_table_inserts_and_removes_by_port() {
    let mut t = ResumeTable::new();
    assert!(!t.contains(&b"5000".to_vec()));
    t.insert(b"5000".to_vec(), d(b"5000", 10));
    t.insert(b"5001".to_vec(), d(b"5001", 20));
    assert_eq!(t.len(), 2);
    assert!(t.contains(&b"5000".to_vec()));
    let got = t.remove(&b"5000".to_vec()).unwrap();
    assert_eq!(got.file_size, 10);
    assert!(!t.contains(&b"5000".to_vec()));
    assert!(t.contains(&b"5001".to_vec()));
    assert!(t.remove(&b"5000".to_vec()).is_none());
}

#[test]
fn resume_table_insert_replaces_same_port() {
    let mut t = ResumeTable::new();
    t.insert(b"5000".to_vec(), d(b"5000", 10));
    t.insert(b"5000".to_vec(), d(b"5000", 30));
    assert_eq!(t.len(), 1);
    assert_eq!(t.remove(&b"5000".to_vec()).unwrap().file_size, 30);
}

#[test]
fn leading_zero_ports_are_distinct_keys() {
    // ports are wire digits: "05000" and "5000" are different keys
    let mut t = ResumeTable::new();
    t.insert(b"05000".to_vec(), d(b"05000", 1));
    assert!(!t.contains(&b"5000".to_vec()));
    assert!(t.contains(&b"05000".to_vec()));
}
