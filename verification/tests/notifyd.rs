use mde::notifyd::{assign_id, close_notification, pair_actions, post, seed_next_id, Notif, Stamp};

#[test]
fn actions_pair_up_and_drop_odd() {
    let flat: Vec<String> = vec!["default".into(), "Open".into(), "reply".into(), "Reply".into()];
    assert_eq!(
        pair_actions(&flat),
        vec![("default".to_string(), "Open".to_string()), ("reply".to_string(), "Reply".to_string())]
    );
    assert_eq!(pair_actions(&vec!["lonely".to_string()]), Vec::<(String, String)>::new());
}

fn note(id: u32, app: &str) -> Notif {
    Notif {
        id,
        app_name: app.into(),
        app_icon: String::new(),
        summary: format!("s{id}"),
        body: String::new(),
        actions: Vec::new(),
        hint_urgency: 1,
        timestamp: Stamp { secs: 1_700_000_000, nanos: 0 },
        transient: false,
    }
}

#[test]
fn post_replaces_and_appends_newest_last() {
    let mut store = vec![note(1, "a"), note(2, "b"), note(3, "c")];
    post(&mut store, note(2, "z"));
    let ids: Vec<u32> = store.iter().map(|n| n.id).collect();
    assert_eq!(ids, vec![1, 3, 2]);
    assert_eq!(store[2].app_name, "z");
    close_notification(&mut store, 2);
    let ids: Vec<u32> = store.iter().map(|n| n.id).collect();
    assert_eq!(ids, vec![1, 3]);
}

#[test]
fn ids_are_reused_or_handed_out_in_turn() {
    let mut next = 5u32;
    assert_eq!(assign_id(9, &mut next), 9);
    assert_eq!(next, 5);
    assert_eq!(assign_id(0, &mut next), 5);
    assert_eq!(next, 6);
    let mut last = u32::MAX;
    assert_eq!(assign_id(0, &mut last), u32::MAX);
    assert_eq!(last, 0);
}

#[test]
fn seed_is_one_past_the_largest_id() {
    assert_eq!(seed_next_id(&vec![note(4, "a"), note(9, "b"), note(2, "c")]), 10);
    assert_eq!(seed_next_id(&Vec::new()), 1);
}
