use conference::switchboard::{Recorder, Switchboard, SwitchboardError};

fn sorted(mut v: Vec<u64>) -> Vec<u64> {
    v.sort();
    v
}

#[test]
fn join_without_publisher_is_not_found() {
    let mut sb = Switchboard::new();
    sb.connect(1);
    assert_eq!(sb.join_room(&"room1".to_string(), 1), Err(SwitchboardError::NotFound));
    assert_eq!(sb.publisher_to(1), None);
    assert!(sb.subscribers_to(1).is_empty());
}

#[test]
fn join_after_create_links_both_ways() {
    let mut sb = Switchboard::new();
    sb.connect(1);
    sb.connect(2);
    sb.create_room("room1".to_string(), 1);
    assert_eq!(sb.join_room(&"room1".to_string(), 2), Ok(()));
    assert_eq!(sb.subscribers_to(1), vec![2]);
    assert_eq!(sb.publisher_to(2), Some(1));
}

#[test]
fn second_create_replaces_publisher() {
    let mut sb = Switchboard::new();
    sb.create_room("room1".to_string(), 1);
    sb.create_room("room1".to_string(), 2);
    sb.join_room(&"room1".to_string(), 3).unwrap();
    assert_eq!(sb.publisher_to(3), Some(2));
    assert!(sb.subscribers_to(1).is_empty());
}

#[test]
fn rejoin_moves_subscriber() {
    let mut sb = Switchboard::new();
    sb.create_room("a".to_string(), 1);
    sb.create_room("b".to_string(), 2);
    sb.join_room(&"a".to_string(), 3).unwrap();
    sb.join_room(&"b".to_string(), 3).unwrap();
    assert!(sb.subscribers_to(1).is_empty());
    assert_eq!(sb.subscribers_to(2), vec![3]);
}

#[test]
fn disconnect_subscriber_drops_it_everywhere() {
    let mut sb = Switchboard::new();
    sb.create_room("room1".to_string(), 1);
    sb.join_room(&"room1".to_string(), 2).unwrap();
    sb.join_room(&"room1".to_string(), 3).unwrap();
    sb.disconnect(2);
    assert_eq!(sb.publisher_to(2), None);
    assert_eq!(sb.subscribers_to(1), vec![3]);
    sb.disconnect(2);
    assert_eq!(sb.subscribers_to(1), vec![3]);
}

#[test]
fn disconnect_publisher_releases_subscribers_and_room() {
    let mut sb = Switchboard::new();
    sb.create_room("room1".to_string(), 1);
    sb.attach_recorder(1, Recorder { room_id: "room1".to_string() });
    sb.join_room(&"room1".to_string(), 2).unwrap();
    sb.join_room(&"room1".to_string(), 3).unwrap();
    assert_eq!(sorted(sb.subscribers_to(1)), vec![2, 3]);
    sb.disconnect(1);
    assert!(sb.subscribers_to(1).is_empty());
    assert_eq!(sb.publisher_to(2), None);
    assert_eq!(sb.publisher_to(3), None);
    assert!(sb.recorder_for(1).is_none());
    assert_eq!(sb.join_room(&"room1".to_string(), 4), Err(SwitchboardError::NotFound));
}

#[test]
fn remove_stream_keeps_existing_subscribers() {
    let mut sb = Switchboard::new();
    sb.create_room("room1".to_string(), 1);
    sb.join_room(&"room1".to_string(), 2).unwrap();
    sb.remove_stream(&"room1".to_string());
    assert_eq!(sb.subscribers_to(1), vec![2]);
    assert_eq!(sb.join_room(&"room1".to_string(), 3), Err(SwitchboardError::NotFound));
    sb.remove_stream(&"room1".to_string());
}

#[test]
fn recorder_lookup() {
    let mut sb = Switchboard::new();
    assert!(sb.recorder_for(1).is_none());
    sb.attach_recorder(1, Recorder { room_id: "room1".to_string() });
    assert_eq!(sb.recorder_for(1).map(|r| r.room_id.clone()), Some("room1".to_string()));
}

#[test]
fn other_rooms_survive_a_disconnect() {
    let mut sb = Switchboard::new();
    sb.create_room("a".to_string(), 1);
    sb.create_room("b".to_string(), 2);
    sb.create_room("c".to_string(), 1);
    sb.disconnect(1);
    assert_eq!(sb.join_room(&"a".to_string(), 5), Err(SwitchboardError::NotFound));
    assert_eq!(sb.join_room(&"c".to_string(), 5), Err(SwitchboardError::NotFound));
    assert_eq!(sb.join_room(&"b".to_string(), 5), Ok(()));
    assert_eq!(sb.publisher_to(5), Some(2));
}
