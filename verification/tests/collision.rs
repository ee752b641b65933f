use spooky_world::collision::{
    assimilation_pairs, sensor_contacts, sensor_parent, ContactEvent, ContactFlags, SensorParent,
};

const SENSOR: ContactFlags = ContactFlags { sensor: true, removed: false };
const PLAIN: ContactFlags = ContactFlags { sensor: false, removed: false };
const SENSOR_REMOVED: ContactFlags = ContactFlags { sensor: true, removed: true };

fn table() -> Vec<SensorParent> {
    vec![
        SensorParent { sensor: 10, parent: 1 },
        SensorParent { sensor: 20, parent: 2 },
        SensorParent { sensor: 10, parent: 9 },
    ]
}

#[test]
fn parent_lookup_takes_first_entry() {
    assert_eq!(sensor_parent(&table(), 10), Some(1));
    assert_eq!(sensor_parent(&table(), 20), Some(2));
    assert_eq!(sensor_parent(&table(), 30), None);
    assert_eq!(sensor_parent(&vec![], 10), None);
}

#[test]
fn sensor_contacts_pick_enemy_and_platform() {
    let events = vec![
        ContactEvent::Started(10, 100, SENSOR),
        ContactEvent::Started(200, 20, SENSOR),
        ContactEvent::Started(10, 300, PLAIN),
        ContactEvent::Stopped(10, 400, SENSOR),
        ContactEvent::Started(10, 500, SENSOR_REMOVED),
        ContactEvent::Started(600, 700, SENSOR),
        ContactEvent::Started(10, 20, SENSOR),
    ];
    let (enemies, platforms) = sensor_contacts(&events, &table());
    assert_eq!(enemies, vec![1, 2, 1]);
    assert_eq!(platforms, vec![100, 200, 20]);
}

#[test]
fn no_events_no_contacts() {
    let (enemies, platforms) = sensor_contacts(&vec![], &table());
    assert!(enemies.is_empty() && platforms.is_empty());
}

#[test]
fn pairs_zip_to_shorter() {
    assert_eq!(assimilation_pairs(&vec![1, 2, 3], &vec![7, 8]), vec![(1, 7), (2, 8)]);
    assert_eq!(assimilation_pairs(&vec![1, 2], &vec![7, 8]), vec![(1, 7), (2, 8)]);
    assert!(assimilation_pairs(&vec![], &vec![7]).is_empty());
}

#[test]
fn contacts_round_trip_through_pairs() {
    let events = vec![
        ContactEvent::Started(10, 100, SENSOR),
        ContactEvent::Started(200, 20, SENSOR),
    ];
    let (enemies, platforms) = sensor_contacts(&events, &table());
    assert_eq!(assimilation_pairs(&enemies, &platforms), vec![(1, 100), (2, 200)]);
}
