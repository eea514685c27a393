use room_view::delta::Change;
use room_view::kinds::RoomObjectType;
use room_view::room::{merged, Kept, MergeError, Room, RoomId, Terrain};
use room_view::kinds::TerrainType;
use room_view::store::{find, put, take, Entry};

fn entry(key: &str, value: u32) -> Entry<u32> {
    Entry { key: key.to_string(), value }
}

fn parse(text: &str) -> serde_json::Value {
    serde_json::from_str(text).unwrap()
}

fn road_payload(id: &str, x: u32, y: u32) -> serde_json::Value {
    parse(&format!(
        r#"{{"_id": "{}", "hits": 2600, "hitsMax": 5000, "nextDecayTime": 19894066,
            "notifyWhenAttacked": true, "room": "E4S61", "type": "road", "x": {}, "y": {}}}"#,
        id, x, y
    ))
}

fn fresh_room() -> Room {
    Room::new(
        RoomId::new(Some("shard0".to_string()), "E4S61".to_string()),
        Terrain { room_name: "E4S61".to_string(), tiles: vec![vec![TerrainType::Plains; 50]; 50] },
    )
}

#[test]
fn find_gives_the_position_of_a_key() {
    let entries = vec![entry("a", 1), entry("b", 2), entry("c", 3)];
    assert_eq!(find(&entries, &"a".to_string()), Some(0));
    assert_eq!(find(&entries, &"c".to_string()), Some(2));
    assert_eq!(find(&entries, &"d".to_string()), None);
    assert_eq!(find(&Vec::<Entry<u32>>::new(), &"a".to_string()), None);
}

#[test]
fn take_removes_one_entry_and_keeps_the_order() {
    let mut entries = vec![entry("a", 1), entry("b", 2), entry("c", 3)];
    let taken = take(&mut entries, &"b".to_string()).unwrap();
    assert_eq!(taken.key, "b");
    assert_eq!(taken.value, 2);
    assert_eq!(entries.len(), 2);
    assert_eq!(entries[0].key, "a");
    assert_eq!(entries[1].key, "c");
    assert!(take(&mut entries, &"b".to_string()).is_none());
    assert_eq!(entries.len(), 2);
}

#[test]
fn put_appends_an_entry() {
    let mut entries = vec![entry("a", 1)];
    put(&mut entries, entry("b", 2));
    assert_eq!(entries.len(), 2);
    assert_eq!(entries[1].key, "b");
    assert_eq!(entries[1].value, 2);
}

#[test]
fn kept_shows_what_the_object_holds() {
    let body = serde_json::from_value(road_payload("r9", 14, 20)).unwrap();
    let kept = Kept::of(body).unwrap();
    assert_eq!(kept.shown.kind, RoomObjectType::Road);
    assert_eq!(kept.shown.id, "r9");
    assert_eq!(kept.shown.x, 14);
    assert_eq!(kept.shown.y, 20);
}

#[test]
fn merged_rereads_what_is_shown() {
    let body = serde_json::from_value(road_payload("r9", 14, 20)).unwrap();
    let kept = Kept::of(body).unwrap();
    let (kept, outcome) = merged(kept, &parse(r#"{"x": 1, "y": 2}"#));
    assert!(outcome.is_ok());
    assert_eq!(kept.shown.kind, RoomObjectType::Road);
    assert_eq!(kept.shown.id, "r9");
    assert_eq!(kept.shown.x, 1);
    assert_eq!(kept.shown.y, 2);
    let (kept, outcome) = merged(kept, &parse(r#"{"x": [1]}"#));
    assert!(outcome.is_err());
    assert_eq!(kept.shown.x, 1);
    assert_eq!(kept.shown.y, 2);
}

#[test]
fn insert_decoded_keeps_or_refuses() {
    let mut room = fresh_room();
    let good = serde_json::from_value(road_payload("r1", 1, 2));
    assert!(room.insert_decoded("r1".to_string(), good).is_ok());
    assert_eq!(room.objects().len(), 1);
    assert_eq!(room.objects()[0].key, "r1");
    let bad = serde_json::from_value(parse(r#"{"type": "road"}"#));
    let result = room.insert_decoded("r2".to_string(), bad);
    assert!(matches!(result, Err(MergeError::MalformedObject(_))));
    assert_eq!(room.objects().len(), 1);
}

#[test]
fn single_changes_apply_in_place() {
    let mut room = fresh_room();
    assert!(room.upsert_object(&"a".to_string(), &road_payload("a", 1, 1)).is_ok());
    assert!(room.upsert_object(&"b".to_string(), &road_payload("b", 2, 2)).is_ok());
    assert!(room.upsert_object(&"c".to_string(), &road_payload("c", 3, 3)).is_ok());
    assert!(room.upsert_object(&"a".to_string(), &parse(r#"{"x": 9}"#)).is_ok());
    let keys: Vec<String> = room.objects().iter().map(|e| e.key.clone()).collect();
    assert_eq!(keys, vec!["a".to_string(), "b".to_string(), "c".to_string()]);
    assert_eq!(room.objects()[0].value.shown.x, 9);
    room.remove_object(&"b".to_string());
    let keys: Vec<String> = room.objects().iter().map(|e| e.key.clone()).collect();
    assert_eq!(keys, vec!["a".to_string(), "c".to_string()]);
    assert!(room.apply_object(&"c".to_string(), &Change::Delete).is_ok());
    assert!(room.apply_object(&"c".to_string(), &Change::Delete).is_ok());
    assert_eq!(room.objects().len(), 1);
    let failed = room.apply_object(&"a".to_string(), &Change::Upsert(parse(r#"{"y": "up"}"#)));
    assert!(matches!(failed, Err(MergeError::MalformedObject(_))));
    assert_eq!(room.objects()[0].value.shown.x, 9);
    assert_eq!(room.objects()[0].value.shown.y, 1);
}

#[test]
fn single_user_changes_apply_in_place() {
    let mut room = fresh_room();
    assert!(room.upsert_user(&"u1".to_string(), &parse(r#"{"username": "ann"}"#)).is_ok());
    assert!(room.upsert_user(&"u2".to_string(), &parse(r#"{"username": "bob"}"#)).is_ok());
    assert!(room.upsert_user(&"u1".to_string(), &parse(r#"{"_id": "u1"}"#)).is_ok());
    assert_eq!(room.users()[0].key, "u1");
    assert_eq!(room.users()[0].value.username, Some("ann".to_string()));
    assert_eq!(room.users()[0].value.user_id, Some("u1".to_string()));
    let failed = room.upsert_user(&"u3".to_string(), &parse(r#"[1]"#));
    assert!(matches!(failed, Err(MergeError::MalformedUser(_))));
    assert!(room.apply_user(&"u1".to_string(), &Change::Delete).is_ok());
    room.remove_user(&"nobody".to_string());
    assert_eq!(room.users().len(), 1);
    assert_eq!(room.users()[0].key, "u2");
}

#[test]
fn room_keeps_its_id() {
    let room = fresh_room();
    assert_eq!(room.room_id().to_text(), "shard0:E4S61");
    assert_eq!(room.room_id().clone(), RoomId::new(Some("shard0".to_string()), "E4S61".to_string()));
}
