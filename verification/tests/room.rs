use room_view::delta::{Change, RoomDelta};
use room_view::entity::{Flag, FlagColor};
use room_view::kinds::{ConnectionState, InterestingTerrainType, RoomObjectType, TerrainType};
use room_view::order::VisualObject;
use room_view::room::{MergeError, Room, RoomError, RoomId, Terrain};
use room_view::visual::{OutOfRoom, VisualRoom};

fn plains() -> Vec<Vec<TerrainType>> {
    vec![vec![TerrainType::Plains; 50]; 50]
}

fn terrain(name: &str, tiles: Vec<Vec<TerrainType>>) -> Terrain {
    Terrain { room_name: name.to_string(), tiles }
}

fn room_id(name: &str) -> RoomId {
    RoomId::new(None, name.to_string())
}

fn empty_room() -> Room {
    Room::new(room_id("W65N19"), terrain("W65N19", plains()))
}

fn flag(name: &str, x: u32, y: u32) -> Flag {
    Flag {
        name: name.to_string(),
        primary_color: FlagColor::Red,
        secondary_color: FlagColor::Blue,
        x,
        y,
    }
}

fn json(text: &str) -> serde_json::Value {
    serde_json::from_str(text).unwrap()
}

fn creep(id: &str, x: u32, y: u32) -> serde_json::Value {
    json(&format!(
        r#"{{
            "_id": "{}",
            "actionLog": {{
                "attack": null, "attacked": null, "build": null, "harvest": null,
                "heal": null, "healed": null, "rangedAttack": null, "rangedHeal": null,
                "rangedMassAttack": null, "repair": null, "reserveController": null,
                "say": null, "upgradeController": null
            }},
            "ageTime": 20236257,
            "body": [{{"hits": 100, "type": "carry"}}, {{"hits": 100, "type": "move"}}],
            "energy": 0,
            "energyCapacity": 100,
            "fatigue": 0,
            "hits": 200,
            "hitsMax": 200,
            "name": "b873",
            "notifyWhenAttacked": true,
            "room": "W65N19",
            "spawning": false,
            "type": "creep",
            "user": "57874d42d0ae911e3bd15bbc",
            "x": {},
            "y": {}
        }}"#,
        id, x, y
    ))
}

fn road(id: &str, x: u32, y: u32) -> serde_json::Value {
    json(&format!(
        r#"{{"_id": "{}", "hits": 2600, "hitsMax": 5000, "nextDecayTime": 19894066,
            "notifyWhenAttacked": true, "room": "W65N19", "type": "road", "x": {}, "y": {}}}"#,
        id, x, y
    ))
}

fn delta(objects: Vec<(String, Change)>, flags: Vec<Flag>) -> RoomDelta {
    RoomDelta { game_time: None, objects, flags, users: None }
}

fn upsert(id: &str, value: serde_json::Value) -> (String, Change) {
    (id.to_string(), Change::classify(value))
}

fn delete(id: &str) -> (String, Change) {
    (id.to_string(), Change::classify(serde_json::Value::Null))
}

fn ids_in_grid(picture: &VisualRoom) -> Vec<String> {
    let mut ids = Vec::new();
    for x in 0..50 {
        for y in 0..50 {
            for item in picture.stack(x, y).unwrap().iter() {
                if let VisualObject::RoomObject(o) = item {
                    ids.push(o.id.clone());
                }
            }
        }
    }
    ids.sort();
    ids
}

#[test]
fn connection_starts_disconnected() {
    assert_eq!(ConnectionState::default(), ConnectionState::Disconnected);
}

#[test]
fn connection_states_have_their_words() {
    assert_eq!(ConnectionState::Disconnected.to_text(), "disconnected");
    assert_eq!(ConnectionState::Authenticating.to_text(), "authenticating...");
    assert_eq!(ConnectionState::Connected.to_text(), "connected");
    assert_eq!(ConnectionState::Error.to_text(), "error!");
}

#[test]
fn room_id_text_has_shard_before_room() {
    let with = RoomId::new(Some("shard1".to_string()), "E1N1".to_string());
    assert_eq!(with.to_text(), "shard1:E1N1");
    assert_eq!(room_id("E1N1").to_text(), "E1N1");
}

#[test]
fn room_ids_compare_by_shard_and_name() {
    let a = RoomId::new(Some("shard1".to_string()), "E1N1".to_string());
    let b = RoomId::new(Some("shard1".to_string()), "E1N1".to_string());
    let c = RoomId::new(Some("shard2".to_string()), "E1N1".to_string());
    let d = RoomId::new(None, "E1N1".to_string());
    let e = RoomId::new(Some("shard1".to_string()), "E2N1".to_string());
    assert!(a.same_as(&b));
    assert!(!a.same_as(&c));
    assert!(!a.same_as(&d));
    assert!(!a.same_as(&e));
    assert!(d.same_as(&room_id("E1N1")));
    assert!(a.clone().same_as(&a));
}

#[test]
fn classify_tells_null_from_payload() {
    assert!(matches!(Change::classify(serde_json::Value::Null), Change::Delete));
    assert!(matches!(Change::classify(json("false")), Change::Upsert(_)));
    assert!(matches!(Change::classify(json("0")), Change::Upsert(_)));
    assert!(matches!(Change::classify(json("{}")), Change::Upsert(_)));
}

#[test]
fn new_room_is_empty() {
    let room = empty_room();
    assert_eq!(room.last_update_time(), None);
    assert!(room.flags().is_empty());
    assert!(room.objects().is_empty());
    assert!(room.users().is_empty());
    assert!(room.room_id().same_as(&room_id("W65N19")));
    assert_eq!(room.terrain().room_name, "W65N19");
}

#[test]
fn terrain_of_another_room_is_refused() {
    let made = Room::try_new(room_id("W1N1"), terrain("W2N2", plains()));
    assert_eq!(made.err(), Some(RoomError::TerrainOfOtherRoom));
}

#[test]
fn incomplete_terrain_is_refused() {
    let mut tiles = plains();
    tiles[49].pop();
    let made = Room::try_new(room_id("W1N1"), terrain("W1N1", tiles));
    assert_eq!(made.err(), Some(RoomError::TerrainIncomplete));
    let mut rows = plains();
    rows.pop();
    assert!(!terrain("W1N1", rows).is_complete());
    assert!(terrain("W1N1", plains()).is_complete());
}

#[test]
fn matching_terrain_makes_a_room() {
    let made = Room::try_new(room_id("W1N1"), terrain("W1N1", plains()));
    assert!(made.is_ok());
    assert!(made.unwrap().objects().is_empty());
}

#[test]
fn game_time_is_overwritten_only_when_carried() {
    let mut room = empty_room();
    let mut first = delta(vec![], vec![]);
    first.game_time = Some(100);
    room.update(first).unwrap();
    assert_eq!(room.last_update_time(), Some(100));
    room.update(delta(vec![], vec![])).unwrap();
    assert_eq!(room.last_update_time(), Some(100));
    let mut stale = delta(vec![], vec![]);
    stale.game_time = Some(7);
    room.update(stale).unwrap();
    assert_eq!(room.last_update_time(), Some(7));
}

#[test]
fn upsert_inserts_a_new_object() {
    let mut room = empty_room();
    room.update(delta(vec![upsert("c1", creep("c1", 27, 38))], vec![])).unwrap();
    assert!(room.has_object(&"c1".to_string()));
    assert_eq!(room.objects().len(), 1);
    let kept = &room.objects()[0];
    assert_eq!(kept.key, "c1");
    assert_eq!(kept.value.shown.kind, RoomObjectType::Creep);
    assert_eq!(kept.value.shown.id, "c1");
    assert_eq!(kept.value.shown.x, 27);
    assert_eq!(kept.value.shown.y, 38);
    assert_eq!(RoomObjectType::of(&kept.value.body), Some(RoomObjectType::Creep));
}

#[test]
fn upsert_merges_into_a_kept_object() {
    let mut room = empty_room();
    room.update(delta(vec![upsert("r1", road("r1", 14, 20))], vec![])).unwrap();
    room.update(delta(vec![upsert("r1", json(r#"{"x": 15, "hits": 2000}"#))], vec![])).unwrap();
    assert_eq!(room.objects().len(), 1);
    let kept = &room.objects()[0];
    assert_eq!(kept.value.shown.kind, RoomObjectType::Road);
    assert_eq!(kept.value.shown.id, "r1");
    assert_eq!(kept.value.shown.x, 15);
    assert_eq!(kept.value.shown.y, 20);
    let text = format!("{:?}", kept.value.body);
    assert!(text.contains("hits: 2000"), "{}", text);
    assert!(text.contains("hits_max: 5000"), "{}", text);
}

#[test]
fn same_payload_twice_is_the_same_as_once() {
    let mut once = empty_room();
    once.update(delta(vec![upsert("r1", road("r1", 14, 20))], vec![])).unwrap();
    once.update(delta(vec![upsert("r1", json(r#"{"y": 21, "hits": 10}"#))], vec![])).unwrap();
    let mut twice = empty_room();
    twice.update(delta(vec![upsert("r1", road("r1", 14, 20))], vec![])).unwrap();
    twice.update(delta(vec![upsert("r1", json(r#"{"y": 21, "hits": 10}"#))], vec![])).unwrap();
    twice.update(delta(vec![upsert("r1", json(r#"{"y": 21, "hits": 10}"#))], vec![])).unwrap();
    assert_eq!(once.objects().len(), 1);
    assert_eq!(twice.objects().len(), 1);
    assert_eq!(
        format!("{:?}", once.objects()[0].value.body),
        format!("{:?}", twice.objects()[0].value.body)
    );
    assert_eq!(once.objects()[0].value.shown.y, 21);
    assert_eq!(twice.objects()[0].value.shown.y, 21);
}

#[test]
fn null_removes_an_object_and_it_is_not_drawn() {
    let mut room = empty_room();
    room.update(delta(
        vec![upsert("c1", creep("c1", 1, 1)), upsert("r1", road("r1", 1, 1))],
        vec![],
    ))
    .unwrap();
    assert_eq!(ids_in_grid(&room.visualize()), vec!["c1".to_string(), "r1".to_string()]);
    room.update(delta(vec![delete("c1")], vec![])).unwrap();
    assert!(!room.has_object(&"c1".to_string()));
    assert!(room.has_object(&"r1".to_string()));
    assert_eq!(ids_in_grid(&room.visualize()), vec!["r1".to_string()]);
    assert_eq!(ids_in_grid(&room.visualize()), vec!["r1".to_string()]);
}

#[test]
fn null_for_an_absent_id_changes_nothing() {
    let mut room = empty_room();
    room.update(delta(vec![upsert("r1", road("r1", 3, 4))], vec![])).unwrap();
    room.update(delta(vec![delete("nobody")], vec![])).unwrap();
    assert_eq!(room.objects().len(), 1);
    assert!(room.has_object(&"r1".to_string()));
}

#[test]
fn last_change_for_an_id_decides() {
    let mut room = empty_room();
    room.update(delta(
        vec![upsert("r1", road("r1", 3, 4)), delete("r1"), upsert("r2", road("r2", 5, 6)), delete("r2"), upsert("r2", road("r2", 7, 8))],
        vec![],
    ))
    .unwrap();
    assert!(!room.has_object(&"r1".to_string()));
    assert!(room.has_object(&"r2".to_string()));
    assert_eq!(room.objects().len(), 1);
    assert_eq!(room.objects()[0].value.shown.x, 7);
}

#[test]
fn flags_are_replaced_wholesale() {
    let mut room = empty_room();
    room.update(delta(vec![], vec![flag("A", 1, 1), flag("B", 2, 2)])).unwrap();
    assert_eq!(room.flags().len(), 2);
    room.update(delta(vec![], vec![flag("C", 3, 3)])).unwrap();
    assert_eq!(room.flags().len(), 1);
    assert_eq!(room.flags()[0].name, "C");
}

#[test]
fn empty_flag_list_empties_the_flags() {
    let mut room = empty_room();
    room.update(delta(vec![], vec![flag("A", 1, 1), flag("B", 2, 2)])).unwrap();
    room.update(delta(vec![], vec![])).unwrap();
    assert!(room.flags().is_empty());
}

#[test]
fn malformed_object_fails_and_earlier_changes_stay() {
    let mut room = empty_room();
    room.update(delta(vec![], vec![flag("Old", 1, 1)])).unwrap();
    let result = room.update(delta(
        vec![upsert("r1", road("r1", 3, 4)), upsert("bad", json(r#"{"x": 1}"#)), upsert("r2", road("r2", 5, 6))],
        vec![],
    ));
    assert!(matches!(result, Err(MergeError::MalformedObject(_))));
    assert!(room.has_object(&"r1".to_string()));
    assert!(!room.has_object(&"bad".to_string()));
    assert!(!room.has_object(&"r2".to_string()));
    assert_eq!(room.flags().len(), 1);
}

#[test]
fn malformed_merge_fails_and_keeps_the_object() {
    let mut room = empty_room();
    room.update(delta(vec![upsert("r1", road("r1", 3, 4))], vec![])).unwrap();
    let result = room.update(delta(vec![upsert("r1", json(r#"{"x": "east"}"#))], vec![]));
    assert!(matches!(result, Err(MergeError::MalformedObject(_))));
    assert_eq!(room.objects().len(), 1);
    assert_eq!(room.objects()[0].value.shown.x, 3);
}

#[test]
fn construction_site_is_not_kept() {
    let mut room = empty_room();
    let site = json(
        r#"{"_id": "s1", "name": null, "progress": 211, "progressTotal": 300, "room": "W65N19",
            "structureType": "road", "type": "constructionSite",
            "user": "59cec9e20dd629146b767d96", "x": 4, "y": 25}"#,
    );
    let result = room.update(delta(vec![upsert("s1", site)], vec![]));
    assert!(matches!(result, Err(MergeError::UnsupportedKind)));
    assert!(room.objects().is_empty());
}

#[test]
fn users_merge_insert_delete_and_skip() {
    let mut room = empty_room();
    let mut first = delta(vec![], vec![]);
    first.users = Some(vec![
        ("u1".to_string(), Some(Change::classify(json(r#"{"_id": "u1", "username": "ann"}"#)))),
        ("u2".to_string(), Some(Change::classify(json(r#"{"_id": "u2", "username": "bob"}"#)))),
        ("u3".to_string(), None),
    ]);
    room.update(first).unwrap();
    assert!(room.has_user(&"u1".to_string()));
    assert!(room.has_user(&"u2".to_string()));
    assert!(!room.has_user(&"u3".to_string()));
    let mut second = delta(vec![], vec![]);
    second.users = Some(vec![
        ("u1".to_string(), Some(Change::classify(json(r#"{"username": "anna"}"#)))),
        ("u2".to_string(), Some(Change::classify(serde_json::Value::Null))),
        ("u1".to_string(), None),
    ]);
    room.update(second).unwrap();
    assert!(!room.has_user(&"u2".to_string()));
    assert_eq!(room.users().len(), 1);
    assert_eq!(room.users()[0].key, "u1");
    assert_eq!(room.users()[0].value.username, Some("anna".to_string()));
    assert_eq!(room.users()[0].value.user_id, Some("u1".to_string()));
    room.update(delta(vec![], vec![])).unwrap();
    assert_eq!(room.users().len(), 1);
}

#[test]
fn malformed_user_fails_after_flags_are_replaced() {
    let mut room = empty_room();
    let mut bad = delta(vec![upsert("r1", road("r1", 3, 4))], vec![flag("New", 2, 2)]);
    bad.users = Some(vec![("u1".to_string(), Some(Change::classify(json(r#"{"username": 5}"#))))]);
    let result = room.update(bad);
    assert!(matches!(result, Err(MergeError::MalformedUser(_))));
    assert!(room.has_object(&"r1".to_string()));
    assert_eq!(room.flags().len(), 1);
    assert!(room.users().is_empty());
}

#[test]
fn scenario_swamp_flag_and_creep_share_a_tile() {
    let mut tiles = plains();
    tiles[1][1] = TerrainType::Swamp;
    tiles[2][2] = TerrainType::Wall;
    let mut room = Room::new(room_id("W65N19"), terrain("W65N19", tiles));
    let mut first = delta(vec![upsert("c1", creep("c1", 1, 1))], vec![flag("Alpha", 1, 1)]);
    first.game_time = Some(42);
    room.update(first).unwrap();
    let picture = room.visualize();
    assert_eq!(picture.last_update_time, Some(42));
    assert!(picture.room_id.same_as(&room_id("W65N19")));
    let stack = picture.stack(1, 1).unwrap();
    assert_eq!(stack.len(), 3);
    assert!(matches!(
        &stack[0],
        VisualObject::InterestingTerrain { x: 1, y: 1, ty: InterestingTerrainType::Swamp }
    ));
    assert!(matches!(&stack[1], VisualObject::Flag(f) if f.name == "Alpha"));
    assert!(matches!(
        &stack[2],
        VisualObject::RoomObject(o) if o.kind == RoomObjectType::Creep && o.id == "c1"
    ));
    let wall = picture.stack(2, 2).unwrap();
    assert_eq!(wall.len(), 1);
    assert!(matches!(
        &wall[0],
        VisualObject::InterestingTerrain { x: 2, y: 2, ty: InterestingTerrainType::Wall }
    ));
    assert!(picture.stack(0, 0).unwrap().is_empty());
    assert!(picture.stack(49, 49).unwrap().is_empty());
}

#[test]
fn tiles_are_addressed_by_column_then_row() {
    let mut tiles = plains();
    tiles[7][3] = TerrainType::SwampyWall;
    let room = Room::new(room_id("W65N19"), terrain("W65N19", tiles));
    let picture = room.visualize();
    assert_eq!(picture.stack(3, 7).unwrap().len(), 1);
    assert!(picture.stack(7, 3).unwrap().is_empty());
    assert!(matches!(
        &picture.stack(3, 7).unwrap()[0],
        VisualObject::InterestingTerrain { x: 3, y: 7, ty: InterestingTerrainType::Wall }
    ));
    assert!(picture.stack(50, 0).is_none());
    assert!(picture.stack(0, 50).is_none());
}

#[test]
fn things_list_markers_flags_objects() {
    let mut tiles = plains();
    tiles[0][0] = TerrainType::Wall;
    tiles[0][1] = TerrainType::Swamp;
    let mut room = Room::new(room_id("W65N19"), terrain("W65N19", tiles));
    room.update(delta(vec![upsert("r1", road("r1", 9, 9))], vec![flag("F", 8, 8)])).unwrap();
    let things = room.things();
    assert_eq!(things.len(), 4);
    assert!(matches!(
        &things[0],
        VisualObject::InterestingTerrain { x: 0, y: 0, ty: InterestingTerrainType::Wall }
    ));
    assert!(matches!(
        &things[1],
        VisualObject::InterestingTerrain { x: 1, y: 0, ty: InterestingTerrainType::Swamp }
    ));
    assert!(matches!(&things[2], VisualObject::Flag(f) if f.name == "F"));
    assert!(matches!(&things[3], VisualObject::RoomObject(o) if o.id == "r1"));
    assert_eq!(room.terrain_markers().len(), 2);
}

#[test]
fn flag_outside_the_room_is_not_drawn() {
    let mut room = empty_room();
    room.update(delta(vec![], vec![flag("Edge", 50, 0)])).unwrap();
    assert!(!room.is_drawable());
    assert_eq!(room.try_visualize().err(), Some(OutOfRoom));
    room.update(delta(vec![], vec![flag("Edge", 0, 50)])).unwrap();
    assert_eq!(room.try_visualize().err(), Some(OutOfRoom));
    room.update(delta(vec![], vec![flag("Edge", 49, 49)])).unwrap();
    assert!(room.try_visualize().is_ok());
}

#[test]
fn object_outside_the_room_is_not_drawn() {
    let mut room = empty_room();
    room.update(delta(vec![upsert("r1", road("r1", 50, 3))], vec![])).unwrap();
    assert!(!room.is_drawable());
    assert!(room.try_visualize().is_err());
    room.update(delta(vec![upsert("r1", json(r#"{"x": 49}"#))], vec![])).unwrap();
    assert!(room.is_drawable());
    let picture = room.try_visualize().unwrap();
    assert_eq!(picture.stack(49, 3).unwrap().len(), 1);
}

#[test]
fn push_top_appends_to_the_tile() {
    let mut picture = VisualRoom::new(Some(1), room_id("W1N1"));
    picture.push_top(VisualObject::Flag(flag("B", 4, 5)));
    picture.push_top(VisualObject::Flag(flag("A", 4, 5)));
    let stack = picture.stack(4, 5).unwrap();
    assert_eq!(stack.len(), 2);
    assert!(matches!(&stack[0], VisualObject::Flag(f) if f.name == "B"));
    assert!(matches!(&stack[1], VisualObject::Flag(f) if f.name == "A"));
    assert!(picture.stack(5, 4).unwrap().is_empty());
}

#[test]
fn lay_out_sorts_every_stack() {
    let things = vec![
        VisualObject::Flag(flag("B", 4, 5)),
        VisualObject::Flag(flag("A", 4, 5)),
        VisualObject::Flag(flag("C", 0, 0)),
    ];
    let picture = VisualRoom::lay_out(None, room_id("W1N1"), &things);
    let stack = picture.stack(4, 5).unwrap();
    assert_eq!(stack.len(), 2);
    assert!(matches!(&stack[0], VisualObject::Flag(f) if f.name == "A"));
    assert!(matches!(&stack[1], VisualObject::Flag(f) if f.name == "B"));
    assert_eq!(picture.stack(0, 0).unwrap().len(), 1);
}

#[test]
fn visualizing_leaves_the_room_as_it_is() {
    let mut room = empty_room();
    room.update(delta(vec![upsert("r1", road("r1", 3, 4))], vec![flag("F", 3, 4)])).unwrap();
    let first = room.visualize();
    let second = room.visualize();
    assert_eq!(first.stack(3, 4).unwrap().len(), 2);
    assert_eq!(second.stack(3, 4).unwrap().len(), 2);
    assert_eq!(room.objects().len(), 1);
    assert_eq!(room.flags().len(), 1);
}
