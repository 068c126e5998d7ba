use pairapi::service::{
    lookup_field, AccountCreateReq, AccountCreateResp, AccountGetReq, MyPairApi, RecordField, RpcCode,
    RpcError, StoreFailure,
};
use pairapi::store::MemoryStore;

fn pair(f: &str, v: &str) -> (String, String) {
    (f.to_string(), v.to_string())
}

fn create(id: &str, username: &str, created: &str, points: &str) -> AccountCreateReq {
    AccountCreateReq {
        id: id.to_string(),
        username: username.to_string(),
        created: created.to_string(),
        points: points.to_string(),
    }
}

fn get(id: &str) -> AccountGetReq {
    AccountGetReq { id: id.to_string() }
}

fn profile(store: &mut MemoryStore, id: &str) {
    let fields = vec![pair("email", "a@example.com"), pair("name", "Alice"), pair("pic", "a.png")];
    store.hset_multiple(&id.to_string(), &fields);
}

#[test]
fn create_then_get_keeps_created_and_points() {
    let api = MyPairApi::default();
    let mut store = MemoryStore::new();
    profile(&mut store, "u1");
    let r = api.create_account(&mut store, &create("u1", "alice", "2024-01-01", "10"));
    assert!(matches!(r, Ok(AccountCreateResp {})));
    let resp = match api.get_account(&store, &get("u1")) {
        Ok(resp) => resp,
        Err(e) => panic!("get failed: {:?}", e),
    };
    assert_eq!(resp.created, "2024-01-01");
    assert_eq!(resp.points, "10");
    assert_eq!(resp.email, "a@example.com");
    assert_eq!(resp.name, "Alice");
    assert_eq!(resp.pic, "a.png");
}

#[test]
fn create_alone_leaves_an_incomplete_record() {
    let api = MyPairApi::default();
    let mut store = MemoryStore::new();
    let _ = api.create_account(&mut store, &create("u1", "alice", "2024-01-01", "10"));
    let r = api.get_account(&store, &get("u1"));
    assert!(matches!(r, Err(RpcError::IncompleteRecord(RecordField::Email))));
    assert_eq!(RpcError::IncompleteRecord(RecordField::Email).code(), RpcCode::DataLoss);
}

#[test]
fn get_of_unknown_key_is_not_found() {
    let api = MyPairApi::default();
    let mut store = MemoryStore::new();
    let _ = api.create_account(&mut store, &create("u1", "alice", "2024-01-01", "10"));
    let r = api.get_account(&store, &get("nobody"));
    assert!(matches!(r, Err(RpcError::NotFound)));
    assert_eq!(RpcError::NotFound.code(), RpcCode::NotFound);
    assert_eq!(RpcError::NotFound.message(), "Resource not found");
}

#[test]
fn second_create_wins_every_field() {
    let api = MyPairApi::default();
    let mut store = MemoryStore::new();
    let _ = api.create_account(&mut store, &create("u1", "alice", "2024-01-01", "10"));
    let _ = api.create_account(&mut store, &create("u1", "bob", "2024-02-02", "20"));
    let fields = store.hgetall(&"u1".to_string());
    assert_eq!(fields.len(), 3);
    assert_eq!(lookup_field(&fields, &"username".to_string()), Some("bob".to_string()));
    assert_eq!(lookup_field(&fields, &"created".to_string()), Some("2024-02-02".to_string()));
    assert_eq!(lookup_field(&fields, &"points".to_string()), Some("20".to_string()));
}

#[test]
fn create_keeps_other_fields() {
    let api = MyPairApi::default();
    let mut store = MemoryStore::new();
    profile(&mut store, "u1");
    let _ = api.create_account(&mut store, &create("u1", "alice", "2024-01-01", "10"));
    let fields = store.hgetall(&"u1".to_string());
    assert_eq!(fields.len(), 6);
    assert_eq!(lookup_field(&fields, &"email".to_string()), Some("a@example.com".to_string()));
    assert!(store.hgetall(&"u2".to_string()).is_empty());
}

#[test]
fn create_writes_three_fields() {
    let api = MyPairApi::default();
    let fields = api.create_fields(&create("u1", "alice", "2024-01-01", "10"));
    assert_eq!(
        fields,
        vec![pair("username", "alice"), pair("created", "2024-01-01"), pair("points", "10")]
    );
}

#[test]
fn failed_write_is_internal() {
    let api = MyPairApi::default();
    let r = api.create_reply(Err(StoreFailure {}));
    assert!(matches!(r, Err(RpcError::Internal)));
    assert_eq!(RpcError::Internal.code(), RpcCode::Internal);
    assert_eq!(RpcError::Internal.message(), "Serious error");
    assert!(matches!(api.create_reply(Ok(())), Ok(AccountCreateResp {})));
}

#[test]
fn failed_read_is_unavailable() {
    let api = MyPairApi::default();
    assert!(matches!(api.get_reply(Err(StoreFailure {})), Err(RpcError::Unavailable)));
    assert_eq!(RpcError::Unavailable.code(), RpcCode::Unavailable);
}

#[test]
fn empty_read_is_not_found() {
    let api = MyPairApi::default();
    assert!(matches!(api.get_reply(Ok(vec![])), Err(RpcError::NotFound)));
}

#[test]
fn first_missing_field_is_named() {
    let api = MyPairApi::default();
    let fs = vec![pair("email", "e"), pair("name", "n"), pair("created", "c"), pair("points", "p")];
    assert!(matches!(api.get_reply(Ok(fs)), Err(RpcError::IncompleteRecord(RecordField::Pic))));
    let fs = vec![pair("email", "e")];
    assert!(matches!(api.get_reply(Ok(fs)), Err(RpcError::IncompleteRecord(RecordField::Name))));
}

#[test]
fn complete_read_fills_every_field() {
    let api = MyPairApi::default();
    let fs = vec![
        pair("points", "7"),
        pair("pic", "p.png"),
        pair("created", "2023-05-05"),
        pair("name", "Carol"),
        pair("email", "c@example.com"),
        pair("extra", "ignored"),
    ];
    let resp = match api.get_reply(Ok(fs)) {
        Ok(resp) => resp,
        Err(e) => panic!("get failed: {:?}", e),
    };
    assert_eq!(resp.email, "c@example.com");
    assert_eq!(resp.name, "Carol");
    assert_eq!(resp.created, "2023-05-05");
    assert_eq!(resp.pic, "p.png");
    assert_eq!(resp.points, "7");
}

#[test]
fn lookup_takes_the_first_match() {
    let fs = vec![pair("a", "1"), pair("b", "2"), pair("a", "3")];
    assert_eq!(lookup_field(&fs, &"a".to_string()), Some("1".to_string()));
    assert_eq!(lookup_field(&fs, &"b".to_string()), Some("2".to_string()));
    assert_eq!(lookup_field(&fs, &"c".to_string()), None);
}

#[test]
fn set_field_overwrites_in_place() {
    let mut store = MemoryStore::new();
    let k = "k".to_string();
    store.set_field(&k, &"f".to_string(), &"1".to_string());
    store.set_field(&k, &"f".to_string(), &"2".to_string());
    assert_eq!(store.hgetall(&k), vec![pair("f", "2")]);
}
