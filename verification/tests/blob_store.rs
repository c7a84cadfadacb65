use scheduler_module::blob_store::{
    after_last_memo_read, after_memo_delete, after_memo_properties, after_memo_read, is_not_found,
    legacy_memo_blob_path, memo_account_of_blob, memo_blob_path, parse_connection_string, upload_blob_path,
    user_memo_blob_path, BlobStoreError, MemoRead,
};
use uuid::Uuid;

#[test]
fn connection_string_gives_account_name_and_key() {
    let parsed = parse_connection_string(
        "DefaultEndpointsProtocol=https;AccountName=dowhiz;AccountKey=abc==;EndpointSuffix=core.windows.net",
    )
    .unwrap();
    assert_eq!(parsed, ("dowhiz".to_string(), "abc==".to_string()));
    let last = parse_connection_string("AccountName=a;AccountKey=k;AccountName=b").unwrap();
    assert_eq!(last, ("b".to_string(), "k".to_string()));
}

#[test]
fn connection_string_without_key_is_invalid() {
    match parse_connection_string("AccountName=dowhiz") {
        Err(BlobStoreError::InvalidConnectionString(m)) => assert_eq!(m, "missing AccountName or AccountKey"),
        _ => panic!("expected an invalid connection string"),
    }
    assert!(parse_connection_string("").is_err());
    assert_eq!(
        BlobStoreError::InvalidConnectionString("x".to_string()).message(),
        "invalid connection string: x"
    );
    assert_eq!(BlobStoreError::MissingContainer.message(), "missing AZURE_STORAGE_CONTAINER");
}

#[test]
fn memo_paths_follow_the_layouts() {
    let id = Uuid::parse_str("550e8400-e29b-41d4-a716-446655440000").unwrap().as_u128();
    assert_eq!(memo_blob_path(id), "accounts/550e8400-e29b-41d4-a716-446655440000/memo/memo.md");
    assert_eq!(legacy_memo_blob_path(id), "550e8400-e29b-41d4-a716-446655440000/memo.md");
    assert_eq!(user_memo_blob_path("u1"), "users/u1/memo/memo.md");
    assert_eq!(upload_blob_path("workspaces/a//", "src/main.rs"), "workspaces/a/src/main.rs");
    assert_eq!(upload_blob_path("", "f"), "/f");
}

#[test]
fn memo_account_is_read_back_from_blob_names() {
    let id = Uuid::new_v4().as_u128();
    assert_eq!(memo_account_of_blob(&memo_blob_path(id)), Some(id));
    assert_eq!(memo_account_of_blob(&legacy_memo_blob_path(id)), Some(id));
    assert_eq!(memo_account_of_blob("accounts/not-a-uuid/memo/memo.md"), None);
    assert_eq!(memo_account_of_blob("users/u1/memo/memo.md"), None);
    assert_eq!(memo_account_of_blob("other/file.txt"), None);
}

#[test]
fn missing_blobs_fall_back() {
    let missing = || Err(BlobStoreError::Azure("404 BlobNotFound".to_string()));
    assert!(is_not_found("status 404"));
    assert!(!is_not_found("timeout"));
    assert!(matches!(after_memo_read(Ok("# memo".to_string())), MemoRead::Found(t) if t == "# memo"));
    assert!(matches!(after_memo_read(missing()), MemoRead::TryLegacy));
    assert!(matches!(after_last_memo_read(missing()), MemoRead::UseDefault));
    assert!(matches!(
        after_memo_read(Err(BlobStoreError::Azure("timeout".to_string()))),
        MemoRead::Failed(BlobStoreError::Azure(_))
    ));
    assert!(after_memo_delete(Err(BlobStoreError::Azure("BlobNotFound".to_string()))).is_ok());
    assert!(after_memo_delete(Err(BlobStoreError::Azure("denied".to_string()))).is_err());
    assert_eq!(after_memo_properties(Ok(())).unwrap(), true);
    assert_eq!(after_memo_properties(Err(BlobStoreError::Azure("404".to_string()))).unwrap(), false);
    assert!(after_memo_properties(Err(BlobStoreError::MissingContainer)).is_err());
}

use scheduler_module::memory_queue::{memory_queue_key, memory_queue_use_blob, MemoryQueueError};

#[test]
fn memo_writes_queue_by_account_else_user() {
    let id = Uuid::parse_str("550e8400-e29b-41d4-a716-446655440000").unwrap().as_u128();
    assert_eq!(memory_queue_key(Some(id), "u1"), "account:550e8400-e29b-41d4-a716-446655440000");
    assert_eq!(memory_queue_key(None, "u1"), "user:u1");
}

#[test]
fn memo_writes_use_blob_unless_turned_off() {
    let s = |v: &str| Some(v.to_string());
    assert!(memory_queue_use_blob(None));
    assert!(memory_queue_use_blob(s("1")));
    assert!(memory_queue_use_blob(s("yes")));
    assert!(!memory_queue_use_blob(s("0")));
    assert!(!memory_queue_use_blob(s(" FALSE ")));
    assert!(!memory_queue_use_blob(s("  ")));
    assert_eq!(MemoryQueueError::BlobStore("x".to_string()).message(), "Blob storage error: x");
}
