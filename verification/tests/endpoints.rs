use rumia::routes;
use rumia::storage::debug::DebugStorage;
use rumia::storage::Storage;

const API_KEY: &str = "12345";
const BASE_URL: &str = "http://localhost";

/// A small fixed PNG-like fixture standing in for the test image.
fn fixture_bytes() -> Vec<u8> {
    vec![
        0x89, 0x50, 0x4E, 0x47, 0x0D, 0x0A, 0x1A, 0x0A, 0x00, 0x00, 0x00, 0x0D, 0x49, 0x48,
        0x44, 0x52, 0x21, 0x17, 0x42, 0x99,
    ]
}

/// Stores the fixture under a fresh identifier and hands the identifier
/// back, like a finished upload would.
fn create_new_test_file(store: &mut DebugStorage) -> String {
    let uuid = uuid::Uuid::new_v4().to_string();
    store.save(&format!("{uuid}.png"), fixture_bytes()).unwrap();
    uuid
}

#[test]
fn healthcheck() {
    let body = routes::healthcheck();
    assert_eq!(body, "ok");
    assert_eq!(body.len(), 2);
}

#[test]
fn can_auth() {
    let mut store = DebugStorage::new();
    let resp = routes::delete_file(&mut store, Some(API_KEY), API_KEY, "543543", "543543.gif");

    assert_eq!(resp, Err(400));
}

#[test]
fn cannot_access_protected_endpoints() {
    let mut store = DebugStorage::new();
    let mut failed = false;

    let outcomes: Vec<(&str, Option<u16>)> = vec![
        (
            "/api/upload/file",
            routes::upload_file(&mut store, None, API_KEY, BASE_URL, "test.png", fixture_bytes())
                .err(),
        ),
        (
            "/api/upload/https%3A%2F%2Fgoogle.com",
            routes::plan_url_upload(None, API_KEY, "https://google.com").err(),
        ),
        (
            "/attachment/543543/test.png",
            routes::delete_file(&mut store, None, API_KEY, "543543", "test.png").err(),
        ),
    ];

    for (uri, status) in outcomes {
        if status != Some(401) {
            println!("endpoint {uri} failed to respond UNAUTHORIZED - got {status:?}");
            failed = true;
        }
    }

    assert!(!failed);
}

#[test]
fn upload_file_from_binary() {
    let mut store = DebugStorage::new();
    let data = fixture_bytes();

    let resp = routes::upload_file(
        &mut store,
        Some(API_KEY),
        API_KEY,
        BASE_URL,
        "test.png",
        data.clone(),
    );
    assert!(resp.is_ok());

    let location = resp.unwrap();
    let strings: Vec<&str> = location.split('/').collect();
    let loaded = store.load(&format!("{}.png", strings[4])).unwrap();

    assert_eq!(loaded, data);
}

#[test]
fn upload_file_from_url() {
    let mut store = DebugStorage::new();
    let data = fixture_bytes();

    let plan = routes::plan_url_upload(
        Some(API_KEY),
        API_KEY,
        "https://raw.githubusercontent.com/CPU-Blanc/Rumia/refs/heads/master/resources/test/test.png",
    )
    .unwrap();
    let resp = routes::upload_fetched(
        &mut store,
        &plan,
        BASE_URL,
        routes::FetchOutcome::Body(data.clone()),
    );
    assert!(resp.is_ok());

    let location = resp.unwrap();
    let strings: Vec<&str> = location.split('/').collect();
    let loaded = store.load(&format!("{}.png", strings[4])).unwrap();

    assert_eq!(loaded, data);
}

#[test]
fn cannot_upload_bad_binary() {
    let mut store = DebugStorage::new();

    let resp = routes::upload_file(
        &mut store,
        Some(API_KEY),
        API_KEY,
        BASE_URL,
        "test.exe",
        fixture_bytes(),
    );

    assert_eq!(resp, Err(415));
}

#[test]
fn cannot_upload_bad_url() {
    let resp = routes::plan_url_upload(
        Some(API_KEY),
        API_KEY,
        "https%3A%2F%2Fwww.youtube.com%2Fwatch%3Fv%3DdQw4w9WgXcQ",
    );
    assert!(resp.is_err());
    assert_eq!(resp.err(), Some(400));

    // The same URL after percent-decoding parses, but its path's final
    // segment has no extension.
    let resp = routes::plan_url_upload(
        Some(API_KEY),
        API_KEY,
        "https://www.youtube.com/watch?v=dQw4w9WgXcQ",
    );
    assert_eq!(resp.err(), Some(400));
}

#[test]
fn can_get_test_file() {
    let mut store = DebugStorage::new();
    let uuid = create_new_test_file(&mut store);

    let resp = routes::get_file(&store, &uuid, "test.png");
    assert!(resp.is_ok());

    let data = resp.unwrap();
    assert!(!data.is_empty());
    assert_eq!(data, fixture_bytes());
}

#[test]
fn random_file_return_404() {
    let store = DebugStorage::new();
    let resp = routes::get_file(&store, "39514323-7c35-4e01-95b0-4a6b55c550c1", "test.gif");

    assert_eq!(resp, Err(404));
}

#[test]
fn delete_file() {
    let mut store = DebugStorage::new();
    let uuid = create_new_test_file(&mut store);

    let resp = routes::delete_file(&mut store, Some(API_KEY), API_KEY, &uuid, "test.png");

    assert_eq!(resp, Ok(()));
    assert_eq!(routes::get_file(&store, &uuid, "test.png"), Err(404));
}
