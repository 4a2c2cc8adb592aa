use rumia::auth;
use rumia::error::ApiKeyError;
use rumia::settings::StorageType;
use rumia::validate::{validate_file, validate_hash};

#[test]
fn accepts_ordinary_filenames() {
    assert_eq!(
        validate_file("photo.png"),
        Ok(("photo.png".to_string(), "png".to_string()))
    );
    assert_eq!(
        validate_file("archive.tar.gz"),
        Ok(("archive.tar.gz".to_string(), "gz".to_string()))
    );
}

#[test]
fn keeps_only_the_final_path_segment() {
    assert_eq!(
        validate_file("dir/sub/photo.png"),
        Ok(("photo.png".to_string(), "png".to_string()))
    );
    assert_eq!(validate_file("../../etc/passwd"), Err(400));
    assert_eq!(validate_file("photos/"), Err(400));
}

#[test]
fn rejects_names_without_extension() {
    assert_eq!(validate_file(""), Err(400));
    assert_eq!(validate_file("watch"), Err(400));
    assert_eq!(validate_file(".png"), Err(400));
    assert_eq!(validate_file("photo."), Err(400));
}

#[test]
fn rejects_denylisted_extensions() {
    for name in [
        "setup.exe",
        "lib.dll",
        "page.html",
        "style.css",
        "index.php",
        "key.pub",
    ] {
        assert_eq!(validate_file(name), Err(415), "{name}");
    }
}

#[test]
fn rejects_denylisted_extensions_case_insensitively() {
    assert_eq!(validate_file("setup.EXE"), Err(415));
    assert_eq!(validate_file("setup.ExE"), Err(415));
    assert_eq!(validate_file("page.Html"), Err(415));
}

#[test]
fn rejects_key_material_names() {
    assert_eq!(validate_file("id_rsa.png"), Err(415));
    assert_eq!(validate_file("backup_ed25519.txt"), Err(415));
    assert_eq!(validate_file("my_rsa_key.jpg"), Err(415));
}

#[test]
fn accepts_canonical_identifier_tokens() {
    let token = "39514323-7c35-4e01-95b0-4a6b55c550c1";
    assert_eq!(validate_hash(token), Ok(token.to_string()));
}

#[test]
fn rejects_malformed_identifier_tokens() {
    assert_eq!(validate_hash("543543"), Err(400));
    assert_eq!(validate_hash(""), Err(400));
    assert_eq!(validate_hash("39514323-7c35-4e01-95b0-4a6b55c550c"), Err(400));
    assert_eq!(validate_hash("39514323x7c35-4e01-95b0-4a6b55c550c1"), Err(400));
    assert_eq!(validate_hash("39514323-7c35-4e01-95b0-4a6b55c550cg"), Err(400));
}

#[test]
fn authorize_distinguishes_missing_from_invalid() {
    assert_eq!(auth::authorize(None, "12345"), Err(ApiKeyError::Missing));
    assert_eq!(
        auth::authorize(Some("54321"), "12345"),
        Err(ApiKeyError::Invalid)
    );
    assert_eq!(auth::authorize(Some("12345"), "12345"), Ok(()));
}

#[test]
fn validate_key_surfaces_unauthorized() {
    assert_eq!(auth::validate_key(None, "12345"), Err(401));
    assert_eq!(auth::validate_key(Some("wrong"), "12345"), Err(401));
    assert_eq!(auth::validate_key(Some("12345"), "12345"), Ok(()));
}

#[test]
fn storage_type_parses_case_insensitively() {
    assert_eq!(StorageType::from_str("file"), Ok(StorageType::File));
    assert_eq!(StorageType::from_str("FILE"), Ok(StorageType::File));
    assert_eq!(StorageType::from_str("File"), Ok(StorageType::File));
    assert_eq!(StorageType::from_str("memory"), Err(()));
}

#[test]
fn error_messages_carry_their_text() {
    let save = rumia::error::SaveError::new("disk full".to_string());
    assert_eq!(save.message(), "disk full");

    let delete = rumia::error::DeleteError::new("missing".to_string());
    assert_eq!(delete.message(), "missing");

    let load = rumia::error::LoadError::FileNotExist("file x does not exist".to_string());
    assert_eq!(load.message(), "file x does not exist");
}
