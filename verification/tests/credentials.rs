use motovlog::credentials::{
    both_credentials, credential_files, credential_source, unpack_credentials, CredentialError,
    CredentialSource,
};
use motovlog::paths::UnixPath;

fn path(text: &str) -> UnixPath {
    UnixPath::from_text(text)
}

#[test]
fn variable_comes_before_the_directory() {
    assert_eq!(
        credential_source(Some("{}".to_string())),
        CredentialSource::Packed { json: "{}".to_string() }
    );
    assert_eq!(
        credential_source(None),
        CredentialSource::Directory { dir: path("credentials") }
    );
}

#[test]
fn credentials_lie_in_two_files() {
    let files = credential_files(&path("credentials"));
    assert_eq!(files.client_secret, path("credentials/client_secret.json"));
    assert_eq!(files.token_cache, path("credentials/youtube_token.json"));
}

#[test]
fn credentials_are_unpacked() {
    let packed =
        unpack_credentials(r#"{"client_secret": {"installed": {"id": "x"}}, "token": [1, 2]}"#)
            .unwrap();
    assert_eq!(packed.client_secret, r#"{"installed":{"id":"x"}}"#);
    assert_eq!(packed.token, "[1,2]");
}

#[test]
fn missing_credentials_are_reported() {
    assert_eq!(
        unpack_credentials(r#"{"token": 1}"#),
        Err(CredentialError::NoClientSecret)
    );
    assert_eq!(
        unpack_credentials(r#"{"client_secret": 1}"#),
        Err(CredentialError::NoToken)
    );
    assert_eq!(
        unpack_credentials("not json"),
        Err(CredentialError::NoClientSecret)
    );
    assert_eq!(
        CredentialError::NoClientSecret.message(),
        "YOUTUBE_CREDENTIALS holds no client_secret"
    );
    assert_eq!(
        CredentialError::NoToken.message(),
        "YOUTUBE_CREDENTIALS holds no token"
    );
}

#[test]
fn both_credentials_are_needed() {
    let packed = both_credentials(Some("a".to_string()), Some("b".to_string())).unwrap();
    assert_eq!(packed.client_secret, "a");
    assert_eq!(packed.token, "b");
    assert_eq!(both_credentials(None, None), Err(CredentialError::NoClientSecret));
    assert_eq!(
        both_credentials(Some("a".to_string()), None),
        Err(CredentialError::NoToken)
    );
}
