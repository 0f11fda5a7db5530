//! Where the credentials for YouTube come from: one environment variable that packs both of
//! them, or else a directory that holds them as files.
use crate::paths;
use crate::paths::UnixPath;
use crate::text;
use vstd::prelude::*;
use vstd::string::*;
use vstd::utf8::*;

verus! {

/// The environment variable that packs the credentials.
pub const CREDENTIALS_VAR: &'static str = "YOUTUBE_CREDENTIALS";

/// The directory of the credentials where the variable is not set.
pub const CREDENTIALS_DIR: &'static str = "credentials";

/// The file that identifies the application to Google.
pub const CLIENT_SECRET_FILE: &'static str = "client_secret.json";

/// The file that holds the refresh token once access was granted.
pub const TOKEN_FILE: &'static str = "youtube_token.json";

/// Where the credentials come from.
#[derive(Debug, PartialEq, Eq)]
pub enum CredentialSource {
    /// Packed into one line of JSON.
    Packed { json: String },
    /// As files in a directory.
    Directory { dir: UnixPath },
}

/// Chooses where the credentials come from, given the variable's value where it is set.
pub fn credential_source(var: Option<String>) -> (source: CredentialSource)
    ensures
        match var {
            Some(value) => source matches CredentialSource::Packed { json } && json@ == value@,
            None => source matches CredentialSource::Directory { dir } && dir@ == encode_utf8(
                CREDENTIALS_DIR@,
            ),
        },
{
    match var {
        Some(value) => CredentialSource::Packed { json: value },
        None => CredentialSource::Directory { dir: UnixPath::from_text(CREDENTIALS_DIR) },
    }
}

/// The files of the credentials.
#[derive(Debug, PartialEq, Eq)]
pub struct CredentialFiles {
    pub client_secret: UnixPath,
    pub token_cache: UnixPath,
}

/// The files of the credentials in a directory.
pub fn credential_files(dir: &UnixPath) -> (files: CredentialFiles)
    ensures
        files.client_secret@ == paths::join(dir@, encode_utf8(CLIENT_SECRET_FILE@)),
        files.token_cache@ == paths::join(dir@, encode_utf8(TOKEN_FILE@)),
{
    CredentialFiles {
        client_secret: dir.join(CLIENT_SECRET_FILE.as_bytes()),
        token_cache: dir.join(TOKEN_FILE.as_bytes()),
    }
}

/// The two credentials, each as the JSON that its file would hold.
#[derive(Debug, PartialEq, Eq)]
pub struct PackedCredentials {
    pub client_secret: String,
    pub token: String,
}

/// What packed credentials lack.
#[derive(Debug, Clone, Copy, PartialEq, Eq, Structural)]
pub enum CredentialError {
    NoClientSecret,
    NoToken,
}

/// The JSON of a member of an object that is itself given as JSON, as `serde_json` reads and
/// writes it; none where the text is not JSON, or not an object with such a member.
pub uninterp spec fn json_member(json: Seq<char>, key: Seq<char>) -> Option<Seq<char>>;

/// The view of an optional text.
pub open spec fn opt_text(text: Option<String>) -> Option<Seq<char>> {
    match text {
        Some(t) => Some(t@),
        None => None,
    }
}

/// Reads a member of a JSON object: `serde_json::from_str` parses the text into a `Value`, and
/// the member that `Value::get` finds is written as JSON again. The result depends on the text
/// and the key alone; what JSON is, and how it is written, is left unsaid.
#[verifier::external_body]
fn read_member(json: &str, key: &str) -> (member: Option<String>)
    ensures
        opt_text(member) == json_member(json@, key@),
{
    let value: serde_json::Value = serde_json::from_str(json).ok()?;
    let member = value.get(key)?;
    Some(member.to_string())
}

/// The credentials, where both of them are there.
pub fn both_credentials(client_secret: Option<String>, token: Option<String>) -> (packed: Result<
    PackedCredentials,
    CredentialError,
>)
    ensures
        match packed {
            Ok(p) => opt_text(client_secret) == Some(p.client_secret@) && opt_text(token) == Some(
                p.token@,
            ),
            Err(error) => error == (if client_secret is None {
                CredentialError::NoClientSecret
            } else {
                CredentialError::NoToken
            }),
        },
        packed is Ok <==> client_secret is Some && token is Some,
{
    match (client_secret, token) {
        (Some(client_secret), Some(token)) => Ok(PackedCredentials { client_secret, token }),
        (None, _) => Err(CredentialError::NoClientSecret),
        (_, None) => Err(CredentialError::NoToken),
    }
}

/// Unpacks the credentials from one line of JSON.
pub fn unpack_credentials(json: &str) -> (packed: Result<PackedCredentials, CredentialError>)
    ensures
        match packed {
            Ok(p) => json_member(json@, "client_secret"@) == Some(p.client_secret@) && json_member(
                json@,
                "token"@,
            ) == Some(p.token@),
            Err(error) => error == (if json_member(json@, "client_secret"@) is None {
                CredentialError::NoClientSecret
            } else {
                CredentialError::NoToken
            }),
        },
        packed is Ok <==> json_member(json@, "client_secret"@) is Some && json_member(
            json@,
            "token"@,
        ) is Some,
{
    both_credentials(read_member(json, "client_secret"), read_member(json, "token"))
}

impl CredentialError {
    /// The report of the error.
    pub fn message(&self) -> (report: String)
        ensures
            report@ == match *self {
                CredentialError::NoClientSecret => "YOUTUBE_CREDENTIALS holds no client_secret"@,
                CredentialError::NoToken => "YOUTUBE_CREDENTIALS holds no token"@,
            },
    {
        match self {
            CredentialError::NoClientSecret =>
                "YOUTUBE_CREDENTIALS holds no client_secret".to_owned(),
            CredentialError::NoToken => "YOUTUBE_CREDENTIALS holds no token".to_owned(),
        }
    }
}

/// The view of an optional text holds the text.
pub proof fn optional_texts_are_viewed_whole(text: Option<String>)
    ensures
        text is None <==> opt_text(text) is None,
        text matches Some(t) ==> opt_text(text) == Some(t@),
{
}

/// The credentials lie directly in their directory, each in a file of its own.
pub proof fn credentials_lie_in_their_directory(dir: Seq<u8>)
    ensures
        paths::components(paths::join(dir, encode_utf8(CLIENT_SECRET_FILE@))) == paths::components(
            dir,
        ).push(paths::Component::Normal(encode_utf8("client_secret.json"@))),
        paths::components(paths::join(dir, encode_utf8(TOKEN_FILE@))) == paths::components(dir).push(
            paths::Component::Normal(encode_utf8("youtube_token.json"@)),
        ),
{
    reveal_strlit("client_secret.json");
    reveal_strlit("youtube_token.json");
    let (a, b) = ("client_secret.json"@, "youtube_token.json"@);
    is_ascii_chars_encode_utf8(a);
    is_ascii_chars_encode_utf8(b);
    text::encode_slash(a);
    text::encode_slash(b);
    text::encode_no_shorter(a);
    text::encode_no_shorter(b);
    paths::join_appends_component(dir, encode_utf8(a));
    paths::join_appends_component(dir, encode_utf8(b));
}

} // verus!
