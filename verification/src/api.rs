//! The decisions around the YouTube Music API: playlist addressing, which
//! queries the current sign-in state allows, and which API errors mean
//! "nothing here". The calls themselves are made by the program.
use vstd::prelude::*;
use crate::text::{chars_of, find_pat, find_pat_spec, matches_at, push_str, string_from};

verus! {

/// YouTube's browse endpoint wants a playlist addressed as `VL<playlistId>`;
/// a bare id comes back HTTP 400. Prepend the prefix unless the caller
/// already did.
pub fn browse_id(playlist_id: &str) -> (r: String)
    ensures
        matches_at(playlist_id@, "VL"@, 0) ==> r@ == playlist_id@,
        !matches_at(playlist_id@, "VL"@, 0) ==> r@ == "VL"@ + playlist_id@,
{
    let id = chars_of(playlist_id);
    let vl = chars_of("VL");
    if crate::text::starts_with(id.as_slice(), vl.as_slice()) {
        string_from(id.as_slice())
    } else {
        let mut out: Vec<char> = Vec::new();
        push_str(&mut out, "VL");
        crate::text::push_chars(&mut out, id.as_slice());
        string_from(out.as_slice())
    }
}

/// A playlist in the library browser.
pub struct Playlist {
    pub id: String,
    pub title: String,
    pub author: String,
    pub track_count: String,
}

/// An artist in the library browser.
pub struct ArtistRef {
    pub channel_id: String,
    pub name: String,
    pub subtitle: String,
}

/// An album, either from the library or from an artist's discography.
pub struct AlbumRef {
    pub id: String,
    pub title: String,
    pub year: String,
}

/// How far the current session reaches.
#[derive(Clone, Copy, Debug, PartialEq, Eq, Structural)]
pub enum AuthLevel {
    /// Could not reach YouTube Music at startup.
    Offline,
    /// Reachable, but not signed in: search, playlists, radio and lyrics work.
    NoAuth,
    /// Signed in with a cookie or OAuth: the library works too.
    LoggedIn,
}

impl AuthLevel {
    pub fn is_authenticated(self) -> (r: bool)
        ensures
            r == (self == AuthLevel::LoggedIn),
    {
        self == AuthLevel::LoggedIn
    }

    pub fn is_offline(self) -> (r: bool)
        ensures
            r == (self == AuthLevel::Offline),
    {
        self == AuthLevel::Offline
    }
}

/// Why an API call was refused or failed.
pub struct ApiError {
    pub message: String,
}

pub open spec fn offline_text() -> Seq<char> {
    "no connection to YouTube Music"@
}

pub open spec fn needs_auth_text() -> Seq<char> {
    "not signed in -- run `ytkew --auth cookie` or `ytkew --auth oauth` to reach your library"@
}

/// Whether a query may go out: never offline (every query fails with a
/// clear message instead of the process refusing to start), and a library
/// query only when signed in.
pub fn check_access(level: AuthLevel, needs_login: bool) -> (r: Result<(), ApiError>)
    ensures
        level == AuthLevel::Offline ==> (r matches Err(e) && e.message@ == offline_text()),
        level == AuthLevel::NoAuth && needs_login ==> (r matches Err(e) && e.message@
            == needs_auth_text()),
        level == AuthLevel::LoggedIn || (level == AuthLevel::NoAuth && !needs_login) ==> r is Ok,
{
    match level {
        AuthLevel::Offline => Err(ApiError { message: String::from_str("no connection to YouTube Music") }),
        AuthLevel::NoAuth => if needs_login {
            Err(
                ApiError {
                    message: String::from_str(
                        "not signed in -- run `ytkew --auth cookie` or `ytkew --auth oauth` to reach your library",
                    ),
                },
            )
        } else {
            Ok(())
        },
        AuthLevel::LoggedIn => Ok(()),
    }
}

/// An error text that means an empty library section: YouTube omits the
/// shelf entirely, which the API client reports as a missing key.
pub open spec fn missing_shelf_spec(msg: Seq<char>) -> bool {
    find_pat_spec(msg, "not found in Api response"@) is Some && (find_pat_spec(
        msg,
        "musicShelfRenderer"@,
    ) is Some || find_pat_spec(msg, "gridRenderer"@) is Some)
}

fn contains(msg: &[char], pat: &str) -> (r: bool)
    ensures
        r == (find_pat_spec(msg@, pat@) is Some),
{
    let p = chars_of(pat);
    find_pat(msg, p.as_slice()).is_some()
}

pub fn missing_shelf(msg: &str) -> (r: bool)
    ensures
        r == missing_shelf_spec(msg@),
{
    let m = chars_of(msg);
    contains(m.as_slice(), "not found in Api response") && (contains(
        m.as_slice(),
        "musicShelfRenderer",
    ) || contains(m.as_slice(), "gridRenderer"))
}

#[verifier::external_type_specification]
#[verifier::external_body]
pub struct ExYtmapiError(ytmapi_rs::Error);

/// The text `Display` gives a `ytmapi_rs::Error`: it depends on the error
/// alone, and takes pages of formatting rules to state.
pub uninterp spec fn error_message(e: ytmapi_rs::Error) -> Seq<char>;

/// Calls `ToString::to_string` on a `ytmapi_rs::Error` (its `Display`).
/// Claimed: the text is `error_message` of the error.
#[verifier::external_body]
fn error_text(e: &ytmapi_rs::Error) -> (r: String)
    ensures
        r@ == error_message(*e),
{
    e.to_string()
}

/// Treat "the shelf is missing" as an empty result rather than showing the
/// user a raw JSON path; every other error is passed on with its text.
pub fn empty_on_missing_shelf<T: Default>(res: Result<T, ytmapi_rs::Error>) -> (r: Result<
    T,
    ApiError,
>)
    ensures
        res matches Ok(v) ==> r == Ok::<T, ApiError>(v),
        res matches Err(e) ==> (missing_shelf_spec(error_message(e)) ==> r is Ok),
        res matches Err(e) ==> (!missing_shelf_spec(error_message(e)) ==> (r matches Err(x)
            && x.message@ == error_message(e))),
{
    match res {
        Ok(v) => Ok(v),
        Err(e) => {
            let msg = error_text(&e);
            if missing_shelf(msg.as_str()) {
                Ok(T::default())
            } else {
                Err(ApiError { message: msg })
            }
        },
    }
}

} // verus!
