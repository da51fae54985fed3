//! The texts that the HTTP front end needs around the rooms: the nickname
//! cookie, content types of the static assets, and a few fixed strings.

use vstd::prelude::*;
use vstd::string::*;
use crate::text::same_text;

verus! {

/// The address on which the server listens unless told otherwise.
pub const DEFAULT_ADDRESS: &'static str = "localhost:8000";

/// How many messages a room keeps unless told otherwise.
pub const DEFAULT_HISTORY_SIZE: usize = 1000;

/// How many workers serve requests unless told otherwise.
pub const DEFAULT_THREADS: usize = 2;

/// The subprotocol that a notification channel has to ask for.
pub const SUBPROTOCOL: &'static str = "meowww";

/// The name of the cookie that remembers a visitor's nickname.
pub const NICKNAME_COOKIE: &'static str = "nickname";

/// `s` percent-encoded for the userinfo part of a URL, as
/// `utf8_percent_encode` with `USERINFO_ENCODE_SET` writes it.
pub uninterp spec fn userinfo_encoded(s: Seq<char>) -> Seq<char>;

/// `s` with its percent-escapes decoded, and what is not UTF-8 afterwards
/// replaced, as `percent_decode` and `decode_utf8_lossy` do it.
pub uninterp spec fn percent_decoded(s: Seq<char>) -> Seq<char>;

/// Whether `s` ends in `suffix`.
pub open spec fn has_suffix(s: Seq<char>, suffix: Seq<char>) -> bool {
    suffix.len() <= s.len() && s.skip(s.len() - suffix.len()) == suffix
}

/// The `Set-Cookie` value that stores an encoded nickname.
pub open spec fn cookie_text(encoded: Seq<char>) -> Seq<char> {
    "nickname=\""@ + encoded + "\""@
}

/// The index of the first pair of `cookies` whose name is `name`, if any.
pub open spec fn first_named(cookies: Seq<(String, String)>, name: Seq<char>) -> Option<int> {
    if exists|i: int| 0 <= i < cookies.len() && (#[trigger] cookies[i]).0@ == name {
        Some(
            choose|i: int|
                0 <= i < cookies.len() && (#[trigger] cookies[i]).0@ == name && forall|j: int|
                    0 <= j < i ==> (#[trigger] cookies[j]).0@ != name,
        )
    } else {
        None
    }
}

/// The content type under which a static asset is served, by its extension.
pub open spec fn content_type_of(path: Seq<char>) -> Seq<char> {
    if has_suffix(path, ".css"@) {
        "text/css"@
    } else if has_suffix(path, ".js"@) {
        "application/javascript"@
    } else if has_suffix(path, ".ico"@) {
        "image/vnd.microsoft.icon"@
    } else {
        "application/octet-stream"@
    }
}

/// The line of the home page that tells where the rooms are.
pub open spec fn home_notice_text(host: Option<Seq<char>>) -> Seq<char> {
    "Go to http://"@ + (match host {
        Some(h) => h,
        None => "<server>"@,
    }) + "/<room_name> to access a chat room."@
}

/// Calls `utf8_percent_encode` of the `percent_encoding` module that rouille
/// re-exports from `url`, with `USERINFO_ENCODE_SET`, and collects the pieces.
/// Trusted: the result is a function of the characters alone; this crate
/// knows it only as [`userinfo_encoded`].
#[verifier::external_body]
fn userinfo_encode(s: &str) -> (r: String)
    ensures
        r@ == userinfo_encoded(s@),
{
    rouille::url::percent_encoding::utf8_percent_encode(
        s,
        rouille::url::percent_encoding::USERINFO_ENCODE_SET,
    ).collect()
}

/// Calls `percent_decode` of the same module on the bytes of `s`, then
/// `decode_utf8_lossy`. Trusted: the result is a function of the characters
/// alone; this crate knows it only as [`percent_decoded`].
#[verifier::external_body]
fn percent_decode_lossy(s: &str) -> (r: String)
    ensures
        r@ == percent_decoded(s@),
{
    rouille::url::percent_encoding::percent_decode(s.as_bytes()).decode_utf8_lossy().into_owned()
}

/// Calls `str::ends_with` with a string pattern. Trusted: it tells whether
/// the pattern is a suffix of the slice.
#[verifier::external_body]
fn ends_with(s: &str, suffix: &str) -> (r: bool)
    ensures
        r == has_suffix(s@, suffix@),
{
    s.ends_with(suffix)
}

/// Wraps an encoded nickname into the value of a `Set-Cookie` header.
pub fn cookie_value(encoded: &str) -> (r: String)
    ensures
        r@ == cookie_text(encoded@),
{
    let mut out = String::from_str("nickname=\"");
    out.append(encoded);
    out.append("\"");
    out
}

/// The `Set-Cookie` value that remembers `nickname`, as the visitor typed it.
pub fn nickname_cookie(nickname: &str) -> (r: String)
    ensures
        r@ == cookie_text(userinfo_encoded(nickname@)),
{
    let encoded = userinfo_encode(nickname);
    cookie_value(encoded.as_str())
}

/// Finds the first cookie named `name` among the pairs of name and value.
pub fn find_cookie(cookies: &Vec<(String, String)>, name: &str) -> (r: Option<usize>)
    ensures
        match r {
            Some(i) => first_named(cookies@, name@) == Some(i as int) && i < cookies@.len()
                && cookies@[i as int].0@ == name@ && forall|j: int|
                0 <= j < i ==> (#[trigger] cookies@[j]).0@ != name@,
            None => first_named(cookies@, name@) is None,
        },
{
    let mut i: usize = 0;
    while i < cookies.len()
        invariant
            0 <= i <= cookies@.len(),
            forall|j: int| 0 <= j < i ==> (#[trigger] cookies@[j]).0@ != name@,
        decreases cookies@.len() - i,
    {
        if same_text(cookies[i].0.as_str(), name) {
            proof {
                let k = first_named(cookies@, name@)->0;
                assert(cookies@[i as int].0@ == name@);
                if k < i {
                    assert(cookies@[k].0@ != name@);
                }
                if i < k {
                    assert(cookies@[i as int].0@ != name@);
                }
            }
            return Some(i);
        }
        i = i + 1;
    }
    None
}

/// The nickname that a visitor's cookies remember: the decoded value of the
/// first cookie named `nickname`, if there is one.
pub fn nickname_from_cookies(cookies: &Vec<(String, String)>) -> (r: Option<String>)
    ensures
        match (r, first_named(cookies@, NICKNAME_COOKIE@)) {
            (Some(nickname), Some(i)) => nickname@ == percent_decoded(cookies@[i].1@),
            (None, None) => true,
            _ => false,
        },
{
    match find_cookie(cookies, NICKNAME_COOKIE) {
        Some(i) => Some(percent_decode_lossy(cookies[i].1.as_str())),
        None => None,
    }
}

/// The content type under which the asset at `path` is served.
pub fn content_type(path: &str) -> (r: &'static str)
    ensures
        r@ == content_type_of(path@),
{
    if ends_with(path, ".css") {
        "text/css"
    } else if ends_with(path, ".js") {
        "application/javascript"
    } else if ends_with(path, ".ico") {
        "image/vnd.microsoft.icon"
    } else {
        "application/octet-stream"
    }
}

/// The line of the home page that tells where the rooms are; `host` is what
/// the request named as its host.
pub fn home_notice(host: Option<&str>) -> (r: String)
    ensures
        r@ == home_notice_text(
            match host {
                Some(h) => Some(h@),
                None => None,
            },
        ),
{
    let mut out = String::from_str("Go to http://");
    match host {
        Some(h) => out.append(h),
        None => out.append("<server>"),
    }
    out.append("/<room_name> to access a chat room.");
    out
}

} // verus!
