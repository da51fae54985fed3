use meowww::web::{
    content_type, cookie_value, find_cookie, home_notice, nickname_cookie, nickname_from_cookies,
    DEFAULT_ADDRESS, DEFAULT_HISTORY_SIZE, DEFAULT_THREADS, NICKNAME_COOKIE, SUBPROTOCOL,
};

fn cookies(pairs: &[(&str, &str)]) -> Vec<(String, String)> {
    pairs.iter().map(|(n, v)| (n.to_string(), v.to_string())).collect()
}

#[test]
fn defaults_are_those_of_the_command_line() {
    assert_eq!(DEFAULT_ADDRESS, "localhost:8000");
    assert_eq!(DEFAULT_HISTORY_SIZE, 1000);
    assert_eq!(DEFAULT_THREADS, 2);
    assert_eq!(SUBPROTOCOL, "meowww");
    assert_eq!(NICKNAME_COOKIE, "nickname");
}

#[test]
fn cookie_value_quotes_what_it_gets() {
    assert_eq!(cookie_value("bob"), "nickname=\"bob\"");
    assert_eq!(cookie_value(""), "nickname=\"\"");
}

#[test]
fn nickname_cookie_is_percent_encoded() {
    assert_eq!(nickname_cookie("bob"), "nickname=\"bob\"");
    assert_eq!(nickname_cookie("a b"), "nickname=\"a%20b\"");
    assert_eq!(nickname_cookie("a\"b;c=d"), "nickname=\"a%22b%3Bc%3Dd\"");
    assert_eq!(nickname_cookie("é"), "nickname=\"%C3%A9\"");
}

#[test]
fn find_cookie_returns_the_first_match() {
    let jar = cookies(&[("a", "1"), ("nickname", "x"), ("b", "2"), ("nickname", "y")]);
    assert_eq!(find_cookie(&jar, "nickname"), Some(1));
    assert_eq!(find_cookie(&jar, "a"), Some(0));
    assert_eq!(find_cookie(&jar, "b"), Some(2));
    assert_eq!(find_cookie(&jar, "c"), None);
    assert_eq!(find_cookie(&jar, "Nickname"), None);
    assert_eq!(find_cookie(&cookies(&[]), "nickname"), None);
}

#[test]
fn nickname_is_decoded_from_the_first_cookie() {
    let jar = cookies(&[("sid", "1"), ("nickname", "a%20b%C3%A9"), ("nickname", "other")]);
    assert_eq!(nickname_from_cookies(&jar), Some("a bé".to_string()));
}

#[test]
fn nickname_without_cookie_is_unknown() {
    assert_eq!(nickname_from_cookies(&cookies(&[("sid", "1")])), None);
    assert_eq!(nickname_from_cookies(&cookies(&[])), None);
}

#[test]
fn broken_escapes_are_decoded_lossily() {
    let jar = cookies(&[("nickname", "100%25 %zz %FF")]);
    assert_eq!(nickname_from_cookies(&jar), Some("100% %zz \u{fffd}".to_string()));
}

#[test]
fn cookie_survives_the_round_trip() {
    for nickname in ["bob", "a b", "x;y=\"z\"", "日本語", "100%"] {
        let header = nickname_cookie(nickname);
        let value = header.strip_prefix("nickname=\"").unwrap().strip_suffix('"').unwrap();
        let jar = cookies(&[("nickname", value)]);
        assert_eq!(nickname_from_cookies(&jar), Some(nickname.to_string()));
    }
}

#[test]
fn content_type_goes_by_the_extension() {
    assert_eq!(content_type("style.css"), "text/css");
    assert_eq!(content_type("client.js"), "application/javascript");
    assert_eq!(content_type("jquery.js"), "application/javascript");
    assert_eq!(content_type("meowww.ico"), "image/vnd.microsoft.icon");
    assert_eq!(content_type("readme.txt"), "application/octet-stream");
    assert_eq!(content_type(""), "application/octet-stream");
    assert_eq!(content_type("css"), "application/octet-stream");
    assert_eq!(content_type(".css"), "text/css");
    assert_eq!(content_type("a.css.js"), "application/javascript");
    assert_eq!(content_type("a.CSS"), "application/octet-stream");
}

#[test]
fn home_notice_names_the_host() {
    assert_eq!(
        home_notice(Some("example.org:8000")),
        "Go to http://example.org:8000/<room_name> to access a chat room."
    );
    assert_eq!(
        home_notice(None),
        "Go to http://<server>/<room_name> to access a chat room."
    );
}
