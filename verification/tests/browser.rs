use ytkew::browser::{cookie_header, find_cookies, wanted};

fn rows(pairs: &[(&str, &str)]) -> Vec<(String, String)> {
    pairs.iter().map(|(n, v)| (n.to_string(), v.to_string())).collect()
}

#[test]
fn only_auth_cookies_are_collected() {
    let w = wanted();
    assert!(w.contains(&"SAPISID"));
    assert!(!w.contains(&"NID"), "NID is an ads cookie, not auth");
    let mut sorted = w.to_vec();
    sorted.sort_unstable();
    let before = sorted.len();
    sorted.dedup();
    assert_eq!(sorted.len(), before, "duplicate entry in WANTED");
}

#[test]
fn profile_discovery_never_panics_without_a_browser() {
    let r = find_cookies(Vec::new());
    assert_eq!(
        r.err().unwrap(),
        "no Firefox profile found -- use `ytkew --auth cookie` to paste a header instead"
    );
}

#[test]
fn the_header_keeps_wanted_cookies_in_order_with_a_trailing_semicolon() {
    let r = cookie_header(&rows(&[
        ("SID", "s1"),
        ("NID", "ads"),
        ("SAPISID", "abc"),
        ("HSID", "h"),
        ("SID", "later"),
        ("PREF", ""),
    ]))
    .unwrap();
    assert_eq!(r.0, "HSID=h; SAPISID=abc; SID=s1;");
    assert_eq!(r.1, vec!["HSID".to_string(), "SAPISID".to_string(), "SID".to_string()]);
}

#[test]
fn without_sapisid_the_profile_is_not_signed_in() {
    let e = cookie_header(&rows(&[("SID", "x"), ("SAPISID", "")])).unwrap_err();
    assert_eq!(e, "no SAPISID cookie -- not signed in to YouTube in this profile");
}

#[test]
fn the_first_profile_that_works_wins() {
    let attempts = vec![
        ("/p/old".to_string(), Err("no SAPISID cookie".to_string())),
        ("/p/main".to_string(), Ok(("SAPISID=a;".to_string(), vec!["SAPISID".to_string()]))),
        ("/p/other".to_string(), Ok(("SAPISID=b;".to_string(), vec!["SAPISID".to_string()]))),
    ];
    let f = find_cookies(attempts).unwrap();
    assert_eq!(f.profile, "/p/main");
    assert_eq!(f.header, "SAPISID=a;");
    assert_eq!(f.names, vec!["SAPISID".to_string()]);
}

#[test]
fn when_every_profile_fails_the_last_reason_is_given() {
    let attempts = vec![
        ("/p/a".to_string(), Err("first".to_string())),
        ("/p/b".to_string(), Err("copying the cookie store".to_string())),
    ];
    let e = find_cookies(attempts).err().unwrap();
    assert_eq!(
        e,
        "no signed-in YouTube Music session in any Firefox profile (/p/b: copying the cookie store)"
    );
}
