use rab::target::LenientUrl;
use std::str::FromStr;

#[test]
fn test_lenient_url_from_str() {
    assert_eq!(
        "http",
        LenientUrl::from_str("localhost").unwrap().0.scheme()
    );
    assert_eq!(
        "localhost",
        LenientUrl::from_str("localhost")
            .unwrap()
            .0
            .host_str()
            .unwrap()
    );
}

#[test]
fn lenient_url_keeps_a_scheme_that_is_named() {
    let url = LenientUrl::from_str("https://example.com/a").unwrap().0;
    assert_eq!("https", url.scheme());
    assert_eq!("https://example.com/a", url.as_str());
    let url = LenientUrl::from_str("http://example.com:8080").unwrap().0;
    assert_eq!("http://example.com:8080/", url.as_str());
}

#[test]
fn lenient_url_puts_http_before_anything_else() {
    let url = LenientUrl::from_str("localhost:8080/x").unwrap().0;
    assert_eq!("http://localhost:8080/x", url.as_str());
    let url = LenientUrl::from_str("ftp://example.com").unwrap().0;
    assert_eq!("http", url.scheme());
    assert_eq!(Some("ftp"), url.host_str());
    let url = LenientUrl::from_str("HTTP://example.com").unwrap().0;
    assert_eq!(Some("http"), url.host_str());
    let url = LenientUrl::from_str("http:/").unwrap().0;
    assert_eq!(Some("http"), url.host_str());
}

#[test]
fn lenient_url_says_when_the_text_is_no_url() {
    assert_eq!("invalid URL", LenientUrl::from_str("").err().unwrap());
    assert_eq!(
        "invalid URL",
        LenientUrl::from_str("http://").err().unwrap()
    );
    assert_eq!(
        "invalid URL",
        LenientUrl::from_str("exa mple.com").err().unwrap()
    );
}

#[test]
fn lenient_url_parses_as_it_is_made_from_a_string() {
    for text in ["localhost", "https://example.com/a?b", "", "exa mple.com"] {
        let parsed = LenientUrl::parse(text).map(|url| url.0.to_string());
        let made = text.parse::<LenientUrl>().map(|url| url.0.to_string());
        assert_eq!(parsed, made);
    }
    assert_eq!(
        Ok("http://localhost/".to_owned()),
        LenientUrl::parse("localhost").map(|url| url.0.to_string())
    );
}
