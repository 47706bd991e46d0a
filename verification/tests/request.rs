use gitweb_release_downloader::request::{
    get_content_length, invalid_header, request_headers, split_header, USERAGENT,
};

fn pair(name: &str, value: &str) -> (String, String) {
    (name.to_string(), value.to_string())
}

#[test]
fn headers_split_at_the_first_colon() {
    assert_eq!(split_header("Accept: text"), Some(pair("Accept", " text")));
    assert_eq!(split_header("a:b:c"), Some(pair("a", "b:c")));
    assert_eq!(split_header(":"), Some(pair("", "")));
    assert_eq!(split_header("no colon"), None);
    assert_eq!(split_header(""), None);
}

#[test]
fn requests_name_the_user_agent_first() {
    assert_eq!(USERAGENT, "gitweb-release-downloader");
    assert_eq!(
        request_headers(&["A: 1".to_string(), "B:2".to_string()]),
        Ok(vec![
            pair("user-agent", "gitweb-release-downloader"),
            pair("A", " 1"),
            pair("B", "2"),
        ])
    );
    assert_eq!(
        request_headers(&[]),
        Ok(vec![pair("user-agent", "gitweb-release-downloader")])
    );
}

#[test]
fn first_invalid_header_is_told() {
    assert_eq!(
        request_headers(&["A: 1".to_string(), "bad".to_string(), "worse".to_string()]),
        Err("Http header \"bad\" has invalid format, must be: \"header-name: header-value\""
            .to_string())
    );
    assert_eq!(
        invalid_header("x"),
        "Http header \"x\" has invalid format, must be: \"header-name: header-value\""
    );
}

#[test]
fn content_lengths() {
    assert_eq!(get_content_length(Some("1048576")), Some(1048576));
    assert_eq!(get_content_length(Some("0")), Some(0));
    assert_eq!(get_content_length(Some("-1")), None);
    assert_eq!(get_content_length(Some("many")), None);
    assert_eq!(get_content_length(None), None);
    let largest = usize::MAX.to_string();
    assert_eq!(get_content_length(Some(largest.as_str())), Some(usize::MAX));
}
