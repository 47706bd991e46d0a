use gitweb_release_downloader::pattern::{accept_compiled, Pattern};

#[test]
fn patterns_match_anywhere() {
    let pattern = Pattern::compile("linux.*amd64").unwrap();
    assert!(pattern.is_match("app-linux-gnu-amd64.tar.gz"));
    assert!(!pattern.is_match("app-windows-amd64.zip"));
    assert_eq!(pattern.as_str(), "linux.*amd64");
}

#[test]
fn patterns_can_be_anchored() {
    let pattern = Pattern::compile("^v1\\.").unwrap();
    assert!(pattern.is_match("v1.0"));
    assert!(!pattern.is_match("v10"));
    assert!(!pattern.is_match("xv1.0"));
}

#[test]
fn rejected_patterns_say_why() {
    let invalid = Pattern::compile("foo(bar").err().unwrap();
    assert_eq!(invalid.pattern, "foo(bar");
    assert!(matches!(invalid.reason, regex::Error::Syntax(_)));
    assert!(invalid.reason.to_string().contains("unclosed group"));
}

#[test]
fn oversized_patterns_are_rejected() {
    let invalid = Pattern::compile("\\w{1000}").err().unwrap();
    assert!(matches!(invalid.reason, regex::Error::CompiledTooBig(_)));
}

#[test]
fn results_of_compiling_are_handed_on() {
    let accepted = accept_compiled("x", Ok(Pattern::compile("abc").unwrap()));
    assert_eq!(accepted.unwrap().as_str(), "abc");
    let error = regex::Regex::new("[").unwrap_err();
    let rejected = accept_compiled("[", Err(error.clone())).err().unwrap();
    assert_eq!(rejected.pattern, "[");
    assert_eq!(rejected.reason, error);
}
