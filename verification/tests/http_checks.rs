use reconscan::modules::http::{
    next_step, scan_bodies, target, DirectoryListing, DotEnvDisclosure, FindingKind,
    GitConfigLeakage, GitHeadLeakage, HttpFindings, HttpReply, PatternError, PatternSet, ScanStep,
};
use reconscan::modules::{is_success, HttpModule, Module};

const ENDPOINT: &str = "127.0.0.1:8080";

fn page(status: u16, body: &str) -> Option<HttpReply> {
    Some(HttpReply {
        status,
        content_length: Some(body.len() as u64),
        content_type: None,
        body: Some(body.to_string()),
    })
}

fn head(status: u16, content_type: Option<&str>, length: Option<u64>) -> Option<HttpReply> {
    Some(HttpReply {
        status,
        content_length: length,
        content_type: content_type.map(|t| t.as_bytes().to_vec()),
        body: None,
    })
}

#[test]
fn directory_listing_test_scan_should_return_some_when_pattern_matched() {
    let module = DirectoryListing::new().unwrap();
    let replies = vec![page(200, "<html><body>Index of /</body></html>")];

    let result = module.scan(ENDPOINT, &replies);

    assert!(matches!(result, ScanStep::Done(Some(_))));
    if let ScanStep::Done(Some(HttpFindings::DirectoryListing(url))) = result {
        assert_eq!(url, format!("https://{}/", ENDPOINT));
    } else {
        panic!("a directory listing was expected");
    }
}

#[test]
fn directory_listing_test_scan_should_return_none_when_pattern_unmatched() {
    let module = DirectoryListing::new().unwrap();

    let replies = vec![page(404, ""), page(404, "")];
    let result = module.scan(ENDPOINT, &replies);
    assert_eq!(result, ScanStep::Done(None), "Should return None when server returns 404");

    let replies = vec![page(200, "Any response body"), page(200, "Any response body")];
    let result = module.scan(ENDPOINT, &replies);
    assert_eq!(
        result,
        ScanStep::Done(None),
        "Should return None when response body doesn't contain directory listing"
    );
}

#[test]
fn dotenv_disclosure_test_scan_should_return_some_when_pattern_matched() {
    let module = DotEnvDisclosure::new();
    let body = "DB_PASSWORD=123456";
    let replies = vec![head(200, Some("text/plain"), Some(body.len() as u64))];

    let result = module.scan(ENDPOINT, &replies);

    assert!(matches!(result, ScanStep::Done(Some(_))), "Should return Some when pattern matched");
    if let ScanStep::Done(Some(HttpFindings::DotEnvDisclosure(url))) = result {
        assert_eq!(url, format!("https://{}/.env", ENDPOINT));
    } else {
        panic!("a disclosed .env was expected");
    }
}

#[test]
fn dotenv_disclosure_test_scan_should_return_none_when_pattern_unmatched() {
    let module = DotEnvDisclosure::new();

    let replies = vec![head(404, None, None), head(404, None, None)];
    let result = module.scan(ENDPOINT, &replies);
    assert_eq!(result, ScanStep::Done(None), "Should return None when server returns 404");

    let soft = "<html><body>Page Not Found but 200 OK</body></html>";
    let replies = vec![
        head(200, Some("text/html"), Some(soft.len() as u64)),
        head(200, Some("text/html"), Some(soft.len() as u64)),
    ];
    let result = module.scan(ENDPOINT, &replies);
    assert_eq!(
        result,
        ScanStep::Done(None),
        "Should return None when server returns 2xx with wrong MIME Type"
    );

    let large = "Honeypot".repeat(2000);
    let replies = vec![
        head(200, Some("text/plain"), Some(large.len() as u64)),
        head(200, Some("text/plain"), Some(large.len() as u64)),
    ];
    let result = module.scan(ENDPOINT, &replies);
    assert_eq!(
        result,
        ScanStep::Done(None),
        "Should return None when server returns 2xx with large response body"
    );
}

#[test]
fn git_config_leakage_test_scan_should_return_some_when_pattern_matched() {
    let module = GitConfigLeakage::new().unwrap();
    let body = r#"
                    [core]
                        bare = false
                        repositoryformatversion = 0
                        filemode = true
                        ignorecase = true
                        precomposeunicode = true
                        logallrefupdates = true
                    [branch "master"]
                        gk-last-accessed = 2025-12-17T02:06:48.391Z"#;
    let replies = vec![page(200, body)];

    let result = module.scan(ENDPOINT, &replies);

    assert!(matches!(result, ScanStep::Done(Some(_))), "Should return Some when pattern matched");
    if let ScanStep::Done(Some(HttpFindings::GitConfigLeakage(url))) = result {
        assert_eq!(url, format!("https://{}/.git/config", ENDPOINT));
    } else {
        panic!("a leaked git configuration was expected");
    }
}

#[test]
fn git_config_leakage_test_scan_should_return_none_when_pattern_unmatched() {
    let module = GitConfigLeakage::new().unwrap();

    let replies = vec![page(404, ""), page(404, "")];
    let result = module.scan(ENDPOINT, &replies);
    assert_eq!(result, ScanStep::Done(None), "Should return None when server returns 404");

    let soft = "<html><body>Page Not Found but 200 OK</body></html>";
    let replies = vec![page(200, soft), page(200, soft)];
    let result = module.scan(ENDPOINT, &replies);
    assert_eq!(
        result,
        ScanStep::Done(None),
        "Should return None when server returns 2xx with wrong response body"
    );
}

#[test]
fn git_head_leakage_test_scan_should_return_some_when_pattern_matched() {
    let module = GitHeadLeakage::new().unwrap();
    let replies = vec![page(200, "ref: refs/heads/master")];

    let result = module.scan(ENDPOINT, &replies);

    assert!(matches!(result, ScanStep::Done(Some(_))), "Should return Some when pattern matched");
    if let ScanStep::Done(Some(HttpFindings::GitHeadLeakage(url))) = result {
        assert_eq!(url, format!("https://{}/.git/HEAD", ENDPOINT));
    } else {
        panic!("a leaked git HEAD was expected");
    }
}

#[test]
fn git_head_leakage_test_scan_should_return_none_when_pattern_unmatched() {
    let module = GitHeadLeakage::new().unwrap();

    let replies = vec![page(404, ""), page(404, "")];
    let result = module.scan(ENDPOINT, &replies);
    assert_eq!(result, ScanStep::Done(None), "Should return None when server returns 404");

    let soft = "<html><body>Page Not Found but 200 OK</body></html>";
    let replies = vec![page(200, soft), page(200, soft)];
    let result = module.scan(ENDPOINT, &replies);
    assert_eq!(
        result,
        ScanStep::Done(None),
        "Should return None when server returns 2xx with wrong response body"
    );
}

#[test]
fn the_marks_of_every_check_compile() {
    assert!(DirectoryListing::new().is_ok());
    assert!(GitConfigLeakage::new().is_ok());
    assert!(GitHeadLeakage::new().is_ok());
    assert_eq!(DirectoryListing::patterns().len(), 5);
    assert_eq!(GitConfigLeakage::patterns(), vec![r#"\[branch\s+"[^"]+"\]"#]);
    assert_eq!(GitHeadLeakage::patterns(), vec![r"^ref: refs/heads/", r"^[0-9a-f]{40}$"]);
}

#[test]
fn a_pattern_set_compiles_or_names_the_failure() {
    assert!(PatternSet::compile(&vec!["a+", "b*"]).is_ok());
    assert!(PatternSet::compile(&Vec::new()).is_ok());
    assert_eq!(PatternSet::compile(&vec!["a+", "(unclosed"]).err(), Some(PatternError));
}

#[test]
fn a_pattern_set_judges_a_reply_by_status_and_body() {
    let marks = PatternSet::compile(&vec!["^secret", "key=\\d+"]).unwrap();
    assert!(marks.exposes(page(200, "secret stuff").as_ref().unwrap()));
    assert!(marks.exposes(page(204, "my key=42").as_ref().unwrap()));
    assert!(!marks.exposes(page(200, "no such thing").as_ref().unwrap()));
    assert!(!marks.exposes(page(404, "secret stuff").as_ref().unwrap()));
    assert!(!marks.exposes(head(200, None, None).as_ref().unwrap()));
    let replies = vec![page(200, "secret"), None, page(500, "secret"), page(200, "x")];
    assert_eq!(marks.flags(&replies), vec![true, false, false, false]);
    assert_eq!(
        scan_bodies(FindingKind::GitHeadLeakage, "/p", &marks, "h:1", &replies),
        ScanStep::Done(Some(HttpFindings::GitHeadLeakage("https://h:1/p".to_string())))
    );
}

#[test]
fn scan_starts_with_the_https_address() {
    let none: Vec<Option<HttpReply>> = Vec::new();
    assert_eq!(
        DirectoryListing::new().unwrap().scan("host:443", &none),
        ScanStep::Fetch("https://host:443/".to_string())
    );
    assert_eq!(
        DotEnvDisclosure::new().scan("host:443", &none),
        ScanStep::Fetch("https://host:443/.env".to_string())
    );
    assert_eq!(
        GitConfigLeakage::new().unwrap().scan("host:443", &none),
        ScanStep::Fetch("https://host:443/.git/config".to_string())
    );
    assert_eq!(
        GitHeadLeakage::new().unwrap().scan("host:443", &none),
        ScanStep::Fetch("https://host:443/.git/HEAD".to_string())
    );
}

#[test]
fn scan_falls_back_to_http_after_a_failed_request() {
    let module = GitHeadLeakage::new().unwrap();
    let replies = vec![None];
    assert_eq!(
        module.scan("host:80", &replies),
        ScanStep::Fetch("http://host:80/.git/HEAD".to_string())
    );

    let replies = vec![None, page(200, "ref: refs/heads/main\n")];
    assert_eq!(
        module.scan("host:80", &replies),
        ScanStep::Done(Some(HttpFindings::GitHeadLeakage("http://host:80/.git/HEAD".to_string())))
    );
}

#[test]
fn scan_reports_the_first_address_that_shows_the_weakness() {
    let module = DirectoryListing::new().unwrap();
    let replies = vec![page(200, "Index of /"), page(200, "Index of /")];
    assert_eq!(
        module.scan("host:8443", &replies),
        ScanStep::Done(Some(HttpFindings::DirectoryListing("https://host:8443/".to_string())))
    );
}

#[test]
fn scan_ends_without_finding_when_both_requests_failed() {
    let replies: Vec<Option<HttpReply>> = vec![None, None];
    assert_eq!(DirectoryListing::new().unwrap().scan(ENDPOINT, &replies), ScanStep::Done(None));
    assert_eq!(DotEnvDisclosure::new().scan(ENDPOINT, &replies), ScanStep::Done(None));
}

#[test]
fn scan_ignores_a_body_that_could_not_be_read() {
    let unread = Some(HttpReply {
        status: 200,
        content_length: None,
        content_type: None,
        body: None,
    });
    let replies = vec![unread];
    assert_eq!(
        GitConfigLeakage::new().unwrap().scan("h:80", &replies),
        ScanStep::Fetch("http://h:80/.git/config".to_string())
    );
}

#[test]
fn directory_listing_patterns_match_without_regard_to_case() {
    let module = DirectoryListing::new().unwrap();
    for body in [
        "<title>index of /pub</title>",
        "Directory Listing - /files",
        "directory listing for /app",
        "<a href=\"..\">PARENT DIRECTORY</a>",
        "<A HREF=\"/up/\">[To Parent Directory]</A>",
    ] {
        let replies = vec![page(200, body)];
        let step = module.scan("h:443", &replies);
        assert_eq!(
            step,
            ScanStep::Done(Some(HttpFindings::DirectoryListing("https://h:443/".to_string()))),
            "{}",
            body
        );
    }
}

#[test]
fn git_head_patterns_are_anchored() {
    let module = GitHeadLeakage::new().unwrap();
    let hash = "0123456789abcdef0123456789abcdef01234567";
    let replies = vec![page(200, hash)];
    assert!(matches!(module.scan("h:443", &replies), ScanStep::Done(Some(_))));

    let replies = vec![page(200, "see ref: refs/heads/main"), page(200, "0123456789abcdef")];
    assert_eq!(module.scan("h:443", &replies), ScanStep::Done(None));
}

#[test]
fn dotenv_accepts_a_reply_without_length_or_content_type() {
    let module = DotEnvDisclosure::new();
    let replies = vec![head(204, None, None)];
    assert_eq!(
        module.scan("h:443", &replies),
        ScanStep::Done(Some(HttpFindings::DotEnvDisclosure("https://h:443/.env".to_string())))
    );
}

#[test]
fn dotenv_length_limit_is_ten_thousand_bytes() {
    let module = DotEnvDisclosure::new();
    assert_eq!(reconscan::modules::http::dotenv_disclosure::MAX_LENGTH, 10_000);

    let replies = vec![head(200, Some("text/plain"), Some(12))];
    assert!(matches!(module.scan("h:443", &replies), ScanStep::Done(Some(_))));

    let replies = vec![head(200, Some("text/plain"), Some(10_000))];
    assert!(matches!(module.scan("h:443", &replies), ScanStep::Done(Some(_))));

    let replies = vec![head(200, Some("text/plain"), Some(10_001))];
    assert_eq!(
        module.scan("h:443", &replies),
        ScanStep::Fetch("http://h:443/.env".to_string())
    );

    let replies = vec![head(200, Some("text/plain"), Some(15_000))];
    assert_eq!(
        module.scan("h:443", &replies),
        ScanStep::Fetch("http://h:443/.env".to_string())
    );
}

#[test]
fn dotenv_content_type_must_be_exactly_text_plain() {
    for value in ["text/plain; charset=utf-8", "TEXT/PLAIN", "", "text/plai", "text/plainn"] {
        let reply = head(200, Some(value), Some(5));
        assert!(!DotEnvDisclosure::exposes(reply.as_ref().unwrap()), "{:?}", value);
    }
    let reply = head(200, Some("text/plain"), Some(5));
    assert!(DotEnvDisclosure::exposes(reply.as_ref().unwrap()));
    let bytes = Some(HttpReply {
        status: 200,
        content_length: None,
        content_type: Some(vec![0xff, 0xfe]),
        body: None,
    });
    assert!(!DotEnvDisclosure::exposes(bytes.as_ref().unwrap()));
}

#[test]
fn only_regex_checks_want_the_body_of_a_success() {
    assert!(DirectoryListing::new().unwrap().wants_body(200));
    assert!(GitConfigLeakage::new().unwrap().wants_body(299));
    assert!(GitHeadLeakage::new().unwrap().wants_body(204));
    assert!(!DirectoryListing::new().unwrap().wants_body(404));
    assert!(!GitHeadLeakage::new().unwrap().wants_body(301));
    assert!(!DotEnvDisclosure::new().wants_body(200));
    assert!(!DotEnvDisclosure::new().wants_body(500));
}

#[test]
fn success_is_the_class_from_200_to_299() {
    assert!(!is_success(0));
    assert!(!is_success(199));
    assert!(is_success(200));
    assert!(is_success(204));
    assert!(is_success(299));
    assert!(!is_success(300));
    assert!(!is_success(404));
    assert!(!is_success(u16::MAX));
}

#[test]
fn next_step_walks_the_schemes_in_order() {
    let kind = FindingKind::GitHeadLeakage;
    assert_eq!(
        next_step(kind, "h:1", "/p", &vec![]),
        ScanStep::Fetch("https://h:1/p".to_string())
    );
    assert_eq!(
        next_step(kind, "h:1", "/p", &vec![false]),
        ScanStep::Fetch("http://h:1/p".to_string())
    );
    assert_eq!(next_step(kind, "h:1", "/p", &vec![false, false]), ScanStep::Done(None));
    assert_eq!(
        next_step(kind, "h:1", "/p", &vec![true]),
        ScanStep::Done(Some(HttpFindings::GitHeadLeakage("https://h:1/p".to_string())))
    );
    assert_eq!(
        next_step(kind, "h:1", "/p", &vec![false, true]),
        ScanStep::Done(Some(HttpFindings::GitHeadLeakage("http://h:1/p".to_string())))
    );
    assert_eq!(
        next_step(kind, "h:1", "/p", &vec![true, true, true]),
        ScanStep::Done(Some(HttpFindings::GitHeadLeakage("https://h:1/p".to_string())))
    );
    assert_eq!(next_step(kind, "h:1", "/p", &vec![false, false, true]), ScanStep::Done(None));
}

#[test]
fn target_joins_scheme_endpoint_and_path() {
    assert_eq!(target(0, "example.com:443", "/.env"), "https://example.com:443/.env");
    assert_eq!(target(1, "example.com:80", "/"), "http://example.com:80/");
    assert_eq!(target(7, "h:1", ""), "http://h:1");
}

#[test]
fn a_finding_knows_its_kind_and_address() {
    let kinds = [
        FindingKind::DotEnvDisclosure,
        FindingKind::DirectoryListing,
        FindingKind::GitConfigLeakage,
        FindingKind::GitHeadLeakage,
    ];
    for kind in kinds {
        let finding = HttpFindings::of(kind, "https://h/".to_string());
        assert_eq!(finding.kind(), kind);
        assert_eq!(finding.url(), "https://h/");
    }
    assert_eq!(
        HttpFindings::of(FindingKind::DotEnvDisclosure, "u".to_string()),
        HttpFindings::DotEnvDisclosure("u".to_string())
    );
    assert_eq!(
        format!("{:?}", HttpFindings::DirectoryListing("https://h/".to_string())),
        "DirectoryListing(\"https://h/\")"
    );
}

#[test]
fn http_modules_describe_themselves() {
    assert_eq!(DirectoryListing::new().unwrap().name(), "http/directory_listing");
    assert_eq!(
        DirectoryListing::new().unwrap().description(),
        "Check if directory listing is publicly accessible"
    );
    assert_eq!(DotEnvDisclosure::new().name(), "http/dotenv_disclosure");
    assert_eq!(DotEnvDisclosure::new().description(), "Check if .env is publicly accessible");
    assert_eq!(GitConfigLeakage::new().unwrap().name(), "http/git_config_leakage");
    assert_eq!(
        GitConfigLeakage::new().unwrap().description(),
        "Check if .git/config is publicly accessible"
    );
    assert_eq!(GitHeadLeakage::new().unwrap().name(), "http/git_head_leakage");
    assert_eq!(GitHeadLeakage::new().unwrap().description(), "Check if .git/head is publicly accessible");
}
