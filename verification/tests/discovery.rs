use reconscan::modules::subdomain::{flatten, CrtSh, WebArchive};
use reconscan::modules::{EnumerateError, Module, SubdomainModule};

fn rows(cells: &[&[&str]]) -> Vec<Vec<String>> {
    cells.iter().map(|row| row.iter().map(|c| c.to_string()).collect()).collect()
}

fn strings(names: &[&str]) -> Vec<String> {
    names.iter().map(|n| n.to_string()).collect()
}

#[test]
fn crtsh_asks_for_every_certificate_under_the_domain() {
    assert_eq!(CrtSh::new().query("example.com"), "https://crt.sh/?q=%25.example.com&output=json");
    assert_eq!(CrtSh::new().query(""), "https://crt.sh/?q=%25.&output=json");
}

#[test]
fn crtsh_reads_one_name_per_line() {
    let records = rows(&[
        &["www.example.com\napi.example.com"],
        &["  Mail.Example.COM \n*.example.com\nexample.com"],
        &["api.example.com"],
    ]);
    let names = CrtSh::new().enumerate("example.com", 200, Some(records));
    assert_eq!(
        names,
        Ok(strings(&["api.example.com", "mail.example.com", "www.example.com"]))
    );
}

#[test]
fn crtsh_drops_wildcards_and_the_domain_itself() {
    let records = rows(&[&["*.example.com"], &["example.com"], &["a.*.example.com"]]);
    assert_eq!(CrtSh::new().enumerate("example.com", 200, Some(records)), Ok(Vec::new()));
}

#[test]
fn crtsh_keeps_an_empty_line_as_the_empty_name() {
    let records = rows(&[&["b.example.com\n\na.example.com\n"]]);
    assert_eq!(
        CrtSh::new().enumerate("example.com", 200, Some(records)),
        Ok(strings(&["", "a.example.com", "b.example.com"]))
    );
}

#[test]
fn crtsh_names_keep_order_and_duplicates() {
    let fields = strings(&["B.example.com\na.example.com", "*.x", " b.example.com\t"]);
    assert_eq!(
        CrtSh::names(&fields),
        strings(&["b.example.com", "a.example.com", "*.x", "b.example.com"])
    );
}

#[test]
fn crtsh_fails_on_a_bad_status() {
    let records = rows(&[&["www.example.com"]]);
    assert_eq!(
        CrtSh::new().enumerate("example.com", 503, Some(records)),
        Err(EnumerateError::Status(503))
    );
    assert_eq!(CrtSh::new().enumerate("example.com", 404, None), Err(EnumerateError::Status(404)));
}

#[test]
fn crtsh_fails_on_an_unreadable_body() {
    assert_eq!(CrtSh::new().enumerate("example.com", 200, None), Err(EnumerateError::Parse));
}

#[test]
fn crtsh_answers_no_names_for_no_records() {
    assert_eq!(CrtSh::new().enumerate("example.com", 200, Some(Vec::new())), Ok(Vec::new()));
}

#[test]
fn webarchive_asks_for_the_addresses_under_the_domain() {
    assert_eq!(
        WebArchive::new().query("example.com"),
        "https://web.archive.org/cdx/search/cdx?matchType=domain&fl=original&output=json&collapse=urlkey&url=example.com"
    );
}

#[test]
fn webarchive_reads_the_host_of_each_address() {
    let records = rows(&[
        &["original"],
        &["http://www.example.com/index.html"],
        &["https://API.Example.com:8443/v1?x=1"],
        &["not an address"],
        &["http://example.com/"],
        &["https://www.example.com/about"],
        &["mailto:admin@example.com"],
    ]);
    assert_eq!(
        WebArchive::new().enumerate("example.com", 200, Some(records)),
        Ok(strings(&["api.example.com", "www.example.com"]))
    );
}

#[test]
fn webarchive_skips_the_heading_whatever_it_holds() {
    let records = rows(&[&["http://heading.example.com/"], &["http://a.example.com/"]]);
    assert_eq!(
        WebArchive::new().enumerate("example.com", 200, Some(records)),
        Ok(strings(&["a.example.com"]))
    );
}

#[test]
fn webarchive_reads_every_field_of_a_row() {
    let records = rows(&[&["original"], &["http://b.example.com/", "http://a.example.com/"]]);
    assert_eq!(
        WebArchive::new().enumerate("example.com", 200, Some(records)),
        Ok(strings(&["a.example.com", "b.example.com"]))
    );
}

#[test]
fn webarchive_hosts_keep_order_and_duplicates() {
    let addresses = strings(&[
        "https://B.example.com/x",
        "nonsense",
        "http://a.example.com",
        "ftp://b.example.com/file",
        "data:text/plain,hello",
    ]);
    assert_eq!(
        WebArchive::hosts(&addresses),
        strings(&["b.example.com", "a.example.com", "b.example.com"])
    );
}

#[test]
fn webarchive_leaves_wildcard_hosts_out() {
    let records = rows(&[
        &["original"],
        &["http://*.example.com/"],
        &["https://a.*.example.com/x"],
        &["http://w.example.com/"],
    ]);
    assert_eq!(
        WebArchive::hosts(&flatten(&records, 1)),
        strings(&["*.example.com", "a.*.example.com", "w.example.com"])
    );
    let names = WebArchive::new().enumerate("example.com", 200, Some(records)).unwrap();
    assert_eq!(names, strings(&["w.example.com"]));
    assert!(names.iter().all(|n| !n.contains('*')));
}

#[test]
fn webarchive_tells_the_addresses_that_are_no_urls() {
    let records = rows(&[
        &["not read, being the heading"],
        &["http://a.example.com/", "nonsense"],
        &["mailto:admin@example.com"],
        &["//no.scheme.example.com/", "https://b.example.com/"],
    ]);
    assert_eq!(
        WebArchive::unreadable(&records),
        strings(&["nonsense", "//no.scheme.example.com/"])
    );
    assert_eq!(WebArchive::unreadable(&Vec::new()), Vec::<String>::new());
}

#[test]
fn webarchive_fails_on_a_bad_status_or_body() {
    assert_eq!(
        WebArchive::new().enumerate("example.com", 429, Some(Vec::new())),
        Err(EnumerateError::Status(429))
    );
    assert_eq!(WebArchive::new().enumerate("example.com", 200, None), Err(EnumerateError::Parse));
}

#[test]
fn webarchive_answers_no_names_for_an_empty_answer() {
    assert_eq!(WebArchive::new().enumerate("example.com", 200, Some(Vec::new())), Ok(Vec::new()));
    let only_heading = rows(&[&["original"]]);
    assert_eq!(WebArchive::new().enumerate("example.com", 200, Some(only_heading)), Ok(Vec::new()));
}

#[test]
fn flatten_walks_the_rows_from_a_position() {
    let records = rows(&[&["a", "b"], &[], &["c"]]);
    assert_eq!(flatten(&records, 0), strings(&["a", "b", "c"]));
    assert_eq!(flatten(&records, 1), strings(&["c"]));
    assert_eq!(flatten(&records, 3), Vec::<String>::new());
    assert_eq!(flatten(&records, 9), Vec::<String>::new());
}

#[test]
fn discovery_modules_describe_themselves() {
    assert_eq!(CrtSh::new().name(), "subdomain/crtsh");
    assert_eq!(CrtSh::new().description(), "Use crt.sh to enumerate subdomains");
    assert_eq!(WebArchive::new().name(), "subdomain/webarchive");
    assert_eq!(WebArchive::new().description(), "Use web.archive.org to enumerate subdomains");
}
