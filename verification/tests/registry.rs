use reconscan::action::modules;
use reconscan::modules::{
    http_modules, subdomain_modules, HttpCheck, HttpModule, Module, SubdomainModule,
    SubdomainSource,
};
use reconscan::modules::http::{HttpFindings, HttpReply, ScanStep};

#[test]
fn the_registry_of_discovery_modules() {
    let modules = subdomain_modules();
    assert_eq!(modules.len(), 2);
    assert!(matches!(modules[0], SubdomainSource::CrtSh(_)));
    assert!(matches!(modules[1], SubdomainSource::WebArchive(_)));
    let names: Vec<String> = modules.iter().map(|m| m.name()).collect();
    assert_eq!(names, vec!["subdomain/crtsh", "subdomain/webarchive"]);
}

#[test]
fn the_registry_of_checks() {
    let modules = http_modules().unwrap();
    assert_eq!(modules.len(), 4);
    assert!(matches!(modules[0], HttpCheck::DirectoryListing(_)));
    assert!(matches!(modules[1], HttpCheck::DotEnvDisclosure(_)));
    assert!(matches!(modules[2], HttpCheck::GitConfigLeakage(_)));
    assert!(matches!(modules[3], HttpCheck::GitHeadLeakage(_)));
    let names: Vec<String> = modules.iter().map(|m| m.name()).collect();
    assert_eq!(
        names,
        vec![
            "http/directory_listing",
            "http/dotenv_disclosure",
            "http/git_config_leakage",
            "http/git_head_leakage",
        ]
    );
}

#[test]
fn a_registered_source_answers_as_its_module() {
    let modules = subdomain_modules();
    assert_eq!(modules[0].query("example.com"), "https://crt.sh/?q=%25.example.com&output=json");
    assert_eq!(modules[0].description(), "Use crt.sh to enumerate subdomains");
    let records = vec![vec!["B.example.com\nexample.com".to_string()]];
    assert_eq!(
        modules[0].enumerate("example.com", 200, Some(records)),
        Ok(vec!["b.example.com".to_string()])
    );
    let records = vec![vec!["original".to_string()], vec!["http://w.example.com/".to_string()]];
    assert_eq!(
        modules[1].enumerate("example.com", 200, Some(records)),
        Ok(vec!["w.example.com".to_string()])
    );
    assert_eq!(modules[1].description(), "Use web.archive.org to enumerate subdomains");
}

#[test]
fn a_registered_check_answers_as_its_module() {
    let modules = http_modules().unwrap();
    let listing = vec![Some(HttpReply {
        status: 200,
        content_length: None,
        content_type: None,
        body: Some("Index of /".to_string()),
    })];
    let steps: Vec<ScanStep> = modules.iter().map(|m| m.scan("h:443", &listing)).collect();
    assert_eq!(
        steps,
        vec![
            ScanStep::Done(Some(HttpFindings::DirectoryListing("https://h:443/".to_string()))),
            ScanStep::Done(Some(HttpFindings::DotEnvDisclosure("https://h:443/.env".to_string()))),
            ScanStep::Fetch("http://h:443/.git/config".to_string()),
            ScanStep::Fetch("http://h:443/.git/HEAD".to_string()),
        ]
    );
    let wanted: Vec<bool> = modules.iter().map(|m| m.wants_body(200)).collect();
    assert_eq!(wanted, vec![true, false, true, true]);
}

#[test]
fn the_listing_of_the_modules() {
    assert_eq!(
        modules().unwrap(),
        vec![
            "Subdomain Modules",
            "\tsubdomain/crtsh: Use crt.sh to enumerate subdomains",
            "\tsubdomain/webarchive: Use web.archive.org to enumerate subdomains",
            "HTTP Modules",
            "\thttp/directory_listing: Check if directory listing is publicly accessible",
            "\thttp/dotenv_disclosure: Check if .env is publicly accessible",
            "\thttp/git_config_leakage: Check if .git/config is publicly accessible",
            "\thttp/git_head_leakage: Check if .git/head is publicly accessible",
        ]
    );
}
