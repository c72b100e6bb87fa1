//! The contracts that every module meets, and the two registries.
//!
//! A module never touches the network: it says what to ask for and judges
//! the answer that it is handed.
pub mod http;
pub mod subdomain;

use vstd::prelude::*;
use crate::modules::http::directory_listing::listing_patterns;
use crate::modules::http::git_config_leakage::config_patterns;
use crate::modules::http::git_head_leakage::head_patterns;
use crate::modules::http::{
    compiles, step_from, DirectoryListing, DotEnvDisclosure, FindingKind, GitConfigLeakage,
    GitHeadLeakage, HttpReply, PatternError, ScanStep,
};
use crate::modules::subdomain::{CrtSh, WebArchive};
use crate::names::{ascending, is_wildcard, lemma_ascending_unique, texts};

verus! {

/// Static metadata of a module.
pub trait Module {
    /// The module's name.
    spec fn name_text(&self) -> Seq<char>;

    /// One line on what the module does.
    spec fn description_text(&self) -> Seq<char>;

    /// The module's name.
    fn name(&self) -> (r: String)
        ensures
            r@ == self.name_text(),
    ;

    /// One line on what the module does.
    fn description(&self) -> (r: String)
        ensures
            r@ == self.description_text(),
    ;
}

/// Whether an HTTP status code is in the success class, 200 to 299.
pub open spec fn is_success_code(status: u16) -> bool {
    200 <= status < 300
}

/// Whether an HTTP status code is in the success class, 200 to 299.
pub fn is_success(status: u16) -> (r: bool)
    ensures
        r == is_success_code(status),
{
    200 <= status && status < 300
}

/// Why a discovery module could not read names from a service's answer.
#[derive(Debug, Clone, Copy, PartialEq, Eq)]
pub enum EnumerateError {
    /// The service answered with this status, outside the success class.
    Status(u16),
    /// The answer's body did not have the expected shape.
    Parse,
}

/// What `enumerate` owes for an answer with this status and these records,
/// where `candidates` are the names that the module reads from the records:
/// failure exactly on a bad status or a missing body, and else the
/// candidates other than `domain`, each once, in ascending order, none of
/// them a wildcard pattern.
pub open spec fn enumerated(
    domain: Seq<char>,
    status: u16,
    parsed: bool,
    candidates: Seq<Seq<char>>,
    r: Result<Vec<String>, EnumerateError>,
) -> bool {
    match r {
        Ok(names) => {
            &&& is_success_code(status)
            &&& parsed
            &&& ascending(texts(names@))
            &&& forall|n: Seq<char>|
                #![trigger texts(names@).contains(n)]
                #![trigger candidates.contains(n)]
                texts(names@).contains(n) <==> (n != domain && !is_wildcard(n)
                    && candidates.contains(n))
            &&& forall|n: Seq<char>| #[trigger] texts(names@).contains(n) ==> !is_wildcard(n)
        },
        Err(EnumerateError::Status(code)) => !is_success_code(status) && code == status,
        Err(EnumerateError::Parse) => is_success_code(status) && !parsed,
    }
}

/// What `enumerate` owes settles the names that it returns.
pub proof fn lemma_enumerated_unique(
    domain: Seq<char>,
    status: u16,
    parsed: bool,
    candidates: Seq<Seq<char>>,
    a: Vec<String>,
    b: Vec<String>,
)
    requires
        enumerated(domain, status, parsed, candidates, Ok(a)),
        enumerated(domain, status, parsed, candidates, Ok(b)),
    ensures
        texts(a@) == texts(b@),
{
    assert forall|n: Seq<char>| texts(a@).contains(n) <==> texts(b@).contains(n) by {
        assert(texts(a@).contains(n) <==> (n != domain && !is_wildcard(n)
            && candidates.contains(n)));
        assert(texts(b@).contains(n) <==> (n != domain && !is_wildcard(n)
            && candidates.contains(n)));
    }
    lemma_ascending_unique(texts(a@), texts(b@));
}

/// A source of candidate subdomains.
pub trait SubdomainModule: Module {
    /// The address that is asked about `domain`.
    spec fn query_text(&self, domain: Seq<char>) -> Seq<char>;

    /// The names that the records of an answer hold, in the order of the
    /// records, before duplicates, wildcard patterns and the domain itself
    /// are removed.
    spec fn candidates(&self, records: Seq<Vec<String>>) -> Seq<Seq<char>>;

    /// The address to fetch for `domain`.
    fn query(&self, domain: &str) -> (url: String)
        ensures
            url@ == self.query_text(domain@),
    ;

    /// The subdomains in a service's answer: `status` is the answer's status
    /// code and `records` the text fields of each entry of its body, or
    /// `None` where the body could not be read as such.
    fn enumerate(&self, domain: &str, status: u16, records: Option<Vec<Vec<String>>>) -> (r:
        Result<Vec<String>, EnumerateError>)
        ensures
            enumerated(
                domain@,
                status,
                records is Some,
                match records {
                    Some(rows) => self.candidates(rows@),
                    None => Seq::empty(),
                },
                r,
            ),
    ;
}

/// A check of one HTTP(S) endpoint for one weakness.
pub trait HttpModule: Module {
    /// The kind of finding that the check reports.
    spec fn kind(&self) -> FindingKind;

    /// The path that the check requests on the endpoint.
    spec fn path(&self) -> Seq<char>;

    /// Whether the check's verdict depends on the body of a reply.
    spec fn reads_body(&self) -> bool;

    /// For each reply, whether there was one and it shows the weakness.
    spec fn flags(&self, replies: Seq<Option<HttpReply>>) -> Seq<bool>;

    /// Whether the body of a reply with this status is to be read before the
    /// reply is handed to `scan`.
    fn wants_body(&self, status: u16) -> (wanted: bool)
        ensures
            wanted == (self.reads_body() && is_success_code(status)),
    ;

    /// The next step for `endpoint`, a host and port, when `replies` holds
    /// what came back for the addresses fetched so far, `None` standing for a
    /// request that failed: the first reply that shows the weakness is the
    /// finding, under the address that it answered.
    fn scan(&self, endpoint: &str, replies: &Vec<Option<HttpReply>>) -> (step: ScanStep)
        ensures
            step@ == step_from(0, self.kind(), endpoint@, self.path(), self.flags(replies@)),
    ;
}

/// The discovery modules that there are.
pub enum SubdomainSource {
    CrtSh(CrtSh),
    WebArchive(WebArchive),
}

impl Module for SubdomainSource {
    open spec fn name_text(&self) -> Seq<char> {
        match *self {
            SubdomainSource::CrtSh(m) => m.name_text(),
            SubdomainSource::WebArchive(m) => m.name_text(),
        }
    }

    open spec fn description_text(&self) -> Seq<char> {
        match *self {
            SubdomainSource::CrtSh(m) => m.description_text(),
            SubdomainSource::WebArchive(m) => m.description_text(),
        }
    }

    fn name(&self) -> (r: String) {
        match self {
            SubdomainSource::CrtSh(m) => m.name(),
            SubdomainSource::WebArchive(m) => m.name(),
        }
    }

    fn description(&self) -> (r: String) {
        match self {
            SubdomainSource::CrtSh(m) => m.description(),
            SubdomainSource::WebArchive(m) => m.description(),
        }
    }
}

impl SubdomainModule for SubdomainSource {
    open spec fn query_text(&self, domain: Seq<char>) -> Seq<char> {
        match *self {
            SubdomainSource::CrtSh(m) => m.query_text(domain),
            SubdomainSource::WebArchive(m) => m.query_text(domain),
        }
    }

    open spec fn candidates(&self, records: Seq<Vec<String>>) -> Seq<Seq<char>> {
        match *self {
            SubdomainSource::CrtSh(m) => m.candidates(records),
            SubdomainSource::WebArchive(m) => m.candidates(records),
        }
    }

    fn query(&self, domain: &str) -> (url: String) {
        match self {
            SubdomainSource::CrtSh(m) => m.query(domain),
            SubdomainSource::WebArchive(m) => m.query(domain),
        }
    }

    fn enumerate(&self, domain: &str, status: u16, records: Option<Vec<Vec<String>>>) -> (r:
        Result<Vec<String>, EnumerateError>) {
        match self {
            SubdomainSource::CrtSh(m) => m.enumerate(domain, status, records),
            SubdomainSource::WebArchive(m) => m.enumerate(domain, status, records),
        }
    }
}

/// The checks that there are.
pub enum HttpCheck {
    DirectoryListing(DirectoryListing),
    DotEnvDisclosure(DotEnvDisclosure),
    GitConfigLeakage(GitConfigLeakage),
    GitHeadLeakage(GitHeadLeakage),
}

impl Module for HttpCheck {
    open spec fn name_text(&self) -> Seq<char> {
        match *self {
            HttpCheck::DirectoryListing(m) => m.name_text(),
            HttpCheck::DotEnvDisclosure(m) => m.name_text(),
            HttpCheck::GitConfigLeakage(m) => m.name_text(),
            HttpCheck::GitHeadLeakage(m) => m.name_text(),
        }
    }

    open spec fn description_text(&self) -> Seq<char> {
        match *self {
            HttpCheck::DirectoryListing(m) => m.description_text(),
            HttpCheck::DotEnvDisclosure(m) => m.description_text(),
            HttpCheck::GitConfigLeakage(m) => m.description_text(),
            HttpCheck::GitHeadLeakage(m) => m.description_text(),
        }
    }

    fn name(&self) -> (r: String) {
        match self {
            HttpCheck::DirectoryListing(m) => m.name(),
            HttpCheck::DotEnvDisclosure(m) => m.name(),
            HttpCheck::GitConfigLeakage(m) => m.name(),
            HttpCheck::GitHeadLeakage(m) => m.name(),
        }
    }

    fn description(&self) -> (r: String) {
        match self {
            HttpCheck::DirectoryListing(m) => m.description(),
            HttpCheck::DotEnvDisclosure(m) => m.description(),
            HttpCheck::GitConfigLeakage(m) => m.description(),
            HttpCheck::GitHeadLeakage(m) => m.description(),
        }
    }
}

impl HttpModule for HttpCheck {
    open spec fn kind(&self) -> FindingKind {
        match *self {
            HttpCheck::DirectoryListing(m) => m.kind(),
            HttpCheck::DotEnvDisclosure(m) => m.kind(),
            HttpCheck::GitConfigLeakage(m) => m.kind(),
            HttpCheck::GitHeadLeakage(m) => m.kind(),
        }
    }

    open spec fn path(&self) -> Seq<char> {
        match *self {
            HttpCheck::DirectoryListing(m) => m.path(),
            HttpCheck::DotEnvDisclosure(m) => m.path(),
            HttpCheck::GitConfigLeakage(m) => m.path(),
            HttpCheck::GitHeadLeakage(m) => m.path(),
        }
    }

    open spec fn reads_body(&self) -> bool {
        match *self {
            HttpCheck::DirectoryListing(m) => m.reads_body(),
            HttpCheck::DotEnvDisclosure(m) => m.reads_body(),
            HttpCheck::GitConfigLeakage(m) => m.reads_body(),
            HttpCheck::GitHeadLeakage(m) => m.reads_body(),
        }
    }

    open spec fn flags(&self, replies: Seq<Option<HttpReply>>) -> Seq<bool> {
        match *self {
            HttpCheck::DirectoryListing(m) => m.flags(replies),
            HttpCheck::DotEnvDisclosure(m) => m.flags(replies),
            HttpCheck::GitConfigLeakage(m) => m.flags(replies),
            HttpCheck::GitHeadLeakage(m) => m.flags(replies),
        }
    }

    fn wants_body(&self, status: u16) -> (wanted: bool) {
        match self {
            HttpCheck::DirectoryListing(m) => m.wants_body(status),
            HttpCheck::DotEnvDisclosure(m) => m.wants_body(status),
            HttpCheck::GitConfigLeakage(m) => m.wants_body(status),
            HttpCheck::GitHeadLeakage(m) => m.wants_body(status),
        }
    }

    fn scan(&self, endpoint: &str, replies: &Vec<Option<HttpReply>>) -> (step: ScanStep) {
        match self {
            HttpCheck::DirectoryListing(m) => m.scan(endpoint, replies),
            HttpCheck::DotEnvDisclosure(m) => m.scan(endpoint, replies),
            HttpCheck::GitConfigLeakage(m) => m.scan(endpoint, replies),
            HttpCheck::GitHeadLeakage(m) => m.scan(endpoint, replies),
        }
    }
}

/// The kinds of the registered checks, in the order of the registry.
pub open spec fn registered_kinds() -> Seq<FindingKind> {
    seq![
        FindingKind::DirectoryListing,
        FindingKind::DotEnvDisclosure,
        FindingKind::GitConfigLeakage,
        FindingKind::GitHeadLeakage,
    ]
}

/// The kinds of the checks, in order.
pub open spec fn kinds(modules: Seq<HttpCheck>) -> Seq<FindingKind> {
    Seq::new(modules.len(), |i: int| modules[i].kind())
}

/// Whether the marks of every registered check compile.
pub open spec fn checks_compile() -> bool {
    &&& compiles(listing_patterns())
    &&& compiles(config_patterns())
    &&& compiles(head_patterns())
}

/// The registered discovery modules, in order.
pub open spec fn registered_sources() -> Seq<SubdomainSource> {
    seq![SubdomainSource::CrtSh(CrtSh), SubdomainSource::WebArchive(WebArchive)]
}

/// The checks that a scan runs against every open port, one instance of
/// each, with their marks compiled. It fails exactly where the regex
/// compiler refuses the marks of some check, which is for the caller to
/// treat as fatal before any scan begins.
pub fn http_modules() -> (r: Result<Vec<HttpCheck>, PatternError>)
    ensures
        r is Ok <==> checks_compile(),
        r matches Ok(modules) ==> kinds(modules@) == registered_kinds(),
{
    let listing = match DirectoryListing::new() {
        Ok(m) => m,
        Err(e) => {
            return Err(e);
        },
    };
    let config = match GitConfigLeakage::new() {
        Ok(m) => m,
        Err(e) => {
            return Err(e);
        },
    };
    let head = match GitHeadLeakage::new() {
        Ok(m) => m,
        Err(e) => {
            return Err(e);
        },
    };
    let mut modules: Vec<HttpCheck> = Vec::new();
    modules.push(HttpCheck::DirectoryListing(listing));
    modules.push(HttpCheck::DotEnvDisclosure(DotEnvDisclosure::new()));
    modules.push(HttpCheck::GitConfigLeakage(config));
    modules.push(HttpCheck::GitHeadLeakage(head));
    assert(kinds(modules@) =~= registered_kinds());
    Ok(modules)
}

/// The discovery modules that a scan asks for subdomains, one instance of
/// each.
pub fn subdomain_modules() -> (modules: Vec<SubdomainSource>)
    ensures
        modules@ == registered_sources(),
{
    let mut modules: Vec<SubdomainSource> = Vec::new();
    modules.push(SubdomainSource::CrtSh(CrtSh::new()));
    modules.push(SubdomainSource::WebArchive(WebArchive::new()));
    assert(modules@ =~= registered_sources());
    modules
}

} // verus!
