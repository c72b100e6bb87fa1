//! Checks of HTTP(S) endpoints: the findings, the replies that a check
//! judges, and the order in which an endpoint's addresses are tried.
pub mod directory_listing;
pub mod dotenv_disclosure;
pub mod git_config_leakage;
pub mod git_head_leakage;

pub use directory_listing::DirectoryListing;
pub use dotenv_disclosure::DotEnvDisclosure;
pub use git_config_leakage::GitConfigLeakage;
pub use git_head_leakage::GitHeadLeakage;

use vstd::prelude::*;
use crate::modules::{is_success, is_success_code};

verus! {

/// The kinds of weakness that the checks look for, one per check.
#[derive(Debug, Clone, Copy, PartialEq, Eq)]
pub enum FindingKind {
    DotEnvDisclosure,
    DirectoryListing,
    GitConfigLeakage,
    GitHeadLeakage,
}

/// A positive result of a check, with the address that showed the weakness.
#[derive(Debug, PartialEq, Eq)]
pub enum HttpFindings {
    DotEnvDisclosure(String),
    DirectoryListing(String),
    GitConfigLeakage(String),
    GitHeadLeakage(String),
}

impl View for HttpFindings {
    type V = (FindingKind, Seq<char>);

    /// The kind of the finding and the offending address.
    open spec fn view(&self) -> (FindingKind, Seq<char>) {
        match *self {
            HttpFindings::DotEnvDisclosure(url) => (FindingKind::DotEnvDisclosure, url@),
            HttpFindings::DirectoryListing(url) => (FindingKind::DirectoryListing, url@),
            HttpFindings::GitConfigLeakage(url) => (FindingKind::GitConfigLeakage, url@),
            HttpFindings::GitHeadLeakage(url) => (FindingKind::GitHeadLeakage, url@),
        }
    }
}

impl Clone for HttpFindings {
    fn clone(&self) -> (copy: Self)
        ensures
            copy@ == self@,
    {
        HttpFindings::of(self.kind(), self.url().clone())
    }
}

impl HttpFindings {
    /// The finding of the given kind at `url`.
    pub fn of(kind: FindingKind, url: String) -> (f: HttpFindings)
        ensures
            f@ == (kind, url@),
    {
        match kind {
            FindingKind::DotEnvDisclosure => HttpFindings::DotEnvDisclosure(url),
            FindingKind::DirectoryListing => HttpFindings::DirectoryListing(url),
            FindingKind::GitConfigLeakage => HttpFindings::GitConfigLeakage(url),
            FindingKind::GitHeadLeakage => HttpFindings::GitHeadLeakage(url),
        }
    }

    /// The kind of the finding.
    pub fn kind(&self) -> (kind: FindingKind)
        ensures
            kind == self@.0,
    {
        match self {
            HttpFindings::DotEnvDisclosure(_) => FindingKind::DotEnvDisclosure,
            HttpFindings::DirectoryListing(_) => FindingKind::DirectoryListing,
            HttpFindings::GitConfigLeakage(_) => FindingKind::GitConfigLeakage,
            HttpFindings::GitHeadLeakage(_) => FindingKind::GitHeadLeakage,
        }
    }

    /// The address that showed the weakness.
    pub fn url(&self) -> (url: &String)
        ensures
            url@ == self@.1,
    {
        match self {
            HttpFindings::DotEnvDisclosure(url) => url,
            HttpFindings::DirectoryListing(url) => url,
            HttpFindings::GitConfigLeakage(url) => url,
            HttpFindings::GitHeadLeakage(url) => url,
        }
    }
}

/// What a server answered to one request, as far as the checks read it.
pub struct HttpReply {
    /// The status code.
    pub status: u16,
    /// The length of the body, where the server announced it.
    pub content_length: Option<u64>,
    /// The bytes of the `Content-Type` header, where there is one.
    pub content_type: Option<Vec<u8>>,
    /// The body as text, where it was asked for and could be read.
    pub body: Option<String>,
}

/// What to do next about an endpoint.
#[derive(Debug, PartialEq, Eq)]
pub enum ScanStep {
    /// Request this address and hand the reply back.
    Fetch(String),
    /// The check is over, with this result.
    Done(Option<HttpFindings>),
}

/// A `ScanStep` by its texts.
pub enum StepView {
    Fetch(Seq<char>),
    Done(Option<(FindingKind, Seq<char>)>),
}

impl View for ScanStep {
    type V = StepView;

    open spec fn view(&self) -> StepView {
        match *self {
            ScanStep::Fetch(url) => StepView::Fetch(url@),
            ScanStep::Done(Some(finding)) => StepView::Done(Some(finding@)),
            ScanStep::Done(None) => StepView::Done(None),
        }
    }
}

/// The number of schemes under which an endpoint is tried.
pub const SCHEMES: usize = 2;

/// The schemes in the order in which they are tried: HTTPS first.
pub open spec fn scheme_text(attempt: int) -> Seq<char> {
    if attempt == 0 {
        "https"@
    } else {
        "http"@
    }
}

/// The address that attempt number `attempt` requests.
pub open spec fn address(attempt: int, endpoint: Seq<char>, path: Seq<char>) -> Seq<char> {
    scheme_text(attempt) + "://"@ + endpoint + path
}

/// The step that follows when the replies so far were judged as `flagged`
/// tells, looking from attempt `attempt` on: the first flagged reply is the
/// finding; short of one, the next address is fetched until every scheme has
/// been tried.
pub open spec fn step_from(
    attempt: int,
    kind: FindingKind,
    endpoint: Seq<char>,
    path: Seq<char>,
    flagged: Seq<bool>,
) -> StepView
    decreases SCHEMES - attempt,
{
    if attempt < 0 || attempt >= SCHEMES {
        StepView::Done(None)
    } else if attempt >= flagged.len() {
        StepView::Fetch(address(attempt, endpoint, path))
    } else if flagged[attempt] {
        StepView::Done(Some((kind, address(attempt, endpoint, path))))
    } else {
        step_from(attempt + 1, kind, endpoint, path, flagged)
    }
}

/// The address that attempt number `attempt` requests.
pub fn target(attempt: usize, endpoint: &str, path: &str) -> (url: String)
    ensures
        url@ == address(attempt as int, endpoint@, path@),
{
    let mut url = if attempt == 0 {
        String::from_str("https")
    } else {
        String::from_str("http")
    };
    url.append("://");
    url.append(endpoint);
    url.append(path);
    assert(url@ =~= address(attempt as int, endpoint@, path@));
    url
}

/// The next step for an endpoint, given how each reply so far was judged.
pub fn next_step(kind: FindingKind, endpoint: &str, path: &str, flagged: &Vec<bool>) -> (step:
    ScanStep)
    ensures
        step@ == step_from(0, kind, endpoint@, path@, flagged@),
{
    let mut attempt: usize = 0;
    while attempt < SCHEMES
        invariant
            attempt <= SCHEMES,
            step_from(0, kind, endpoint@, path@, flagged@) == step_from(
                attempt as int,
                kind,
                endpoint@,
                path@,
                flagged@,
            ),
        decreases SCHEMES - attempt,
    {
        let url = target(attempt, endpoint, path);
        if attempt >= flagged.len() {
            return ScanStep::Fetch(url);
        }
        if flagged[attempt] {
            return ScanStep::Done(Some(HttpFindings::of(kind, url)));
        }
        attempt += 1;
    }
    ScanStep::Done(None)
}

/// The name under which each check is known.
pub open spec fn kind_name(kind: FindingKind) -> Seq<char> {
    match kind {
        FindingKind::DirectoryListing => "http/directory_listing"@,
        FindingKind::DotEnvDisclosure => "http/dotenv_disclosure"@,
        FindingKind::GitConfigLeakage => "http/git_config_leakage"@,
        FindingKind::GitHeadLeakage => "http/git_head_leakage"@,
    }
}

/// One line on what each check does.
pub open spec fn kind_description(kind: FindingKind) -> Seq<char> {
    match kind {
        FindingKind::DirectoryListing => "Check if directory listing is publicly accessible"@,
        FindingKind::DotEnvDisclosure => "Check if .env is publicly accessible"@,
        FindingKind::GitConfigLeakage => "Check if .git/config is publicly accessible"@,
        FindingKind::GitHeadLeakage => "Check if .git/head is publicly accessible"@,
    }
}

/// The texts of the patterns.
pub open spec fn pattern_texts(patterns: Seq<&'static str>) -> Seq<Seq<char>> {
    Seq::new(patterns.len(), |i: int| patterns[i]@)
}

/// `regex::RegexSet`: a compiled set of regular expressions. Nothing inside
/// it is read here.
#[verifier::external_type_specification]
#[verifier::external_body]
pub struct ExRegexSet(regex::RegexSet);

/// `regex::Error`: why a pattern was refused. Nothing inside it is read
/// here.
#[verifier::external_type_specification]
#[verifier::external_body]
pub struct ExRegexError(regex::Error);

/// Whether `regex::RegexSet::new` compiles the patterns.
pub uninterp spec fn compiles(patterns: Seq<Seq<char>>) -> bool;

/// The patterns that a compiled set holds, in the order in which the set was
/// given them, as `RegexSet::patterns` tells.
pub uninterp spec fn set_patterns(set: regex::RegexSet) -> Seq<Seq<char>>;

/// Whether a set was compiled as `RegexSet::new` compiles: with every option
/// that a builder could change left as it is, so that what the set matches
/// is settled by its patterns.
pub uninterp spec fn set_is_plain(set: regex::RegexSet) -> bool;

/// Whether one of the patterns matches somewhere in the text, as a set that
/// `RegexSet::new` compiled from them tells through `RegexSet::is_match`.
pub uninterp spec fn any_match(patterns: Seq<Seq<char>>, text: Seq<char>) -> bool;

/// `regex::RegexSet::new`: whether the patterns compile is a function of the
/// patterns alone, and a set that comes back holds the patterns as given and
/// was compiled with no option changed.
#[verifier::external_body]
fn compile_set(patterns: &Vec<&'static str>) -> (r: Result<regex::RegexSet, regex::Error>)
    ensures
        r is Ok <==> compiles(pattern_texts(patterns@)),
        r matches Ok(set) ==> set_patterns(set) == pattern_texts(patterns@) && set_is_plain(set),
{
    regex::RegexSet::new(patterns)
}

/// `regex::RegexSet::is_match`: whether one of the regexes of the set matches
/// somewhere in the text. For a set compiled with no option changed this is
/// a function of the set's patterns and the text.
#[verifier::external_body]
fn set_is_match(set: &regex::RegexSet, text: &str) -> (r: bool)
    requires
        set_is_plain(*set),
    ensures
        r == any_match(set_patterns(*set), text@),
{
    set.is_match(text)
}

/// Whether a reply is a success whose body one of the patterns matches.
pub open spec fn body_exposed(patterns: Seq<Seq<char>>, reply: HttpReply) -> bool {
    &&& is_success_code(reply.status)
    &&& reply.body matches Some(text)
    &&& any_match(patterns, text@)
}

/// For each reply, whether there was one and its body is exposed.
pub open spec fn body_flags(patterns: Seq<Seq<char>>, replies: Seq<Option<HttpReply>>) -> Seq<
    bool,
> {
    Seq::new(
        replies.len(),
        |i: int|
            match replies[i] {
                Some(reply) => body_exposed(patterns, reply),
                None => false,
            },
    )
}

/// The patterns of some check were refused by the regex compiler.
#[derive(Debug, Clone, Copy, PartialEq, Eq)]
pub struct PatternError;

/// The marks of a weakness, compiled once into one set.
pub struct PatternSet {
    set: regex::RegexSet,
}

impl View for PatternSet {
    type V = Seq<Seq<char>>;

    /// The patterns of the set.
    closed spec fn view(&self) -> Seq<Seq<char>> {
        set_patterns(self.set)
    }
}

impl PatternSet {
    /// The set was compiled with no option changed.
    #[verifier::type_invariant]
    spec fn plain(&self) -> bool {
        set_is_plain(self.set)
    }

    /// Compiles the patterns into a set; fails exactly where the regex
    /// compiler refuses them.
    pub fn compile(patterns: &Vec<&'static str>) -> (r: Result<PatternSet, PatternError>)
        ensures
            r is Ok <==> compiles(pattern_texts(patterns@)),
            r matches Ok(marks) ==> marks@ == pattern_texts(patterns@),
    {
        match compile_set(patterns) {
            Ok(set) => Ok(PatternSet { set }),
            Err(_) => Err(PatternError),
        }
    }

    /// Whether a reply is a success whose body one of the patterns matches.
    pub fn exposes(&self, reply: &HttpReply) -> (r: bool)
        ensures
            r == body_exposed(self@, *reply),
    {
        proof {
            use_type_invariant(self);
        }
        if !is_success(reply.status) {
            return false;
        }
        match &reply.body {
            None => false,
            Some(text) => set_is_match(&self.set, text.as_str()),
        }
    }

    /// Judges every reply by its body.
    pub fn flags(&self, replies: &Vec<Option<HttpReply>>) -> (flagged: Vec<bool>)
        ensures
            flagged@ == body_flags(self@, replies@),
    {
        let mut flagged: Vec<bool> = Vec::new();
        let mut i: usize = 0;
        while i < replies.len()
            invariant
                i <= replies.len(),
                flagged@ == body_flags(self@, replies@).take(i as int),
            decreases replies.len() - i,
        {
            let hit = match &replies[i] {
                Some(reply) => self.exposes(reply),
                None => false,
            };
            flagged.push(hit);
            i += 1;
            assert(flagged@ =~= body_flags(self@, replies@).take(i as int));
        }
        assert(flagged@ =~= body_flags(self@, replies@));
        flagged
    }
}

/// The next step of a check that judges replies by their bodies: the check
/// of `kind`, which requests `path` and looks for the marks.
pub fn scan_bodies(
    kind: FindingKind,
    path: &str,
    marks: &PatternSet,
    endpoint: &str,
    replies: &Vec<Option<HttpReply>>,
) -> (step: ScanStep)
    ensures
        step@ == step_from(0, kind, endpoint@, path@, body_flags(marks@, replies@)),
{
    let flagged = marks.flags(replies);
    next_step(kind, endpoint, path, &flagged)
}

} // verus!
