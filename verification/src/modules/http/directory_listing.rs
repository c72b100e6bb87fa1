//! Servers that list the contents of their root directory.
use vstd::prelude::*;
use crate::modules::http::{
    body_flags, compiles, kind_description, kind_name, pattern_texts, scan_bodies, FindingKind,
    HttpReply, PatternError, PatternSet, ScanStep,
};
use crate::modules::{is_success, HttpModule, Module};

verus! {

/// The marks of a directory listing, as regular expressions: the pages of
/// Apache and Nginx, of Microsoft IIS and of Apache Tomcat, the link to the
/// parent directory, and that link as old IIS servers write it.
pub open spec fn listing_patterns() -> Seq<Seq<char>> {
    seq![
        r"(?i)Index of /.*"@,
        r"(?i)directory listing - /.*"@,
        r"(?i)Directory Listing For /.*"@,
        r"(?i)Parent Directory"@,
        r#"(?i)<A HREF=["']?/[^>]*>\[To Parent Directory\]</A>"#@,
    ]
}

/// The check for directory listings. It holds its marks in compiled form.
pub struct DirectoryListing {
    marks: PatternSet,
}

impl DirectoryListing {
    /// The compiled marks are those of this check.
    #[verifier::type_invariant]
    spec fn marked(&self) -> bool {
        self.marks@ == listing_patterns()
    }

    /// The check, with its marks compiled; fails exactly where the regex
    /// compiler refuses them.
    pub fn new() -> (r: Result<Self, PatternError>)
        ensures
            r is Ok <==> compiles(listing_patterns()),
    {
        match PatternSet::compile(&DirectoryListing::patterns()) {
            Ok(marks) => Ok(DirectoryListing { marks }),
            Err(e) => Err(e),
        }
    }

    /// The marks of the weakness, as regular expressions.
    pub fn patterns() -> (p: Vec<&'static str>)
        ensures
            pattern_texts(p@) == listing_patterns(),
    {
        let p = vec![
            r"(?i)Index of /.*",
            r"(?i)directory listing - /.*",
            r"(?i)Directory Listing For /.*",
            r"(?i)Parent Directory",
            r#"(?i)<A HREF=["']?/[^>]*>\[To Parent Directory\]</A>"#,
        ];
        assert(pattern_texts(p@) =~= listing_patterns());
        p
    }
}

impl Module for DirectoryListing {
    open spec fn name_text(&self) -> Seq<char> {
        kind_name(FindingKind::DirectoryListing)
    }

    open spec fn description_text(&self) -> Seq<char> {
        kind_description(FindingKind::DirectoryListing)
    }

    fn name(&self) -> (r: String) {
        String::from_str("http/directory_listing")
    }

    fn description(&self) -> (r: String) {
        String::from_str("Check if directory listing is publicly accessible")
    }
}

impl HttpModule for DirectoryListing {
    open spec fn kind(&self) -> FindingKind {
        FindingKind::DirectoryListing
    }

    open spec fn path(&self) -> Seq<char> {
        "/"@
    }

    open spec fn reads_body(&self) -> bool {
        true
    }

    /// For each reply, whether there was one and it is a success whose body
    /// bears one of the marks of a directory listing.
    open spec fn flags(&self, replies: Seq<Option<HttpReply>>) -> Seq<bool> {
        body_flags(listing_patterns(), replies)
    }

    fn wants_body(&self, status: u16) -> (wanted: bool) {
        is_success(status)
    }

    fn scan(&self, endpoint: &str, replies: &Vec<Option<HttpReply>>) -> (step: ScanStep) {
        proof {
            use_type_invariant(self);
        }
        scan_bodies(FindingKind::DirectoryListing, "/", &self.marks, endpoint, replies)
    }
}

} // verus!
