//! Servers that hand out the `HEAD` of their git repository.
use vstd::prelude::*;
use crate::modules::http::{
    body_flags, compiles, kind_description, kind_name, pattern_texts, scan_bodies, FindingKind,
    HttpReply, PatternError, PatternSet, ScanStep,
};
use crate::modules::{is_success, HttpModule, Module};

verus! {

/// The marks of a git `HEAD`, as regular expressions: a reference to a
/// branch, or a commit's hash alone.
pub open spec fn head_patterns() -> Seq<Seq<char>> {
    seq![
        r"^ref: refs/heads/"@,
        r"^[0-9a-f]{40}$"@,
    ]
}

/// The check for a leaked git `HEAD`. It holds its marks in compiled form.
pub struct GitHeadLeakage {
    marks: PatternSet,
}

impl GitHeadLeakage {
    /// The compiled marks are those of this check.
    #[verifier::type_invariant]
    spec fn marked(&self) -> bool {
        self.marks@ == head_patterns()
    }

    /// The check, with its marks compiled; fails exactly where the regex
    /// compiler refuses them.
    pub fn new() -> (r: Result<Self, PatternError>)
        ensures
            r is Ok <==> compiles(head_patterns()),
    {
        match PatternSet::compile(&GitHeadLeakage::patterns()) {
            Ok(marks) => Ok(GitHeadLeakage { marks }),
            Err(e) => Err(e),
        }
    }

    /// The marks of the weakness, as regular expressions.
    pub fn patterns() -> (p: Vec<&'static str>)
        ensures
            pattern_texts(p@) == head_patterns(),
    {
        let p = vec![
            r"^ref: refs/heads/",
            r"^[0-9a-f]{40}$",
        ];
        assert(pattern_texts(p@) =~= head_patterns());
        p
    }
}

impl Module for GitHeadLeakage {
    open spec fn name_text(&self) -> Seq<char> {
        kind_name(FindingKind::GitHeadLeakage)
    }

    open spec fn description_text(&self) -> Seq<char> {
        kind_description(FindingKind::GitHeadLeakage)
    }

    fn name(&self) -> (r: String) {
        String::from_str("http/git_head_leakage")
    }

    fn description(&self) -> (r: String) {
        String::from_str("Check if .git/head is publicly accessible")
    }
}

impl HttpModule for GitHeadLeakage {
    open spec fn kind(&self) -> FindingKind {
        FindingKind::GitHeadLeakage
    }

    open spec fn path(&self) -> Seq<char> {
        "/.git/HEAD"@
    }

    open spec fn reads_body(&self) -> bool {
        true
    }

    /// For each reply, whether there was one and it is a success whose body
    /// is a git `HEAD`.
    open spec fn flags(&self, replies: Seq<Option<HttpReply>>) -> Seq<bool> {
        body_flags(head_patterns(), replies)
    }

    fn wants_body(&self, status: u16) -> (wanted: bool) {
        is_success(status)
    }

    fn scan(&self, endpoint: &str, replies: &Vec<Option<HttpReply>>) -> (step: ScanStep) {
        proof {
            use_type_invariant(self);
        }
        scan_bodies(FindingKind::GitHeadLeakage, "/.git/HEAD", &self.marks, endpoint, replies)
    }
}

} // verus!
