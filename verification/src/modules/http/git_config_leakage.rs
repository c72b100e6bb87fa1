//! Servers that hand out the configuration of their git repository.
use vstd::prelude::*;
use crate::modules::http::{
    body_flags, compiles, kind_description, kind_name, pattern_texts, scan_bodies, FindingKind,
    HttpReply, PatternError, PatternSet, ScanStep,
};
use crate::modules::{is_success, HttpModule, Module};

verus! {

/// The mark of a git configuration, as a regular expression: the heading of
/// a branch section.
pub open spec fn config_patterns() -> Seq<Seq<char>> {
    seq![
        r#"\[branch\s+"[^"]+"\]"#@,
    ]
}

/// The check for a leaked git configuration. It holds its marks in compiled form.
pub struct GitConfigLeakage {
    marks: PatternSet,
}

impl GitConfigLeakage {
    /// The compiled marks are those of this check.
    #[verifier::type_invariant]
    spec fn marked(&self) -> bool {
        self.marks@ == config_patterns()
    }

    /// The check, with its marks compiled; fails exactly where the regex
    /// compiler refuses them.
    pub fn new() -> (r: Result<Self, PatternError>)
        ensures
            r is Ok <==> compiles(config_patterns()),
    {
        match PatternSet::compile(&GitConfigLeakage::patterns()) {
            Ok(marks) => Ok(GitConfigLeakage { marks }),
            Err(e) => Err(e),
        }
    }

    /// The marks of the weakness, as regular expressions.
    pub fn patterns() -> (p: Vec<&'static str>)
        ensures
            pattern_texts(p@) == config_patterns(),
    {
        let p = vec![
            r#"\[branch\s+"[^"]+"\]"#,
        ];
        assert(pattern_texts(p@) =~= config_patterns());
        p
    }
}

impl Module for GitConfigLeakage {
    open spec fn name_text(&self) -> Seq<char> {
        kind_name(FindingKind::GitConfigLeakage)
    }

    open spec fn description_text(&self) -> Seq<char> {
        kind_description(FindingKind::GitConfigLeakage)
    }

    fn name(&self) -> (r: String) {
        String::from_str("http/git_config_leakage")
    }

    fn description(&self) -> (r: String) {
        String::from_str("Check if .git/config is publicly accessible")
    }
}

impl HttpModule for GitConfigLeakage {
    open spec fn kind(&self) -> FindingKind {
        FindingKind::GitConfigLeakage
    }

    open spec fn path(&self) -> Seq<char> {
        "/.git/config"@
    }

    open spec fn reads_body(&self) -> bool {
        true
    }

    /// For each reply, whether there was one and it is a success whose body
    /// holds the heading of a branch section.
    open spec fn flags(&self, replies: Seq<Option<HttpReply>>) -> Seq<bool> {
        body_flags(config_patterns(), replies)
    }

    fn wants_body(&self, status: u16) -> (wanted: bool) {
        is_success(status)
    }

    fn scan(&self, endpoint: &str, replies: &Vec<Option<HttpReply>>) -> (step: ScanStep) {
        proof {
            use_type_invariant(self);
        }
        scan_bodies(FindingKind::GitConfigLeakage, "/.git/config", &self.marks, endpoint, replies)
    }
}

} // verus!
