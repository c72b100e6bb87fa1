//! Subdomains from the certificate transparency logs that crt.sh serves.
use vstd::prelude::*;
use crate::modules::subdomain::{cells, distinct_without, flatten, rows_from};
use crate::modules::{is_success, EnumerateError, Module, SubdomainModule};
use crate::names::texts;
use crate::text::{lines, lowercase, split_lines, to_lowercase, trim, trimmed};

verus! {

/// The names behind one `name_value` field: its lines, each trimmed and in
/// lower case.
pub open spec fn listed(field: Seq<char>) -> Seq<Seq<char>> {
    Seq::new(lines(field).len(), |k: int| lowercase(trimmed(lines(field)[k])))
}

/// The names that the fields hold, field after field.
pub open spec fn listed_names(fields: Seq<Seq<char>>) -> Seq<Seq<char>>
    decreases fields.len(),
{
    if fields.len() == 0 {
        Seq::empty()
    } else {
        listed_names(fields.drop_last()) + listed(fields.last())
    }
}

/// The discovery module for crt.sh.
pub struct CrtSh;

impl CrtSh {
    /// The module; it holds no state.
    pub fn new() -> (m: Self)
        ensures
            m == CrtSh,
    {
        CrtSh
    }

    /// The names behind the fields, in order: every line of every field,
    /// trimmed and in lower case.
    pub fn names(fields: &Vec<String>) -> (out: Vec<String>)
        ensures
            texts(out@) == listed_names(texts(fields@)),
    {
        let mut out: Vec<String> = Vec::new();
        let mut i: usize = 0;
        let ghost all = texts(fields@);
        assert(all.take(0) =~= Seq::<Seq<char>>::empty());
        assert(texts(out@) =~= listed_names(all.take(0)));
        while i < fields.len()
            invariant
                i <= fields.len(),
                all == texts(fields@),
                texts(out@) == listed_names(all.take(i as int)),
            decreases fields.len() - i,
        {
            let pieces = split_lines(fields[i].as_str());
            let ghost done = texts(out@);
            let ghost field = all[i as int];
            let mut j: usize = 0;
            assert(texts(out@) =~= done + listed(field).take(0));
            while j < pieces.len()
                invariant
                    j <= pieces.len(),
                    pieces@.len() == lines(field).len(),
                    forall|k: int|
                        0 <= k < pieces@.len() ==> (#[trigger] pieces@[k])@ == lines(field)[k],
                    texts(out@) == done + listed(field).take(j as int),
                decreases pieces.len() - j,
            {
                let name = to_lowercase(trim(pieces[j].as_str()).as_str());
                let ghost before = texts(out@);
                assert(name@ == listed(field)[j as int]);
                out.push(name);
                assert(texts(out@) =~= before.push(listed(field)[j as int]));
                j += 1;
                assert(texts(out@) =~= done + listed(field).take(j as int));
            }
            proof {
                assert(listed(field).take(pieces.len() as int) =~= listed(field));
                assert(all.take(i as int + 1).drop_last() =~= all.take(i as int));
                assert(all.take(i as int + 1).last() == field);
            }
            i += 1;
        }
        assert(all.take(fields.len() as int) =~= all);
        out
    }
}

impl Module for CrtSh {
    open spec fn name_text(&self) -> Seq<char> {
        "subdomain/crtsh"@
    }

    open spec fn description_text(&self) -> Seq<char> {
        "Use crt.sh to enumerate subdomains"@
    }

    fn name(&self) -> (r: String) {
        String::from_str("subdomain/crtsh")
    }

    fn description(&self) -> (r: String) {
        String::from_str("Use crt.sh to enumerate subdomains")
    }
}

impl SubdomainModule for CrtSh {
    open spec fn query_text(&self, domain: Seq<char>) -> Seq<char> {
        "https://crt.sh/?q=%25."@ + domain + "&output=json"@
    }

    /// Every field of every record is a `name_value`: a list of names, one
    /// per line.
    open spec fn candidates(&self, records: Seq<Vec<String>>) -> Seq<Seq<char>> {
        listed_names(cells(records))
    }

    fn query(&self, domain: &str) -> (url: String) {
        let mut url = String::from_str("https://crt.sh/?q=%25.");
        url.append(domain);
        url.append("&output=json");
        url
    }

    fn enumerate(&self, domain: &str, status: u16, records: Option<Vec<Vec<String>>>) -> (r:
        Result<Vec<String>, EnumerateError>) {
        if !is_success(status) {
            return Err(EnumerateError::Status(status));
        }
        match records {
            None => Err(EnumerateError::Parse),
            Some(rows) => {
                let fields = flatten(&rows, 0);
                assert(rows_from(rows@, 0) =~= rows@);
                let names = CrtSh::names(&fields);
                Ok(distinct_without(names, domain))
            },
        }
    }
}

} // verus!
