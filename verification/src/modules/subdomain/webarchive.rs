//! Subdomains from the addresses that web.archive.org has archived.
use vstd::prelude::*;
use crate::modules::subdomain::{cells, distinct_without, flatten, rows_from};
use crate::modules::{is_success, EnumerateError, Module, SubdomainModule};
use crate::names::texts;
use crate::text::{lowercase, to_lowercase};

verus! {

/// What `Url::parse` makes of `address`, by the host that `Url::host_str`
/// gives for the URL: `None` where the text is no absolute URL, `Some(None)`
/// where the URL has no host, and else `Some` of the host.
pub uninterp spec fn host_of(address: Seq<char>) -> Option<Option<Seq<char>>>;

/// `reqwest::Url::parse`, then `Url::host_str` on the URL it returns: `None`
/// where parsing fails, and else the host of the URL as text, where it has
/// one. The result is a function of the text alone.
#[verifier::external_body]
fn url_host(address: &str) -> (host: Option<Option<String>>)
    ensures
        match host {
            Some(Some(h)) => host_of(address@) == Some(Some(h@)),
            Some(None) => host_of(address@) == Some(None::<Seq<char>>),
            None => host_of(address@) is None,
        },
{
    match reqwest::Url::parse(address) {
        Ok(url) => Some(url.host_str().map(String::from)),
        Err(_) => None,
    }
}

/// What one archived address contributes: its host in lower case, if it has
/// one.
pub open spec fn host_name(address: Seq<char>) -> Seq<Seq<char>> {
    match host_of(address) {
        Some(Some(h)) => seq![lowercase(h)],
        _ => Seq::empty(),
    }
}

/// The hosts of the addresses, in order.
pub open spec fn host_names(addresses: Seq<Seq<char>>) -> Seq<Seq<char>>
    decreases addresses.len(),
{
    if addresses.len() == 0 {
        Seq::empty()
    } else {
        host_names(addresses.drop_last()) + host_name(addresses.last())
    }
}

/// Whether a text is no absolute URL.
pub open spec fn is_unreadable(address: Seq<char>) -> bool {
    host_of(address) is None
}

/// The discovery module for web.archive.org.
pub struct WebArchive;

impl WebArchive {
    /// The module; it holds no state.
    pub fn new() -> (m: Self)
        ensures
            m == WebArchive,
    {
        WebArchive
    }

    /// The lower-case hosts of the addresses that have one, in order.
    pub fn hosts(addresses: &Vec<String>) -> (out: Vec<String>)
        ensures
            texts(out@) == host_names(texts(addresses@)),
    {
        let mut out: Vec<String> = Vec::new();
        let ghost all = texts(addresses@);
        let mut i: usize = 0;
        assert(all.take(0) =~= Seq::<Seq<char>>::empty());
        assert(texts(out@) =~= host_names(all.take(0)));
        while i < addresses.len()
            invariant
                i <= addresses.len(),
                all == texts(addresses@),
                texts(out@) == host_names(all.take(i as int)),
            decreases addresses.len() - i,
        {
            let ghost before = texts(out@);
            proof {
                assert(all.take(i as int + 1).drop_last() =~= all.take(i as int));
                assert(all.take(i as int + 1).last() == all[i as int]);
            }
            match url_host(addresses[i].as_str()) {
                Some(Some(host)) => {
                    let name = to_lowercase(host.as_str());
                    out.push(name);
                    assert(texts(out@) =~= before + host_name(all[i as int]));
                },
                _ => {
                    assert(texts(out@) =~= before + host_name(all[i as int]));
                },
            }
            i += 1;
        }
        assert(all.take(addresses.len() as int) =~= all);
        out
    }
}

impl WebArchive {
    /// The archived addresses of an answer that cannot be read as absolute
    /// URLs, in order. They add no name; a caller may want to report them.
    pub fn unreadable(records: &Vec<Vec<String>>) -> (out: Vec<String>)
        ensures
            texts(out@) == cells(rows_from(records@, 1)).filter(
                |a: Seq<char>| is_unreadable(a),
            ),
    {
        let addresses = flatten(records, 1);
        let ghost all = texts(addresses@);
        let ghost bad = |a: Seq<char>| is_unreadable(a);
        let mut out: Vec<String> = Vec::new();
        let mut i: usize = 0;
        proof {
            reveal(Seq::filter);
            assert(all.take(0) =~= Seq::<Seq<char>>::empty());
            assert(texts(out@) =~= all.take(0).filter(bad));
        }
        while i < addresses.len()
            invariant
                i <= addresses.len(),
                all == texts(addresses@),
                bad == |a: Seq<char>| is_unreadable(a),
                texts(out@) == all.take(i as int).filter(bad),
            decreases addresses.len() - i,
        {
            let ghost before = texts(out@);
            proof {
                reveal(Seq::filter);
                assert(all.take(i as int + 1).drop_last() =~= all.take(i as int));
                assert(all.take(i as int + 1).last() == all[i as int]);
            }
            if url_host(addresses[i].as_str()).is_none() {
                out.push(addresses[i].clone());
                assert(texts(out@) =~= before.push(all[i as int]));
            }
            i += 1;
        }
        assert(all.take(addresses.len() as int) =~= all);
        out
    }
}

impl Module for WebArchive {
    open spec fn name_text(&self) -> Seq<char> {
        "subdomain/webarchive"@
    }

    open spec fn description_text(&self) -> Seq<char> {
        "Use web.archive.org to enumerate subdomains"@
    }

    fn name(&self) -> (r: String) {
        String::from_str("subdomain/webarchive")
    }

    fn description(&self) -> (r: String) {
        String::from_str("Use web.archive.org to enumerate subdomains")
    }
}

impl SubdomainModule for WebArchive {
    open spec fn query_text(&self, domain: Seq<char>) -> Seq<char> {
        "https://web.archive.org/cdx/search/cdx?matchType=domain&fl=original&output=json&collapse=urlkey&url="@
            + domain
    }

    /// The first record is the heading of the answer; every field of the
    /// records after it is an archived address.
    open spec fn candidates(&self, records: Seq<Vec<String>>) -> Seq<Seq<char>> {
        host_names(cells(rows_from(records, 1)))
    }

    fn query(&self, domain: &str) -> (url: String) {
        let mut url = String::from_str(
            "https://web.archive.org/cdx/search/cdx?matchType=domain&fl=original&output=json&collapse=urlkey&url=",
        );
        url.append(domain);
        url
    }

    fn enumerate(&self, domain: &str, status: u16, records: Option<Vec<Vec<String>>>) -> (r:
        Result<Vec<String>, EnumerateError>) {
        if !is_success(status) {
            return Err(EnumerateError::Status(status));
        }
        match records {
            None => Err(EnumerateError::Parse),
            Some(rows) => {
                let addresses = flatten(&rows, 1);
                let names = WebArchive::hosts(&addresses);
                Ok(distinct_without(names, domain))
            },
        }
    }
}

} // verus!
