//! The scan of a target, stage by stage: discovery, the resolution filter,
//! port probing, the checks, the report.
//!
//! Each stage is a value. It says what work is to be done on the network,
//! and `finish` takes the complete results of that work, in whatever order
//! they came back, and gives the next stage: no stage can begin before the
//! one before it has all its results.
use vstd::prelude::*;
use crate::modules::http::{
    kind_description, kind_name, FindingKind, HttpFindings, PatternError,
};
use crate::modules::{
    checks_compile, http_modules, kinds, registered_kinds, registered_sources,
    subdomain_modules, HttpModule, Module,
};
use crate::names::{ascending, is_wildcard, lemma_ascending_unique, texts, NameSet};
use crate::ports::{increasing, open_port_list, open_ports, port_candidates};
use crate::text::{
    decimal, decimal_text, has_char, lemma_lex_irreflexive, lex_lt, lowercase, to_lowercase,
};

verus! {

/// How many discovery modules may be at work at once.
pub const SUBDOMAIN_CONCURRENCY: usize = 20;

/// How many names may be looked up at once.
pub const DNS_CONCURRENCY: usize = 100;

/// How many hosts may be probed at once.
pub const PORT_CONCURRENCY: usize = 256;

/// How many checks may be at work at once.
pub const VULNERABILITY_CONCURRENCY: usize = 100;

/// Seconds after which an HTTP request counts as failed.
pub const REQUEST_TIMEOUT_SECS: u64 = 30;

/// A resolved host with its open ports.
pub struct Domain {
    name: String,
    open_ports: Vec<u16>,
}

impl View for Domain {
    type V = (Seq<char>, Seq<u16>);

    /// The host's name and its open ports.
    closed spec fn view(&self) -> (Seq<char>, Seq<u16>) {
        (self.name@, self.open_ports@)
    }
}

impl Domain {
    /// The open ports are candidate ports in strictly ascending order.
    #[verifier::type_invariant]
    spec fn probed(&self) -> bool {
        &&& increasing(self.open_ports@)
        &&& forall|p: u16| self.open_ports@.contains(p) ==> port_candidates().contains(p)
    }

    /// The record of `name` after the given attempts to connect, each a port
    /// and whether a connection to it was made.
    pub fn new(name: String, attempts: &Vec<(u16, bool)>) -> (d: Domain)
        ensures
            d@ == (name@, open_port_list(attempts@)),
    {
        Domain { name, open_ports: open_ports(attempts) }
    }

    /// The host's name.
    pub fn name(&self) -> (name: &String)
        ensures
            name@ == self@.0,
    {
        &self.name
    }

    /// The host's open ports: candidate ports, in strictly ascending order.
    pub fn open_ports(&self) -> (ports: &Vec<u16>)
        ensures
            ports@ == self@.1,
            increasing(ports@),
            forall|p: u16| ports@.contains(p) ==> port_candidates().contains(p),
    {
        proof {
            use_type_invariant(self);
        }
        &self.open_ports
    }
}

/// The names in lower case, wildcard patterns left out, in order.
pub open spec fn folded(names: Seq<Seq<char>>) -> Seq<Seq<char>> {
    Seq::new(names.len(), |i: int| lowercase(names[i])).filter(|n: Seq<char>| !is_wildcard(n))
}

/// What the discovery modules found, taken together: the names of every
/// output in lower case, wildcard patterns left out. A module that failed
/// adds nothing.
pub open spec fn discovered<E>(outputs: Seq<Result<Vec<String>, E>>) -> Seq<Seq<char>>
    decreases outputs.len(),
{
    if outputs.len() == 0 {
        Seq::empty()
    } else {
        discovered(outputs.drop_last()) + match outputs.last() {
            Ok(names) => folded(texts(names@)),
            Err(_) => Seq::empty(),
        }
    }
}

/// Whether `set` is the working set of a scan of `target` after discovery:
/// every name found other than the target, each once, in ascending order.
pub open spec fn working_set<E>(
    target: Seq<char>,
    outputs: Seq<Result<Vec<String>, E>>,
    set: Seq<Seq<char>>,
) -> bool {
    &&& ascending(set)
    &&& forall|n: Seq<char>|
        #![trigger set.contains(n)]
        #![trigger discovered(outputs).contains(n)]
        set.contains(n) <==> (n != target && discovered(outputs).contains(n))
}

/// Whether output `i` is a success whose name `j` is `n` when written in
/// lower case.
pub open spec fn proposes<E>(
    outputs: Seq<Result<Vec<String>, E>>,
    i: int,
    j: int,
    n: Seq<char>,
) -> bool {
    &&& 0 <= i < outputs.len()
    &&& outputs[i] matches Ok(names)
    &&& 0 <= j < names@.len()
    &&& lowercase(names@[j]@) == n
}

/// A name is discovered exactly when some module that succeeded proposed it,
/// in whatever case, and it is no wildcard pattern: neither the order of the
/// outputs nor the number of proposals matters.
pub proof fn lemma_discovered_members<E>(outputs: Seq<Result<Vec<String>, E>>, n: Seq<char>)
    ensures
        discovered(outputs).contains(n) <==> (!is_wildcard(n) && exists|i: int, j: int|
            proposes(outputs, i, j, n)),
    decreases outputs.len(),
{
    let all = discovered(outputs);
    let keep = |n: Seq<char>| !is_wildcard(n);
    if outputs.len() == 0 {
        if all.contains(n) {
            let k = choose|k: int| 0 <= k < all.len() && all[k] == n;
        }
    } else {
        let rest = outputs.drop_last();
        let head = discovered(rest);
        let last = outputs.len() - 1;
        lemma_discovered_members(rest, n);
        if all.contains(n) {
            let k = choose|k: int| 0 <= k < all.len() && all[k] == n;
            if k < head.len() {
                assert(head[k] == n);
                assert(head.contains(n));
                let (i, j) = choose|i: int, j: int| proposes(rest, i, j, n);
                assert(rest[i] == outputs[i]);
                assert(proposes(outputs, i, j, n));
            } else {
                match outputs.last() {
                    Ok(names) => {
                        let lower = Seq::new(names@.len(), |i: int| lowercase(texts(names@)[i]));
                        assert(lower.filter(keep)[k - head.len()] == n);
                        lower.lemma_filter_pred(keep, k - head.len());
                        assert(lower.filter(keep).contains(n));
                        lower.lemma_filter_contains_rev(keep, n);
                        let j = choose|j: int| 0 <= j < lower.len() && lower[j] == n;
                        assert(proposes(outputs, last, j, n));
                    },
                    Err(_) => {},
                }
            }
        }
        if !is_wildcard(n) && exists|i: int, j: int| proposes(outputs, i, j, n) {
            let (i, j) = choose|i: int, j: int| proposes(outputs, i, j, n);
            if i < last {
                assert(rest[i] == outputs[i]);
                assert(proposes(rest, i, j, n));
                assert(head.contains(n));
                let k = choose|k: int| 0 <= k < head.len() && head[k] == n;
                assert(all[k] == n);
            } else {
                let names = outputs[i]->Ok_0;
                let lower = Seq::new(names@.len(), |i: int| lowercase(texts(names@)[i]));
                assert(lower[j] == n);
                lower.lemma_filter_contains(keep, j);
                let kept = lower.filter(keep);
                let k = choose|k: int| 0 <= k < kept.len() && kept[k] == n;
                assert(all[head.len() + k] == n);
            }
        }
    }
}

/// The working set of a scan is settled by the target and the outputs of the
/// modules.
pub proof fn lemma_working_set_unique<E>(
    target: Seq<char>,
    outputs: Seq<Result<Vec<String>, E>>,
    a: Seq<Seq<char>>,
    b: Seq<Seq<char>>,
)
    requires
        working_set(target, outputs, a),
        working_set(target, outputs, b),
    ensures
        a == b,
{
    lemma_ascending_unique(a, b);
}

/// The names in lower case, wildcard patterns left out, in order.
fn fold_names(names: &Vec<String>) -> (out: Vec<String>)
    ensures
        texts(out@) == folded(texts(names@)),
{
    let ghost lower = Seq::new(names@.len(), |i: int| lowercase(texts(names@)[i]));
    let ghost keep = |n: Seq<char>| !is_wildcard(n);
    let mut out: Vec<String> = Vec::new();
    let mut i: usize = 0;
    proof {
        reveal(Seq::filter);
        assert(lower.take(0) =~= Seq::<Seq<char>>::empty());
        assert(texts(out@) =~= lower.take(0).filter(keep));
    }
    while i < names.len()
        invariant
            i <= names.len(),
            lower == Seq::new(names@.len(), |i: int| lowercase(texts(names@)[i])),
            keep == |n: Seq<char>| !is_wildcard(n),
            texts(out@) == lower.take(i as int).filter(keep),
        decreases names.len() - i,
    {
        let name = to_lowercase(names[i].as_str());
        let ghost before = texts(out@);
        proof {
            reveal(Seq::filter);
            assert(lower.take(i as int + 1).drop_last() =~= lower.take(i as int));
            assert(lower.take(i as int + 1).last() == name@);
        }
        if !has_char(name.as_str(), '*') {
            out.push(name);
            assert(texts(out@) =~= before.push(lower[i as int]));
        }
        i += 1;
    }
    assert(lower.take(names.len() as int) =~= lower);
    out
}

/// The first stage: the discovery modules are asked about the target.
pub struct Discovery {
    target: String,
}

impl Discovery {
    /// The target of the scan.
    pub closed spec fn target_text(&self) -> Seq<char> {
        self.target@
    }

    /// The target of the scan.
    pub fn target(&self) -> (target: &String)
        ensures
            target@ == self.target_text(),
    {
        &self.target
    }

    /// Takes what each discovery module returned and gives the stage that
    /// awaits the resolution of the candidates: every name found, in lower
    /// case and once, but for wildcard patterns and the target itself.
    pub fn finish<E>(self, outputs: Vec<Result<Vec<String>, E>>) -> (next: Resolution)
        ensures
            working_set(self.target_text(), outputs@, next@),
            !next@.contains(self.target_text()),
            forall|n: Seq<char>| next@.contains(n) ==> !is_wildcard(n),
    {
        let mut all: Vec<String> = Vec::new();
        let mut i: usize = 0;
        assert(outputs@.take(0) =~= Seq::<Result<Vec<String>, E>>::empty());
        assert(texts(all@) =~= discovered(outputs@.take(0)));
        while i < outputs.len()
            invariant
                i <= outputs.len(),
                texts(all@) == discovered(outputs@.take(i as int)),
            decreases outputs.len() - i,
        {
            let ghost before = texts(all@);
            proof {
                assert(outputs@.take(i as int + 1).drop_last() =~= outputs@.take(i as int));
                assert(outputs@.take(i as int + 1).last() == outputs@[i as int]);
            }
            match &outputs[i] {
                Ok(names) => {
                    let mut part = fold_names(names);
                    let ghost added = texts(part@);
                    all.append(&mut part);
                    assert(texts(all@) =~= before + added);
                },
                Err(_) => {
                    assert(texts(all@) =~= before + Seq::<Seq<char>>::empty());
                },
            }
            i += 1;
        }
        assert(outputs@.take(outputs.len() as int) =~= outputs@);
        let mut candidates = NameSet::from_names(all);
        let _ = candidates.remove(self.target.as_str());
        let next = Resolution { candidates };
        proof {
            assert forall|n: Seq<char>| next@.contains(n) implies !is_wildcard(n) by {
                lemma_discovered_members(outputs@, n);
            }
        }
        next
    }
}

/// Begins the scan of `target`, which is taken in lower case.
pub fn scan(target: &str) -> (stage: Discovery)
    ensures
        stage.target_text() == lowercase(target@),
{
    Discovery { target: to_lowercase(target) }
}

/// The second stage: the candidates are looked up.
pub struct Resolution {
    candidates: NameSet,
}

impl View for Resolution {
    type V = Seq<Seq<char>>;

    /// The candidates, in ascending order.
    closed spec fn view(&self) -> Seq<Seq<char>> {
        self.candidates@
    }
}

/// Whether a lookup of `name` was answered.
pub open spec fn answered(lookups: Seq<(String, bool)>, name: Seq<char>) -> bool {
    exists|k: int| 0 <= k < lookups.len() && (#[trigger] lookups[k]).1 && lookups[k].0@ == name
}

/// Whether `hosts` are the resolved hosts among `candidates`: those with an
/// answered lookup, each once, in ascending order.
pub open spec fn resolved(
    candidates: Seq<Seq<char>>,
    lookups: Seq<(String, bool)>,
    hosts: Seq<Seq<char>>,
) -> bool {
    &&& ascending(hosts)
    &&& forall|n: Seq<char>|
        #![trigger hosts.contains(n)]
        #![trigger candidates.contains(n)]
        hosts.contains(n) <==> (candidates.contains(n) && answered(lookups, n))
}

/// The resolved hosts are settled by the candidates and by which lookups
/// were answered, in whatever order the outcomes came back.
pub proof fn lemma_resolved_unique(
    candidates: Seq<Seq<char>>,
    first: Seq<(String, bool)>,
    second: Seq<(String, bool)>,
    a: Seq<Seq<char>>,
    b: Seq<Seq<char>>,
)
    requires
        forall|n: Seq<char>| answered(first, n) <==> answered(second, n),
        resolved(candidates, first, a),
        resolved(candidates, second, b),
    ensures
        a == b,
{
    lemma_ascending_unique(a, b);
}

/// Whether `name` stands at exactly one position of `names`.
pub open spec fn occurs_once(names: Seq<Seq<char>>, name: Seq<char>) -> bool {
    exists|i: int|
        0 <= i < names.len() && #[trigger] names[i] == name && forall|j: int|
            0 <= j < names.len() && #[trigger] names[j] == name ==> j == i
}

/// The resolution filter keeps what resolves, once: a name whose lookup was
/// not answered is absent from the resolved hosts, and a discovered name
/// whose lookup was answered is among them exactly once, however many
/// modules proposed it and however often.
pub proof fn lemma_resolved_once<E>(
    target: Seq<char>,
    outputs: Seq<Result<Vec<String>, E>>,
    lookups: Seq<(String, bool)>,
    candidates: Seq<Seq<char>>,
    hosts: Seq<Seq<char>>,
    name: Seq<char>,
)
    requires
        working_set(target, outputs, candidates),
        resolved(candidates, lookups, hosts),
    ensures
        !answered(lookups, name) ==> !hosts.contains(name),
        discovered(outputs).contains(name) && name != target && answered(lookups, name)
            ==> occurs_once(hosts, name),
{
    if discovered(outputs).contains(name) && name != target && answered(lookups, name) {
        assert(candidates.contains(name));
        assert(hosts.contains(name));
        let i = choose|i: int| 0 <= i < hosts.len() && hosts[i] == name;
        assert forall|j: int| 0 <= j < hosts.len() && #[trigger] hosts[j] == name implies j
            == i by {
            lemma_lex_irreflexive(name);
            if j < i {
                assert(lex_lt(hosts[j], hosts[i]));
            } else if i < j {
                assert(lex_lt(hosts[i], hosts[j]));
            }
        }
    }
}

impl Resolution {
    /// The names to look up, in ascending order and each once.
    pub fn candidates(&self) -> (names: &Vec<String>)
        ensures
            texts(names@) == self@,
            ascending(self@),
    {
        self.candidates.as_vec()
    }

    /// Takes the outcome of every lookup, a name and whether it was answered,
    /// and gives the stage that awaits the probing of the hosts: the
    /// candidates with an answered lookup, each once. A name without one is
    /// dropped, whatever kept the answer away.
    pub fn finish(self, lookups: Vec<(String, bool)>) -> (next: PortProbing)
        ensures
            resolved(self@, lookups@, next@),
    {
        let mut hosts = NameSet::new();
        let mut i: usize = 0;
        while i < lookups.len()
            invariant
                i <= lookups.len(),
                ascending(hosts@),
                forall|n: Seq<char>|
                    hosts@.contains(n) <==> (self@.contains(n) && answered(
                        lookups@.take(i as int),
                        n,
                    )),
            decreases lookups.len() - i,
        {
            let ghost seen = lookups@.take(i as int);
            let ghost more = lookups@.take(i as int + 1);
            let ghost name = lookups@[i as int].0@;
            let kept = lookups[i].1 && self.candidates.contains(lookups[i].0.as_str());
            if kept {
                let _ = hosts.insert(lookups[i].0.clone());
            }
            proof {
                let positive = lookups@[i as int].1;
                assert forall|n: Seq<char>|
                    answered(more, n) <==> (answered(seen, n) || (positive && n == name)) by {
                    if answered(seen, n) {
                        let k = choose|k: int|
                            0 <= k < seen.len() && (#[trigger] seen[k]).1 && seen[k].0@ == n;
                        assert(more[k] == seen[k]);
                    }
                    if positive && n == name {
                        assert(more[i as int] == lookups@[i as int]);
                    }
                    if answered(more, n) {
                        let k = choose|k: int|
                            0 <= k < more.len() && (#[trigger] more[k]).1 && more[k].0@ == n;
                        if k < i {
                            assert(seen[k] == more[k]);
                        }
                    }
                }
            }
            i += 1;
        }
        assert(lookups@.take(lookups.len() as int) =~= lookups@);
        PortProbing { hosts }
    }
}

/// What probing one host brought.
pub struct HostProbe {
    /// The host.
    pub host: String,
    /// Each candidate port with whether a connection to it was made; `None`
    /// where no address could be had for the host.
    pub attempts: Option<Vec<(u16, bool)>>,
}

/// The open ports of `host` by its first report among `probes`; `None` where
/// there is no report of it, or that report has no attempts.
pub open spec fn probed_ports(probes: Seq<HostProbe>, host: Seq<char>) -> Option<Seq<u16>>
    decreases probes.len(),
{
    if probes.len() == 0 {
        None
    } else if probes[0].host@ == host {
        match probes[0].attempts {
            Some(attempts) => Some(open_port_list(attempts@)),
            None => None,
        }
    } else {
        probed_ports(probes.drop_first(), host)
    }
}

/// The records of the hosts, in their order: one for each host whose ports
/// were probed, a host with no open port included.
pub open spec fn records(hosts: Seq<Seq<char>>, probes: Seq<HostProbe>) -> Seq<
    (Seq<char>, Seq<u16>),
>
    decreases hosts.len(),
{
    if hosts.len() == 0 {
        Seq::empty()
    } else {
        records(hosts.drop_last(), probes) + match probed_ports(probes, hosts.last()) {
            Some(ports) => seq![(hosts.last(), ports)],
            None => Seq::empty(),
        }
    }
}

/// The records by their names and ports.
pub open spec fn record_views(domains: Seq<Domain>) -> Seq<(Seq<char>, Seq<u16>)> {
    Seq::new(domains.len(), |i: int| domains[i]@)
}

/// The position of the first report of `host`.
fn first_report(probes: &Vec<HostProbe>, host: &String) -> (at: Option<usize>)
    ensures
        match at {
            Some(k) => k < probes.len() && probes@[k as int].host@ == host@ && probed_ports(
                probes@,
                host@,
            ) == match probes@[k as int].attempts {
                Some(attempts) => Some(open_port_list(attempts@)),
                None => None,
            },
            None => probed_ports(probes@, host@) is None,
        },
{
    let mut k: usize = 0;
    assert(probes@.skip(0) =~= probes@);
    while k < probes.len()
        invariant
            k <= probes.len(),
            probed_ports(probes@, host@) == probed_ports(probes@.skip(k as int), host@),
        decreases probes.len() - k,
    {
        assert(probes@.skip(k as int).drop_first() =~= probes@.skip(k as int + 1));
        assert(probes@.skip(k as int)[0] == probes@[k as int]);
        if probes[k].host == *host {
            return Some(k);
        }
        k += 1;
    }
    None
}

/// The third stage: the resolved hosts are probed.
pub struct PortProbing {
    hosts: NameSet,
}

impl View for PortProbing {
    type V = Seq<Seq<char>>;

    /// The resolved hosts, in ascending order.
    closed spec fn view(&self) -> Seq<Seq<char>> {
        self.hosts@
    }
}

impl PortProbing {
    /// The hosts to probe, in ascending order and each once.
    pub fn hosts(&self) -> (names: &Vec<String>)
        ensures
            texts(names@) == self@,
            ascending(self@),
    {
        self.hosts.as_vec()
    }

    /// Takes the report on every host and gives the stage that awaits the
    /// checks: one record for each host that was probed, in the order of the
    /// hosts. A host for which no address could be had has no record.
    pub fn finish(self, probes: Vec<HostProbe>) -> (next: Scanning)
        ensures
            next@ == records(self@, probes@),
    {
        let hosts = self.hosts.as_vec();
        let ghost all = texts(hosts@);
        let mut domains: Vec<Domain> = Vec::new();
        let mut i: usize = 0;
        assert(all.take(0) =~= Seq::<Seq<char>>::empty());
        assert(record_views(domains@) =~= records(all.take(0), probes@));
        while i < hosts.len()
            invariant
                i <= hosts.len(),
                all == texts(hosts@),
                record_views(domains@) == records(all.take(i as int), probes@),
            decreases hosts.len() - i,
        {
            let ghost before = record_views(domains@);
            proof {
                assert(all.take(i as int + 1).drop_last() =~= all.take(i as int));
                assert(all.take(i as int + 1).last() == all[i as int]);
            }
            let mut added = false;
            match first_report(&probes, &hosts[i]) {
                Some(k) => {
                    match &probes[k].attempts {
                        Some(attempts) => {
                            let domain = Domain::new(hosts[i].clone(), attempts);
                            domains.push(domain);
                            added = true;
                            assert(record_views(domains@) =~= before.push(
                                (all[i as int], open_port_list(attempts@)),
                            ));
                        },
                        None => {},
                    }
                },
                None => {},
            }
            proof {
                if !added {
                    assert(record_views(domains@) =~= before + Seq::<
                        (Seq<char>, Seq<u16>),
                    >::empty());
                } else {
                    let ports = probed_ports(probes@, all[i as int])->0;
                    assert(before.push((all[i as int], ports)) =~= before + seq![
                        (all[i as int], ports),
                    ]);
                }
            }
            i += 1;
        }
        assert(all.take(hosts.len() as int) =~= all);
        Scanning { domains }
    }
}

/// One check of one endpoint.
pub struct ScanTask {
    /// The position of the check among the registered checks.
    pub module: usize,
    /// The endpoint: the host, a colon, and the port in decimal.
    pub endpoint: String,
}

impl View for ScanTask {
    type V = (int, Seq<char>);

    open spec fn view(&self) -> (int, Seq<char>) {
        (self.module as int, self.endpoint@)
    }
}

/// The endpoint of a port on a host.
pub open spec fn endpoint(host: Seq<char>, port: u16) -> Seq<char> {
    host + ":"@ + decimal(port as nat)
}

/// The tasks for one endpoint: one for each of the `modules` checks.
pub open spec fn port_tasks(host: Seq<char>, port: u16, modules: nat) -> Seq<(int, Seq<char>)> {
    Seq::new(modules, |j: int| (j, endpoint(host, port)))
}

/// The tasks for one host: those of each of its open ports, in order.
pub open spec fn host_tasks(host: Seq<char>, ports: Seq<u16>, modules: nat) -> Seq<
    (int, Seq<char>),
>
    decreases ports.len(),
{
    if ports.len() == 0 {
        Seq::empty()
    } else {
        host_tasks(host, ports.drop_last(), modules) + port_tasks(host, ports.last(), modules)
    }
}

/// The tasks of a scan: every open port of every host with every check.
pub open spec fn tasks_of(domains: Seq<(Seq<char>, Seq<u16>)>, modules: nat) -> Seq<
    (int, Seq<char>),
>
    decreases domains.len(),
{
    if domains.len() == 0 {
        Seq::empty()
    } else {
        tasks_of(domains.drop_last(), modules) + host_tasks(
            domains.last().0,
            domains.last().1,
            modules,
        )
    }
}

/// The tasks by their checks and endpoints.
pub open spec fn task_views(tasks: Seq<ScanTask>) -> Seq<(int, Seq<char>)> {
    Seq::new(tasks.len(), |i: int| tasks[i]@)
}

/// A host has one task for each pair of an open port and a check, and none
/// for any other port.
pub proof fn lemma_host_tasks(host: Seq<char>, ports: Seq<u16>, modules: nat)
    ensures
        host_tasks(host, ports, modules).len() == ports.len() * modules,
        forall|k: int|
            0 <= k < host_tasks(host, ports, modules).len() ==> {
                let task = #[trigger] host_tasks(host, ports, modules)[k];
                &&& 0 <= task.0 < modules
                &&& exists|i: int| 0 <= i < ports.len() && task.1 == endpoint(host, #[trigger] ports[i])
            },
    decreases ports.len(),
{
    if ports.len() > 0 {
        let head = host_tasks(host, ports.drop_last(), modules);
        let all = host_tasks(host, ports, modules);
        lemma_host_tasks(host, ports.drop_last(), modules);
        assert(all.len() == ports.len() * modules) by (nonlinear_arith)
            requires
                all.len() == (ports.len() - 1) * modules + modules,
        ;
        assert forall|k: int| 0 <= k < all.len() implies {
            let task = #[trigger] all[k];
            &&& 0 <= task.0 < modules
            &&& exists|i: int| 0 <= i < ports.len() && task.1 == endpoint(host, #[trigger] ports[i])
        } by {
            if k < head.len() {
                let task = head[k];
                assert(all[k] == task);
                let i = choose|i: int|
                    0 <= i < ports.drop_last().len() && task.1 == endpoint(
                        host,
                        #[trigger] ports.drop_last()[i],
                    );
                assert(ports[i] == ports.drop_last()[i]);
            } else {
                assert(all[k].1 == endpoint(host, ports[ports.len() - 1]));
            }
        }
    }
}

/// The number of open ports of the hosts together.
pub open spec fn port_count(domains: Seq<(Seq<char>, Seq<u16>)>) -> nat
    decreases domains.len(),
{
    if domains.len() == 0 {
        0
    } else {
        port_count(domains.drop_last()) + domains.last().1.len()
    }
}

/// A scan has one task for each pair of an open port and a check.
pub proof fn lemma_task_count(domains: Seq<(Seq<char>, Seq<u16>)>, modules: nat)
    ensures
        tasks_of(domains, modules).len() == port_count(domains) * modules,
    decreases domains.len(),
{
    if domains.len() > 0 {
        lemma_task_count(domains.drop_last(), modules);
        lemma_host_tasks(domains.last().0, domains.last().1, modules);
        let a = port_count(domains.drop_last());
        let b = domains.last().1.len();
        assert((a + b) * modules == a * modules + b * modules) by (nonlinear_arith);
    } else {
        assert(0 * modules == 0) by (nonlinear_arith);
    }
}

/// The findings among the results of the checks, in order: a check that
/// found nothing and a check that failed both add nothing.
pub open spec fn positives<E>(results: Seq<Result<Option<HttpFindings>, E>>) -> Seq<
    (FindingKind, Seq<char>),
>
    decreases results.len(),
{
    if results.len() == 0 {
        Seq::empty()
    } else {
        positives(results.drop_last()) + match results.last() {
            Ok(Some(finding)) => seq![finding@],
            Ok(None) => Seq::empty(),
            Err(_) => Seq::empty(),
        }
    }
}

/// The findings are those of the checks that succeeded with one, and no
/// others.
pub proof fn lemma_positives<E>(
    results: Seq<Result<Option<HttpFindings>, E>>,
    finding: (FindingKind, Seq<char>),
)
    ensures
        positives(results).contains(finding) <==> exists|i: int|
            0 <= i < results.len() && (#[trigger] results[i] matches Ok(Some(f)) && f@ == finding),
    decreases results.len(),
{
    let all = positives(results);
    if results.len() > 0 {
        let head = results.drop_last();
        let found = positives(head);
        lemma_positives(head, finding);
        if all.contains(finding) {
            let k = choose|k: int| 0 <= k < all.len() && all[k] == finding;
            if k < found.len() {
                assert(found[k] == finding);
                assert(found.contains(finding));
                let i = choose|i: int|
                    0 <= i < head.len() && (#[trigger] head[i] matches Ok(Some(f)) && f@ == finding);
                assert(results[i] == head[i]);
            } else {
                assert(results[results.len() - 1] == results.last());
            }
        }
        if exists|i: int|
            0 <= i < results.len() && (#[trigger] results[i] matches Ok(Some(f)) && f@
                == finding) {
            let i = choose|i: int|
                0 <= i < results.len() && (#[trigger] results[i] matches Ok(Some(f)) && f@
                    == finding);
            if i < head.len() {
                assert(head[i] == results[i]);
                assert(found.contains(finding));
                let k = choose|k: int| 0 <= k < found.len() && found[k] == finding;
                assert(all[k] == finding);
            } else {
                assert(all[all.len() - 1] == finding);
            }
        }
    } else {
        if all.contains(finding) {
            let k = choose|k: int| 0 <= k < all.len() && all[k] == finding;
        }
    }
}

/// The findings by their kinds and addresses.
pub open spec fn finding_views(findings: Seq<HttpFindings>) -> Seq<(FindingKind, Seq<char>)> {
    Seq::new(findings.len(), |i: int| findings[i]@)
}

/// The endpoint of a port on a host.
fn endpoint_text(host: &String, port: u16) -> (text: String)
    ensures
        text@ == endpoint(host@, port),
{
    let mut text = host.clone();
    text.append(":");
    text.append(decimal_text(port).as_str());
    text
}

/// The fourth stage: the checks are run against the open ports.
pub struct Scanning {
    domains: Vec<Domain>,
}

impl View for Scanning {
    type V = Seq<(Seq<char>, Seq<u16>)>;

    /// The records of the probed hosts.
    closed spec fn view(&self) -> Seq<(Seq<char>, Seq<u16>)> {
        record_views(self.domains@)
    }
}

impl Scanning {
    /// The records of the probed hosts.
    pub fn domains(&self) -> (domains: &Vec<Domain>)
        ensures
            record_views(domains@) == self@,
    {
        &self.domains
    }

    /// The tasks of this stage when `modules` checks are registered: every
    /// open port of every host with every check, so that a host without an
    /// open port has none.
    pub fn tasks(&self, modules: usize) -> (tasks: Vec<ScanTask>)
        ensures
            task_views(tasks@) == tasks_of(self@, modules as nat),
    {
        let ghost all = record_views(self.domains@);
        let mut tasks: Vec<ScanTask> = Vec::new();
        let mut d: usize = 0;
        assert(all.take(0) =~= Seq::<(Seq<char>, Seq<u16>)>::empty());
        assert(task_views(tasks@) =~= tasks_of(all.take(0), modules as nat));
        while d < self.domains.len()
            invariant
                d <= self.domains.len(),
                all == record_views(self.domains@),
                task_views(tasks@) == tasks_of(all.take(d as int), modules as nat),
            decreases self.domains.len() - d,
        {
            let domain = &self.domains[d];
            let ports = domain.open_ports();
            let ghost host = domain@.0;
            let ghost done = task_views(tasks@);
            let mut p: usize = 0;
            proof {
                assert(all.take(d as int + 1).drop_last() =~= all.take(d as int));
                assert(all.take(d as int + 1).last() == all[d as int]);
                assert(ports@.take(0) =~= Seq::<u16>::empty());
                assert(task_views(tasks@) =~= done + host_tasks(
                    host,
                    ports@.take(0),
                    modules as nat,
                ));
            }
            while p < ports.len()
                invariant
                    p <= ports.len(),
                    host == domain@.0,
                    task_views(tasks@) == done + host_tasks(
                        host,
                        ports@.take(p as int),
                        modules as nat,
                    ),
                decreases ports.len() - p,
            {
                let ghost ready = task_views(tasks@);
                let mut m: usize = 0;
                proof {
                    assert(ports@.take(p as int + 1).drop_last() =~= ports@.take(p as int));
                    assert(ports@.take(p as int + 1).last() == ports@[p as int]);
                    assert(task_views(tasks@) =~= ready + port_tasks(
                        host,
                        ports@[p as int],
                        0,
                    ));
                }
                while m < modules
                    invariant
                        m <= modules,
                        p < ports.len(),
                        host == domain@.0,
                        task_views(tasks@) == ready + port_tasks(host, ports@[p as int], m as nat),
                    decreases modules - m,
                {
                    let ghost filled = task_views(tasks@);
                    let task = ScanTask { module: m, endpoint: endpoint_text(domain.name(), ports[p]) };
                    tasks.push(task);
                    assert(task_views(tasks@) =~= filled.push(
                        (m as int, endpoint(host, ports@[p as int])),
                    ));
                    m += 1;
                    assert(task_views(tasks@) =~= ready + port_tasks(
                        host,
                        ports@[p as int],
                        m as nat,
                    ));
                }
                assert(ready + port_tasks(host, ports@[p as int], modules as nat) =~= done
                    + (host_tasks(host, ports@.take(p as int), modules as nat) + port_tasks(
                    host,
                    ports@[p as int],
                    modules as nat,
                )));
                p += 1;
            }
            proof {
                assert(ports@.take(ports.len() as int) =~= ports@);
            }
            d += 1;
        }
        assert(all.take(self.domains.len() as int) =~= all);
        tasks
    }

    /// Takes the result of every check and gives the report: the records as
    /// they were, and the findings. Only a check that succeeded with a
    /// finding adds one.
    pub fn finish<E>(self, results: Vec<Result<Option<HttpFindings>, E>>) -> (report: Report)
        ensures
            report@.0 == self@,
            report@.1 == positives(results@),
    {
        let mut findings: Vec<HttpFindings> = Vec::new();
        let mut i: usize = 0;
        assert(results@.take(0) =~= Seq::<Result<Option<HttpFindings>, E>>::empty());
        assert(finding_views(findings@) =~= positives(results@.take(0)));
        while i < results.len()
            invariant
                i <= results.len(),
                finding_views(findings@) == positives(results@.take(i as int)),
            decreases results.len() - i,
        {
            let ghost before = finding_views(findings@);
            proof {
                assert(results@.take(i as int + 1).drop_last() =~= results@.take(i as int));
                assert(results@.take(i as int + 1).last() == results@[i as int]);
            }
            match &results[i] {
                Ok(Some(finding)) => {
                    findings.push(finding.clone());
                    assert(finding_views(findings@) =~= before + seq![finding@]);
                },
                Ok(None) => {
                    assert(finding_views(findings@) =~= before + Seq::<
                        (FindingKind, Seq<char>),
                    >::empty());
                },
                Err(_) => {
                    assert(finding_views(findings@) =~= before + Seq::<
                        (FindingKind, Seq<char>),
                    >::empty());
                },
            }
            i += 1;
        }
        assert(results@.take(results.len() as int) =~= results@);
        Report { domains: self.domains, findings }
    }
}

/// The last stage: what the scan found.
pub struct Report {
    domains: Vec<Domain>,
    findings: Vec<HttpFindings>,
}

impl View for Report {
    type V = (Seq<(Seq<char>, Seq<u16>)>, Seq<(FindingKind, Seq<char>)>);

    /// The records of the probed hosts, and the findings.
    closed spec fn view(&self) -> (Seq<(Seq<char>, Seq<u16>)>, Seq<(FindingKind, Seq<char>)>) {
        (record_views(self.domains@), finding_views(self.findings@))
    }
}

impl Report {
    /// The resolved hosts with their open ports.
    pub fn domains(&self) -> (domains: &Vec<Domain>)
        ensures
            record_views(domains@) == self@.0,
    {
        &self.domains
    }

    /// The findings.
    pub fn findings(&self) -> (findings: &Vec<HttpFindings>)
        ensures
            finding_views(findings@) == self@.1,
    {
        &self.findings
    }
}

/// The line of a module in the listing: a tab, the module's name, a colon
/// and a space, and its description.
pub open spec fn entry<M: Module>(module: M) -> Seq<char> {
    "\t"@ + module.name_text() + ": "@ + module.description_text()
}

/// A section of the listing: its heading, then the line of each module.
pub open spec fn section<M: Module>(heading: Seq<char>, modules: Seq<M>) -> Seq<Seq<char>> {
    seq![heading] + Seq::new(modules.len(), |i: int| entry(modules[i]))
}

/// Adds a section of the listing to `lines`.
fn list<M: Module>(heading: &str, modules: &Vec<M>, lines: &mut Vec<String>)
    ensures
        texts(final(lines)@) == texts(old(lines)@) + section(heading@, modules@),
{
    let ghost before = texts(lines@);
    lines.push(String::from_str(heading));
    let mut i: usize = 0;
    assert(texts(lines@) =~= before + section(heading@, modules@.take(0)));
    while i < modules.len()
        invariant
            i <= modules.len(),
            texts(lines@) == before + section(heading@, modules@.take(i as int)),
        decreases modules.len() - i,
    {
        let ghost listed = texts(lines@);
        let mut line = String::from_str("\t");
        line.append(modules[i].name().as_str());
        line.append(": ");
        line.append(modules[i].description().as_str());
        assert(line@ =~= entry(modules@[i as int]));
        lines.push(line);
        assert(texts(lines@) =~= listed.push(entry(modules@[i as int])));
        i += 1;
        assert(texts(lines@) =~= before + section(heading@, modules@.take(i as int)));
    }
    assert(modules@.take(modules.len() as int) =~= modules@);
}

/// The line of a check in the listing.
pub open spec fn kind_entry(kind: FindingKind) -> Seq<char> {
    "\t"@ + kind_name(kind) + ": "@ + kind_description(kind)
}

/// The section of the checks in the listing: its heading, then the line of
/// each check.
pub open spec fn kind_section(heading: Seq<char>, kinds: Seq<FindingKind>) -> Seq<Seq<char>> {
    seq![heading] + Seq::new(kinds.len(), |i: int| kind_entry(kinds[i]))
}

/// The listing of the available modules, line by line: the discovery
/// modules under their heading, then the checks under theirs. It fails where
/// the registry of the checks cannot be built.
pub fn modules() -> (r: Result<Vec<String>, PatternError>)
    ensures
        r is Ok <==> checks_compile(),
        r matches Ok(lines) ==> texts(lines@) == section(
            "Subdomain Modules"@,
            registered_sources(),
        ) + kind_section("HTTP Modules"@, registered_kinds()),
{
    let checks = match http_modules() {
        Ok(checks) => checks,
        Err(e) => {
            return Err(e);
        },
    };
    let mut lines: Vec<String> = Vec::new();
    assert(texts(lines@) =~= Seq::<Seq<char>>::empty());
    list("Subdomain Modules", &subdomain_modules(), &mut lines);
    list("HTTP Modules", &checks, &mut lines);
    proof {
        assert(kinds(checks@).len() == 4);
        assert forall|i: int| 0 <= i < 4 implies entry(checks@[i]) == kind_entry(
            #[trigger] registered_kinds()[i],
        ) by {
            assert(kinds(checks@)[i] == checks@[i].kind());
        }
        assert(section("HTTP Modules"@, checks@) =~= kind_section(
            "HTTP Modules"@,
            registered_kinds(),
        ));
        assert(texts(lines@) =~= section("Subdomain Modules"@, registered_sources())
            + kind_section("HTTP Modules"@, registered_kinds()));
    }
    Ok(lines)
}

} // verus!
