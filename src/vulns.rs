//! Vulnerability alerts of an organization's repositories, and the report
//! that has a column for each ecosystem seen.

use vstd::prelude::*;

use crate::content::{strings_view, CellView, Content, RowItem};
use crate::error::ScanError;
use crate::labels::{ecosystem_label, severity_label, Ecosystem, Severity};
use crate::order::{lemma_lex_irreflexive, lemma_lex_total, lemma_lex_transitive, lex_lt, str_eq, str_lt};
use crate::paging::PageInfo;

verus! {

/// One vulnerability alert of a repository, as text labels.
#[derive(Debug, Clone)]
pub struct VulnInfo {
    pub ecosystem: String,
    pub package: String,
    pub current_requirements: String,
    pub vulnerable_range: String,
    pub severity: String,
}

/// A repository and its vulnerability alerts.
#[derive(Debug, Clone)]
pub struct VulnRepo {
    pub name: String,
    pub is_archived: bool,
    pub vulns: Vec<VulnInfo>,
}

/// A vulnerable package, as the query API reports it.
#[derive(Debug, Clone)]
pub struct Package {
    pub ecosystem: Ecosystem,
    pub name: String,
}

/// The advisory behind an alert, as the query API reports it.
#[derive(Debug, Clone)]
pub struct SecurityVulnerability {
    pub package: Package,
    pub severity: Severity,
    pub vulnerable_version_range: String,
}

/// One vulnerability alert, as the query API reports it.
#[derive(Debug, Clone)]
pub struct AlertNode {
    pub vulnerable_requirements: Option<String>,
    pub security_vulnerability: Option<SecurityVulnerability>,
}

/// The vulnerability alerts of a repository, as the query API reports them.
#[derive(Debug, Clone)]
pub struct AlertConnection {
    pub nodes: Option<Vec<Option<AlertNode>>>,
}

/// A repository, as the vulnerabilities query reports it.
#[derive(Debug, Clone)]
pub struct VulnNode {
    pub name: String,
    pub is_archived: bool,
    pub vulnerability_alerts: Option<AlertConnection>,
}

/// One page of the vulnerabilities query.
#[derive(Debug, Clone)]
pub struct VulnPage {
    pub nodes: Option<Vec<Option<VulnNode>>>,
    pub page_info: PageInfo,
}

/// The alert is there, with the fields that the query always asks for.
pub open spec fn alert_complete(a: Option<AlertNode>) -> bool {
    a matches Some(n) && n.vulnerable_requirements is Some && n.security_vulnerability is Some
}

/// `v` is the flat form of the alert `a`.
pub open spec fn vuln_matches(v: VulnInfo, a: AlertNode) -> bool {
    let sv = a.security_vulnerability->Some_0;
    &&& v.ecosystem@ == ecosystem_label(sv.package.ecosystem)
    &&& v.package@ == sv.package.name@
    &&& v.current_requirements@ == a.vulnerable_requirements->Some_0@
    &&& v.vulnerable_range@ == sv.vulnerable_version_range@
    &&& v.severity@ == severity_label(sv.severity)
}

/// The alert slots of a connection; none where it reports no list.
pub open spec fn connection_alerts(c: AlertConnection) -> Seq<Option<AlertNode>> {
    match c.nodes {
        Some(v) => v@,
        None => Seq::empty(),
    }
}

/// The alert slots of a repository; none where it reports no connection.
pub open spec fn node_alerts(n: VulnNode) -> Seq<Option<AlertNode>> {
    match n.vulnerability_alerts {
        Some(c) => connection_alerts(c),
        None => Seq::empty(),
    }
}

pub open spec fn alerts_complete(s: Seq<Option<AlertNode>>) -> bool {
    forall|i: int| 0 <= i < s.len() ==> alert_complete(#[trigger] s[i])
}

/// The vulnerabilities are the flat form of the alerts.
pub open spec fn vulns_match(vs: Seq<VulnInfo>, als: Seq<Option<AlertNode>>) -> bool {
    vs.len() == als.len() && forall|i: int| 0 <= i < vs.len() ==> vuln_matches(#[trigger] vs[i], als[i]->Some_0)
}

/// `r` is the flat form of `n`.
pub open spec fn vuln_repo_matches(r: VulnRepo, n: VulnNode) -> bool {
    r.name@ == n.name@ && r.is_archived == n.is_archived && vulns_match(r.vulns@, node_alerts(n))
}

/// The repository slots of a page; none where it reports no list.
pub open spec fn vuln_page_nodes(p: VulnPage) -> Seq<Option<VulnNode>> {
    match p.nodes {
        Some(v) => v@,
        None => Seq::empty(),
    }
}

/// No slot of the page is absent, and every alert of its repositories is
/// complete.
pub open spec fn vuln_page_complete(p: VulnPage) -> bool {
    (forall|i: int| 0 <= i < vuln_page_nodes(p).len() ==> #[trigger] vuln_page_nodes(p)[i] is Some)
        && forall|i: int|
        0 <= i < vuln_page_nodes(p).len() ==> alerts_complete(
            node_alerts(#[trigger] vuln_page_nodes(p)[i]->Some_0),
        )
}

/// The flat form of one alert.
fn vuln_of_alert(alert: &AlertNode) -> (r: Result<VulnInfo, ScanError>)
    ensures
        alert_complete(Some(*alert)) ==> (r matches Ok(v) && vuln_matches(v, *alert)),
        !alert_complete(Some(*alert)) ==> r == Err::<VulnInfo, ScanError>(ScanError::MalformedResponse),
{
    match (&alert.vulnerable_requirements, &alert.security_vulnerability) {
        (Some(req), Some(sv)) => Ok(
            VulnInfo {
                ecosystem: sv.package.ecosystem.label(),
                package: sv.package.name.clone(),
                current_requirements: req.clone(),
                vulnerable_range: sv.vulnerable_version_range.clone(),
                severity: sv.severity.label(),
            },
        ),
        _ => Err(ScanError::MalformedResponse),
    }
}

/// The flat form of a repository's alerts, in order; an absent alert, or
/// one without its requirements or advisory, is an error.
pub fn get_repo_vulns(vuln_alerts: &AlertConnection) -> (r: Result<Vec<VulnInfo>, ScanError>)
    ensures
        alerts_complete(connection_alerts(*vuln_alerts)) ==> (r matches Ok(vs) && vulns_match(
            vs@,
            connection_alerts(*vuln_alerts),
        )),
        !alerts_complete(connection_alerts(*vuln_alerts)) ==> r == Err::<Vec<VulnInfo>, ScanError>(
            ScanError::MalformedResponse,
        ),
{
    let mut vis: Vec<VulnInfo> = Vec::new();
    match &vuln_alerts.nodes {
        None => Ok(vis),
        Some(nodes) => {
            let mut i: usize = 0;
            while i < nodes.len()
                invariant
                    i <= nodes@.len(),
                    nodes@ == connection_alerts(*vuln_alerts),
                    forall|j: int| 0 <= j < i ==> alert_complete(#[trigger] nodes@[j]),
                    vis@.len() == i,
                    forall|j: int| 0 <= j < i ==> vuln_matches(#[trigger] vis@[j], nodes@[j]->Some_0),
                decreases nodes@.len() - i,
            {
                match &nodes[i] {
                    None => {
                        return Err(ScanError::MalformedResponse);
                    },
                    Some(alert) => {
                        match vuln_of_alert(alert) {
                            Ok(v) => vis.push(v),
                            Err(e) => {
                                return Err(e);
                            },
                        }
                    },
                }
                i = i + 1;
            }
            Ok(vis)
        },
    }
}

/// The flat form of one page of the vulnerabilities query: one record per
/// repository, in the server's order. An absent slot in a populated list is
/// an error; an absent list or connection counts as empty.
pub fn collect_repos(page: &VulnPage) -> (r: Result<Vec<VulnRepo>, ScanError>)
    ensures
        vuln_page_complete(*page) ==> (r matches Ok(rs) && rs@.len() == vuln_page_nodes(*page).len()
            && forall|i: int|
            0 <= i < rs@.len() ==> vuln_repo_matches(#[trigger] rs@[i], vuln_page_nodes(*page)[i]->Some_0)),
        !vuln_page_complete(*page) ==> r == Err::<Vec<VulnRepo>, ScanError>(ScanError::MalformedResponse),
{
    let mut repos: Vec<VulnRepo> = Vec::new();
    match &page.nodes {
        None => Ok(repos),
        Some(nodes) => {
            let ghost ns = vuln_page_nodes(*page);
            let mut i: usize = 0;
            while i < nodes.len()
                invariant
                    i <= nodes@.len(),
                    nodes@ == ns,
                    ns == vuln_page_nodes(*page),
                    forall|j: int| 0 <= j < i ==> #[trigger] ns[j] is Some && alerts_complete(node_alerts(ns[j]->Some_0)),
                    repos@.len() == i,
                    forall|j: int| 0 <= j < i ==> vuln_repo_matches(#[trigger] repos@[j], ns[j]->Some_0),
                decreases nodes@.len() - i,
            {
                match &nodes[i] {
                    None => {
                        return Err(ScanError::MalformedResponse);
                    },
                    Some(repo) => {
                        let vulns = match &repo.vulnerability_alerts {
                            Some(va) => match get_repo_vulns(va) {
                                Ok(vs) => vs,
                                Err(e) => {
                                    return Err(e);
                                },
                            },
                            None => Vec::new(),
                        };
                        repos.push(VulnRepo { name: repo.name.clone(), is_archived: repo.is_archived, vulns });
                    },
                }
                i = i + 1;
            }
            Ok(repos)
        },
    }
}

/// The line that reports one vulnerability:
/// "<package> <requirements> (<vulnerable range>) <severity>".
pub open spec fn vuln_line_text(v: VulnInfo) -> Seq<char> {
    v.package@ + " "@ + v.current_requirements@ + " ("@ + v.vulnerable_range@ + ") "@ + v.severity@
}

/// "true" or "false".
pub open spec fn bool_text(b: bool) -> Seq<char> {
    if b {
        "true"@
    } else {
        "false"@
    }
}

/// Some vulnerability is in ecosystem `e`.
pub open spec fn has_ecosystem(vs: Seq<VulnInfo>, e: Seq<char>) -> bool {
    exists|i: int| 0 <= i < vs.len() && vs[i].ecosystem@ == e
}

/// The lines of the vulnerabilities in ecosystem `e`, in order.
pub open spec fn ecosystem_lines(vs: Seq<VulnInfo>, e: Seq<char>) -> Seq<Seq<char>>
    decreases vs.len(),
{
    if vs.len() == 0 {
        Seq::empty()
    } else if vs.last().ecosystem@ == e {
        ecosystem_lines(vs.drop_last(), e).push(vuln_line_text(vs.last()))
    } else {
        ecosystem_lines(vs.drop_last(), e)
    }
}

/// A multi-line cell for each ecosystem of the vulnerabilities.
pub open spec fn ecosystem_cells(vs: Seq<VulnInfo>) -> Map<Seq<char>, CellView> {
    Map::new(|e: Seq<char>| has_ecosystem(vs, e), |e: Seq<char>| CellView::Lines(ecosystem_lines(vs, e)))
}

/// The cells of a repository's row in the vulnerabilities report: one per
/// ecosystem of its vulnerabilities, then its name and archived flag.
pub open spec fn vuln_cells(r: VulnRepo) -> Map<Seq<char>, CellView> {
    ecosystem_cells(r.vulns@).insert("repo"@, CellView::Line(r.name@)).insert(
        "archived"@,
        CellView::Line(bool_text(r.is_archived)),
    )
}

/// The ecosystems of all the repositories' vulnerabilities.
pub open spec fn repos_ecosystems(rs: Seq<VulnRepo>) -> Set<Seq<char>> {
    Set::new(|e: Seq<char>| exists|i: int| 0 <= i < rs.len() && has_ecosystem(rs[i].vulns@, e))
}

/// Every entry comes strictly before the next.
pub open spec fn strictly_sorted(s: Seq<Seq<char>>) -> bool {
    forall|i: int, j: int| 0 <= i < j < s.len() ==> lex_lt(s[i], s[j])
}

/// The ecosystems of the repositories, each once, in lexicographic order.
pub open spec fn ecosystem_columns(rs: Seq<VulnRepo>) -> Seq<Seq<char>> {
    choose|s: Seq<Seq<char>>| strictly_sorted(s) && s.to_set() == repos_ecosystems(rs)
}

/// The columns of the vulnerabilities report.
pub open spec fn vuln_report_columns(rs: Seq<VulnRepo>) -> Seq<Seq<char>> {
    seq!["repo"@, "archived"@] + ecosystem_columns(rs)
}

proof fn lemma_no_lines_without_ecosystem(vs: Seq<VulnInfo>, e: Seq<char>)
    requires
        !has_ecosystem(vs, e),
    ensures
        ecosystem_lines(vs, e) == Seq::<Seq<char>>::empty(),
    decreases vs.len(),
{
    if vs.len() > 0 {
        assert forall|i: int| 0 <= i < vs.drop_last().len() implies vs.drop_last()[i].ecosystem@ != e by {
            assert(vs.drop_last()[i] == vs[i]);
        }
        lemma_no_lines_without_ecosystem(vs.drop_last(), e);
    }
}

/// A strictly sorted sequence is fixed by the set of its entries.
pub proof fn lemma_sorted_unique(s: Seq<Seq<char>>, t: Seq<Seq<char>>)
    requires
        strictly_sorted(s),
        strictly_sorted(t),
        s.to_set() == t.to_set(),
    ensures
        s == t,
    decreases s.len(),
{
    if s.len() == 0 {
        if t.len() > 0 {
            assert(t.to_set().contains(t[0]));
        }
        assert(s =~= t);
    } else {
        assert(s.to_set().contains(s[0]));
        if t.len() == 0 {
            assert(false);
        }
        assert(t.to_set().contains(t[0]));
        let k = choose|k: int| 0 <= k < t.len() && t[k] == s[0];
        let m = choose|m: int| 0 <= m < s.len() && s[m] == t[0];
        if k > 0 {
            assert(lex_lt(t[0], t[k]));
            if m > 0 {
                assert(lex_lt(s[0], s[m]));
                lemma_lex_transitive(s[0], s[m], s[0]);
            }
            lemma_lex_irreflexive(s[0]);
        }
        assert(s[0] == t[0]);
        let s1 = s.drop_first();
        let t1 = t.drop_first();
        assert forall|x: Seq<char>| s1.to_set().contains(x) <==> t1.to_set().contains(x) by {
            if s1.to_set().contains(x) {
                let a = choose|a: int| 0 <= a < s1.len() && s1[a] == x;
                assert(s[a + 1] == x);
                assert(lex_lt(s[0], s[a + 1]));
                lemma_lex_irreflexive(x);
                assert(t.to_set().contains(x));
                let b = choose|b: int| 0 <= b < t.len() && t[b] == x;
                assert(b != 0);
                assert(t1[b - 1] == x);
            }
            if t1.to_set().contains(x) {
                let a = choose|a: int| 0 <= a < t1.len() && t1[a] == x;
                assert(t[a + 1] == x);
                assert(lex_lt(t[0], t[a + 1]));
                lemma_lex_irreflexive(x);
                assert(s.to_set().contains(x));
                let b = choose|b: int| 0 <= b < s.len() && s[b] == x;
                assert(b != 0);
                assert(s1[b - 1] == x);
            }
        }
        assert(s1.to_set() =~= t1.to_set());
        lemma_sorted_unique(s1, t1);
        assert(s =~= seq![s[0]] + s1);
        assert(t =~= seq![t[0]] + t1);
    }
}

/// A strictly sorted sequence with the repositories' ecosystems is the
/// column list of their report.
proof fn lemma_is_ecosystem_columns(rs: Seq<VulnRepo>, s: Seq<Seq<char>>)
    requires
        strictly_sorted(s),
        s.to_set() == repos_ecosystems(rs),
    ensures
        ecosystem_columns(rs) == s,
{
    let c = ecosystem_columns(rs);
    assert(strictly_sorted(c) && c.to_set() == repos_ecosystems(rs));
    lemma_sorted_unique(c, s);
}

/// The report's columns do not depend on the order in which the
/// repositories come: any permutation of them gives the same columns.
pub proof fn lemma_columns_order_independent(a: Seq<VulnRepo>, b: Seq<VulnRepo>)
    requires
        a.to_multiset() == b.to_multiset(),
    ensures
        vuln_report_columns(a) == vuln_report_columns(b),
{
    a.to_multiset_ensures();
    b.to_multiset_ensures();
    assert forall|e: Seq<char>| repos_ecosystems(a).contains(e) implies repos_ecosystems(b).contains(e) by {
        let i = choose|i: int| 0 <= i < a.len() && has_ecosystem(a[i].vulns@, e);
        assert(a.contains(a[i]));
        assert(a.to_multiset().count(a[i]) > 0);
        assert(b.to_multiset().count(a[i]) > 0);
        assert(b.contains(a[i]));
        let j = choose|j: int| 0 <= j < b.len() && b[j] == a[i];
        assert(has_ecosystem(b[j].vulns@, e));
    }
    assert forall|e: Seq<char>| repos_ecosystems(b).contains(e) implies repos_ecosystems(a).contains(e) by {
        let i = choose|i: int| 0 <= i < b.len() && has_ecosystem(b[i].vulns@, e);
        assert(b.contains(b[i]));
        assert(b.to_multiset().count(b[i]) > 0);
        assert(a.to_multiset().count(b[i]) > 0);
        assert(a.contains(b[i]));
        let j = choose|j: int| 0 <= j < a.len() && a[j] == b[i];
        assert(has_ecosystem(a[j].vulns@, e));
    }
    assert(repos_ecosystems(a) =~= repos_ecosystems(b));
}

/// A page without repositories flattens to no record, and the report on no
/// record has the two fixed columns alone (and no row: `vuln_content` gives
/// one row per record).
pub proof fn lemma_empty_page_gives_base_columns(page: VulnPage)
    requires
        vuln_page_nodes(page).len() == 0,
    ensures
        vuln_page_complete(page),
        vuln_report_columns(Seq::<VulnRepo>::empty()) == seq!["repo"@, "archived"@],
{
    let s = Seq::<Seq<char>>::empty();
    assert(s.to_set() =~= repos_ecosystems(Seq::<VulnRepo>::empty()));
    lemma_is_ecosystem_columns(Seq::<VulnRepo>::empty(), s);
    assert(seq!["repo"@, "archived"@] + s =~= seq!["repo"@, "archived"@]);
}

/// The line that reports one vulnerability.
pub fn vuln_line(v: &VulnInfo) -> (r: String)
    ensures
        r@ == vuln_line_text(*v),
{
    let mut r = v.package.clone();
    r.append(" ");
    r.append(v.current_requirements.as_str());
    r.append(" (");
    r.append(v.vulnerable_range.as_str());
    r.append(") ");
    r.append(v.severity.as_str());
    r
}

/// "true" or "false".
pub fn bool_string(b: bool) -> (r: String)
    ensures
        r@ == bool_text(b),
{
    if b {
        "true".to_owned()
    } else {
        "false".to_owned()
    }
}

/// The row of a repository in the vulnerabilities report.
pub fn vuln_row(vr: &VulnRepo) -> (r: RowItem)
    ensures
        r.wf(),
        r.cells_view() == vuln_cells(*vr),
{
    let mut row = RowItem::new();
    assert(row.cells_view() =~= ecosystem_cells(vr.vulns@.subrange(0, 0)));
    let mut i: usize = 0;
    while i < vr.vulns.len()
        invariant
            i <= vr.vulns@.len(),
            row.wf(),
            row.cells_view() == ecosystem_cells(vr.vulns@.subrange(0, i as int)),
        decreases vr.vulns@.len() - i,
    {
        let v = &vr.vulns[i];
        let line = vuln_line(v);
        let ghost prev = vr.vulns@.subrange(0, i as int);
        let ghost next = vr.vulns@.subrange(0, i + 1);
        let ghost before = row.cells_view();
        let ghost e = v.ecosystem@;
        assert(next.drop_last() =~= prev);
        assert(next.last() == *v);
        proof {
            if !has_ecosystem(prev, e) {
                lemma_no_lines_without_ecosystem(prev, e);
            }
        }
        let _ = row.append_line(v.ecosystem.as_str(), line.as_str());
        proof {
            assert forall|k: Seq<char>| #[trigger] has_ecosystem(next, k) == (has_ecosystem(prev, k) || k == e) by {
                if has_ecosystem(next, k) {
                    let a = choose|a: int| 0 <= a < next.len() && next[a].ecosystem@ == k;
                    if a < i {
                        assert(prev[a] == next[a]);
                    }
                }
                if has_ecosystem(prev, k) {
                    let a = choose|a: int| 0 <= a < prev.len() && prev[a].ecosystem@ == k;
                    assert(prev[a] == next[a]);
                }
                if k == e {
                    assert(next[i as int].ecosystem@ == k);
                }
            }
            assert(ecosystem_lines(next, e) == ecosystem_lines(prev, e).push(line@));
            assert(row.cells_view() =~= ecosystem_cells(next));
        }
        i = i + 1;
    }
    assert(vr.vulns@.subrange(0, vr.vulns@.len() as int) =~= vr.vulns@);
    row.add_line("repo", vr.name.as_str());
    row.add_line("archived", bool_string(vr.is_archived).as_str());
    row
}

/// Adds `e` to a strictly sorted list of names, where it is not there yet.
pub fn insert_sorted(names: &mut Vec<String>, e: &str)
    requires
        strictly_sorted(strings_view(old(names)@)),
    ensures
        strictly_sorted(strings_view(final(names)@)),
        strings_view(final(names)@).to_set() == strings_view(old(names)@).to_set().insert(e@),
{
    let ghost s = strings_view(names@);
    let mut p: usize = 0;
    while p < names.len() && str_lt(names[p].as_str(), e)
        invariant
            p <= names@.len(),
            names@ == old(names)@,
            s == strings_view(names@),
            forall|i: int| 0 <= i < p ==> lex_lt(#[trigger] s[i], e@),
        decreases names@.len() - p,
    {
        p = p + 1;
    }
    if p < names.len() && str_eq(names[p].as_str(), e) {
        assert(s[p as int] == e@);
        assert(s.to_set().contains(e@));
        assert(s.to_set().insert(e@) =~= s.to_set());
        return;
    }
    names.insert(p, e.to_owned());
    proof {
        let t = strings_view(names@);
        assert(t =~= s.insert(p as int, e@));
        if p < s.len() {
            lemma_lex_total(s[p as int], e@);
        }
        assert forall|i: int, j: int| 0 <= i < j < t.len() implies lex_lt(t[i], t[j]) by {
            if i < p && j > p {
                assert(lex_lt(s[i], s[j - 1]));
            } else if i == p && j > p + 1 {
                lemma_lex_transitive(e@, s[p as int], s[j - 1]);
            }
        }
        assert forall|x: Seq<char>| t.to_set().contains(x) <==> s.to_set().insert(e@).contains(x) by {
            if t.to_set().contains(x) {
                let a = choose|a: int| 0 <= a < t.len() && t[a] == x;
                if a < p {
                    assert(s[a] == x);
                } else if a > p {
                    assert(s[a - 1] == x);
                }
            }
            if s.to_set().contains(x) {
                let a = choose|a: int| 0 <= a < s.len() && s[a] == x;
                if a < p {
                    assert(t[a] == x);
                } else {
                    assert(t[a + 1] == x);
                }
            }
            if x == e@ {
                assert(t[p as int] == x);
            }
        }
        assert(t.to_set() =~= s.to_set().insert(e@));
    }
}

/// The vulnerabilities report: columns "repo" and "archived", then one per
/// ecosystem seen, in lexicographic order; one row per repository, in order.
pub fn vuln_content(repos: &Vec<VulnRepo>) -> (c: Content)
    ensures
        c.wf(),
        strings_view(c.columns@) == vuln_report_columns(repos@),
        c.rows@.len() == repos@.len(),
        forall|i: int| 0 <= i < repos@.len() ==> (#[trigger] c.rows@[i]).cells_view() == vuln_cells(repos@[i]),
        forall|i: int, k: Seq<char>|
            0 <= i < repos@.len() && #[trigger] c.rows@[i].cells_view().contains_key(k) ==> strings_view(
                c.columns@,
            ).contains(k),
{
    let mut ecos: Vec<String> = Vec::new();
    let mut rows: Vec<RowItem> = Vec::new();
    assert(strings_view(ecos@).to_set() =~= repos_ecosystems(repos@.subrange(0, 0)));
    let mut i: usize = 0;
    while i < repos.len()
        invariant
            i <= repos@.len(),
            strictly_sorted(strings_view(ecos@)),
            strings_view(ecos@).to_set() == repos_ecosystems(repos@.subrange(0, i as int)),
            rows@.len() == i,
            forall|j: int| 0 <= j < i ==> (#[trigger] rows@[j]).wf() && rows@[j].cells_view() == vuln_cells(repos@[j]),
        decreases repos@.len() - i,
    {
        let vr = &repos[i];
        let ghost done = repos_ecosystems(repos@.subrange(0, i as int));
        let mut j: usize = 0;
        while j < vr.vulns.len()
            invariant
                i < repos@.len(),
                *vr == repos@[i as int],
                j <= vr.vulns@.len(),
                strictly_sorted(strings_view(ecos@)),
                strings_view(ecos@).to_set() == done.union(
                    Set::new(|e: Seq<char>| has_ecosystem(vr.vulns@.subrange(0, j as int), e)),
                ),
            decreases vr.vulns@.len() - j,
        {
            let ghost before = strings_view(ecos@).to_set();
            insert_sorted(&mut ecos, vr.vulns[j].ecosystem.as_str());
            proof {
                let prev = vr.vulns@.subrange(0, j as int);
                let next = vr.vulns@.subrange(0, j + 1);
                assert forall|e: Seq<char>| has_ecosystem(next, e) == (has_ecosystem(prev, e) || e == vr.vulns@[j as int].ecosystem@) by {
                    if has_ecosystem(next, e) {
                        let a = choose|a: int| 0 <= a < next.len() && next[a].ecosystem@ == e;
                        if a < j {
                            assert(prev[a] == next[a]);
                        }
                    }
                    if has_ecosystem(prev, e) {
                        let a = choose|a: int| 0 <= a < prev.len() && prev[a].ecosystem@ == e;
                        assert(prev[a] == next[a]);
                    }
                    if e == vr.vulns@[j as int].ecosystem@ {
                        assert(next[j as int].ecosystem@ == e);
                    }
                }
                assert(strings_view(ecos@).to_set() =~= done.union(Set::new(|e: Seq<char>| has_ecosystem(next, e))));
            }
            j = j + 1;
        }
        proof {
            assert(vr.vulns@.subrange(0, vr.vulns@.len() as int) =~= vr.vulns@);
            assert(strings_view(ecos@).to_set() =~= done.union(Set::new(|e: Seq<char>| has_ecosystem(vr.vulns@, e))));
            let prev = repos@.subrange(0, i as int);
            let next = repos@.subrange(0, i + 1);
            let cur = strings_view(ecos@).to_set();
            assert forall|e: Seq<char>| #[trigger] repos_ecosystems(next).contains(e) == cur.contains(e) by {
                assert(cur.contains(e) == (done.contains(e) || has_ecosystem(vr.vulns@, e)));
                if repos_ecosystems(next).contains(e) {
                    let a = choose|a: int| 0 <= a < next.len() && has_ecosystem(next[a].vulns@, e);
                    if a < i {
                        assert(prev[a] == next[a]);
                    }
                }
                if done.contains(e) {
                    let a = choose|a: int| 0 <= a < prev.len() && has_ecosystem(prev[a].vulns@, e);
                    assert(prev[a] == next[a]);
                }
                if has_ecosystem(vr.vulns@, e) {
                    assert(next[i as int] == *vr);
                }
            }
            assert(strings_view(ecos@).to_set() =~= repos_ecosystems(next));
        }
        rows.push(vuln_row(vr));
        i = i + 1;
    }
    assert(repos@.subrange(0, repos@.len() as int) =~= repos@);
    proof {
        lemma_is_ecosystem_columns(repos@, strings_view(ecos@));
    }
    let mut columns: Vec<String> = Vec::new();
    columns.push("repo".to_owned());
    columns.push("archived".to_owned());
    let ghost base = columns@;
    columns.append(&mut ecos);
    let ghost cols = seq!["repo"@, "archived"@] + ecosystem_columns(repos@);
    assert(strings_view(columns@) =~= cols);
    proof {
        assert forall|i: int, k: Seq<char>|
            0 <= i < repos@.len() && vuln_cells(repos@[i]).contains_key(k) implies cols.contains(k) by {
            if k == "repo"@ {
                assert(cols[0] == k);
            } else if k == "archived"@ {
                assert(cols[1] == k);
            } else {
                assert(has_ecosystem(repos@[i].vulns@, k));
                assert(repos_ecosystems(repos@).contains(k));
                assert(ecosystem_columns(repos@).to_set().contains(k));
                let a = choose|a: int| 0 <= a < ecosystem_columns(repos@).len() && ecosystem_columns(repos@)[a] == k;
                assert(cols[a + 2] == k);
            }
        }
    }
    Content { columns, rows }
}

} // verus!
