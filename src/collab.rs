//! Collaborators of an organization's repositories, the sources of their
//! permissions, and who among them holds admin rights explicitly.

use vstd::prelude::*;

use crate::content::{strings_view, CellView, Content, RowItem};
use crate::error::ScanError;
use crate::labels::{permission_label, Permission};
use crate::order::str_eq;
use crate::paging::PageInfo;

verus! {

/// One reason why a collaborator holds a permission: the level granted, the
/// kind of grantor ("org", "repo" or "team") and the grantor's name.
#[derive(Debug, Clone)]
pub struct PermSource {
    pub permission: String,
    pub source: String,
    pub source_name: String,
}

/// A collaborator of a repository, with its effective permission level and
/// the sources of its permissions.
#[derive(Debug, Clone)]
pub struct CollabInfo {
    pub login: String,
    pub permission: String,
    pub sources: Vec<PermSource>,
}

/// A repository and its collaborators.
#[derive(Debug, Clone)]
pub struct CollabRepo {
    pub name: String,
    pub is_archived: bool,
    pub collabs: Vec<CollabInfo>,
}

/// The source grants admin rights.
pub open spec fn grants_admin(s: PermSource) -> bool {
    s.permission@ == "ADMIN"@
}

/// How many of the sources grant admin rights.
pub open spec fn admin_source_count(sources: Seq<PermSource>) -> nat
    decreases sources.len(),
{
    if sources.len() == 0 {
        0
    } else {
        admin_source_count(sources.drop_last()) + if grants_admin(sources.last()) {
            1nat
        } else {
            0nat
        }
    }
}

/// Some source grants admin rights through the organization.
pub open spec fn has_org_admin_source(sources: Seq<PermSource>) -> bool {
    exists|i: int| 0 <= i < sources.len() && grants_admin(sources[i]) && sources[i].source@ == "org"@
}

/// Admin rights granted for the repository itself rather than inherited from
/// owning the organization. An owner of the organization shows one admin
/// source of kind "org" and one of kind "repo"; an explicit grant adds a
/// third, or comes without any of kind "org".
pub open spec fn explicit_admin(sources: Seq<PermSource>) -> bool {
    admin_source_count(sources) > 2 || (admin_source_count(sources) > 0 && !has_org_admin_source(
        sources,
    ))
}

/// The collaborators whose effective permission is admin, in order.
pub open spec fn admins_of(collabs: Seq<CollabInfo>) -> Seq<CollabInfo>
    decreases collabs.len(),
{
    if collabs.len() == 0 {
        Seq::empty()
    } else if collabs.last().permission@ == "ADMIN"@ {
        admins_of(collabs.drop_last()).push(collabs.last())
    } else {
        admins_of(collabs.drop_last())
    }
}

/// The logins of the collaborators that hold admin rights explicitly, in
/// order.
pub open spec fn explicit_admin_logins(collabs: Seq<CollabInfo>) -> Seq<Seq<char>>
    decreases collabs.len(),
{
    if collabs.len() == 0 {
        Seq::empty()
    } else if explicit_admin(collabs.last().sources@) {
        explicit_admin_logins(collabs.drop_last()).push(collabs.last().login@)
    } else {
        explicit_admin_logins(collabs.drop_last())
    }
}

impl CollabInfo {
    /// The effective permission is admin.
    pub fn is_admin(&self) -> (r: bool)
        ensures
            r == (self.permission@ == "ADMIN"@),
    {
        str_eq(self.permission.as_str(), "ADMIN")
    }

    /// Admin rights are granted explicitly (see `explicit_admin`).
    pub fn is_explicit_admin(&self) -> (r: bool)
        ensures
            r == explicit_admin(self.sources@),
    {
        let mut org_admin = false;
        let mut admin_sources: usize = 0;
        let mut i: usize = 0;
        while i < self.sources.len()
            invariant
                i <= self.sources@.len(),
                admin_sources == admin_source_count(self.sources@.subrange(0, i as int)),
                admin_sources <= i,
                org_admin == has_org_admin_source(self.sources@.subrange(0, i as int)),
            decreases self.sources@.len() - i,
        {
            let source = &self.sources[i];
            let ghost prev = self.sources@.subrange(0, i as int);
            let ghost next = self.sources@.subrange(0, i + 1);
            assert(next.drop_last() =~= prev);
            if str_eq(source.permission.as_str(), "ADMIN") {
                admin_sources = admin_sources + 1;
                if str_eq(source.source.as_str(), "org") {
                    org_admin = true;
                }
            }
            proof {
                if has_org_admin_source(next) && !has_org_admin_source(prev) {
                    let j = choose|j: int|
                        0 <= j < next.len() && grants_admin(next[j]) && next[j].source@ == "org"@;
                    assert(j == i);
                }
                if has_org_admin_source(prev) {
                    let j = choose|j: int|
                        0 <= j < prev.len() && grants_admin(prev[j]) && prev[j].source@ == "org"@;
                    assert(next[j] == prev[j]);
                }
                if org_admin && !has_org_admin_source(prev) {
                    assert(next[i as int] == *source);
                }
            }
            i = i + 1;
        }
        assert(self.sources@.subrange(0, self.sources@.len() as int) =~= self.sources@);
        (admin_sources > 2) || (!org_admin && admin_sources > 0)
    }
}

impl CollabRepo {
    /// The collaborators whose effective permission is admin, in order.
    pub fn admins(&self) -> (r: Vec<&CollabInfo>)
        ensures
            r@.map_values(|c: &CollabInfo| *c) == admins_of(self.collabs@),
    {
        let mut r: Vec<&CollabInfo> = Vec::new();
        let mut i: usize = 0;
        while i < self.collabs.len()
            invariant
                i <= self.collabs@.len(),
                r@.map_values(|c: &CollabInfo| *c) == admins_of(self.collabs@.subrange(0, i as int)),
            decreases self.collabs@.len() - i,
        {
            let ghost prev = self.collabs@.subrange(0, i as int);
            let ghost next = self.collabs@.subrange(0, i + 1);
            assert(next.drop_last() =~= prev);
            let ghost before = r@;
            let c = &self.collabs[i];
            if c.is_admin() {
                r.push(c);
                assert(r@.map_values(|c: &CollabInfo| *c) =~= before.map_values(|c: &CollabInfo| *c).push(*c));
            }
            i = i + 1;
        }
        assert(self.collabs@.subrange(0, self.collabs@.len() as int) =~= self.collabs@);
        r
    }
}

/// Whether admin rights are explicit depends only on how many sources grant
/// them and whether one of those is the organization: with at most two such
/// sources, one of them of kind "org", they are not explicit; with three or
/// more they are, whatever the kinds.
pub proof fn lemma_explicit_admin_thresholds(sources: Seq<PermSource>)
    ensures
        admin_source_count(sources) <= 2 && has_org_admin_source(sources) ==> !explicit_admin(sources),
        admin_source_count(sources) >= 3 ==> explicit_admin(sources),
{
    if has_org_admin_source(sources) {
        lemma_org_admin_counts(sources);
    }
}

/// An admin source of kind "org" is counted among the admin sources.
proof fn lemma_org_admin_counts(sources: Seq<PermSource>)
    requires
        has_org_admin_source(sources),
    ensures
        admin_source_count(sources) > 0,
    decreases sources.len(),
{
    let last = sources.len() - 1;
    if !(grants_admin(sources[last]) && sources[last].source@ == "org"@) {
        let j = choose|j: int| 0 <= j < sources.len() && grants_admin(sources[j]) && sources[j].source@ == "org"@;
        assert(sources.drop_last()[j] == sources[j]);
        lemma_org_admin_counts(sources.drop_last());
    }
}

/// Who granted a permission, as the query API reports it.
#[derive(Debug, Clone)]
pub enum PermissionGranter {
    Organization { login: String },
    Repository { name: String },
    Team { name: String },
}

/// One permission source of a collaborator, as the query API reports it.
#[derive(Debug, Clone)]
pub struct PermissionSourceNode {
    pub permission: Permission,
    pub source: PermissionGranter,
}

/// A collaborator of a repository, as the query API reports it.
#[derive(Debug, Clone)]
pub struct CollaboratorEdge {
    pub login: String,
    pub permission: Permission,
    pub permission_sources: Option<Vec<PermissionSourceNode>>,
}

/// The collaborators of a repository, as the query API reports them.
#[derive(Debug, Clone)]
pub struct CollaboratorConnection {
    pub edges: Option<Vec<Option<CollaboratorEdge>>>,
}

/// A repository, as the collaborators query reports it.
#[derive(Debug, Clone)]
pub struct CollabNode {
    pub name: String,
    pub is_archived: bool,
    pub collaborators: Option<CollaboratorConnection>,
}

/// One page of the collaborators query.
#[derive(Debug, Clone)]
pub struct CollabPage {
    pub nodes: Option<Vec<Option<CollabNode>>>,
    pub page_info: PageInfo,
}

/// The kind of a grantor and its name.
pub open spec fn granter_kind(g: PermissionGranter) -> Seq<char> {
    match g {
        PermissionGranter::Organization { .. } => "org"@,
        PermissionGranter::Repository { .. } => "repo"@,
        PermissionGranter::Team { .. } => "team"@,
    }
}

pub open spec fn granter_name(g: PermissionGranter) -> Seq<char> {
    match g {
        PermissionGranter::Organization { login } => login@,
        PermissionGranter::Repository { name } => name@,
        PermissionGranter::Team { name } => name@,
    }
}

/// `ps` is the flat form of `n`.
pub open spec fn source_matches(ps: PermSource, n: PermissionSourceNode) -> bool {
    ps.permission@ == permission_label(n.permission) && ps.source@ == granter_kind(n.source)
        && ps.source_name@ == granter_name(n.source)
}

pub open spec fn sources_match(ps: Seq<PermSource>, ns: Seq<PermissionSourceNode>) -> bool {
    ps.len() == ns.len() && forall|i: int| 0 <= i < ps.len() ==> source_matches(#[trigger] ps[i], ns[i])
}

/// The sources that an edge reports; none where it reports no list.
pub open spec fn edge_sources(e: CollaboratorEdge) -> Seq<PermissionSourceNode> {
    match e.permission_sources {
        Some(v) => v@,
        None => Seq::empty(),
    }
}

/// `ci` is the flat form of `e`.
pub open spec fn collab_matches(ci: CollabInfo, e: CollaboratorEdge) -> bool {
    ci.login@ == e.login@ && ci.permission@ == permission_label(e.permission) && sources_match(
        ci.sources@,
        edge_sources(e),
    )
}

/// The edge slots of a connection; none where it reports no list.
pub open spec fn connection_edges(c: CollaboratorConnection) -> Seq<Option<CollaboratorEdge>> {
    match c.edges {
        Some(v) => v@,
        None => Seq::empty(),
    }
}

/// The edge slots of a repository; none where it reports no connection.
pub open spec fn node_edges(n: CollabNode) -> Seq<Option<CollaboratorEdge>> {
    match n.collaborators {
        Some(c) => connection_edges(c),
        None => Seq::empty(),
    }
}

/// No slot of the list is absent.
pub open spec fn all_present<T>(s: Seq<Option<T>>) -> bool {
    forall|i: int| 0 <= i < s.len() ==> #[trigger] s[i] is Some
}

/// The collaborators are the flat form of the edges.
pub open spec fn collabs_match(cs: Seq<CollabInfo>, es: Seq<Option<CollaboratorEdge>>) -> bool {
    cs.len() == es.len() && forall|i: int|
        0 <= i < cs.len() ==> collab_matches(#[trigger] cs[i], es[i]->Some_0)
}

/// `r` is the flat form of `n`.
pub open spec fn collab_repo_matches(r: CollabRepo, n: CollabNode) -> bool {
    r.name@ == n.name@ && r.is_archived == n.is_archived && collabs_match(r.collabs@, node_edges(n))
}

/// The repository slots of a page; none where it reports no list.
pub open spec fn collab_page_nodes(p: CollabPage) -> Seq<Option<CollabNode>> {
    match p.nodes {
        Some(v) => v@,
        None => Seq::empty(),
    }
}

/// No slot of the page is absent, nor any collaborator slot of its
/// repositories.
pub open spec fn collab_page_complete(p: CollabPage) -> bool {
    all_present(collab_page_nodes(p)) && forall|i: int|
        0 <= i < collab_page_nodes(p).len() ==> all_present(
            node_edges(#[trigger] collab_page_nodes(p)[i]->Some_0),
        )
}

/// The flat form of a list of permission sources, in order.
pub fn get_perm_sources(perm_sources: &Vec<PermissionSourceNode>) -> (r: Vec<PermSource>)
    ensures
        sources_match(r@, perm_sources@),
{
    let mut pss: Vec<PermSource> = Vec::new();
    let mut i: usize = 0;
    while i < perm_sources.len()
        invariant
            i <= perm_sources@.len(),
            sources_match(pss@, perm_sources@.subrange(0, i as int)),
        decreases perm_sources@.len() - i,
    {
        let ps = &perm_sources[i];
        let (source, source_name) = match &ps.source {
            PermissionGranter::Organization { login } => ("org".to_owned(), login.clone()),
            PermissionGranter::Repository { name } => ("repo".to_owned(), name.clone()),
            PermissionGranter::Team { name } => ("team".to_owned(), name.clone()),
        };
        pss.push(PermSource { permission: ps.permission.label(), source, source_name });
        i = i + 1;
        assert forall|j: int| 0 <= j < pss@.len() implies source_matches(
            #[trigger] pss@[j],
            perm_sources@.subrange(0, i as int)[j],
        ) by {
            if j < i - 1 {
                assert(perm_sources@.subrange(0, i - 1)[j] == perm_sources@.subrange(0, i as int)[j]);
            }
        }
    }
    assert(perm_sources@.subrange(0, perm_sources@.len() as int) =~= perm_sources@);
    pss
}

/// The flat form of one collaborator edge.
fn collab_of_edge(edge: &CollaboratorEdge) -> (r: CollabInfo)
    ensures
        collab_matches(r, *edge),
{
    let sources = match &edge.permission_sources {
        Some(ps) => get_perm_sources(ps),
        None => Vec::new(),
    };
    CollabInfo { login: edge.login.clone(), permission: edge.permission.label(), sources }
}

/// The flat form of a repository's collaborators, in order; an absent edge
/// in the list is an error.
pub fn get_repo_collabs(collabs: &CollaboratorConnection) -> (r: Result<Vec<CollabInfo>, ScanError>)
    ensures
        all_present(connection_edges(*collabs)) ==> (r matches Ok(cs) && collabs_match(
            cs@,
            connection_edges(*collabs),
        )),
        !all_present(connection_edges(*collabs)) ==> r == Err::<Vec<CollabInfo>, ScanError>(
            ScanError::MalformedResponse,
        ),
{
    let mut cis: Vec<CollabInfo> = Vec::new();
    match &collabs.edges {
        None => {
            return Ok(cis);
        },
        Some(edges) => {
            let mut i: usize = 0;
            while i < edges.len()
                invariant
                    i <= edges@.len(),
                    edges@ == connection_edges(*collabs),
                    all_present(edges@.subrange(0, i as int)),
                    collabs_match(cis@, edges@.subrange(0, i as int)),
                decreases edges@.len() - i,
            {
                match &edges[i] {
                    None => {
                        return Err(ScanError::MalformedResponse);
                    },
                    Some(edge) => {
                        cis.push(collab_of_edge(edge));
                    },
                }
                i = i + 1;
                assert forall|j: int| 0 <= j < i implies #[trigger] edges@.subrange(0, i as int)[j] == edges@[j] by {}
            }
            assert(edges@.subrange(0, edges@.len() as int) =~= edges@);
            Ok(cis)
        },
    }
}

/// The flat form of one page of the collaborators query: one record per
/// repository, in the server's order. An absent slot in a populated list is
/// an error; an absent list counts as empty.
pub fn collect_repos(page: &CollabPage) -> (r: Result<Vec<CollabRepo>, ScanError>)
    ensures
        collab_page_complete(*page) ==> (r matches Ok(rs) && rs@.len() == collab_page_nodes(*page).len()
            && forall|i: int|
            0 <= i < rs@.len() ==> collab_repo_matches(#[trigger] rs@[i], collab_page_nodes(*page)[i]->Some_0)),
        !collab_page_complete(*page) ==> r == Err::<Vec<CollabRepo>, ScanError>(
            ScanError::MalformedResponse,
        ),
{
    let mut repos: Vec<CollabRepo> = Vec::new();
    match &page.nodes {
        None => Ok(repos),
        Some(nodes) => {
            let ghost ns = collab_page_nodes(*page);
            let mut i: usize = 0;
            while i < nodes.len()
                invariant
                    i <= nodes@.len(),
                    nodes@ == ns,
                    ns == collab_page_nodes(*page),
                    forall|j: int| 0 <= j < i ==> #[trigger] ns[j] is Some && all_present(node_edges(ns[j]->Some_0)),
                    repos@.len() == i,
                    forall|j: int| 0 <= j < i ==> collab_repo_matches(#[trigger] repos@[j], ns[j]->Some_0),
                decreases nodes@.len() - i,
            {
                match &nodes[i] {
                    None => {
                        return Err(ScanError::MalformedResponse);
                    },
                    Some(repo) => {
                        let collabs = match &repo.collaborators {
                            Some(cs) => get_repo_collabs(cs)?,
                            None => Vec::new(),
                        };
                        repos.push(CollabRepo { name: repo.name.clone(), is_archived: repo.is_archived, collabs });
                    },
                }
                i = i + 1;
            }
            Ok(repos)
        },
    }
}

/// The cells of a repository's row in the admins report.
pub open spec fn admin_cells(r: CollabRepo) -> Map<Seq<char>, CellView> {
    Map::<Seq<char>, CellView>::empty().insert("repo"@, CellView::Line(r.name@)).insert(
        "admins"@,
        CellView::Lines(explicit_admin_logins(r.collabs@)),
    )
}

/// The logins of the repository's collaborators that hold admin rights
/// explicitly, in order.
pub fn explicit_admins(repo: &CollabRepo) -> (r: Vec<String>)
    ensures
        strings_view(r@) == explicit_admin_logins(repo.collabs@),
{
    let mut logins: Vec<String> = Vec::new();
    let mut i: usize = 0;
    while i < repo.collabs.len()
        invariant
            i <= repo.collabs@.len(),
            strings_view(logins@) == explicit_admin_logins(repo.collabs@.subrange(0, i as int)),
        decreases repo.collabs@.len() - i,
    {
        let ghost next = repo.collabs@.subrange(0, i + 1);
        assert(next.drop_last() =~= repo.collabs@.subrange(0, i as int));
        let ghost before = logins@;
        let c = &repo.collabs[i];
        if c.is_explicit_admin() {
            logins.push(c.login.clone());
            assert(strings_view(logins@) =~= strings_view(before).push(c.login@));
        }
        i = i + 1;
    }
    assert(repo.collabs@.subrange(0, repo.collabs@.len() as int) =~= repo.collabs@);
    logins
}

/// The admins report: columns "repo" and "admins", and one row per
/// repository, in order, naming the collaborators that hold admin rights
/// explicitly, one per line.
pub fn admins_content(repos: &Vec<CollabRepo>) -> (c: Content)
    ensures
        c.wf(),
        strings_view(c.columns@) == seq!["repo"@, "admins"@],
        c.rows@.len() == repos@.len(),
        forall|i: int| 0 <= i < repos@.len() ==> (#[trigger] c.rows@[i]).cells_view() == admin_cells(repos@[i]),
        forall|i: int, k: Seq<char>|
            0 <= i < repos@.len() && #[trigger] c.rows@[i].cells_view().contains_key(k) ==> strings_view(
                c.columns@,
            ).contains(k),
{
    let mut columns: Vec<String> = Vec::new();
    columns.push("repo".to_owned());
    columns.push("admins".to_owned());
    let ghost cols = seq!["repo"@, "admins"@];
    assert(strings_view(columns@) =~= cols);
    assert(cols[0] == "repo"@ && cols[1] == "admins"@);
    let mut rows: Vec<RowItem> = Vec::new();
    let mut i: usize = 0;
    while i < repos.len()
        invariant
            i <= repos@.len(),
            rows@.len() == i,
            forall|j: int| 0 <= j < i ==> (#[trigger] rows@[j]).wf() && rows@[j].cells_view() == admin_cells(repos@[j]),
        decreases repos@.len() - i,
    {
        let repo = &repos[i];
        let mut row = RowItem::new();
        row.add_line("repo", repo.name.as_str());
        row.add_lines("admins", explicit_admins(repo));
        rows.push(row);
        i = i + 1;
    }
    Content { columns, rows }
}

} // verus!
