use ghscan::collab::{
    self, admins_content, explicit_admins, get_perm_sources, get_repo_collabs, CollabInfo, CollabNode,
    CollabPage, CollabRepo, CollaboratorConnection, CollaboratorEdge, PermSource, PermissionGranter,
    PermissionSourceNode,
};
use ghscan::content::{join_strings, row_texts, CellError, CellItem, Content, RowItem};
use ghscan::error::ScanError;
use ghscan::labels::{Ecosystem, Permission, Severity};
use ghscan::options::{Cli, Command, CommonOpts, DisplayOpts, OutputFormat};
use ghscan::order::{str_eq, str_lt};
use ghscan::paging::{get_cursor, PageInfo, Scan};
use ghscan::query::{contains_str, take_data, take_organization, Querier, GRAPHQL_URI};
use ghscan::vulns::{
    self, bool_string, get_repo_vulns, insert_sorted, vuln_content, vuln_line, vuln_row, AlertConnection,
    AlertNode, Package, SecurityVulnerability, VulnInfo, VulnNode, VulnPage, VulnRepo,
};

fn s(x: &str) -> String {
    x.to_string()
}

fn src(permission: &str, source: &str, name: &str) -> PermSource {
    PermSource { permission: s(permission), source: s(source), source_name: s(name) }
}

fn collab(login: &str, permission: &str, sources: Vec<PermSource>) -> CollabInfo {
    CollabInfo { login: s(login), permission: s(permission), sources }
}

fn no_next() -> PageInfo {
    PageInfo { has_next_page: false, end_cursor: None }
}

fn alert(eco: Ecosystem, package: &str, req: &str, range: &str, sev: Severity) -> Option<AlertNode> {
    Some(AlertNode {
        vulnerable_requirements: Some(s(req)),
        security_vulnerability: Some(SecurityVulnerability {
            package: Package { ecosystem: eco, name: s(package) },
            severity: sev,
            vulnerable_version_range: s(range),
        }),
    })
}

fn vnode(name: &str, archived: bool, alerts: Vec<Option<AlertNode>>) -> Option<VulnNode> {
    Some(VulnNode {
        name: s(name),
        is_archived: archived,
        vulnerability_alerts: Some(AlertConnection { nodes: Some(alerts) }),
    })
}

fn lines_of(row: &RowItem, field: &str) -> Option<Vec<String>> {
    match row.get(field) {
        Some(CellItem::Lines(ls)) => Some(ls.clone()),
        _ => None,
    }
}

fn line_of(row: &RowItem, field: &str) -> Option<String> {
    match row.get(field) {
        Some(CellItem::Line(l)) => Some(l.clone()),
        _ => None,
    }
}

fn alpha_beta_page() -> VulnPage {
    VulnPage {
        nodes: Some(vec![
            vnode(
                "alpha",
                false,
                vec![
                    alert(Ecosystem::Npm, "left-pad", "= 1.0.0", "< 1.1.0", Severity::Low),
                    alert(Ecosystem::Pip, "flask", "= 0.12", "< 1.0", Severity::High),
                ],
            ),
            vnode("beta", true, vec![]),
        ]),
        page_info: no_next(),
    }
}

#[test]
fn admin_thresholds_org_owner_not_explicit() {
    for n in 0..=2 {
        let mut sources = vec![src("ADMIN", "org", "orgX")];
        for _ in 1..n {
            sources.push(src("ADMIN", "repo", "alpha"));
        }
        if n == 0 {
            sources = vec![src("READ", "org", "orgX")];
        }
        assert!(!collab("u", "ADMIN", sources).is_explicit_admin());
    }
}

#[test]
fn admin_three_sources_always_explicit() {
    let with_org = vec![src("ADMIN", "org", "orgX"), src("ADMIN", "repo", "alpha"), src("ADMIN", "repo", "alpha")];
    assert!(collab("u", "ADMIN", with_org).is_explicit_admin());
    let without_org =
        vec![src("ADMIN", "team", "ops"), src("ADMIN", "repo", "alpha"), src("ADMIN", "repo", "alpha")];
    assert!(collab("u", "ADMIN", without_org).is_explicit_admin());
}

#[test]
fn admin_scenario_org_owner_and_repo_admin() {
    let owner = collab("owner", "ADMIN", vec![src("ADMIN", "org", "orgX"), src("ADMIN", "repo", "alpha")]);
    assert!(owner.is_admin());
    assert!(!owner.is_explicit_admin());
    let direct = collab("direct", "ADMIN", vec![src("ADMIN", "repo", "alpha")]);
    assert!(direct.is_admin());
    assert!(direct.is_explicit_admin());
}

#[test]
fn no_sources_not_explicit_and_non_admin() {
    let c = collab("u", "WRITE", vec![src("WRITE", "team", "devs"), src("READ", "org", "orgX")]);
    assert!(!c.is_admin());
    assert!(!c.is_explicit_admin());
    assert!(!collab("u", "ADMIN", vec![]).is_explicit_admin());
}

#[test]
fn admins_filters_effective_admins() {
    let repo = CollabRepo {
        name: s("alpha"),
        is_archived: false,
        collabs: vec![
            collab("a", "ADMIN", vec![]),
            collab("b", "READ", vec![]),
            collab("c", "ADMIN", vec![src("ADMIN", "repo", "alpha")]),
        ],
    };
    let admins: Vec<&str> = repo.admins().iter().map(|c| c.login.as_str()).collect();
    assert_eq!(admins, vec!["a", "c"]);
    assert_eq!(explicit_admins(&repo), vec![s("c")]);
}

#[test]
fn admins_report_rows() {
    let repos = vec![
        CollabRepo {
            name: s("alpha"),
            is_archived: false,
            collabs: vec![
                collab("owner", "ADMIN", vec![src("ADMIN", "org", "orgX"), src("ADMIN", "repo", "alpha")]),
                collab("direct", "ADMIN", vec![src("ADMIN", "repo", "alpha")]),
            ],
        },
        CollabRepo { name: s("beta"), is_archived: true, collabs: vec![] },
    ];
    let c = admins_content(&repos);
    assert_eq!(c.columns, vec![s("repo"), s("admins")]);
    assert_eq!(c.rows.len(), 2);
    assert_eq!(line_of(&c.rows[0], "repo"), Some(s("alpha")));
    assert_eq!(lines_of(&c.rows[0], "admins"), Some(vec![s("direct")]));
    assert_eq!(lines_of(&c.rows[1], "admins"), Some(vec![]));
}

#[test]
fn perm_sources_flatten_granters() {
    let nodes = vec![
        PermissionSourceNode { permission: Permission::Admin, source: PermissionGranter::Organization { login: s("orgX") } },
        PermissionSourceNode { permission: Permission::Write, source: PermissionGranter::Repository { name: s("alpha") } },
        PermissionSourceNode { permission: Permission::Read, source: PermissionGranter::Team { name: s("ops") } },
        PermissionSourceNode { permission: Permission::Other(s("FUTURE")), source: PermissionGranter::Team { name: s("x") } },
    ];
    let ps = get_perm_sources(&nodes);
    assert_eq!(ps.len(), 4);
    assert_eq!((ps[0].permission.as_str(), ps[0].source.as_str(), ps[0].source_name.as_str()), ("ADMIN", "org", "orgX"));
    assert_eq!((ps[1].permission.as_str(), ps[1].source.as_str(), ps[1].source_name.as_str()), ("WRITE", "repo", "alpha"));
    assert_eq!((ps[2].permission.as_str(), ps[2].source.as_str(), ps[2].source_name.as_str()), ("READ", "team", "ops"));
    assert_eq!(ps[3].permission, "FUTURE");
}

#[test]
fn collab_page_flattens_and_rejects_holes() {
    let edge = CollaboratorEdge {
        login: s("u"),
        permission: Permission::Maintain,
        permission_sources: None,
    };
    let page = CollabPage {
        nodes: Some(vec![
            Some(CollabNode {
                name: s("alpha"),
                is_archived: false,
                collaborators: Some(CollaboratorConnection { edges: Some(vec![Some(edge.clone())]) }),
            }),
            Some(CollabNode { name: s("beta"), is_archived: true, collaborators: None }),
        ]),
        page_info: no_next(),
    };
    let repos = collab::collect_repos(&page).unwrap();
    assert_eq!(repos.len(), 2);
    assert_eq!(repos[0].collabs[0].login, "u");
    assert_eq!(repos[0].collabs[0].permission, "MAINTAIN");
    assert!(repos[0].collabs[0].sources.is_empty());
    assert!(repos[1].collabs.is_empty());
    assert!(repos[1].is_archived);

    let holed = CollaboratorConnection { edges: Some(vec![Some(edge), None]) };
    assert_eq!(get_repo_collabs(&holed).err(), Some(ScanError::MalformedResponse));
    let bad_page = CollabPage { nodes: Some(vec![None]), page_info: no_next() };
    assert_eq!(collab::collect_repos(&bad_page).err(), Some(ScanError::MalformedResponse));
    let empty = CollabPage { nodes: None, page_info: no_next() };
    assert!(collab::collect_repos(&empty).unwrap().is_empty());
}

#[test]
fn vulns_scenario_alpha_beta() {
    let repos = vulns::collect_repos(&alpha_beta_page()).unwrap();
    let c = vuln_content(&repos);
    assert_eq!(c.columns, vec![s("repo"), s("archived"), s("NPM"), s("PIP")]);
    assert_eq!(c.rows.len(), 2);
    let alpha = &c.rows[0];
    assert_eq!(line_of(alpha, "repo"), Some(s("alpha")));
    assert_eq!(line_of(alpha, "archived"), Some(s("false")));
    assert_eq!(lines_of(alpha, "NPM"), Some(vec![s("left-pad = 1.0.0 (< 1.1.0) LOW")]));
    assert_eq!(lines_of(alpha, "PIP"), Some(vec![s("flask = 0.12 (< 1.0) HIGH")]));
    let beta = &c.rows[1];
    assert_eq!(line_of(beta, "archived"), Some(s("true")));
    assert!(beta.get("NPM").is_none());
    assert!(beta.get("PIP").is_none());
    assert_eq!(row_texts(&c.columns, beta, true), vec![s("beta"), s("true"), s(""), s("")]);
}

#[test]
fn vulns_same_ecosystem_accumulates_lines() {
    let vr = VulnRepo {
        name: s("gamma"),
        is_archived: false,
        vulns: vec![
            VulnInfo { ecosystem: s("NPM"), package: s("a"), current_requirements: s("1"), vulnerable_range: s("<2"), severity: s("LOW") },
            VulnInfo { ecosystem: s("NPM"), package: s("b"), current_requirements: s("3"), vulnerable_range: s("<4"), severity: s("CRITICAL") },
        ],
    };
    let row = vuln_row(&vr);
    assert_eq!(lines_of(&row, "NPM"), Some(vec![s("a 1 (<2) LOW"), s("b 3 (<4) CRITICAL")]));
    assert_eq!(row.cmp_key("NPM"), "a 1 (<2) LOW");
    assert_eq!(row.get("NPM").unwrap().text(true), "a 1 (<2) LOW\nb 3 (<4) CRITICAL");
    assert_eq!(row.get("NPM").unwrap().text(false), "a 1 (<2) LOW, b 3 (<4) CRITICAL");
}

#[test]
fn columns_independent_of_repo_order() {
    let mk = |name: &str, ecos: &[&str]| VulnRepo {
        name: s(name),
        is_archived: false,
        vulns: ecos
            .iter()
            .map(|e| VulnInfo {
                ecosystem: s(e),
                package: s("p"),
                current_requirements: s("1"),
                vulnerable_range: s("<2"),
                severity: s("LOW"),
            })
            .collect(),
    };
    let a = vec![mk("x", &["PIP", "NPM"]), mk("y", &["MAVEN"]), mk("z", &["NPM", "GO"])];
    let b = vec![mk("z", &["NPM", "GO"]), mk("x", &["PIP", "NPM"]), mk("y", &["MAVEN"])];
    let ca = vuln_content(&a).columns;
    let cb = vuln_content(&b).columns;
    assert_eq!(ca, cb);
    assert_eq!(ca, vec![s("repo"), s("archived"), s("GO"), s("MAVEN"), s("NPM"), s("PIP")]);
}

#[test]
fn empty_page_gives_base_columns() {
    for nodes in [None, Some(vec![])] {
        let page = VulnPage { nodes, page_info: no_next() };
        let repos = vulns::collect_repos(&page).unwrap();
        let c = vuln_content(&repos);
        assert_eq!(c.columns, vec![s("repo"), s("archived")]);
        assert!(c.rows.is_empty());
    }
}

#[test]
fn vulns_malformed_alerts_rejected() {
    let missing_req = AlertConnection {
        nodes: Some(vec![Some(AlertNode { vulnerable_requirements: None, security_vulnerability: None })]),
    };
    assert_eq!(get_repo_vulns(&missing_req).err(), Some(ScanError::MalformedResponse));
    let hole = AlertConnection { nodes: Some(vec![None]) };
    assert_eq!(get_repo_vulns(&hole).err(), Some(ScanError::MalformedResponse));
    assert!(get_repo_vulns(&AlertConnection { nodes: None }).unwrap().is_empty());
    let page = VulnPage {
        nodes: Some(vec![Some(VulnNode { name: s("n"), is_archived: false, vulnerability_alerts: None })]),
        page_info: no_next(),
    };
    let repos = vulns::collect_repos(&page).unwrap();
    assert!(repos[0].vulns.is_empty());
    let bad = VulnPage { nodes: Some(vec![vnode("a", false, vec![]), None]), page_info: no_next() };
    assert_eq!(vulns::collect_repos(&bad).err(), Some(ScanError::MalformedResponse));
}

#[test]
fn labels_are_api_names() {
    assert_eq!(Ecosystem::Rubygems.label(), "RUBYGEMS");
    assert_eq!(Ecosystem::Other(s("NEWECO")).label(), "NEWECO");
    assert_eq!(Severity::Moderate.label(), "MODERATE");
    assert_eq!(Permission::NoAccess.label(), "NONE");
    assert_eq!(Permission::Triage.label(), "TRIAGE");
}

#[test]
fn vuln_line_format() {
    let v = VulnInfo {
        ecosystem: s("NPM"),
        package: s("left-pad"),
        current_requirements: s("= 1.0.0"),
        vulnerable_range: s("< 1.1.0"),
        severity: s("LOW"),
    };
    assert_eq!(vuln_line(&v), "left-pad = 1.0.0 (< 1.1.0) LOW");
    assert_eq!(bool_string(true), "true");
    assert_eq!(bool_string(false), "false");
}

#[test]
fn scan_single_page_stops() {
    for cursor in [None, Some(s("zzz"))] {
        let mut scan: Scan<u32> = Scan::new();
        assert_eq!(scan.next_cursor(), Some(None));
        scan.on_page(vec![1, 2], &PageInfo { has_next_page: false, end_cursor: cursor });
        assert!(scan.is_done());
        assert_eq!(scan.next_cursor(), None);
        assert_eq!(scan.into_records(), vec![1, 2]);
    }
}

#[test]
fn scan_missing_cursor_stops() {
    let mut scan: Scan<u32> = Scan::new();
    scan.on_page(vec![7], &PageInfo { has_next_page: true, end_cursor: None });
    assert!(scan.is_done());
    assert_eq!(scan.next_cursor(), None);
}

#[test]
fn scan_two_pages_concatenates() {
    let mut scan: Scan<&str> = Scan::new();
    let mut requested = vec![];
    let pages = vec![
        (vec!["a", "b"], PageInfo { has_next_page: true, end_cursor: Some(s("abc")) }),
        (vec!["c"], PageInfo { has_next_page: false, end_cursor: None }),
    ];
    let mut it = pages.into_iter();
    while let Some(cursor) = scan.next_cursor() {
        requested.push(cursor);
        let (recs, info) = it.next().unwrap();
        scan.on_page(recs, &info);
    }
    assert_eq!(requested, vec![None, Some(s("abc"))]);
    assert_eq!(scan.into_records(), vec!["a", "b", "c"]);
}

#[test]
fn get_cursor_cases() {
    assert_eq!(get_cursor(&PageInfo { has_next_page: true, end_cursor: Some(s("c1")) }), Some(s("c1")));
    assert_eq!(get_cursor(&PageInfo { has_next_page: false, end_cursor: Some(s("c1")) }), None);
    assert_eq!(get_cursor(&PageInfo { has_next_page: true, end_cursor: None }), None);
}

#[test]
fn row_cells_and_append() {
    let mut row = RowItem::new();
    assert!(row.get("x").is_none());
    row.add_line("x", "one");
    assert_eq!(line_of(&row, "x"), Some(s("one")));
    assert_eq!(row.append_line("x", "two"), Err(CellError::NotMultiline));
    assert_eq!(line_of(&row, "x"), Some(s("one")));
    row.add_line("x", "uno");
    assert_eq!(line_of(&row, "x"), Some(s("uno")));
    assert_eq!(row.append_line("y", "a"), Ok(()));
    assert_eq!(row.append_line("y", "b"), Ok(()));
    assert_eq!(lines_of(&row, "y"), Some(vec![s("a"), s("b")]));
    row.add_lines("z", vec![]);
    assert_eq!(row.cmp_key("z"), "");
    assert_eq!(row.cmp_key("missing"), "");
    assert_eq!(row.cmp_key("x"), "uno");
    assert_eq!(row.cmp_key("y"), "a");
}

#[test]
fn sort_on_orders_by_key_missing_first() {
    let mk = |name: Option<&str>| {
        let mut r = RowItem::new();
        if let Some(n) = name {
            r.add_line("repo", n);
        }
        r.add_line("tag", "t");
        r
    };
    let mut c = Content { columns: vec![s("repo")], rows: vec![mk(Some("beta")), mk(None), mk(Some("alpha")), mk(Some("Zed"))] };
    c.sort_on("repo");
    let keys: Vec<String> = c.rows.iter().map(|r| r.cmp_key("repo")).collect();
    assert_eq!(keys, vec![s(""), s("Zed"), s("alpha"), s("beta")]);
    assert_eq!(c.columns, vec![s("repo")]);
}

#[test]
fn text_of_cells() {
    assert_eq!(CellItem::Line(s("x")).text(true), "x");
    assert_eq!(CellItem::Lines(vec![]).text(false), "");
    assert_eq!(CellItem::Lines(vec![s("a"), s("b"), s("c")]).text(false), "a, b, c");
    assert_eq!(join_strings(&vec![s("a"), s("b")], "\n"), "a\nb");
}

#[test]
fn string_order_and_equality() {
    assert!(str_lt("", "a"));
    assert!(str_lt("NPM", "PIP"));
    assert!(str_lt("ab", "abc"));
    assert!(!str_lt("b", "a"));
    assert!(!str_lt("a", "a"));
    assert!(str_lt("Z", "a"));
    assert!(str_eq("héllo", "héllo"));
    assert!(!str_eq("a", "ab"));
}

#[test]
fn insert_sorted_dedups() {
    let mut names = vec![];
    for e in ["PIP", "NPM", "PIP", "GO", "NPM"] {
        insert_sorted(&mut names, e);
    }
    assert_eq!(names, vec![s("GO"), s("NPM"), s("PIP")]);
}

#[test]
fn querier_builds_and_filters() {
    let q = Querier::new("tok")
        .header("Accept", "application/vnd.github.vixen-preview+json")
        .error_filter(vec![s("Must have push access to view repository collaborators.")]);
    assert_eq!(q.token(), "tok");
    assert_eq!(q.uri(), GRAPHQL_URI);
    assert_eq!(q.headers().len(), 1);
    assert_eq!(q.headers()[0].0, "Accept");
    let msgs = vec![s("Must have push access to view repository collaborators."), s("Something else")];
    assert_eq!(q.filter_errs(&msgs), vec![s("Something else")]);
    let unfiltered = Querier::new("tok");
    assert_eq!(unfiltered.filter_errs(&msgs), msgs);
    assert!(contains_str(&msgs, "Something else"));
    assert!(!contains_str(&msgs, "Nothing"));
}

#[test]
fn missing_data_and_org_errors() {
    assert_eq!(take_data(Some(3)), Ok(3));
    assert_eq!(take_data::<u8>(None), Err(ScanError::MissingData));
    assert_eq!(take_organization(Some("o")), Ok("o"));
    assert_eq!(take_organization::<u8>(None), Err(ScanError::MissingOrganization));
}

#[test]
fn output_options() {
    assert_eq!(OutputFormat::parse("table"), Some(OutputFormat::Table));
    assert_eq!(OutputFormat::parse("table-clean"), Some(OutputFormat::TableClean));
    assert_eq!(OutputFormat::parse("csv"), Some(OutputFormat::Csv));
    assert_eq!(OutputFormat::parse("json"), None);
    let cli = Cli { oauth_token: s("t"), org: s("o"), output_format: OutputFormat::Csv, output_oneline: true, cmd: None };
    assert_eq!(cli.common_opts(), CommonOpts { multiline: false, borders: false, csv: true });
    assert_eq!(cli.command(), Command::Vulns);
    assert_eq!(cli.joinstrs(&vec![s("a"), s("b")]), "a, b");
    let cli2 = Cli { output_format: OutputFormat::Table, output_oneline: false, cmd: Some(Command::Admins), ..cli };
    assert_eq!(cli2.common_opts(), CommonOpts { multiline: true, borders: true, csv: false });
    assert_eq!(cli2.command(), Command::Admins);
    let clean = CommonOpts { multiline: true, borders: false, csv: false };
    assert_eq!(clean.joinstrs(&vec![s("a"), s("b")]), "a\nb");
}

#[test]
fn labels_read_back() {
    assert!(matches!(Permission::from_label("ADMIN"), Permission::Admin));
    assert!(matches!(Permission::from_label("NONE"), Permission::NoAccess));
    assert!(matches!(Severity::from_label("CRITICAL"), Severity::Critical));
    assert!(matches!(Ecosystem::from_label("PIP"), Ecosystem::Pip));
    assert_eq!(Ecosystem::from_label("HEX").label(), "HEX");
    assert_eq!(Permission::from_label("WRITE").label(), "WRITE");
}

#[test]
fn sort_on_keeps_order_of_equal_keys() {
    let mk = |key: &str, tag: &str| {
        let mut r = RowItem::new();
        r.add_line("k", key);
        r.add_line("tag", tag);
        r
    };
    let mut c = Content {
        columns: vec![s("k"), s("tag")],
        rows: vec![mk("b", "1"), mk("a", "2"), mk("b", "3"), mk("a", "4"), mk("b", "5")],
    };
    c.sort_on("k");
    let tags: Vec<String> = c.rows.iter().map(|r| r.cmp_key("tag")).collect();
    assert_eq!(tags, vec![s("2"), s("4"), s("1"), s("3"), s("5")]);
}
