use sysml_v2_sql::cli::{CommitSelector, ProjectSelector};
use sysml_v2_sql::fetch::api_data_types::{
    Branch, BranchHead, DefaultBranch, OwningProject, Project, ReferencedCommit,
};
use sysml_v2_sql::fetch::{
    build_url_path, check_for_conflicting_elements, ids_are_distinct, interprete_cli, next_page_url, paginator_step,
    pick_link, resume_search, select_branch, select_project, Credentials, FetchError,
    PageCollector, PaginatorAction, Pending, Progress, Reply, Request, Selection,
    SysmlV2ApiBrowser,
};
use sysml_v2_sql::import::{Element, ImportError};
use sysml_v2_sql::json::JsonValue;

fn element(id: &str, name: &str) -> Element {
    Element {
        id: id.to_string(),
        rest: vec![("name".to_string(), JsonValue::String(name.to_string()))],
    }
}

fn project(id: &str, name: &str, default_branch: &str) -> Project {
    Project {
        id: id.to_string(),
        created: "2024-01-01".to_string(),
        default_branch: DefaultBranch { id: default_branch.to_string() },
        description: None,
        name: name.to_string(),
    }
}

fn branch(id: &str, name: &str, head: &str) -> Branch {
    Branch {
        id: id.to_string(),
        created: "2024-01-01".to_string(),
        head: BranchHead { id: head.to_string() },
        name: name.to_string(),
        owning_project: OwningProject { id: "p".to_string() },
        referenced_commit: ReferencedCommit { id: head.to_string() },
    }
}

#[test]
fn url_paths_of_commits() {
    assert_eq!(build_url_path("proj", "rev", None), "projects/proj/commits/rev/elements");
    assert_eq!(
        build_url_path("proj", "rev", Some(100)),
        "projects/proj/commits/rev/elements?page[size]=100"
    );
    assert_eq!(build_url_path("", "", Some(0)), "projects//commits//elements?page[size]=0");
}

#[test]
fn identical_duplicates_are_no_conflict() {
    let elements = vec![element("1", "a"), element("2", "b"), element("1", "a")];
    let mut index = Vec::new();
    assert_eq!(check_for_conflicting_elements(&elements, &mut index), Ok(()));
    assert_eq!(index, vec![("1".to_string(), 0), ("2".to_string(), 1)]);
}

#[test]
fn differing_elements_of_one_id_are_a_conflict() {
    let elements = vec![element("1", "a"), element("2", "b"), element("1", "c")];
    let mut index = Vec::new();
    assert_eq!(
        check_for_conflicting_elements(&elements, &mut index),
        Err(ImportError::ConflictingElements)
    );
    let mut index = Vec::new();
    assert_eq!(check_for_conflicting_elements(&Vec::new(), &mut index), Ok(()));
}

#[test]
fn the_next_page_is_taken_from_the_link_header() {
    let header = r#"<https://api.example.org/projects/p/commits/c/elements?page%5Bafter%5D=abc&page%5Bsize%5D=2>; rel="next", <https://api.example.org/projects/p/commits/c/elements?page%5Bsize%5D=2>; rel="first""#;
    assert_eq!(
        next_page_url(Some(header)).unwrap().unwrap(),
        "https://api.example.org/projects/p/commits/c/elements?page%5Bafter%5D=abc&page%5Bsize%5D=2"
    );
    let only_previous = r#"<https://api.example.org/elements?page=1>; rel="prev""#;
    assert_eq!(next_page_url(Some(only_previous)).unwrap(), None);
    assert_eq!(next_page_url(None).unwrap(), None);
    // a link without relation cannot be read
    assert_eq!(
        next_page_url(Some("<https://api.example.org/elements?page=2>")).unwrap_err(),
        FetchError::MalformedPagination
    );
    // a link that is no address is no next page
    assert_eq!(
        next_page_url(Some(r#"</elements?page=2>; rel="next""#)).unwrap_err(),
        FetchError::MalformedPagination
    );
}

#[test]
fn links_are_picked_by_their_relation() {
    let links = vec![
        ("first".to_string(), "a".to_string()),
        ("next".to_string(), "b".to_string()),
    ];
    assert_eq!(pick_link(&links, "next").unwrap(), "b");
    assert_eq!(pick_link(&links, "last"), None);
}

#[test]
fn the_paginator_stops_without_next_page_or_taker() {
    assert!(matches!(
        paginator_step(Some("u".to_string()), true),
        PaginatorAction::Get(url) if url == "u"
    ));
    assert!(matches!(paginator_step(Some("u".to_string()), false), PaginatorAction::Stop));
    assert!(matches!(paginator_step(None, true), PaginatorAction::Stop));
}

#[test]
fn three_pages_and_an_empty_one_give_three_pages() {
    let mut collector = PageCollector::new();
    assert!(collector.accept(vec![element("1", "a"), element("2", "b")]));
    assert!(collector.accept(vec![element("3", "c")]));
    assert!(collector.accept(vec![element("4", "d"), element("5", "e")]));
    assert!(!collector.accept(Vec::new()));
    // nothing is taken in after the end
    assert!(!collector.accept(vec![element("6", "f")]));
    assert_eq!(collector.pages(), 3);
    let ids: Vec<&str> = collector.elements().iter().map(|e| e.id.as_str()).collect();
    assert_eq!(ids, vec!["1", "2", "3", "4", "5"]);
    assert_eq!(collector.into_elements().len(), 5);
}

#[test]
fn the_base_address_must_not_end_with_a_slash() {
    let new = |base: &str| SysmlV2ApiBrowser::new(base.to_string(), None, None);
    assert_eq!(new("http://localhost:9000/api/").unwrap_err(), FetchError::TrailingSlash);
    // an address without path has the path `/`
    assert_eq!(new("http://localhost:9000").unwrap_err(), FetchError::TrailingSlash);
    assert_eq!(new("no address").unwrap_err(), FetchError::InvalidUrl);
    assert_eq!(new("").unwrap_err(), FetchError::InvalidUrl);
    let browser = new("http://localhost:9000/api").unwrap();
    assert_eq!(browser.base_url, "http://localhost:9000/api");
    assert_eq!(browser.absolute_url("projects").unwrap(), "http://localhost:9000/api/projects");
    assert_eq!(
        browser.absolute_url("/other/projects").unwrap(),
        "http://localhost:9000/other/projects"
    );
    assert_eq!(
        browser.absolute_url("projects/p/branches/b").unwrap(),
        "http://localhost:9000/api/projects/p/branches/b"
    );
    // what is given is taken as a path, question mark and all
    assert_eq!(
        browser.absolute_url("elements?page[size]=5").unwrap(),
        "http://localhost:9000/api/elements%3Fpage[size]=5"
    );
    let with_query = new("https://example.org/v2?key=1#top").unwrap();
    assert_eq!(with_query.absolute_url("projects").unwrap(), "https://example.org/v2/projects?key=1#top");
    // a long path is a path like any other
    let long = "x".repeat(2000000);
    assert_eq!(
        browser.absolute_url(&long).unwrap(),
        format!("http://localhost:9000/api/{long}")
    );
    // without an address as base there is no address
    let lost = SysmlV2ApiBrowser {
        base_url: "no address".to_string(),
        maybe_username: None,
        maybe_password: None,
    };
    assert_eq!(lost.absolute_url("projects"), None);
}

#[test]
fn credentials_need_a_user_name() {
    let browser = |u: Option<&str>, p: Option<&str>| {
        SysmlV2ApiBrowser::new(
            "http://localhost/api".to_string(),
            u.map(str::to_string),
            p.map(str::to_string),
        )
        .unwrap()
    };
    assert!(matches!(browser(None, None).maybe_set_auth(), Ok(Credentials::Anonymous)));
    assert_eq!(
        browser(None, Some("secret")).maybe_set_auth().unwrap_err(),
        FetchError::PasswordWithoutUsername
    );
    assert!(matches!(
        browser(Some("me"), None).maybe_set_auth(),
        Ok(Credentials::Basic { username, maybe_password: None }) if username == "me"
    ));
    assert!(matches!(
        browser(Some("me"), Some("secret")).maybe_set_auth(),
        Ok(Credentials::Basic { username, maybe_password: Some(password) })
            if username == "me" && password == "secret"
    ));
}

#[test]
fn requests_have_their_paths() {
    assert_eq!(Request::Projects.path(), "projects");
    assert_eq!(Request::Project { project_id: "p".to_string() }.path(), "projects/p");
    assert_eq!(Request::Branches { project_id: "p".to_string() }.path(), "projects/p/branches");
    assert_eq!(
        Request::Branch { project_id: "p".to_string(), branch_id: "b".to_string() }.path(),
        "projects/p/branches/b"
    );
}

#[test]
fn projects_and_branches_are_selected_by_the_beginning_of_their_name() {
    let projects = vec![project("1", "My Project", "m"), project("2", "Other", "o")];
    assert_eq!(select_project(&projects, "My"), Selection::Found(0));
    assert_eq!(select_project(&projects, "Other"), Selection::Found(1));
    assert_eq!(select_project(&projects, "y"), Selection::Missing);
    assert_eq!(select_project(&projects, ""), Selection::Ambiguous);
    assert_eq!(select_project(&Vec::new(), ""), Selection::Missing);
    let branches = vec![branch("b1", "main", "c1"), branch("b2", "maintenance", "c2")];
    assert_eq!(select_branch(&branches, "main"), Selection::Ambiguous);
    assert_eq!(select_branch(&branches, "maint"), Selection::Found(1));
    assert_eq!(select_branch(&branches, "dev"), Selection::Missing);
}

#[test]
fn a_named_commit_of_an_identified_project_needs_no_search() {
    let selector = ProjectSelector::ProjectId {
        project_id: "p".to_string(),
        commit: CommitSelector::CommitId { commit_id: "c".to_string() },
    };
    assert!(matches!(
        interprete_cli(&selector),
        Progress::Done { project_id, commit_id } if project_id == "p" && commit_id == "c"
    ));
}

#[test]
fn the_default_branch_of_a_named_project_is_found_in_two_steps() {
    let selector = ProjectSelector::ProjectName {
        project_name: "My".to_string(),
        commit: CommitSelector::DefaultBranch,
    };
    let Progress::Ask { request, pending } = interprete_cli(&selector) else {
        panic!("the projects are to be asked for");
    };
    assert_eq!(request.path(), "projects");
    let projects = vec![project("1", "Other", "o"), project("2", "My Project", "m")];
    let Progress::Ask { request, pending } = resume_search(&pending, &Reply::Projects(projects))
    else {
        panic!("the default branch is to be asked for");
    };
    assert_eq!(request.path(), "projects/2/branches/m");
    let progress = resume_search(&pending, &Reply::Branch(branch("m", "main", "c9")));
    assert!(matches!(
        progress,
        Progress::Done { project_id, commit_id } if project_id == "2" && commit_id == "c9"
    ));
}

#[test]
fn the_default_branch_of_an_identified_project_is_found_in_two_steps() {
    let selector = ProjectSelector::ProjectId {
        project_id: "p".to_string(),
        commit: CommitSelector::DefaultBranch,
    };
    let Progress::Ask { request, pending } = interprete_cli(&selector) else {
        panic!("the project is to be asked for");
    };
    assert_eq!(request.path(), "projects/p");
    let Progress::Ask { request, pending } =
        resume_search(&pending, &Reply::Project(project("p", "Project", "d")))
    else {
        panic!("the default branch is to be asked for");
    };
    assert_eq!(request.path(), "projects/p/branches/d");
    assert!(matches!(
        resume_search(&pending, &Reply::Branch(branch("d", "main", "c1"))),
        Progress::Done { project_id, commit_id } if project_id == "p" && commit_id == "c1"
    ));
}

#[test]
fn branches_are_found_by_id_and_by_name() {
    let by_id = ProjectSelector::ProjectId {
        project_id: "p".to_string(),
        commit: CommitSelector::BranchId { branch_id: "b".to_string() },
    };
    let Progress::Ask { request, pending } = interprete_cli(&by_id) else {
        panic!("the branch is to be asked for");
    };
    assert_eq!(request.path(), "projects/p/branches/b");
    assert!(matches!(pending, Pending::BranchHead { .. }));

    let by_name = ProjectSelector::ProjectId {
        project_id: "p".to_string(),
        commit: CommitSelector::BranchName { branch_name: "dev".to_string() },
    };
    let Progress::Ask { request, pending } = interprete_cli(&by_name) else {
        panic!("the branches are to be asked for");
    };
    assert_eq!(request.path(), "projects/p/branches");
    let branches = vec![branch("b1", "main", "c1"), branch("b2", "develop", "c2")];
    assert!(matches!(
        resume_search(&pending, &Reply::Branches(branches)),
        Progress::Done { project_id, commit_id } if project_id == "p" && commit_id == "c2"
    ));
    assert!(matches!(
        resume_search(&pending, &Reply::Branches(Vec::new())),
        Progress::Failed(FetchError::NoMatchingBranch)
    ));
    let twice = vec![branch("b1", "dev1", "c1"), branch("b2", "dev2", "c2")];
    assert!(matches!(
        resume_search(&pending, &Reply::Branches(twice)),
        Progress::Failed(FetchError::AmbiguousBranch)
    ));
}

#[test]
fn a_search_fails_without_the_one_project() {
    let pending = Pending::ProjectByName {
        project_name: "My".to_string(),
        commit: CommitSelector::DefaultBranch,
    };
    assert!(matches!(
        resume_search(&pending, &Reply::Projects(vec![project("1", "Other", "o")])),
        Progress::Failed(FetchError::NoMatchingProject)
    ));
    assert!(matches!(
        resume_search(
            &pending,
            &Reply::Projects(vec![project("1", "My A", "a"), project("2", "My B", "b")])
        ),
        Progress::Failed(FetchError::AmbiguousProject)
    ));
    assert!(matches!(
        resume_search(&pending, &Reply::Branches(Vec::new())),
        Progress::Failed(FetchError::UnexpectedReply)
    ));
}

#[test]
fn conflicts_are_found_among_many_elements_and_against_a_given_index() {
    let mut elements: Vec<Element> =
        (0..3000).map(|i| element(&format!("id-{i}"), &format!("name-{}", i % 7))).collect();
    // every element once more, unchanged
    let again: Vec<Element> = elements.iter().take(1500).cloned().collect();
    elements.extend(again);
    let mut index = Vec::new();
    assert_eq!(check_for_conflicting_elements(&elements, &mut index), Ok(()));
    assert_eq!(index.len(), 3000);
    assert_eq!(index[2999], ("id-2999".to_string(), 2999));

    // an index that has seen the first element takes it as the one to equal
    let mut given = vec![("id-1".to_string(), 0)];
    assert_eq!(
        check_for_conflicting_elements(&elements, &mut given),
        Err(ImportError::ConflictingElements)
    );
    assert_eq!(given, vec![("id-1".to_string(), 0), ("id-0".to_string(), 0)]);

    elements.push(element("id-2999", "changed"));
    let mut index = Vec::new();
    assert_eq!(
        check_for_conflicting_elements(&elements, &mut index),
        Err(ImportError::ConflictingElements)
    );
}

#[test]
fn ids_are_told_apart() {
    let ids = |list: &[&str]| list.iter().map(|s| s.to_string()).collect::<Vec<_>>();
    assert!(ids_are_distinct(&ids(&[])));
    assert!(ids_are_distinct(&ids(&["a"])));
    assert!(ids_are_distinct(&ids(&["a", "b", "c", ""])));
    assert!(!ids_are_distinct(&ids(&["a", "b", "a"])));
    assert!(!ids_are_distinct(&ids(&["", ""])));
    let mut many: Vec<String> = (0..5000).map(|i| format!("id-{i}")).collect();
    assert!(ids_are_distinct(&many));
    many.push("id-4999".to_string());
    assert!(!ids_are_distinct(&many));
}
