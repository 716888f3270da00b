use kingfisher::failure::Failure;
use kingfisher::gitlab::{
    client_for_host, create_gitlab_client, enumerate_repo_urls, list_repositories,
    repository_listing, GitlabError, RepoSpecifiers, RepoType, Reply, Request,
};

fn strings(texts: &[&str]) -> Vec<String> {
    texts.iter().map(|t| t.to_string()).collect()
}

fn failure(message: &str) -> Failure {
    Failure { message: message.to_string(), causes: strings(&["no route"]) }
}

fn specifiers(user: &[&str], group: &[&str], all_groups: bool) -> RepoSpecifiers {
    RepoSpecifiers {
        user: strings(user),
        group: strings(group),
        all_groups,
        repo_filter: RepoType::All,
    }
}

/// A server that knows the users ann (1) and bob (2), and the groups 10, 11 and 12.
fn reply(request: &Request) -> Reply {
    match request {
        Request::FindUser(name) => match name.as_str() {
            "ann" => Reply::Ids(vec![1, 99]),
            "bob" => Reply::Ids(vec![2]),
            _ => Reply::Ids(vec![]),
        },
        Request::UserProjects(1) => Reply::Urls(strings(&["https://h/z", "https://h/a"])),
        Request::UserProjects(2) => Reply::Urls(strings(&["https://h/a"])),
        Request::UserProjects(_) => Reply::Failure(failure("no such user")),
        Request::AllGroups => Reply::Ids(vec![10, 11, 12]),
        Request::SearchGroups(name) => match name.as_str() {
            "tools" => Reply::Ids(vec![11, 10]),
            _ => Reply::Ids(vec![]),
        },
        Request::GroupProjects(10) => Reply::Urls(strings(&["https://h/m"])),
        Request::GroupProjects(11) => Reply::Urls(strings(&["https://h/a", "https://h/b"])),
        Request::GroupProjects(12) => Reply::Urls(vec![]),
        Request::GroupProjects(_) => Reply::Failure(failure("no such group")),
        Request::Finished => panic!("nothing was asked"),
    }
}

/// The outcome of an enumeration, and how far a progress display moves.
fn enumerate(specifiers: &RepoSpecifiers) -> (Result<Vec<String>, GitlabError>, usize) {
    let mut enumeration = enumerate_repo_urls(specifiers);
    let mut progress = 0;
    loop {
        let request = enumeration.request();
        if matches!(request, Request::Finished) {
            return (enumeration.finish(), progress);
        }
        if enumeration.advance(reply(&request)) {
            progress += 1;
        }
    }
}

#[test]
fn specifiers_are_empty_when_they_name_nothing() {
    assert!(specifiers(&[], &[], false).is_empty());
    assert!(!specifiers(&["ann"], &[], false).is_empty());
    assert!(!specifiers(&[], &["tools"], false).is_empty());
    assert!(!specifiers(&[], &[], true).is_empty());
}

#[test]
fn empty_specifiers_list_nothing() {
    let (outcome, progress) = enumerate(&specifiers(&[], &[], false));
    assert_eq!(outcome.unwrap(), Vec::<String>::new());
    assert_eq!(progress, 0);
}

#[test]
fn users_and_groups_are_collected_sorted_and_once() {
    let (outcome, progress) = enumerate(&specifiers(&["ann", "bob"], &["tools", "none"], false));
    assert_eq!(
        outcome.unwrap(),
        strings(&["https://h/a", "https://h/b", "https://h/m", "https://h/z"])
    );
    assert_eq!(progress, 4);
}

#[test]
fn all_groups_leave_searches_out() {
    let (outcome, progress) = enumerate(&specifiers(&[], &["tools"], true));
    assert_eq!(outcome.unwrap(), strings(&["https://h/a", "https://h/b", "https://h/m"]));
    assert_eq!(progress, 3);
}

#[test]
fn first_unknown_user_ends_the_enumeration() {
    let (outcome, progress) = enumerate(&specifiers(&["ann", "eve", "mallory"], &[], true));
    let e = outcome.unwrap_err();
    assert!(matches!(&e, GitlabError::UserNotFound(name) if name == "eve"));
    assert_eq!(e.message(), "GitLab user `eve` not found");
    assert_eq!(progress, 1);
}

#[test]
fn failed_request_ends_the_enumeration() {
    let mut enumeration = enumerate_repo_urls(&specifiers(&["ann"], &[], false));
    assert!(matches!(enumeration.request(), Request::FindUser(name) if name == "ann"));
    assert!(!enumeration.advance(Reply::Failure(failure("timed out"))));
    assert!(matches!(enumeration.request(), Request::Finished));
    let e = enumeration.finish().unwrap_err();
    assert_eq!(e.message(), "timed out");
    match e {
        GitlabError::Request(cause) => assert_eq!(cause, failure("timed out")),
        other => panic!("unexpected: {other:?}"),
    }
}

#[test]
fn client_takes_host_token_and_certificates() {
    let plan =
        create_gitlab_client("https://gitlab.example.com:8443/api", Some("t".to_string()), true)
            .unwrap();
    assert_eq!(plan.host, "gitlab.example.com");
    assert_eq!(plan.token, Some("t".to_string()));
    assert!(plan.insecure);
    let plan = create_gitlab_client("https://GitLab.com/", None, false).unwrap();
    assert_eq!(plan.host, "gitlab.com");
    assert_eq!(plan.token, None);
    assert!(!plan.insecure);
}

#[test]
fn client_needs_a_host() {
    let e = create_gitlab_client("data:text/plain,x", None, false).unwrap_err();
    assert!(matches!(e, GitlabError::MissingHost));
    assert_eq!(e.message(), "GitLab URL must contain a host");
    let e = client_for_host(Ok(None), Some("t".to_string()), true).unwrap_err();
    assert!(matches!(e, GitlabError::MissingHost));
}

#[test]
fn client_refuses_what_is_no_url() {
    let e = create_gitlab_client("gitlab.com", None, false).unwrap_err();
    assert!(matches!(e, GitlabError::InvalidUrl(_)));
    assert_eq!(e.message(), "relative URL without a base");
}

#[test]
fn listing_has_one_line_per_url() {
    assert_eq!(repository_listing(&strings(&["b", "a"])), "b\na\n");
    assert_eq!(repository_listing(&[]), "");
}

#[test]
fn listing_query_holds_its_arguments() {
    let query = list_repositories(&strings(&["u"]), &strings(&["g", "h"]), true, RepoType::Member);
    assert_eq!(query.user, strings(&["u"]));
    assert_eq!(query.group, strings(&["g", "h"]));
    assert!(query.all_groups);
    assert!(matches!(query.repo_filter, RepoType::Member));
}

#[test]
fn order_of_the_query_does_not_matter() {
    let (one, _) = enumerate(&specifiers(&["ann", "bob"], &["tools", "none"], false));
    let (other, _) = enumerate(&specifiers(&["bob", "ann", "ann"], &["none", "tools"], false));
    assert_eq!(one.unwrap(), other.unwrap());
}
