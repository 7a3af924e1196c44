use silly::repo::{default_hosts, resolve_repo, select_repo, Joined, ResolveError};
use url::ParseError;

fn hosts(list: &[&str]) -> Vec<String> {
    list.iter().map(|host| host.to_string()).collect()
}

#[test]
fn default_host_list() {
    assert_eq!(default_hosts(), vec!["https://github.com/".to_string()]);
}

#[test]
fn absolute_url_is_taken_as_it_is() {
    let resolved = resolve_repo("https://example.net/owner/name.git", &None, &default_hosts());
    assert_eq!(resolved, Ok("https://example.net/owner/name.git".to_string()));
}

#[test]
fn absolute_url_comes_back_in_serialized_form() {
    let resolved = resolve_repo("HTTPS://Example.NET", &None, &default_hosts());
    assert_eq!(resolved, Ok("https://example.net/".to_string()));
}

#[test]
fn absolute_url_ignores_the_named_host() {
    let host = Some("https://gitlab.com/".to_string());
    let resolved = resolve_repo("https://example.net/a/b", &host, &default_hosts());
    assert_eq!(resolved, Ok("https://example.net/a/b".to_string()));
}

#[test]
fn short_form_goes_to_the_first_default_host() {
    let resolved = resolve_repo("Kneelawk/silly", &None, &default_hosts());
    assert_eq!(resolved, Ok("https://github.com/Kneelawk/silly".to_string()));
}

#[test]
fn short_form_goes_to_the_named_host() {
    let host = Some("https://gitlab.com/".to_string());
    let resolved = resolve_repo("Kneelawk/silly", &host, &default_hosts());
    assert_eq!(resolved, Ok("https://gitlab.com/Kneelawk/silly".to_string()));
}

#[test]
fn join_replaces_the_last_segment_of_the_host_path() {
    let host = Some("https://example.net/a/b.html".to_string());
    let resolved = resolve_repo("c.png", &host, &default_hosts());
    assert_eq!(resolved, Ok("https://example.net/a/c.png".to_string()));
}

#[test]
fn named_host_that_takes_no_relative_url_fails_the_join() {
    let host = Some("mailto:someone@example.net".to_string());
    let resolved = resolve_repo("Kneelawk/silly", &host, &default_hosts());
    assert_eq!(
        resolved,
        Err(ResolveError::HostJoinFailed(ParseError::RelativeUrlWithCannotBeABaseBase))
    );
}

#[test]
fn named_host_that_is_no_url_fails_the_join() {
    let host = Some("not a url".to_string());
    let resolved = resolve_repo("Kneelawk/silly", &host, &default_hosts());
    assert_eq!(resolved, Err(ResolveError::HostJoinFailed(ParseError::RelativeUrlWithoutBase)));
}

#[test]
fn named_host_is_not_helped_by_the_defaults() {
    let host = Some("mailto:someone@example.net".to_string());
    let resolved = resolve_repo("Kneelawk/silly", &host, &hosts(&["https://github.com/"]));
    assert!(matches!(resolved, Err(ResolveError::HostJoinFailed(_))));
}

#[test]
fn without_hosts_a_short_form_is_unparsable() {
    let resolved = resolve_repo("Kneelawk/silly", &None, &hosts(&[]));
    assert_eq!(
        resolved,
        Err(ResolveError::SpecifierUnparsable(ParseError::RelativeUrlWithoutBase))
    );
}

#[test]
fn default_hosts_are_tried_in_order() {
    let list =
        hosts(&["mailto:someone@example.net", "https://one.example/", "https://two.example/"]);
    let resolved = resolve_repo("owner/name", &None, &list);
    assert_eq!(resolved, Ok("https://one.example/owner/name".to_string()));
}

#[test]
fn no_default_host_accepts_the_specifier() {
    let list = hosts(&["mailto:someone@example.net", "data:text/plain,x"]);
    let resolved = resolve_repo("owner/name", &None, &list);
    assert_eq!(
        resolved,
        Err(ResolveError::SpecifierUnparsable(ParseError::RelativeUrlWithoutBase))
    );
}

#[test]
fn select_prefers_the_absolute_url() {
    let chosen = select_repo(
        Ok("https://direct.example/".to_string()),
        Joined::Host(Ok("https://host.example/x".to_string())),
    );
    assert_eq!(chosen, Ok("https://direct.example/".to_string()));
    let chosen = select_repo(
        Ok("https://direct.example/".to_string()),
        Joined::Defaults(vec![Err(ParseError::EmptyHost)]),
    );
    assert_eq!(chosen, Ok("https://direct.example/".to_string()));
}

#[test]
fn select_takes_the_named_host() {
    let chosen = select_repo(
        Err(ParseError::RelativeUrlWithoutBase),
        Joined::Host(Ok("https://host.example/x".to_string())),
    );
    assert_eq!(chosen, Ok("https://host.example/x".to_string()));
}

#[test]
fn select_reports_the_failed_join_with_its_cause() {
    let chosen = select_repo(
        Err(ParseError::RelativeUrlWithoutBase),
        Joined::Host(Err(ParseError::InvalidPort)),
    );
    assert_eq!(chosen, Err(ResolveError::HostJoinFailed(ParseError::InvalidPort)));
}

#[test]
fn select_takes_the_first_default_that_succeeded() {
    let chosen = select_repo(
        Err(ParseError::RelativeUrlWithoutBase),
        Joined::Defaults(vec![
            Err(ParseError::EmptyHost),
            Ok("https://second.example/x".to_string()),
            Ok("https://third.example/x".to_string()),
        ]),
    );
    assert_eq!(chosen, Ok("https://second.example/x".to_string()));
}

#[test]
fn select_reports_the_specifier_when_every_default_failed() {
    let chosen = select_repo(
        Err(ParseError::RelativeUrlWithoutBase),
        Joined::Defaults(vec![Err(ParseError::EmptyHost), Err(ParseError::InvalidPort)]),
    );
    assert_eq!(
        chosen,
        Err(ResolveError::SpecifierUnparsable(ParseError::RelativeUrlWithoutBase))
    );
    let chosen = select_repo(Err(ParseError::IdnaError), Joined::Defaults(vec![]));
    assert_eq!(chosen, Err(ResolveError::SpecifierUnparsable(ParseError::IdnaError)));
}
