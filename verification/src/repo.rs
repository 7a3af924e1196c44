//! From a repository specifier to the URL to clone from.
//!
//! A specifier that is an absolute URL is taken as it is. Any other specifier is
//! resolved against a host: the one that was named, or else the first of the
//! default hosts that accepts it.

use crate::text::{option_text, string_views};
use vstd::prelude::*;

verus! {

/// `url::ParseError`, the error of `url::Url::parse` and `url::Url::join`. It is
/// carried through unread.
#[verifier::external_type_specification]
#[verifier::external_body]
pub struct ExParseError(url::ParseError);

/// The serialization of the URL that `input` parses to as an absolute URL, if it does.
pub uninterp spec fn url_parse(input: Seq<char>) -> Option<Seq<char>>;

/// The serialization of the URL that `input` resolves to against the base URL
/// written as `base`, if `base` is an absolute URL and `input` resolves against it.
pub uninterp spec fn url_join(base: Seq<char>, input: Seq<char>) -> Option<Seq<char>>;

/// Parses `input` with `url::Url::parse` and hands back the URL in its serialized form.
///
/// Trusted: success and the serialization depend on the text of `input` alone.
#[verifier::external_body]
fn parse_url(input: &str) -> (parsed: Result<String, url::ParseError>)
    ensures
        match parsed {
            Ok(text) => url_parse(input@) == Some(text@),
            Err(_) => url_parse(input@) is None,
        },
{
    url::Url::parse(input).map(String::from)
}

/// Resolves `input` against `base` with `url::Url::join`, for which `base` is
/// first turned into a `url::Url`, and hands back the URL in its serialized form.
///
/// Trusted: success and the serialization depend on the two texts alone.
#[verifier::external_body]
fn join_url(base: &str, input: &str) -> (joined: Result<String, url::ParseError>)
    ensures
        match joined {
            Ok(text) => url_join(base@, input@) == Some(text@),
            Err(_) => url_join(base@, input@) is None,
        },
{
    url::Url::parse(base)?.join(input).map(String::from)
}

/// Why a specifier led to no URL.
#[derive(Debug, PartialEq, Eq)]
pub enum ResolveError {
    /// The specifier is no absolute URL and resolves against none of the default
    /// hosts. Holds what was wrong with the specifier as an absolute URL.
    SpecifierUnparsable(url::ParseError),
    /// The specifier is no absolute URL and does not resolve against the host
    /// that was named. Holds what went wrong in resolving.
    HostJoinFailed(url::ParseError),
}

/// What came of resolving a specifier against hosts.
#[derive(Debug, PartialEq, Eq)]
pub enum Joined {
    /// A host was named: what came of resolving against it.
    Host(Result<String, url::ParseError>),
    /// No host was named: what came of resolving against each default host, in
    /// the order of preference.
    Defaults(Vec<Result<String, url::ParseError>>),
}

/// `index` is the first place in `tries` that holds a success.
pub open spec fn is_first_success(
    tries: Seq<Result<String, url::ParseError>>,
    index: int,
) -> bool {
    &&& 0 <= index < tries.len()
    &&& tries[index] is Ok
    &&& forall|earlier: int| 0 <= earlier < index ==> (#[trigger] tries[earlier]) is Err
}

/// All of `tries` are failures.
pub open spec fn all_failed(tries: Seq<Result<String, url::ParseError>>) -> bool {
    forall|index: int| 0 <= index < tries.len() ==> (#[trigger] tries[index]) is Err
}

/// Decides on the URL, given what came of reading the specifier as an absolute
/// URL (`direct`) and of resolving it against hosts (`joined`).
///
/// An absolute URL wins. Otherwise the named host decides alone; without a named
/// host the first default host that accepted the specifier decides.
pub fn select_repo(direct: Result<String, url::ParseError>, joined: Joined) -> (chosen: Result<
    String,
    ResolveError,
>)
    ensures
        match direct {
            Ok(url) => chosen == Ok::<String, ResolveError>(url),
            Err(cause) => match joined {
                Joined::Host(Ok(url)) => chosen == Ok::<String, ResolveError>(url),
                Joined::Host(Err(why)) => chosen == Err::<String, ResolveError>(
                    ResolveError::HostJoinFailed(why),
                ),
                Joined::Defaults(tries) => {
                    ||| exists|index: int|
                        #![trigger is_first_success(tries@, index)]
                        is_first_success(tries@, index) && chosen == Ok::<String, ResolveError>(
                            tries@[index]->Ok_0,
                        )
                    ||| all_failed(tries@) && chosen == Err::<String, ResolveError>(
                        ResolveError::SpecifierUnparsable(cause),
                    )
                },
            },
        },
{
    match direct {
        Ok(url) => Ok(url),
        Err(cause) => match joined {
            Joined::Host(Ok(url)) => Ok(url),
            Joined::Host(Err(why)) => Err(ResolveError::HostJoinFailed(why)),
            Joined::Defaults(tries) => {
                let mut index: usize = 0;
                while index < tries.len()
                    invariant
                        index <= tries.len(),
                        direct == Err::<String, url::ParseError>(cause),
                        joined == Joined::Defaults(tries),
                        forall|earlier: int|
                            0 <= earlier < index ==> (#[trigger] tries@[earlier]) is Err,
                    decreases tries.len() - index,
                {
                    match &tries[index] {
                        Ok(url) => {
                            assert(is_first_success(tries@, index as int));
                            return Ok(url.clone());
                        },
                        Err(_) => {},
                    }
                    index += 1;
                }
                Err(ResolveError::SpecifierUnparsable(cause))
            },
        },
    }
}

/// What resolving against the first host of `hosts` that accepts `repo` gives.
pub open spec fn first_join(hosts: Seq<Seq<char>>, repo: Seq<char>) -> Option<Seq<char>>
    decreases hosts.len(),
{
    if hosts.len() == 0 {
        None
    } else if url_join(hosts.first(), repo) is Some {
        url_join(hosts.first(), repo)
    } else {
        first_join(hosts.drop_first(), repo)
    }
}

/// The URL that stands for `repo`, if there is one: `repo` itself where it is an
/// absolute URL, else `repo` resolved against `host` where a host is named, else
/// `repo` resolved against the first of `defaults` that accepts it.
pub open spec fn resolution(
    repo: Seq<char>,
    host: Option<Seq<char>>,
    defaults: Seq<Seq<char>>,
) -> Option<Seq<char>> {
    if url_parse(repo) is Some {
        url_parse(repo)
    } else {
        match host {
            Some(host) => url_join(host, repo),
            None => first_join(defaults, repo),
        }
    }
}

/// `tried` is what resolving `repo` against `host` gives.
pub open spec fn is_join(
    tried: Result<String, url::ParseError>,
    host: Seq<char>,
    repo: Seq<char>,
) -> bool {
    match tried {
        Ok(text) => url_join(host, repo) == Some(text@),
        Err(_) => url_join(host, repo) is None,
    }
}

/// `tries` holds what resolving `repo` against each of `hosts` gives.
pub open spec fn tried_each(
    tries: Seq<Result<String, url::ParseError>>,
    hosts: Seq<Seq<char>>,
    repo: Seq<char>,
) -> bool {
    &&& tries.len() == hosts.len()
    &&& forall|index: int|
        0 <= index < tries.len() ==> is_join(#[trigger] tries[index], hosts[index], repo)
}

/// The first success among the tries is what `first_join` speaks of.
proof fn lemma_first_join(
    tries: Seq<Result<String, url::ParseError>>,
    hosts: Seq<Seq<char>>,
    repo: Seq<char>,
)
    requires
        tried_each(tries, hosts, repo),
    ensures
        all_failed(tries) ==> first_join(hosts, repo) is None,
        forall|index: int|
            #![trigger is_first_success(tries, index)]
            is_first_success(tries, index) ==> first_join(hosts, repo) == Some(
                (tries[index]->Ok_0)@,
            ),
    decreases hosts.len(),
{
    if hosts.len() > 0 {
        let later = tries.drop_first();
        assert(tried_each(later, hosts.drop_first(), repo)) by {
            assert forall|index: int| 0 <= index < later.len() implies is_join(
                #[trigger] later[index],
                hosts.drop_first()[index],
                repo,
            ) by {
                assert(is_join(tries[index + 1], hosts[index + 1], repo));
            }
        }
        lemma_first_join(later, hosts.drop_first(), repo);
        assert(is_join(tries[0], hosts[0], repo));
        if all_failed(tries) {
            assert(all_failed(later)) by {
                assert forall|index: int| 0 <= index < later.len() implies (#[trigger] later[index])
                    is Err by {
                    assert(tries[index + 1] is Err);
                }
            }
        }
        assert forall|index: int| #![trigger is_first_success(tries, index)]
            is_first_success(tries, index) implies first_join(hosts, repo) == Some(
            (tries[index]->Ok_0)@,
        ) by {
            if index > 0 {
                assert(tries[0] is Err);
                assert(is_first_success(later, index - 1)) by {
                    assert(later[index - 1] == tries[index]);
                    assert forall|earlier: int| 0 <= earlier < index - 1 implies (
                    #[trigger] later[earlier]) is Err by {
                        assert(tries[earlier + 1] is Err);
                    }
                }
            }
        }
    }
}

/// The hosts that are tried when none is named, in the order of preference.
pub open spec fn known_hosts() -> Seq<Seq<char>> {
    seq!["https://github.com/"@]
}

/// The hosts that are tried when none is named, in the order of preference.
pub fn default_hosts() -> (hosts: Vec<String>)
    ensures
        string_views(hosts@) == known_hosts(),
{
    let mut hosts: Vec<String> = Vec::new();
    hosts.push("https://github.com/".to_string());
    assert(string_views(hosts@) =~= known_hosts());
    hosts
}

/// Resolves a repository specifier to the URL to clone from.
///
/// `repo` is tried as an absolute URL first. If it is none, it is resolved against
/// `host` where one is named, and otherwise against each of `defaults`, of which
/// the first that accepts it decides. The error says which of the two ways failed.
pub fn resolve_repo(repo: &str, host: &Option<String>, defaults: &Vec<String>) -> (resolved: Result<
    String,
    ResolveError,
>)
    ensures
        match resolution(repo@, option_text(*host), string_views(defaults@)) {
            Some(url) => resolved matches Ok(text) && text@ == url,
            None => resolved matches Err(error) && (error is HostJoinFailed <==> host is Some),
        },
{
    let direct = parse_url(repo);
    let joined = match host {
        Some(host) => Joined::Host(join_url(host.as_str(), repo)),
        None => {
            let mut tries: Vec<Result<String, url::ParseError>> = Vec::new();
            let mut index: usize = 0;
            while index < defaults.len()
                invariant
                    index <= defaults.len(),
                    tried_each(tries@, string_views(defaults@).take(index as int), repo@),
                decreases defaults.len() - index,
            {
                let tried = join_url(defaults[index].as_str(), repo);
                proof {
                    let hosts = string_views(defaults@);
                    assert(hosts.take(index + 1) =~= hosts.take(index as int).push(
                        defaults@[index as int]@,
                    ));
                }
                tries.push(tried);
                index += 1;
            }
            proof {
                let hosts = string_views(defaults@);
                assert(hosts.take(defaults.len() as int) =~= hosts);
                lemma_first_join(tries@, hosts, repo@);
            }
            Joined::Defaults(tries)
        },
    };
    select_repo(direct, joined)
}

} // verus!
