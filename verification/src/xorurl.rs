//! Addressing URLs: `scheme://[sub1.sub2....]toplevel[/path][?...&v=<uint>&...]`.
//!
//! A URL names content by a top-level name, optional sub-names in front of
//! it, a path and an optional version. General URL syntax is the `url`
//! crate's; what the host, path and query mean is decided here.

use crate::errors::{Error, ErrorView, ResultReturn};
use crate::text::{
    chars_of, decimal_u64, lemma_split_on_concat, lemma_split_on_whole, parse_u64, split, split_on,
    text_of,
};
use vstd::prelude::*;
use vstd::string::*;

verus! {

/// The host, path and query of a URL, as general URL syntax tells them apart.
pub struct UrlParts {
    /// The host, where the URL has one.
    pub host: Option<String>,
    /// The path; empty where the URL has none.
    pub path: String,
    /// What follows the `?`, up to a fragment, where the URL has a query.
    pub query: Option<String>,
}

/// What a [`UrlParts`] is in contracts.
pub struct UrlPartsView {
    pub host: Option<Seq<char>>,
    pub path: Seq<char>,
    pub query: Option<Seq<char>>,
}

impl View for UrlParts {
    type V = UrlPartsView;

    open spec fn view(&self) -> UrlPartsView {
        UrlPartsView {
            host: match self.host {
                Some(h) => Some(h@),
                None => None,
            },
            path: self.path@,
            query: match self.query {
                Some(q) => Some(q@),
                None => None,
            },
        }
    }
}

/// What `url::Url::parse` makes of a text: the parts of the URL, or, where the
/// text is no absolute URL, the name of the reason.
pub uninterp spec fn url_syntax(text: Seq<char>) -> Result<UrlPartsView, Seq<char>>;

/// Calls `url::Url::parse`. On success the host, path and query are those that
/// `Url::host_str`, `Url::path` and `Url::query` report for the parsed URL; on
/// failure the text is the `Debug` form of the `ParseError`. The contract
/// claims only that all of this is a function of the input text.
#[verifier::external_body]
fn url_parse(text: &str) -> (parsed: Result<UrlParts, String>)
    ensures
        match parsed {
            Ok(parts) => url_syntax(text@) == Ok::<UrlPartsView, Seq<char>>(parts@),
            Err(reason) => url_syntax(text@) == Err::<UrlPartsView, Seq<char>>(reason@),
        },
{
    match url::Url::parse(text) {
        Ok(parsed) => Ok(
            UrlParts {
                host: parsed.host_str().map(String::from),
                path: String::from(parsed.path()),
                query: parsed.query().map(String::from),
            },
        ),
        Err(reason) => Err(format!("{:?}", reason)),
    }
}

/// What an addressing URL names.
pub struct ParsedUrl {
    /// The labels of the host in front of the last one, in order.
    pub sub_names: Seq<Seq<char>>,
    /// The last label of the host.
    pub top_level_name: Seq<char>,
    /// The path, empty where the URL's path is `/` alone.
    pub path: Seq<char>,
    /// The version that the query asks for, if it names a valid one.
    pub version: Option<u64>,
}

/// Start of the description of a text that is no URL; the reason follows.
pub open spec fn url_problem_text() -> Seq<char> {
    "Problem parsing the safe:// URL "@
}

/// Description of a URL that has no host.
pub open spec fn missing_host_text() -> Seq<char> {
    "Problem parsing the safe:// URL: it has no host"@
}

/// The path as it is reported: a path of `/` alone counts as empty, any
/// other path stays as it is.
pub open spec fn normal_path(path: Seq<char>) -> Seq<char> {
    if path == seq!['/'] {
        Seq::empty()
    } else {
        path
    }
}

/// Whether a query item begins with `v=`.
pub open spec fn has_version_prefix(item: Seq<char>) -> bool {
    item.len() >= 2 && item[0] == 'v' && item[1] == '='
}

/// The first of `items` that begins with `v=`.
pub open spec fn first_version_item(items: Seq<Seq<char>>) -> Option<Seq<char>>
    decreases items.len(),
{
    if items.len() == 0 {
        None
    } else if has_version_prefix(items[0]) {
        Some(items[0])
    } else {
        first_version_item(items.drop_first())
    }
}

/// The version that a query asks for: the number after `v=` in the first of
/// its `&`-separated items that begins so. A number that cannot be read
/// counts as no version, and later items are not looked at.
pub open spec fn query_version(query: Option<Seq<char>>) -> Option<u64> {
    match query {
        None => None,
        Some(q) => match first_version_item(split_on(q, '&')) {
            Some(item) => decimal_u64(item.skip(2)),
            None => None,
        },
    }
}

/// What the parts of a URL name, or the failure for a URL without a host.
pub open spec fn parsed_url(parts: UrlPartsView) -> Result<ParsedUrl, ErrorView> {
    match parts.host {
        None => Err(ErrorView::InvalidXorUrl(missing_host_text())),
        Some(host) => Ok(
            ParsedUrl {
                sub_names: split_on(host, '.').drop_last(),
                top_level_name: split_on(host, '.').last(),
                path: normal_path(parts.path),
                version: query_version(parts.query),
            },
        ),
    }
}

/// What a text names as an addressing URL, or why it names nothing.
pub open spec fn parsed_xorurl(text: Seq<char>) -> Result<ParsedUrl, ErrorView> {
    match url_syntax(text) {
        Err(reason) => Err(ErrorView::InvalidXorUrl(url_problem_text() + reason)),
        Ok(parts) => parsed_url(parts),
    }
}

/// The outcome of parsing as contracts see it: sub-names, top-level name,
/// path and version, in the order of the tuple.
pub open spec fn outcome_view(
    outcome: ResultReturn<(Vec<String>, String, String, Option<u64>)>,
) -> Result<ParsedUrl, ErrorView> {
    match outcome {
        Ok(found) => Ok(
            ParsedUrl {
                sub_names: found.0.deep_view(),
                top_level_name: found.1@,
                path: found.2@,
                version: found.3,
            },
        ),
        Err(e) => Err(e@),
    }
}

fn path_from(path: &str) -> (normal: String)
    ensures
        normal@ == normal_path(path@),
{
    let chars = chars_of(path);
    if chars.len() == 1 && chars[0] == '/' {
        assert(path@ =~= seq!['/']);
        String::new()
    } else {
        path.to_owned()
    }
}

fn version_from(query: &str) -> (version: Option<u64>)
    ensures
        version == query_version(Some(query@)),
{
    let items = split(query, '&');
    let ghost all = items.deep_view();
    let mut i: usize = 0;
    assert(all.skip(0) =~= all);
    while i < items.len()
        invariant
            i <= items.len(),
            all == items.deep_view(),
            all == split_on(query@, '&'),
            first_version_item(all) == first_version_item(all.skip(i as int)),
        decreases items.len() - i,
    {
        let chars = chars_of(items[i].as_str());
        assert(chars@ == all[i as int]);
        assert(all.skip(i as int)[0] == all[i as int]);
        if chars.len() >= 2 && chars[0] == 'v' && chars[1] == '=' {
            let number = text_of(&chars, 2, chars.len());
            assert(number@ =~= all[i as int].skip(2));
            return parse_u64(number.as_str());
        }
        assert(all.skip(i as int).drop_first() =~= all.skip(i as int + 1));
        i += 1;
    }
    assert(all.skip(i as int) =~= Seq::<Seq<char>>::empty());
    None
}

/// Reads sub-names, top-level name, path and version off the parts of a URL.
///
/// Fails for a URL that has no host: nothing stands in for a missing host.
pub fn url_components(parts: &UrlParts) -> (outcome: ResultReturn<
    (Vec<String>, String, String, Option<u64>),
>)
    ensures
        outcome_view(outcome) == parsed_url(parts@),
{
    match &parts.host {
        None => Err(Error::InvalidXorUrl("Problem parsing the safe:// URL: it has no host".to_owned())),
        Some(host) => {
            let mut names = split(host.as_str(), '.');
            let ghost labels = names.deep_view();
            let top_level_name = names.pop().unwrap();
            assert(names.deep_view() =~= labels.drop_last());
            assert(top_level_name@ == labels.last());
            let path = path_from(parts.path.as_str());
            let version = match &parts.query {
                Some(query) => version_from(query.as_str()),
                None => None,
            };
            Ok((names, top_level_name, path, version))
        },
    }
}

/// Parses an addressing URL into its sub-names, top-level name, path and
/// version.
///
/// Fails with `InvalidXorUrl` for a text that is no well-formed URL, and for
/// a URL without a host.
pub fn get_subnames_host_and_path(xorurl: &str) -> (outcome: ResultReturn<
    (Vec<String>, String, String, Option<u64>),
>)
    ensures
        outcome_view(outcome) == parsed_xorurl(xorurl@),
{
    match url_parse(xorurl) {
        Err(reason) => {
            let message = "Problem parsing the safe:// URL ".to_owned().concat(reason.as_str());
            Err(Error::InvalidXorUrl(message))
        },
        Ok(parts) => url_components(&parts),
    }
}

/// A host without a dot is the top-level name, and there are no sub-names.
pub proof fn lemma_single_label_host(parts: UrlPartsView)
    requires
        parts.host matches Some(host) && !host.contains('.'),
    ensures
        parsed_url(parts) matches Ok(url) && url.sub_names == Seq::<Seq<char>>::empty()
            && url.top_level_name == parts.host->0,
{
    let host = parts.host->0;
    lemma_split_on_whole(host, '.');
    assert(seq![host].drop_last() =~= Seq::<Seq<char>>::empty());
}

/// What follows the last dot of a host is the top-level name, and the
/// sub-names are the labels of what stands before that dot.
pub proof fn lemma_host_labels(parts: UrlPartsView, front: Seq<char>, top: Seq<char>)
    requires
        parts.host == Some(front + seq!['.'] + top),
        !top.contains('.'),
    ensures
        parsed_url(parts) matches Ok(url) && url.sub_names == split_on(front, '.')
            && url.top_level_name == top,
{
    lemma_split_on_concat(front, top, '.');
    lemma_split_on_whole(top, '.');
    assert((split_on(front, '.') + seq![top]).drop_last() =~= split_on(front, '.'));
}

/// A query in which no item begins with `v=` asks for no version.
pub proof fn lemma_query_without_version(items: Seq<Seq<char>>)
    requires
        forall|i: int| 0 <= i < items.len() ==> !has_version_prefix(#[trigger] items[i]),
    ensures
        first_version_item(items) is None,
    decreases items.len(),
{
    if items.len() > 0 {
        assert(!has_version_prefix(items[0]));
        assert forall|i: int| 0 <= i < items.drop_first().len() implies !has_version_prefix(
            #[trigger] items.drop_first()[i],
        ) by {
            assert(items.drop_first()[i] == items[i + 1]);
        }
        lemma_query_without_version(items.drop_first());
    }
}

/// A version is reported only for a query with an item that begins with
/// `v=` and goes on with that number.
pub proof fn lemma_version_only_if_named(query: Seq<char>)
    ensures
        query_version(Some(query)) matches Some(version) ==> exists|i: int|
            0 <= i < split_on(query, '&').len() && has_version_prefix(
                #[trigger] split_on(query, '&')[i],
            ) && decimal_u64(split_on(query, '&')[i].skip(2)) == Some(version),
{
    let items = split_on(query, '&');
    if first_version_item(items) is Some {
        lemma_first_version_item(items);
    }
}

/// The first item that begins with `v=` is one of the items.
proof fn lemma_first_version_item(items: Seq<Seq<char>>)
    requires
        first_version_item(items) is Some,
    ensures
        exists|i: int|
            0 <= i < items.len() && has_version_prefix(#[trigger] items[i])
                && first_version_item(items) == Some(items[i]),
    decreases items.len(),
{
    if has_version_prefix(items[0]) {
        assert(first_version_item(items) == Some(items[0]));
    } else {
        let rest = items.drop_first();
        lemma_first_version_item(rest);
        let k = choose|k: int|
            0 <= k < rest.len() && has_version_prefix(#[trigger] rest[k]) && first_version_item(
                rest,
            ) == Some(rest[k]);
        assert(rest[k] == items[k + 1]);
    }
}

/// The path and the query have no say in whether a URL names something: with
/// a host it always does, whatever its version item holds.
pub proof fn lemma_host_suffices(parts: UrlPartsView)
    ensures
        parsed_url(parts) is Ok <==> parts.host is Some,
{
}

} // verus!
