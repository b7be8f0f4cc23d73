//! Where log batches are posted to.

use crate::text::{
    lemma_trimmed, optional_string, optional_text, starts_with, trim_trailing_slashes,
    without_trailing_slashes,
};
use vstd::prelude::*;

verus! {

/// Environment variable that holds the full logs endpoint URL, used verbatim.
pub const ENV_LOGS_ENDPOINT: &'static str = "OTEL_EXPORTER_OTLP_LOGS_ENDPOINT";

/// Environment variable that holds the collector base URL, to which [`LOGS_PATH`] is appended.
pub const ENV_ENDPOINT: &'static str = "OTEL_EXPORTER_OTLP_ENDPOINT";

/// Environment variable that holds a `RUST_LOG`-style filter for this sink only.
pub const ENV_FILTER: &'static str = "OTLP_LOG";

/// The OTLP/HTTP path for the logs signal.
pub const LOGS_PATH: &'static str = "/v1/logs";

/// What every endpoint starts with: the exporter speaks no TLS.
pub const HTTP_SCHEME: &'static str = "http://";

/// The logs URL under a base URL.
pub open spec fn logs_url(base: Seq<char>) -> Seq<char> {
    without_trailing_slashes(base) + LOGS_PATH@
}

/// The URL chosen among a flag with a base URL, a full URL and another base URL, in this order.
pub open spec fn chosen_url(
    flag: Option<Seq<char>>,
    logs_endpoint: Option<Seq<char>>,
    base_endpoint: Option<Seq<char>>,
) -> Option<Seq<char>> {
    match (flag, logs_endpoint, base_endpoint) {
        (Some(base), _, _) => Some(logs_url(base)),
        (None, Some(url), _) => Some(url),
        (None, None, Some(base)) => Some(logs_url(base)),
        (None, None, None) => None,
    }
}

/// A variable that is set to nothing counts as not set.
pub open spec fn set_variable(variable: Option<Seq<char>>) -> Option<Seq<char>> {
    match variable {
        Some(value) if value.len() > 0 => Some(value),
        _ => None,
    }
}

/// Appends [`LOGS_PATH`] to a base URL.
fn with_path(base: &str) -> (url: String)
    ensures
        url@ == logs_url(base@),
{
    let mut url = trim_trailing_slashes(base).to_owned();
    url.append(LOGS_PATH);
    url
}

/// Drops a variable that is set to nothing.
fn unless_empty(variable: Option<&str>) -> (set: Option<&str>)
    ensures
        optional_text(set) == set_variable(optional_text(variable)),
{
    match variable {
        Some(value) => if value.is_empty() {
            None
        } else {
            Some(value)
        },
        None => None,
    }
}

/// Resolves the URL log batches are posted to, from the values of the two environment variables.
///
/// Precedence, highest first:
/// 1. `flag`, the `--otlp-logs-endpoint` value: a base URL, [`LOGS_PATH`] is appended.
/// 2. [`ENV_LOGS_ENDPOINT`]: a full URL, used as it is.
/// 3. [`ENV_ENDPOINT`]: a base URL, [`LOGS_PATH`] is appended.
///
/// Gives `None` when none of the three is set. An empty variable counts as not set.
pub fn resolve_url(
    flag: Option<&str>,
    logs_variable: Option<&str>,
    base_variable: Option<&str>,
) -> (url: Option<String>)
    ensures
        optional_string(url) == chosen_url(
            optional_text(flag),
            set_variable(optional_text(logs_variable)),
            set_variable(optional_text(base_variable)),
        ),
{
    resolve_url_from(flag, unless_empty(logs_variable), unless_empty(base_variable))
}

/// Chooses the URL among values that are set.
pub fn resolve_url_from(
    flag: Option<&str>,
    logs_endpoint: Option<&str>,
    base_endpoint: Option<&str>,
) -> (url: Option<String>)
    ensures
        optional_string(url) == chosen_url(
            optional_text(flag),
            optional_text(logs_endpoint),
            optional_text(base_endpoint),
        ),
{
    match (flag, logs_endpoint, base_endpoint) {
        (Some(base), _, _) => Some(with_path(base)),
        (None, Some(url), _) => Some(url.to_owned()),
        (None, None, Some(base)) => Some(with_path(base)),
        (None, None, None) => None,
    }
}

/// An endpoint the exporter cannot post to.
#[derive(Debug)]
pub struct InvalidEndpoint {
    pub message: String,
}

/// Why `url` is refused as an endpoint.
pub open spec fn refusal_text(url: Seq<char>) -> Seq<char> {
    "OTLP logs endpoint must start with http://, got "@ + url
}

/// Accepts plain `http://` URLs and no others.
pub fn check_endpoint(url: &str) -> (checked: Result<(), InvalidEndpoint>)
    ensures
        checked is Ok == HTTP_SCHEME@.is_prefix_of(url@),
        checked matches Err(refused) ==> refused.message@ == refusal_text(url@),
{
    if starts_with(url, HTTP_SCHEME) {
        Ok(())
    } else {
        let mut message = "OTLP logs endpoint must start with http://, got ".to_owned();
        message.append(url);
        Err(InvalidEndpoint { message })
    }
}

/// Slashes at the end of a base URL make no difference.
pub proof fn trailing_slashes_do_not_matter(base: Seq<char>, slashes: Seq<char>)
    requires
        forall|i: int| 0 <= i < slashes.len() ==> slashes[i] == '/',
    ensures
        logs_url(base + slashes) == logs_url(base),
    decreases slashes.len(),
{
    if slashes.len() == 0 {
        assert(base + slashes =~= base);
    } else {
        assert((base + slashes).drop_last() =~= base + slashes.drop_last());
        trailing_slashes_do_not_matter(base, slashes.drop_last());
    }
}

/// A trimmed text is empty or ends in something else than a slash.
proof fn lemma_trimmed_end(text: Seq<char>)
    ensures
        without_trailing_slashes(text).is_prefix_of(text),
        without_trailing_slashes(text).len() == 0 || without_trailing_slashes(text).last() != '/',
    decreases text.len(),
{
    if text.len() > 0 && text.last() == '/' {
        lemma_trimmed_end(text.drop_last());
        let trimmed = without_trailing_slashes(text);
        assert(text.take(trimmed.len() as int) =~= text.drop_last().take(trimmed.len() as int));
    } else {
        assert(text.take(text.len() as int) =~= text);
    }
}

/// A base URL never meets the logs path with more than the one slash that the path brings.
pub proof fn base_and_path_meet_in_one_slash(base: Seq<char>)
    ensures
        logs_url(base).len() >= LOGS_PATH@.len(),
        logs_url(base).skip(logs_url(base).len() - LOGS_PATH@.len()) == LOGS_PATH@,
        logs_url(base).take(logs_url(base).len() - LOGS_PATH@.len()).is_prefix_of(base),
        logs_url(base).len() > LOGS_PATH@.len() ==> logs_url(base)[logs_url(base).len()
            - LOGS_PATH@.len() - 1] != '/',
{
    let trimmed = without_trailing_slashes(base);
    lemma_trimmed_end(base);
    assert(logs_url(base).skip(trimmed.len() as int) =~= LOGS_PATH@);
    assert(logs_url(base).take(trimmed.len() as int) =~= trimmed);
}

/// A plain `http://` base URL that names a host resolves to an endpoint that is accepted.
pub proof fn resolved_http_base_is_accepted(base: Seq<char>)
    requires
        HTTP_SCHEME@.is_prefix_of(base),
        exists|i: int| HTTP_SCHEME@.len() <= i < base.len() && base[i] != '/',
    ensures
        HTTP_SCHEME@.is_prefix_of(logs_url(base)),
    decreases base.len(),
{
    if base.last() == '/' {
        let shorter = base.drop_last();
        let i = choose|i: int| HTTP_SCHEME@.len() <= i < base.len() && base[i] != '/';
        assert(shorter[i] == base[i]);
        assert(shorter.take(HTTP_SCHEME@.len() as int) =~= base.take(HTTP_SCHEME@.len() as int));
        resolved_http_base_is_accepted(shorter);
        assert(logs_url(base) =~= logs_url(shorter));
    } else {
        assert(logs_url(base).take(HTTP_SCHEME@.len() as int) =~= base.take(
            HTTP_SCHEME@.len() as int,
        ));
    }
}

/// The logs URL under a base URL is the base up to the slashes at its end, followed by `/v1/logs`.
pub proof fn logs_urls_extend_the_base(base: Seq<char>, stem: Seq<char>, slashes: nat)
    requires
        base == stem + Seq::new(slashes, |i: int| '/'),
        stem.len() > 0 ==> stem.last() != '/',
    ensures
        logs_url(base) == stem + "/v1/logs"@,
    decreases slashes,
{
    if slashes == 0 {
        assert(base =~= stem);
    } else {
        let fewer = stem + Seq::new((slashes - 1) as nat, |i: int| '/');
        assert(base.drop_last() =~= fewer);
        assert(base.last() == '/');
        logs_urls_extend_the_base(fewer, stem, (slashes - 1) as nat);
    }
}

/// A base URL falls into a stem and the slashes behind it.
proof fn lemma_stem(base: Seq<char>)
    ensures
        ({
            let stem = without_trailing_slashes(base);
            &&& base == stem + Seq::new((base.len() - stem.len()) as nat, |i: int| '/')
            &&& stem.len() > 0 ==> stem.last() != '/'
        }),
{
    lemma_trimmed(base);
    let stem = without_trailing_slashes(base);
    assert forall|i: int| 0 <= i < stem.len() implies base[i] == stem[i] by {
        assert(base.subrange(0, stem.len() as int)[i] == base[i]);
    }
    assert(base =~= stem + Seq::new((base.len() - stem.len()) as nat, |i: int| '/'));
}

/// A flag decides alone: whatever the variables say, the URL is the flag's value up to the slashes
/// at its end, followed by `/v1/logs`.
pub proof fn flags_decide(
    flag: &str,
    stem: Seq<char>,
    slashes: nat,
    logs_endpoint: Option<&str>,
    base_endpoint: Option<&str>,
    chosen: Option<String>,
    resolved: Option<String>,
)
    requires
        flag@ == stem + Seq::new(slashes, |i: int| '/'),
        stem.len() > 0 ==> stem.last() != '/',
        call_ensures(resolve_url_from, (Some(flag), logs_endpoint, base_endpoint), chosen),
        call_ensures(resolve_url, (Some(flag), logs_endpoint, base_endpoint), resolved),
    ensures
        chosen is Some && chosen->0@ == stem + "/v1/logs"@,
        resolved is Some && resolved->0@ == stem + "/v1/logs"@,
{
    logs_urls_extend_the_base(flag@, stem, slashes);
}

/// Without a flag, a logs endpoint that is set is used as it is, whatever the base endpoint is.
pub proof fn logs_endpoints_are_used_as_they_are(
    logs_endpoint: &str,
    base_endpoint: Option<&str>,
    chosen: Option<String>,
    resolved: Option<String>,
)
    requires
        call_ensures(resolve_url_from, (None, Some(logs_endpoint), base_endpoint), chosen),
        call_ensures(resolve_url, (None, Some(logs_endpoint), base_endpoint), resolved),
    ensures
        chosen is Some && chosen->0@ == logs_endpoint@,
        logs_endpoint@.len() > 0 ==> resolved is Some && resolved->0@ == logs_endpoint@,
{
}

/// A base endpoint that decides is used as the flag is.
pub proof fn base_endpoints_are_used_as_flags_are(
    base_endpoint: &str,
    chosen: Option<String>,
    resolved: Option<String>,
    as_flag: Option<String>,
)
    requires
        call_ensures(resolve_url_from, (None, None, Some(base_endpoint)), chosen),
        call_ensures(resolve_url, (None, None, Some(base_endpoint)), resolved),
        call_ensures(resolve_url_from, (Some(base_endpoint), None, None), as_flag),
    ensures
        chosen is Some && as_flag is Some,
        chosen->0@ == as_flag->0@,
        base_endpoint@.len() > 0 ==> resolved is Some && resolved->0@ == as_flag->0@,
{
    lemma_stem(base_endpoint@);
    let stem = without_trailing_slashes(base_endpoint@);
    logs_urls_extend_the_base(
        base_endpoint@,
        stem,
        (base_endpoint@.len() - stem.len()) as nat,
    );
}

/// There is no URL exactly if nothing names one.
pub proof fn urls_come_from_what_is_set(
    flag: Option<&str>,
    logs_endpoint: Option<&str>,
    base_endpoint: Option<&str>,
    chosen: Option<String>,
    resolved: Option<String>,
)
    requires
        call_ensures(resolve_url_from, (flag, logs_endpoint, base_endpoint), chosen),
        call_ensures(resolve_url, (flag, logs_endpoint, base_endpoint), resolved),
    ensures
        chosen is None <==> flag is None && logs_endpoint is None && base_endpoint is None,
        resolved is None <==> flag is None && (logs_endpoint matches Some(url) ==> url@.len() == 0)
            && (base_endpoint matches Some(url) ==> url@.len() == 0),
{
}

/// A variable that is set to nothing is as good as one that is not set.
pub proof fn empty_variables_do_not_count(
    flag: Option<&str>,
    empty: &str,
    variable: Option<&str>,
    logs_empty: Option<String>,
    logs_unset: Option<String>,
    base_empty: Option<String>,
    base_unset: Option<String>,
)
    requires
        empty@.len() == 0,
        call_ensures(resolve_url, (flag, Some(empty), variable), logs_empty),
        call_ensures(resolve_url, (flag, None, variable), logs_unset),
        call_ensures(resolve_url, (flag, variable, Some(empty)), base_empty),
        call_ensures(resolve_url, (flag, variable, None), base_unset),
    ensures
        logs_empty is Some == logs_unset is Some,
        logs_empty is Some ==> logs_empty->0@ == logs_unset->0@,
        base_empty is Some == base_unset is Some,
        base_empty is Some ==> base_empty->0@ == base_unset->0@,
{
}

/// Variables that are set to something count: they are what the URL is chosen among.
pub proof fn variables_are_what_urls_are_chosen_among(
    flag: Option<&str>,
    logs_endpoint: Option<&str>,
    base_endpoint: Option<&str>,
    resolved: Option<String>,
    chosen: Option<String>,
)
    requires
        logs_endpoint matches Some(url) ==> url@.len() > 0,
        base_endpoint matches Some(url) ==> url@.len() > 0,
        call_ensures(resolve_url, (flag, logs_endpoint, base_endpoint), resolved),
        call_ensures(resolve_url_from, (flag, logs_endpoint, base_endpoint), chosen),
    ensures
        resolved is Some == chosen is Some,
        resolved is Some ==> resolved->0@ == chosen->0@,
{
}

/// An endpoint is accepted exactly if it is `http://` with something or nothing behind it. The
/// message about one that is refused ends in it.
pub proof fn endpoints_are_plain_http(url: &str, checked: Result<(), InvalidEndpoint>)
    requires
        call_ensures(check_endpoint, (url,), checked),
    ensures
        checked is Ok <==> url@.len() >= 7 && url@.take(7) == "http://"@,
        checked matches Err(refused) ==> refused.message@
            == "OTLP logs endpoint must start with http://, got "@ + url@,
{
    reveal_strlit("http://");
    if url@.len() >= 7 {
        assert(url@.subrange(0, 7) =~= url@.take(7));
    }
}

}
