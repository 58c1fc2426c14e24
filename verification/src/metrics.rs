//! The request counter and the registry that exports it.

use vstd::prelude::*;
use vstd::utf8::{decode_utf8, valid_utf8};

verus! {

/// `prometheus::Registry`, the set of collectors that a scrape reads.
#[verifier::external_type_specification]
#[verifier::external_body]
pub struct ExRegistry(prometheus::Registry);

/// `prometheus::proto::MetricFamily`, one metric as a registry hands it out.
#[verifier::external_type_specification]
#[verifier::external_body]
pub struct ExMetricFamily(prometheus::proto::MetricFamily);

/// `prometheus::Error`, what the metrics library reports when it fails.
#[verifier::external_type_specification]
#[verifier::external_body]
pub struct ExMetricsLibraryError(prometheus::Error);

/// A `prometheus::IntCounter`: a count that all clones of the counter share and
/// that any number of tasks may raise at once.
#[verifier::external_body]
pub struct RequestCounter {
    inner: prometheus::IntCounter,
}

/// Why the metrics could not be set up or written out.
#[derive(Clone, Copy, Debug, PartialEq, Eq)]
pub enum MetricsError {
    /// The counter could not be made.
    Counter,
    /// The registry did not take the counter.
    Register,
    /// The registry's metrics could not be written as text.
    Encode,
    /// What was written is not UTF-8.
    NotText,
}

/// `Registry::new`: a registry without collectors.
#[verifier::external_body]
fn new_registry() -> prometheus::Registry {
    prometheus::Registry::new()
}

/// `IntCounter::new`: a counter with the given name and help text, or the
/// error with which the metrics library refuses them.
#[verifier::external_body]
fn new_counter(name: &str, help: &str) -> Result<RequestCounter, prometheus::Error> {
    match prometheus::IntCounter::new(name, help) {
        Ok(inner) => Ok(RequestCounter { inner }),
        Err(error) => Err(error),
    }
}

/// `Registry::register`, on a clone of the counter: from then on the registry
/// reports the value that `counter` shares with its clones. Fails where the
/// registry refuses the counter, as it does one that it already holds.
#[verifier::external_body]
fn register_counter(registry: &prometheus::Registry, counter: &RequestCounter) -> Result<
    (),
    prometheus::Error,
> {
    registry.register(Box::new(counter.inner.clone()))
}

/// `IntCounter::inc`: adds one to the shared count, atomically. Nothing is
/// returned, so nothing is stated.
#[verifier::external_body]
fn raise(counter: &RequestCounter) {
    counter.inner.inc();
}

/// `IntCounter::get`: the shared count at the moment of the call. Other tasks
/// may raise it at any time, so nothing is stated of the number.
#[verifier::external_body]
fn read(counter: &RequestCounter) -> u64 {
    counter.inner.get()
}

/// `Registry::gather`: the metrics of the registered collectors as they stand
/// at the moment of the call.
#[verifier::external_body]
fn gather(registry: &prometheus::Registry) -> Vec<prometheus::proto::MetricFamily> {
    registry.gather()
}

/// The kind of a metric family, as the metrics library tells them apart.
#[derive(Clone, Copy, Debug, PartialEq, Eq)]
pub enum MetricKind {
    Counter,
    Gauge,
    Summary,
    /// A family of no kind. The text encoder has no way to write one.
    Untyped,
    Histogram,
}

/// The kind that the metrics library records in `family`.
pub uninterp spec fn family_kind(family: prometheus::proto::MetricFamily) -> MetricKind;

/// `String::from_utf8`: the text that `bytes` encode, exactly where they are
/// valid UTF-8.
#[verifier::external_body]
fn text_from_utf8(bytes: Vec<u8>) -> (text: Option<String>)
    ensures
        text is Some <==> valid_utf8(bytes@),
        text is Some ==> text.unwrap()@ == decode_utf8(bytes@),
{
    match String::from_utf8(bytes) {
        Ok(text) => Some(text),
        Err(_) => None,
    }
}

/// What every request handler shares: the registry and the counter of requests
/// handled, which is registered in it.
pub struct AppState {
    pub registry: prometheus::Registry,
    pub requests_total: RequestCounter,
}

/// What a scrape is answered with, given what the encoder returned: the text
/// that the encoded bytes spell.
pub fn exposition_of(encoded: Result<Vec<u8>, prometheus::Error>) -> (text: Result<
    String,
    MetricsError,
>)
    ensures
        match encoded {
            Ok(bytes) => if valid_utf8(bytes@) {
                text is Ok && text.unwrap()@ == decode_utf8(bytes@)
            } else {
                text == Err::<String, MetricsError>(MetricsError::NotText)
            },
            Err(_) => text == Err::<String, MetricsError>(MetricsError::Encode),
        },
{
    match encoded {
        Ok(bytes) => match text_from_utf8(bytes) {
            Some(text) => Ok(text),
            None => Err(MetricsError::NotText),
        },
        Err(_) => Err(MetricsError::Encode),
    }
}

impl AppState {
    /// A fresh registry that holds one counter, `requests_total`, at zero.
    pub fn new() -> (state: Result<AppState, MetricsError>)
        ensures
            state matches Err(error) ==> error == MetricsError::Counter || error
                == MetricsError::Register,
    {
        let registry = new_registry();
        match new_counter("requests_total", "Total requests") {
            Ok(requests_total) => match register_counter(&registry, &requests_total) {
                Ok(()) => Ok(AppState { registry, requests_total }),
                Err(_) => Err(MetricsError::Register),
            },
            Err(_) => Err(MetricsError::Counter),
        }
    }

    /// Counts one more request.
    pub fn count_request(&self) {
        raise(&self.requests_total);
    }

    /// The number of requests counted so far.
    pub fn requests_counted(&self) -> u64 {
        read(&self.requests_total)
    }

    /// The registry's metrics as text: the exposition of the families it now holds.
    pub fn metrics_text(&self) -> (text: Result<String, MetricsError>)
        ensures
            exists|families: Seq<prometheus::proto::MetricFamily>|
                text_view(text) == #[trigger] exposition(families),
            text matches Err(error) ==> error == MetricsError::Encode || error
                == MetricsError::NotText,
    {
        let families = gather(&self.registry);
        exposition_of_families(&families)
    }
}

/// The bytes that the text encoder writes for `families`, where it writes any.
pub uninterp spec fn encoded_families(families: Seq<prometheus::proto::MetricFamily>) -> Option<
    Seq<u8>,
>;

/// `MetricFamily::get_field_type`: the kind recorded in `family`.
#[verifier::external_body]
fn kind_of(family: &prometheus::proto::MetricFamily) -> (kind: MetricKind)
    ensures
        kind == family_kind(*family),
{
    match family.get_field_type() {
        prometheus::proto::MetricType::COUNTER => MetricKind::Counter,
        prometheus::proto::MetricType::GAUGE => MetricKind::Gauge,
        prometheus::proto::MetricType::SUMMARY => MetricKind::Summary,
        prometheus::proto::MetricType::UNTYPED => MetricKind::Untyped,
        prometheus::proto::MetricType::HISTOGRAM => MetricKind::Histogram,
    }
}

/// `TextEncoder::encode` into an empty buffer: the families in the text
/// exposition format, or the error with which the encoder refuses them, as it
/// does a family without a name or without metrics. What is written depends on
/// the families alone. The encoder stops the program at an untyped family, so
/// none may be handed to it.
#[verifier::external_body]
fn encode_text(families: &Vec<prometheus::proto::MetricFamily>) -> (encoded: Result<
    Vec<u8>,
    prometheus::Error,
>)
    requires
        all_typed(families@),
    ensures
        match encoded {
            Ok(bytes) => encoded_families(families@) == Some(bytes@),
            Err(_) => encoded_families(families@) is None,
        },
{
    let mut buffer = Vec::new();
    match prometheus::Encoder::encode(&prometheus::TextEncoder::new(), families, &mut buffer) {
        Ok(()) => Ok(buffer),
        Err(error) => Err(error),
    }
}

/// Whether none of `families` is untyped.
pub open spec fn all_typed(families: Seq<prometheus::proto::MetricFamily>) -> bool {
    forall|i: int|
        0 <= i < families.len() ==> family_kind(#[trigger] families[i]) != MetricKind::Untyped
}

/// What a scrape is answered with when the registry hands out `families`: the
/// text that their encoding spells. Families of which one is untyped, or which
/// the encoder refuses, cannot be written.
pub open spec fn exposition(families: Seq<prometheus::proto::MetricFamily>) -> Result<
    Seq<char>,
    MetricsError,
> {
    if !all_typed(families) {
        Err(MetricsError::Encode)
    } else {
        match encoded_families(families) {
            Some(bytes) => if valid_utf8(bytes) {
                Ok(decode_utf8(bytes))
            } else {
                Err(MetricsError::NotText)
            },
            None => Err(MetricsError::Encode),
        }
    }
}

/// An answer to a scrape as contracts see it.
pub open spec fn text_view(text: Result<String, MetricsError>) -> Result<Seq<char>, MetricsError> {
    match text {
        Ok(text) => Ok(text@),
        Err(error) => Err(error),
    }
}

/// Whether none of `families` is untyped.
fn every_family_typed(families: &Vec<prometheus::proto::MetricFamily>) -> (typed: bool)
    ensures
        typed == all_typed(families@),
{
    for i in 0..families.len()
        invariant
            forall|j: int|
                0 <= j < i ==> family_kind(#[trigger] families@[j]) != MetricKind::Untyped,
    {
        match kind_of(&families[i]) {
            MetricKind::Untyped => {
                return false;
            },
            _ => {},
        }
    }
    true
}

/// What a scrape is answered with when the registry hands out `families`.
pub fn exposition_of_families(families: &Vec<prometheus::proto::MetricFamily>) -> (text: Result<
    String,
    MetricsError,
>)
    ensures
        text_view(text) == exposition(families@),
{
    if every_family_typed(families) {
        exposition_of(encode_text(families))
    } else {
        Err(MetricsError::Encode)
    }
}

} // verus!
