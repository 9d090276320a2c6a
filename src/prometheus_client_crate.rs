use vstd::prelude::*;
use vstd::string::StrSliceExecFns;
use vstd::utf8::encode_utf8;

use prometheus_client::registry::Registry;

use crate::error::PushMetricsError;
use crate::error::Result;
use crate::labels::first_conflict;
use crate::labels::label_type_of;
use crate::labels::validate_labels;
use crate::pusher::ConvertMetrics;
use crate::pusher::PushDetails;
use crate::url_path::build_url;
use crate::url_path::distinct_names;
use crate::url_path::first_with_slash;
use crate::url_path::push_url;
use crate::url_path::segments;
use crate::text_labels::text_families;
use crate::text_labels::text_labels;

verus! {

#[verifier::external_type_specification]
#[verifier::external_body]
pub struct ExClientRegistry(Registry);

/// The end marker of an OpenMetrics exposition.
pub open spec fn eof_marker() -> Seq<char> {
    "# EOF\n"@
}

/// The text ends with the end marker.
pub open spec fn ends_with_eof(text: Seq<char>) -> bool {
    text.len() >= eof_marker().len() && text.subrange(text.len() - eof_marker().len(), text.len() as int)
        == eof_marker()
}

/// Relies on `prometheus_client::encoding::text::encode`: the registry's metrics in the
/// OpenMetrics text format, written into an empty string and closed by `encode_eof`,
/// which writes the end marker last.
#[verifier::external_body]
fn encode_text(registry: &Registry) -> (r: core::result::Result<String, core::fmt::Error>)
    ensures
        r matches Ok(text) ==> ends_with_eof(text@),
{
    let mut text = String::new();
    prometheus_client::encoding::text::encode(&mut text, registry)?;
    Ok(text)
}

/// The content type of the text format.
pub open spec fn text_content_type() -> Seq<char> {
    "text/plain"@
}

/// Pushes metrics that prometheus-client has encoded as text.
pub struct PrometheusClientMetricsConverter;

impl PrometheusClientMetricsConverter {
    pub fn new() -> Self {
        PrometheusClientMetricsConverter
    }

    /// The push details for the encoded `metrics`: the samples' labels are checked for
    /// reserved names first, then the URL is built, and the text is the body.
    pub fn push_details(&self, job: &str, url: &str, grouping: &Vec<(String, String)>, metrics: &str) -> (r: Result<PushDetails>)
        requires
            distinct_names(grouping@),
        ensures
            text_details(job@, url@, grouping@, metrics@, r),
    {
        let families = text_families(metrics);
        validate_labels(&families, grouping)?;
        let target = build_url(url, job, grouping)?;
        Ok(PushDetails { url: target, body: metrics.as_bytes_vec(), content_type: String::from_str("text/plain") })
    }
}

/// The outcome of pushing the text `metrics`: the samples' labels are checked for
/// reserved names, then the URL is built, and on success the body is the text's UTF-8
/// bytes and the content type is `text/plain`.
pub open spec fn text_details(
    job: Seq<char>,
    url: Seq<char>,
    grouping: Seq<(String, String)>,
    metrics: Seq<char>,
    r: Result<PushDetails>,
) -> bool {
    match first_conflict(text_labels(metrics), grouping) {
        Some((m, l)) => match r {
            Err(PushMetricsError::AlreadyContainsLabel { metric, label }) => metric@ == m && label_type_of(label, l),
            _ => false,
        },
        None => match first_with_slash(segments(job, grouping)) {
            Some(bad) => match r {
                Err(PushMetricsError::SlashInName(s)) => s@ == bad,
                _ => false,
            },
            None => match push_url(url, job, grouping) {
                None => r matches Err(PushMetricsError::Url(_)),
                Some(u) => match r {
                    Ok(d) => d.url@ == u && d.body@ == encode_utf8(metrics) && d.content_type@ == text_content_type(),
                    Err(_) => false,
                },
            },
        },
    }
}

impl ConvertMetrics for PrometheusClientMetricsConverter {
    type Metrics = String;

    type Collectors = Registry;

    /// The text ends with the end marker; a failure is the encoder's.
    open spec fn gathered(&self, registry: Registry, r: Result<String>) -> bool {
        match r {
            Ok(text) => ends_with_eof(text@),
            Err(e) => e is PrometheusClient,
        }
    }

    open spec fn detailed(
        &self,
        job: Seq<char>,
        url: Seq<char>,
        grouping: Seq<(String, String)>,
        metrics: String,
        r: Result<PushDetails>,
    ) -> bool {
        text_details(job, url, grouping, metrics@, r)
    }

    /// Encodes the metrics of the collectors registered with `registry` as text.
    fn metrics_from(&self, registry: Registry) -> (r: Result<String>) {
        match encode_text(&registry) {
            Ok(text) => Ok(text),
            Err(e) => Err(PushMetricsError::PrometheusClient(e)),
        }
    }

    fn create_push_details(&self, job: &str, url: &str, grouping: &Vec<(String, String)>, metrics: String) -> (r: Result<PushDetails>) {
        self.push_details(job, url, grouping, metrics.as_str())
    }
}

} // verus!
