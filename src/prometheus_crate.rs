use vstd::prelude::*;

use prometheus::proto::LabelPair;
use prometheus::proto::Metric;
use prometheus::proto::MetricFamily;
use prometheus::Encoder;
use prometheus::ProtobufEncoder;
use prometheus::Registry;

use crate::error::PushMetricsError;
use crate::error::Result;
use crate::labels::families_view;
use crate::labels::first_conflict;
use crate::labels::names_view;
use crate::labels::label_type_of;
use crate::labels::validate_labels;
use crate::labels::FamilyLabels;
use crate::pusher::ConvertMetrics;
use crate::pusher::request_of;
use crate::pusher::PushDetails;
use crate::pusher::PushType;
use crate::url_path::build_url;
use crate::url_path::distinct_names;
use crate::url_path::first_with_slash;
use crate::url_path::push_url;
use crate::url_path::segments;

verus! {

#[verifier::external_type_specification]
#[verifier::external_body]
pub struct ExMetricFamily(MetricFamily);

#[verifier::external_type_specification]
#[verifier::external_body]
pub struct ExMetric(Metric);

#[verifier::external_type_specification]
#[verifier::external_body]
pub struct ExLabelPair(LabelPair);

#[verifier::external_type_specification]
#[verifier::external_body]
pub struct ExRegistry(Registry);

/// The name a metric family holds.
pub uninterp spec fn family_name(mf: MetricFamily) -> Seq<char>;

/// The metrics a metric family holds, in order.
pub uninterp spec fn metrics_of(mf: MetricFamily) -> Seq<Metric>;

/// The label pairs a metric holds, in order.
pub uninterp spec fn labels_of(m: Metric) -> Seq<LabelPair>;

/// The name a label pair holds.
pub uninterp spec fn pair_name(p: LabelPair) -> Seq<char>;

/// Relies on the generated getter: the family's `name` field, or empty when unset.
pub assume_specification[ MetricFamily::get_name ](mf: &MetricFamily) -> (r: &str)
    ensures
        r@ == family_name(*mf),
;

/// Relies on the generated getter: the family's repeated `metric` field.
pub assume_specification[ MetricFamily::get_metric ](mf: &MetricFamily) -> (r: &[Metric])
    ensures
        r@ == metrics_of(*mf),
;

/// Relies on the generated getter: the metric's repeated `label` field.
pub assume_specification[ Metric::get_label ](m: &Metric) -> (r: &[LabelPair])
    ensures
        r@ == labels_of(*m),
;

/// Relies on the generated getter: the pair's `name` field, or empty when unset.
pub assume_specification[ LabelPair::get_name ](p: &LabelPair) -> (r: &str)
    ensures
        r@ == pair_name(*p),
;

/// The label names of the metrics, metric after metric.
pub open spec fn metric_label_names(metrics: Seq<Metric>) -> Seq<Seq<char>>
    decreases metrics.len(),
{
    if metrics.len() == 0 {
        Seq::empty()
    } else {
        metric_label_names(metrics.drop_last()) + labels_of(metrics.last()).map_values(|p: LabelPair| pair_name(p))
    }
}

/// What the conflict check reads of a metric family.
pub open spec fn family_view(mf: MetricFamily) -> (Seq<char>, Seq<Seq<char>>) {
    (family_name(mf), metric_label_names(metrics_of(mf)))
}

/// What the conflict check reads of a metric set.
pub open spec fn metric_set_view(families: Seq<MetricFamily>) -> Seq<(Seq<char>, Seq<Seq<char>>)> {
    families.map_values(|mf: MetricFamily| family_view(mf))
}

/// The content type of prometheus's length-delimited protobuf format.
pub open spec fn protobuf_content_type() -> Seq<char> {
    "application/vnd.google.protobuf; proto=io.prometheus.client.MetricFamily; encoding=delimited"@
}

/// Relies on `prometheus::ProtobufEncoder::format_type`, which returns the constant
/// `PROTOBUF_FORMAT`.
#[verifier::external_body]
fn protobuf_format() -> (r: String)
    ensures
        r@ == protobuf_content_type(),
{
    String::from(ProtobufEncoder::new().format_type())
}

/// Whichever kind of push carries details that this encoder made, the content type
/// that goes to the transport is the one the encoder declares.
pub proof fn lemma_pushed_content_type_is_declared(details: PushDetails, push_type: PushType)
    requires
        details.content_type@ == protobuf_content_type(),
    ensures
        request_of(details, push_type).content_type@ == protobuf_content_type(),
{
}

/// What prometheus's protobuf encoder writes for a metric family: the family as one
/// length-delimited message.
pub uninterp spec fn protobuf_of(mf: MetricFamily) -> Seq<u8>;

/// The encoder accepts a family that has a name and at least one metric.
pub open spec fn encodable(mf: MetricFamily) -> bool {
    metrics_of(mf).len() > 0 && family_name(mf).len() > 0
}

/// Every family of the set is encodable.
pub open spec fn all_encodable(families: Seq<MetricFamily>) -> bool {
    forall|i: int| 0 <= i < families.len() ==> encodable(#[trigger] families[i])
}

/// The encodings of the families, one after the other.
pub open spec fn protobuf_body(families: Seq<MetricFamily>) -> Seq<u8>
    decreases families.len(),
{
    if families.len() == 0 {
        Seq::empty()
    } else {
        protobuf_body(families.drop_last()) + protobuf_of(families.last())
    }
}

/// Relies on `prometheus::ProtobufEncoder::encode`: it fails, before writing, exactly
/// when the family has no metrics or an empty name; otherwise it appends the family as
/// one length-delimited message to `buf`, which as a `Vec` cannot fail.
#[verifier::external_body]
fn encode_family(mf: &MetricFamily, buf: &mut Vec<u8>) -> (r: core::result::Result<(), prometheus::Error>)
    ensures
        r is Ok <==> encodable(*mf),
        r is Ok ==> final(buf)@ == old(buf)@ + protobuf_of(*mf),
        r is Err ==> final(buf)@ == old(buf)@,
{
    ProtobufEncoder::new().encode(std::slice::from_ref(mf), buf)
}

/// Relies on `prometheus::Registry::gather`: the families of the registered collectors;
/// families without metrics are pruned.
#[verifier::external_body]
fn gather(registry: &Registry) -> (r: Vec<MetricFamily>)
    ensures
        forall|i: int| 0 <= i < r@.len() ==> metrics_of(#[trigger] r@[i]).len() > 0,
{
    registry.gather()
}

/// Reads the family's name and the label names of its metrics.
pub fn family_labels(mf: &MetricFamily) -> (r: FamilyLabels)
    ensures
        r@ == family_view(*mf),
{
    let metrics = mf.get_metric();
    let mut labels: Vec<String> = Vec::new();
    let mut i: usize = 0;
    while i < metrics.len()
        invariant
            i <= metrics@.len(),
            metrics@ == metrics_of(*mf),
            names_view(labels@) == metric_label_names(metrics@.subrange(0, i as int)),
        decreases metrics@.len() - i,
    {
        let pairs = metrics[i].get_label();
        let ghost before = names_view(labels@);
        let ghost pair_names = labels_of(metrics@[i as int]).map_values(|p: LabelPair| pair_name(p));
        let mut j: usize = 0;
        proof {
            assert(pair_names.subrange(0, 0) =~= Seq::<Seq<char>>::empty());
            assert(before + pair_names.subrange(0, 0) =~= before);
        }
        while j < pairs.len()
            invariant
                j <= pairs@.len(),
                i < metrics@.len(),
                pairs@ == labels_of(metrics@[i as int]),
                pair_names == labels_of(metrics@[i as int]).map_values(|p: LabelPair| pair_name(p)),
                names_view(labels@) == before + pair_names.subrange(0, j as int),
            decreases pairs@.len() - j,
        {
            let name = String::from_str(pairs[j].get_name());
            let ghost prev = labels@;
            labels.push(name);
            proof {
                assert(name@ == pair_names[j as int]);
                assert(names_view(labels@) =~= names_view(prev).push(name@));
                assert(pair_names.subrange(0, j + 1) =~= pair_names.subrange(0, j as int).push(pair_names[j as int]));
                assert(names_view(labels@) =~= before + pair_names.subrange(0, j + 1));
            }
            j = j + 1;
        }
        proof {
            let upto = metrics@.subrange(0, i + 1);
            assert(upto.drop_last() =~= metrics@.subrange(0, i as int));
            assert(pair_names.subrange(0, j as int) =~= pair_names);
        }
        i = i + 1;
    }
    proof {
        assert(metrics@.subrange(0, metrics@.len() as int) =~= metrics@);
    }
    FamilyLabels { name: String::from_str(mf.get_name()), labels }
}

/// The outcome of pushing a metric set: the metrics are checked for reserved labels
/// first, then the URL is built, then they are encoded. On success the body is the
/// families' encodings in order.
pub open spec fn protobuf_details(
    job: Seq<char>,
    url: Seq<char>,
    grouping: Seq<(String, String)>,
    families: Seq<MetricFamily>,
    r: Result<PushDetails>,
) -> bool {
    match first_conflict(metric_set_view(families), grouping) {
        Some((m, l)) => match r {
            Err(PushMetricsError::AlreadyContainsLabel { metric, label }) => metric@ == m && label_type_of(label, l),
            _ => false,
        },
        None => match first_with_slash(segments(job, grouping)) {
            Some(bad) => match r {
                Err(PushMetricsError::SlashInName(s)) => s@ == bad,
                _ => false,
            },
            None => match push_url(url, job, grouping) {
                None => r matches Err(PushMetricsError::Url(_)),
                Some(u) => if all_encodable(families) {
                    match r {
                        Ok(d) => d.url@ == u && d.content_type@ == protobuf_content_type() && d.body@
                            == protobuf_body(families),
                        Err(_) => false,
                    }
                } else {
                    r matches Err(PushMetricsError::Prometheus(_))
                },
            },
        },
    }
}

/// Whether a push of a metric set succeeds, and with which error it fails, depends only
/// on the families' names and label names and on whether each can be encoded: label
/// values, sample values and help texts do not change it.
pub proof fn lemma_outcome_depends_on_names(
    job: Seq<char>,
    url: Seq<char>,
    grouping: Seq<(String, String)>,
    first: Seq<MetricFamily>,
    second: Seq<MetricFamily>,
    r: Result<PushDetails>,
)
    requires
        metric_set_view(first) == metric_set_view(second),
        all_encodable(first) == all_encodable(second),
        r is Err,
        protobuf_details(job, url, grouping, first, r),
    ensures
        protobuf_details(job, url, grouping, second, r),
{
}

/// A metric set with no conflicting label, whose families each have a name and a metric,
/// pushed under a valid job and grouping key below a job root that joins, gives push
/// details: the URL, the encodings of the families in order, and the protobuf content type.
pub proof fn lemma_well_formed_push_succeeds(
    job: Seq<char>,
    url: Seq<char>,
    grouping: Seq<(String, String)>,
    families: Seq<MetricFamily>,
    r: Result<PushDetails>,
)
    requires
        first_conflict(metric_set_view(families), grouping) is None,
        first_with_slash(segments(job, grouping)) is None,
        push_url(url, job, grouping) is Some,
        all_encodable(families),
        protobuf_details(job, url, grouping, families, r),
    ensures
        r matches Ok(d) && Some(d.url@) == push_url(url, job, grouping) && d.body@ == protobuf_body(families)
            && d.content_type@ == protobuf_content_type(),
{
}

/// Encodes metric families with prometheus's protobuf encoder.
pub struct PrometheusMetricsConverter;

impl PrometheusMetricsConverter {
    pub fn new() -> Self {
        PrometheusMetricsConverter
    }

    /// Encodes every family, one after the other, into one body.
    fn encode_metrics(&self, families: &Vec<MetricFamily>) -> (r: Result<Vec<u8>>)
        ensures
            match r {
                Ok(body) => all_encodable(families@) && body@ == protobuf_body(families@),
                Err(e) => !all_encodable(families@) && e is Prometheus,
            },
    {
        let mut body: Vec<u8> = Vec::new();
        let mut i: usize = 0;
        proof {
            assert(families@.subrange(0, 0) =~= Seq::<MetricFamily>::empty());
        }
        while i < families.len()
            invariant
                i <= families@.len(),
                forall|j: int| 0 <= j < i ==> encodable(#[trigger] families@[j]),
                body@ == protobuf_body(families@.subrange(0, i as int)),
            decreases families@.len() - i,
        {
            match encode_family(&families[i], &mut body) {
                Ok(()) => {},
                Err(e) => {
                    return Err(PushMetricsError::Prometheus(e));
                },
            }
            proof {
                assert(families@.subrange(0, i + 1).drop_last() =~= families@.subrange(0, i as int));
            }
            i = i + 1;
        }
        proof {
            assert(families@.subrange(0, families@.len() as int) =~= families@);
        }
        Ok(body)
    }

    /// The push details for `families`: the metrics are checked for reserved labels
    /// first, then the URL is built, then they are encoded. Each step runs only when the
    /// ones before it succeeded.
    pub fn push_details(&self, job: &str, url: &str, grouping: &Vec<(String, String)>, families: &Vec<MetricFamily>) -> (r: Result<PushDetails>)
        requires
            distinct_names(grouping@),
        ensures
            protobuf_details(job@, url@, grouping@, families@, r),
    {
        let mut labels: Vec<FamilyLabels> = Vec::new();
        let mut i: usize = 0;
        while i < families.len()
            invariant
                i <= families@.len(),
                families_view(labels@) == metric_set_view(families@.subrange(0, i as int)),
            decreases families@.len() - i,
        {
            let next = family_labels(&families[i]);
            let ghost prev = labels@;
            labels.push(next);
            proof {
                assert(families_view(labels@) =~= families_view(prev).push(next@));
                assert(metric_set_view(families@.subrange(0, i + 1)) =~= metric_set_view(
                    families@.subrange(0, i as int),
                ).push(family_view(families@[i as int])));
            }
            i = i + 1;
        }
        proof {
            assert(families@.subrange(0, families@.len() as int) =~= families@);
        }
        validate_labels(&labels, grouping)?;
        let target = build_url(url, job, grouping)?;
        let body = self.encode_metrics(families)?;
        Ok(PushDetails { url: target, body, content_type: protobuf_format() })
    }
}

impl ConvertMetrics for PrometheusMetricsConverter {
    type Metrics = Vec<MetricFamily>;

    type Collectors = Registry;

    /// Gathering cannot fail, and every gathered family has a metric.
    open spec fn gathered(&self, registry: Registry, r: Result<Vec<MetricFamily>>) -> bool {
        r matches Ok(families) && forall|i: int| 0 <= i < families@.len() ==> metrics_of(#[trigger] families@[i]).len() > 0
    }

    open spec fn detailed(
        &self,
        job: Seq<char>,
        url: Seq<char>,
        grouping: Seq<(String, String)>,
        families: Vec<MetricFamily>,
        r: Result<PushDetails>,
    ) -> bool {
        protobuf_details(job, url, grouping, families@, r)
    }

    /// Gathers the families of the collectors registered with `registry`.
    fn metrics_from(&self, registry: Registry) -> (r: Result<Vec<MetricFamily>>) {
        Ok(gather(&registry))
    }

    fn create_push_details(
        &self,
        job: &str,
        url: &str,
        grouping: &Vec<(String, String)>,
        families: Vec<MetricFamily>,
    ) -> (r: Result<PushDetails>) {
        self.push_details(job, url, grouping, &families)
    }
}

} // verus!
