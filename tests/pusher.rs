use std::cell::RefCell;

use prometheus::Encoder;
use prometheus_push::error::PushMetricsError;
use prometheus_push::prometheus_client_crate::PrometheusClientMetricsConverter;
use prometheus_push::prometheus_crate::family_labels;
use prometheus_push::prometheus_crate::PrometheusMetricsConverter;
use prometheus_push::pusher::handle_response;
use prometheus_push::pusher::ConvertMetrics;
use prometheus_push::pusher::HttpMethod;
use prometheus_push::pusher::MetricsPusher;
use prometheus_push::pusher::Push;
use prometheus_push::pusher::PushDetails;
use prometheus_push::pusher::PushRequest;
use prometheus_push::pusher::PushType;

const GATEWAY: &str = "http://localhost:9091";

/// Records each request and answers with a fixed status.
struct Recorder {
    status: u16,
    calls: RefCell<Vec<(HttpMethod, String, Vec<u8>, String)>>,
}

impl Recorder {
    fn answering(status: u16) -> Recorder {
        Recorder { status, calls: RefCell::new(Vec::new()) }
    }
}

impl Push for Recorder {
    fn send(&self, request: PushRequest) -> Result<(), PushMetricsError> {
        let url = request.url.clone();
        self.calls.borrow_mut().push((request.method, request.url, request.body, request.content_type));
        handle_response(self.status, &url)
    }
}

fn grouping(items: &[(&str, &str)]) -> Vec<(String, String)> {
    items.iter().map(|(n, v)| (n.to_string(), v.to_string())).collect()
}

fn counter_registry(name: &str, labels: &[&str]) -> prometheus::Registry {
    let registry = prometheus::Registry::new();
    if labels.is_empty() {
        let counter = prometheus::Counter::with_opts(prometheus::Opts::new(name, "test counter help")).unwrap();
        registry.register(Box::new(counter.clone())).unwrap();
        counter.inc();
    } else {
        let counters = prometheus::CounterVec::new(prometheus::Opts::new(name, "test counter help"), labels).unwrap();
        registry.register(Box::new(counters.clone())).unwrap();
        let values: Vec<&str> = labels.iter().map(|_| "v").collect();
        counters.with_label_values(&values).inc();
    }
    registry
}

fn protobuf_of(families: &[prometheus::proto::MetricFamily]) -> Vec<u8> {
    let mut bytes = Vec::new();
    prometheus::ProtobufEncoder::new().encode(families, &mut bytes).unwrap();
    bytes
}

#[test]
fn push_all_sends_one_put() {
    let registry = counter_registry("requests_total", &[]);
    let families = registry.gather();
    let expected_body = protobuf_of(&families);
    let pusher = MetricsPusher::new(Recorder::answering(200), PrometheusMetricsConverter::new(), GATEWAY).unwrap();
    pusher.push_all("batch1", &grouping(&[("instance", "host1")]), families).unwrap();
    let calls = pusher_calls(&pusher);
    assert_eq!(calls.len(), 1);
    let (method, url, body, content_type) = &calls[0];
    assert_eq!(*method, HttpMethod::Put);
    assert_eq!(url, "http://localhost:9091/metrics/job/batch1/instance/host1");
    assert!(!body.is_empty());
    assert_eq!(*body, expected_body);
    assert_eq!(content_type, prometheus::PROTOBUF_FORMAT);
}

fn pusher_calls<CM: ConvertMetrics>(pusher: &MetricsPusher<Recorder, CM>) -> Vec<(HttpMethod, String, Vec<u8>, String)> {
    pusher.push_client().calls.borrow().clone()
}

#[test]
fn push_add_sends_one_post_with_the_same_request() {
    let registry = counter_registry("requests_total", &[]);
    let g = grouping(&[("instance", "host1")]);
    let put = MetricsPusher::new(Recorder::answering(202), PrometheusMetricsConverter::new(), GATEWAY).unwrap();
    put.push_all("batch1", &g, registry.gather()).unwrap();
    let post = MetricsPusher::new(Recorder::answering(202), PrometheusMetricsConverter::new(), GATEWAY).unwrap();
    post.push_add("batch1", &g, registry.gather()).unwrap();
    let a = pusher_calls(&put);
    let b = pusher_calls(&post);
    assert_eq!(a.len(), 1);
    assert_eq!(b.len(), 1);
    assert_eq!(a[0].0, HttpMethod::Put);
    assert_eq!(b[0].0, HttpMethod::Post);
    assert_eq!(a[0].1, b[0].1);
    assert_eq!(a[0].2, b[0].2);
    assert_eq!(a[0].3, b[0].3);
}

#[test]
fn push_from_collectors_gathers_the_registry() {
    let registry = counter_registry("jobs_total", &[]);
    let expected_body = protobuf_of(&registry.gather());
    let pusher = MetricsPusher::new(Recorder::answering(200), PrometheusMetricsConverter::new(), GATEWAY).unwrap();
    pusher.push_add_collectors("nightly", &Vec::new(), registry).unwrap();
    let calls = pusher_calls(&pusher);
    assert_eq!(calls.len(), 1);
    assert_eq!(calls[0].0, HttpMethod::Post);
    assert_eq!(calls[0].1, "http://localhost:9091/metrics/job/nightly");
    assert_eq!(calls[0].2, expected_body);
}

#[test]
fn job_with_slash_makes_no_call() {
    let registry = counter_registry("requests_total", &[]);
    let pusher = MetricsPusher::new(Recorder::answering(200), PrometheusMetricsConverter::new(), GATEWAY).unwrap();
    match pusher.push_all("a/b", &Vec::new(), registry.gather()) {
        Err(PushMetricsError::SlashInName(s)) => assert_eq!(s, "a/b"),
        other => panic!("expected SlashInName, got {:?}", other),
    }
    assert!(pusher_calls(&pusher).is_empty());
}

#[test]
fn metric_with_job_label_makes_no_call() {
    let registry = counter_registry("tagged_total", &["job"]);
    let pusher = MetricsPusher::new(Recorder::answering(200), PrometheusMetricsConverter::new(), GATEWAY).unwrap();
    let r = pusher.push_all("batch1", &grouping(&[("instance", "host1")]), registry.gather());
    assert!(matches!(r, Err(PushMetricsError::AlreadyContainsLabel { .. })));
    assert!(pusher_calls(&pusher).is_empty());
}

#[test]
fn metric_with_grouping_label_makes_no_call() {
    let registry = counter_registry("tagged_total", &["instance"]);
    let pusher = MetricsPusher::new(Recorder::answering(200), PrometheusMetricsConverter::new(), GATEWAY).unwrap();
    let r = pusher.push_add("batch1", &grouping(&[("instance", "host1")]), registry.gather());
    assert!(matches!(r, Err(PushMetricsError::AlreadyContainsLabel { .. })));
    assert!(pusher_calls(&pusher).is_empty());
}

#[test]
fn grouping_named_job_is_pushed() {
    let registry = counter_registry("requests_total", &["method"]);
    let pusher = MetricsPusher::new(Recorder::answering(200), PrometheusMetricsConverter::new(), GATEWAY).unwrap();
    pusher.push_all("batch1", &grouping(&[("job", "x")]), registry.gather()).unwrap();
    let calls = pusher_calls(&pusher);
    assert_eq!(calls.len(), 1);
    assert_eq!(calls[0].1, "http://localhost:9091/metrics/job/batch1/job/x");
}

#[test]
fn rejected_status_is_reported() {
    let registry = counter_registry("requests_total", &[]);
    let pusher = MetricsPusher::new(Recorder::answering(500), PrometheusMetricsConverter::new(), GATEWAY).unwrap();
    match pusher.push_all("batch1", &Vec::new(), registry.gather()) {
        Err(PushMetricsError::Response { status, url }) => {
            assert_eq!(status, 500);
            assert_eq!(url, "http://localhost:9091/metrics/job/batch1");
        }
        other => panic!("expected a response error, got {:?}", other),
    }
}

#[test]
fn pusher_keeps_the_job_root() {
    let pusher = MetricsPusher::new(Recorder::answering(200), PrometheusMetricsConverter::new(), "http://gw:9091/").unwrap();
    assert_eq!(pusher.job_url(), "http://gw:9091/metrics/job/");
    let bad = MetricsPusher::new(Recorder::answering(200), PrometheusMetricsConverter::new(), "::");
    assert!(matches!(bad, Err(PushMetricsError::Url(_))));
}

#[test]
fn family_with_no_metrics_fails_to_encode() {
    let converter = PrometheusMetricsConverter::new();
    let empty = prometheus::proto::MetricFamily::new();
    let r = converter.create_push_details("j", "http://gw/metrics/job/", &Vec::new(), vec![empty]);
    assert!(matches!(r, Err(PushMetricsError::Prometheus(_))));
}

#[test]
fn family_labels_lists_every_label_name() {
    let registry = counter_registry("labelled_total", &["method", "path"]);
    let families = registry.gather();
    let labels = family_labels(&families[0]);
    assert_eq!(labels.name, "labelled_total");
    assert_eq!(labels.labels, vec!["method".to_string(), "path".to_string()]);
}

#[test]
fn response_statuses() {
    assert!(handle_response(200, "u").is_ok());
    assert!(handle_response(202, "u").is_ok());
    for status in [201u16, 204, 400, 404, 500] {
        match handle_response(status, "http://gw/metrics/job/x") {
            Err(PushMetricsError::Response { status: s, url }) => {
                assert_eq!(s, status);
                assert_eq!(url, "http://gw/metrics/job/x");
            }
            other => panic!("expected a response error, got {:?}", other),
        }
    }
}

#[test]
fn request_methods_follow_the_push_type() {
    let details = || PushDetails { url: "u".to_string(), body: vec![1, 2], content_type: "t".to_string() };
    let put = PushRequest::new(details(), PushType::All);
    let post = PushRequest::new(details(), PushType::Add);
    assert_eq!(put.method, HttpMethod::Put);
    assert_eq!(post.method, HttpMethod::Post);
    assert_eq!(put.url, post.url);
    assert_eq!(put.body, post.body);
    assert_eq!(put.content_type, post.content_type);
}

#[test]
fn request_is_built_without_sending() {
    let registry = counter_registry("requests_total", &[]);
    let families = registry.gather();
    let expected_body = protobuf_of(&families);
    let pusher = MetricsPusher::new(Recorder::answering(200), PrometheusMetricsConverter::new(), GATEWAY).unwrap();
    let request = pusher.request("batch1", &grouping(&[("instance", "host1")]), families, PushType::Add).unwrap();
    assert_eq!(request.method, HttpMethod::Post);
    assert_eq!(request.url, "http://localhost:9091/metrics/job/batch1/instance/host1");
    assert_eq!(request.body, expected_body);
    assert_eq!(request.content_type, prometheus::PROTOBUF_FORMAT);
    assert!(pusher_calls(&pusher).is_empty());
}

#[test]
fn collector_error_comes_back_unchanged() {
    let pusher = MetricsPusher::new(Recorder::answering(200), PrometheusMetricsConverter::new(), GATEWAY).unwrap();
    let empty = prometheus::proto::MetricFamily::new();
    let r = pusher.push_all("batch1", &Vec::new(), vec![empty]);
    assert!(matches!(r, Err(PushMetricsError::Prometheus(_))));
    assert!(pusher_calls(&pusher).is_empty());
}

#[test]
fn text_ends_with_the_end_marker() {
    let registry = prometheus_client::registry::Registry::default();
    let text = PrometheusClientMetricsConverter::new().metrics_from(registry).unwrap();
    assert_eq!(text, "# EOF\n");
}

#[test]
fn text_metrics_are_pushed_as_plain_text() {
    let mut registry = prometheus_client::registry::Registry::default();
    let counter: prometheus_client::metrics::counter::Counter = Default::default();
    registry.register("requests", "Number of requests", counter.clone());
    counter.inc();
    let converter = PrometheusClientMetricsConverter::new();
    let text = converter.metrics_from(registry).unwrap();
    let expected = "# HELP requests Number of requests.\n".to_owned()
        + "# TYPE requests counter\n"
        + "requests_total 1\n"
        + "# EOF\n";
    assert_eq!(text, expected);
    let pusher = MetricsPusher::new(Recorder::answering(200), converter, GATEWAY).unwrap();
    pusher.push_all("client_job", &grouping(&[("kind", "test")]), text).unwrap();
    let calls = pusher_calls(&pusher);
    assert_eq!(calls.len(), 1);
    assert_eq!(calls[0].0, HttpMethod::Put);
    assert_eq!(calls[0].1, "http://localhost:9091/metrics/job/client_job/kind/test");
    assert_eq!(calls[0].2, expected.into_bytes());
    assert_eq!(calls[0].3, "text/plain");
}
