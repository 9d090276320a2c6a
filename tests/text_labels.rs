use prometheus_push::error::LabelType;
use prometheus_push::error::PushMetricsError;
use prometheus_push::prometheus_client_crate::PrometheusClientMetricsConverter;
use prometheus_push::text_labels::text_families;

fn found(text: &str) -> Vec<(String, Vec<String>)> {
    text_families(text).into_iter().map(|f| (f.name, f.labels)).collect()
}

fn one(name: &str, label: &str) -> (String, Vec<String>) {
    (name.to_string(), vec![label.to_string()])
}

#[test]
fn sample_labels_are_found_in_order() {
    let text = "# HELP http_requests Number of HTTP requests received.\n".to_owned()
        + "# TYPE http_requests counter\n"
        + "http_requests_total{method=\"GET\",path=\"/metrics\"} 1\n"
        + "# EOF\n";
    assert_eq!(found(&text), vec![one("http_requests_total", "method"), one("http_requests_total", "path")]);
}

#[test]
fn sample_without_labels_has_none() {
    assert!(found("requests_total 1\n# EOF\n").is_empty());
}

#[test]
fn escaped_quotes_and_commas_stay_inside_values() {
    let text = "c_total{a=\"x\\\",job=\\\"y\",b=\"1,2}\"} 3\n";
    assert_eq!(found(text), vec![one("c_total", "a"), one("c_total", "b")]);
}

#[test]
fn comments_hold_no_labels() {
    assert!(found("# HELP c{job=\"x\"} help\n").is_empty());
}

#[test]
fn text_with_job_label_is_rejected() {
    let converter = PrometheusClientMetricsConverter::new();
    let r = converter.push_details("batch", "http://gw/metrics/job/", &Vec::new(), "c_total{job=\"x\"} 1\n# EOF\n");
    match r {
        Err(PushMetricsError::AlreadyContainsLabel { metric, label: LabelType::Job }) => assert_eq!(metric, "c_total"),
        other => panic!("expected a job conflict, got {:?}", other.map(|d| d.url)),
    }
}

#[test]
fn text_with_grouping_label_is_rejected() {
    let converter = PrometheusClientMetricsConverter::new();
    let grouping = vec![("kind".to_string(), "test".to_string())];
    let r = converter.push_details("batch", "http://gw/metrics/job/", &grouping, "c_total{kind=\"x\"} 1\n# EOF\n");
    assert!(matches!(r, Err(PushMetricsError::AlreadyContainsLabel { label: LabelType::Grouping(_), .. })));
}

#[test]
fn text_body_is_the_text() {
    let converter = PrometheusClientMetricsConverter::new();
    let grouping = vec![("job".to_string(), "x".to_string())];
    let text = "c_total{method=\"GET\"} 1\n# EOF\n";
    let d = converter.push_details("batch", "http://gw/metrics/job/", &grouping, text).unwrap();
    assert_eq!(d.url, "http://gw/metrics/job/batch/job/x");
    assert_eq!(d.body, text.as_bytes().to_vec());
    assert_eq!(d.content_type, "text/plain");
}
