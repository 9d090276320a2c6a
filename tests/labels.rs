use prometheus_push::error::LabelType;
use prometheus_push::error::PushMetricsError;
use prometheus_push::labels::validate_labels;
use prometheus_push::labels::FamilyLabels;

fn family(name: &str, labels: &[&str]) -> FamilyLabels {
    FamilyLabels { name: name.to_string(), labels: labels.iter().map(|l| l.to_string()).collect() }
}

fn grouping(items: &[(&str, &str)]) -> Vec<(String, String)> {
    items.iter().map(|(n, v)| (n.to_string(), v.to_string())).collect()
}

#[test]
fn metric_with_job_label_conflicts() {
    let fams = vec![family("ok_total", &["method"]), family("bad_total", &["path", "job"])];
    match validate_labels(&fams, &grouping(&[("instance", "h")])) {
        Err(PushMetricsError::AlreadyContainsLabel { metric, label: LabelType::Job }) => assert_eq!(metric, "bad_total"),
        other => panic!("expected a job conflict, got {:?}", other),
    }
}

#[test]
fn metric_with_grouping_label_conflicts() {
    let fams = vec![family("requests_total", &["method", "instance"])];
    match validate_labels(&fams, &grouping(&[("instance", "h")])) {
        Err(PushMetricsError::AlreadyContainsLabel { metric, label: LabelType::Grouping(l) }) => {
            assert_eq!(metric, "requests_total");
            assert_eq!(l, "instance");
        }
        other => panic!("expected a grouping conflict, got {:?}", other),
    }
}

#[test]
fn first_conflict_is_reported() {
    let fams = vec![family("a", &["x", "zone"]), family("b", &["job"])];
    match validate_labels(&fams, &grouping(&[("zone", "eu")])) {
        Err(PushMetricsError::AlreadyContainsLabel { metric, label: LabelType::Grouping(l) }) => {
            assert_eq!(metric, "a");
            assert_eq!(l, "zone");
        }
        other => panic!("expected the first conflict, got {:?}", other),
    }
}

#[test]
fn grouping_named_job_alone_is_no_conflict() {
    let fams = vec![family("requests_total", &["method"])];
    assert!(validate_labels(&fams, &grouping(&[("job", "x")])).is_ok());
}

#[test]
fn empty_metric_set_is_valid() {
    assert!(validate_labels(&Vec::new(), &grouping(&[("instance", "h")])).is_ok());
}

#[test]
fn label_messages() {
    assert_eq!(LabelType::Job.message(), "a job label");
    assert_eq!(LabelType::Grouping("zone".to_string()).message(), "grouping label with value 'zone'");
}
