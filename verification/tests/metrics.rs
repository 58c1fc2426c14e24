use image_admission::admission::{admission_handler, AdmissionReview};
use image_admission::metrics::{exposition_of, exposition_of_families, AppState, MetricsError};
use prometheus::proto::{Metric, MetricFamily, MetricType};

fn family(name: &str, kind: MetricType, metrics: usize) -> MetricFamily {
    let mut family = MetricFamily::default();
    family.set_name(name.to_string());
    family.set_field_type(kind);
    family.set_metric(vec![Metric::default(); metrics]);
    family
}

fn empty_review() -> AdmissionReview {
    AdmissionReview {
        api_version: "admission.k8s.io/v1".to_string(),
        kind: "AdmissionReview".to_string(),
        request: None,
        response: None,
    }
}

#[test]
fn fresh_state_counts_zero() {
    let state = AppState::new().unwrap();
    assert_eq!(state.requests_counted(), 0);
}

#[test]
fn count_request_adds_one() {
    let state = AppState::new().unwrap();
    state.count_request();
    assert_eq!(state.requests_counted(), 1);
    state.count_request();
    state.count_request();
    assert_eq!(state.requests_counted(), 3);
}

#[test]
fn states_do_not_share_their_counters() {
    let first = AppState::new().unwrap();
    let second = AppState::new().unwrap();
    first.count_request();
    assert_eq!(first.requests_counted(), 1);
    assert_eq!(second.requests_counted(), 0);
}

#[test]
fn metrics_text_names_the_request_counter() {
    let state = AppState::new().unwrap();
    let text = state.metrics_text().unwrap();
    assert!(text.contains("# TYPE requests_total counter"), "{}", text);
    assert!(text.contains("# HELP requests_total Total requests"), "{}", text);
    assert!(text.lines().any(|line| line == "requests_total 0"), "{}", text);
}

#[test]
fn metrics_text_follows_the_handler() {
    let state = AppState::new().unwrap();
    for _ in 0..3 {
        admission_handler(&state, empty_review());
    }
    let text = state.metrics_text().unwrap();
    assert!(text.lines().any(|line| line == "requests_total 3"), "{}", text);
    // Reading the metrics counts nothing.
    assert_eq!(state.requests_counted(), 3);
}

#[test]
fn exposition_is_the_text_that_the_bytes_spell() {
    assert_eq!(exposition_of(Ok(b"requests_total 1\n".to_vec())), Ok("requests_total 1\n".to_string()));
    assert_eq!(exposition_of(Ok(Vec::new())), Ok(String::new()));
    assert_eq!(exposition_of(Ok("zähler 1".as_bytes().to_vec())), Ok("zähler 1".to_string()));
}

#[test]
fn exposition_refuses_bytes_that_are_no_text() {
    assert_eq!(exposition_of(Ok(vec![0xff, 0xfe])), Err(MetricsError::NotText));
    assert_eq!(exposition_of(Ok(vec![b'a', 0xc3])), Err(MetricsError::NotText));
}

#[test]
fn exposition_reports_an_encoder_failure() {
    let failed = Err(prometheus::Error::Msg("broken".to_string()));
    assert_eq!(exposition_of(failed), Err(MetricsError::Encode));
    assert_eq!(exposition_of(Err(prometheus::Error::AlreadyReg)), Err(MetricsError::Encode));
}

#[test]
fn families_are_written_in_the_order_given() {
    let families =
        vec![family("first", MetricType::COUNTER, 1), family("second", MetricType::GAUGE, 2)];
    assert_eq!(
        exposition_of_families(&families),
        Ok("# TYPE first counter\nfirst 0\n# TYPE second gauge\nsecond 0\nsecond 0\n".to_string())
    );
    assert_eq!(exposition_of_families(&Vec::new()), Ok(String::new()));
}

#[test]
fn same_families_same_text() {
    let families = vec![family("a", MetricType::COUNTER, 1)];
    assert_eq!(exposition_of_families(&families), exposition_of_families(&families.clone()));
}

#[test]
fn an_untyped_family_cannot_be_written() {
    let untyped = vec![family("odd", MetricType::UNTYPED, 1)];
    assert_eq!(exposition_of_families(&untyped), Err(MetricsError::Encode));
    let behind =
        vec![family("fine", MetricType::COUNTER, 1), family("odd", MetricType::UNTYPED, 1)];
    assert_eq!(exposition_of_families(&behind), Err(MetricsError::Encode));
    let empty_and_untyped = vec![family("odd", MetricType::UNTYPED, 0)];
    assert_eq!(exposition_of_families(&empty_and_untyped), Err(MetricsError::Encode));
}

#[test]
fn a_family_that_the_encoder_refuses_cannot_be_written() {
    let without_metrics = vec![family("empty", MetricType::COUNTER, 0)];
    assert_eq!(exposition_of_families(&without_metrics), Err(MetricsError::Encode));
    let without_name = vec![family("", MetricType::GAUGE, 1)];
    assert_eq!(exposition_of_families(&without_name), Err(MetricsError::Encode));
}

#[test]
fn metrics_text_is_the_exposition_of_what_the_registry_gathers() {
    let state = AppState::new().unwrap();
    state.count_request();
    state.count_request();
    let text = state.metrics_text().unwrap();
    assert_eq!(exposition_of_families(&state.registry.gather()), Ok(text.clone()));
    assert_eq!(text, "# HELP requests_total Total requests\n# TYPE requests_total counter\nrequests_total 2\n");
}
