use image_admission::admission::{
    admission_handler, answer_review, log_pod_spec, AdmissionRequest, AdmissionResponse,
    AdmissionReview, Outcome,
};
use image_admission::logger::ImageRecord;
use image_admission::metrics::AppState;
use image_admission::pod::{Container, PodObject, PodSpec};

fn container(image: &str) -> Container {
    Container { image: Some(image.to_string()) }
}

fn record(kind: &str, registry: &str, name: &str, tag: &str, digest: &str) -> ImageRecord {
    ImageRecord {
        kind: kind.to_string(),
        registry: registry.to_string(),
        name: name.to_string(),
        tag: tag.to_string(),
        digest: digest.to_string(),
    }
}

fn review(request: Option<AdmissionRequest>) -> AdmissionReview {
    AdmissionReview {
        api_version: "admission.k8s.io/v1".to_string(),
        kind: "AdmissionReview".to_string(),
        request,
        response: None,
    }
}

fn request(uid: &str, spec: Option<PodSpec>) -> AdmissionRequest {
    AdmissionRequest { uid: uid.to_string(), object: Some(PodObject { spec }) }
}

fn allowed(uid: &str) -> AdmissionReview {
    AdmissionReview {
        api_version: "admission.k8s.io/v1".to_string(),
        kind: "AdmissionReview".to_string(),
        request: None,
        response: Some(AdmissionResponse { uid: uid.to_string(), allowed: true }),
    }
}

fn state() -> AppState {
    AppState::new().unwrap()
}

#[test]
fn two_containers_one_image_one_record_and_allowed() {
    let state = state();
    let spec = PodSpec {
        containers: vec![container("nginx"), Container { image: None }],
        init_containers: None,
    };
    let outcome = admission_handler(&state, review(Some(request("705ab4f5-6393", Some(spec)))));
    assert_eq!(outcome.records, vec![record("container", "", "nginx", "latest", "")]);
    assert_eq!(outcome.review, allowed("705ab4f5-6393"));
    let response = outcome.review.response.unwrap();
    assert!(response.allowed);
    assert_eq!(response.uid, "705ab4f5-6393");
    assert_eq!(state.requests_counted(), 1);
}

#[test]
fn review_without_request_gets_an_empty_envelope() {
    let state = state();
    let before = state.requests_counted();
    let outcome = admission_handler(&state, review(None));
    assert_eq!(outcome.review.request, None);
    assert_eq!(outcome.review.response, None);
    assert_eq!(outcome.review.api_version, "admission.k8s.io/v1");
    assert_eq!(outcome.review.kind, "AdmissionReview");
    assert!(outcome.records.is_empty());
    assert_eq!(state.requests_counted(), before + 1);
}

#[test]
fn every_call_counts_once() {
    let state = state();
    assert_eq!(state.requests_counted(), 0);
    for n in 1..=5u64 {
        let incoming = if n % 2 == 0 { review(None) } else { review(Some(request("u", None))) };
        admission_handler(&state, incoming);
        assert_eq!(state.requests_counted(), n);
    }
}

#[test]
fn answering_alone_counts_nothing() {
    let state = state();
    let outcome = answer_review(review(Some(request("u", None))));
    assert_eq!(outcome.review, allowed("u"));
    assert_eq!(state.requests_counted(), 0);
}

#[test]
fn containers_then_init_containers() {
    let spec = PodSpec {
        containers: vec![container("app:1"), container("quay.io/side/car@sha256:ff")],
        init_containers: Some(vec![Container { image: None }, container("busybox")]),
    };
    let expected = vec![
        record("container", "", "app", "1", ""),
        record("container", "quay.io", "side/car", "latest", "sha256:ff"),
        record("init container", "", "busybox", "latest", ""),
    ];
    assert_eq!(log_pod_spec(&spec), expected);
    let outcome = answer_review(review(Some(request("abc", Some(spec)))));
    assert_eq!(outcome, Outcome { review: allowed("abc"), records: expected });
}

#[test]
fn init_containers_alone() {
    let spec = PodSpec { containers: Vec::new(), init_containers: Some(vec![container("a.b/c")]) };
    assert_eq!(log_pod_spec(&spec), vec![record("init container", "a.b", "c", "latest", "")]);
    let none = PodSpec { containers: Vec::new(), init_containers: Some(Vec::new()) };
    assert!(log_pod_spec(&none).is_empty());
}

#[test]
fn absent_pod_or_spec_gives_no_record_and_is_allowed() {
    let no_pod = AdmissionRequest { uid: "1".to_string(), object: None };
    assert_eq!(
        answer_review(review(Some(no_pod))),
        Outcome { review: allowed("1"), records: Vec::new() }
    );
    assert_eq!(
        answer_review(review(Some(request("2", None)))),
        Outcome { review: allowed("2"), records: Vec::new() }
    );
}

#[test]
fn version_and_kind_are_echoed_as_they_came() {
    let incoming = AdmissionReview {
        api_version: "admission.k8s.io/v1beta1".to_string(),
        kind: "Något".to_string(),
        request: Some(request("", None)),
        response: None,
    };
    let outcome = answer_review(incoming);
    assert_eq!(outcome.review.api_version, "admission.k8s.io/v1beta1");
    assert_eq!(outcome.review.kind, "Något");
    assert_eq!(outcome.review.request, None);
    assert_eq!(outcome.review.response, Some(AdmissionResponse { uid: String::new(), allowed: true }));
}

#[test]
fn a_response_that_came_in_is_not_sent_back() {
    let denied = Some(AdmissionResponse { uid: "other".to_string(), allowed: false });
    let mut without_request = review(None);
    without_request.response = denied.clone();
    assert_eq!(answer_review(without_request).review, review(None));
    let mut with_request = review(Some(request("mine", None)));
    with_request.response = denied;
    assert_eq!(answer_review(with_request).review, allowed("mine"));
}

#[test]
fn allow_echoes_the_uid() {
    let response = AdmissionResponse::allow(&request("705ab4f5", None));
    assert_eq!(response, AdmissionResponse { uid: "705ab4f5".to_string(), allowed: true });
}

#[test]
fn simultaneous_calls_are_all_counted() {
    let state = std::sync::Arc::new(state());
    let tasks: u64 = 8;
    let calls: u64 = 250;
    let runtime = tokio::runtime::Builder::new_multi_thread().worker_threads(4).build().unwrap();
    let mut running = Vec::new();
    for t in 0..tasks {
        let state = state.clone();
        running.push(runtime.spawn_blocking(move || {
            for c in 0..calls {
                let uid = format!("{}-{}", t, c);
                let incoming =
                    if c % 3 == 0 { review(None) } else { review(Some(request(&uid, None))) };
                let outcome = admission_handler(&state, incoming);
                if c % 3 != 0 {
                    assert_eq!(outcome.review.response.unwrap().uid, uid);
                }
            }
        }));
    }
    for task in running {
        runtime.block_on(task).unwrap();
    }
    assert_eq!(state.requests_counted(), tasks * calls);
}
