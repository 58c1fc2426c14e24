//! Admission reviews of Pods: every review is answered, and none is denied.

use crate::logger::{
    count_with_image, image_records, lemma_one_record_per_image, log_containers, ImageRecord,
    ImageRecordView,
};
use crate::metrics::AppState;
use crate::pod::{PodObject, PodObjectView, PodSpec, PodSpecView};
use vstd::prelude::*;

verus! {

/// What the control plane asks about: the request's identifier and the Pod.
#[derive(Clone, Debug, PartialEq, Eq, Default)]
pub struct AdmissionRequest {
    /// Identifies the request; the response carries it back.
    pub uid: String,
    pub object: Option<PodObject>,
}

/// A request as contracts see it.
pub struct AdmissionRequestView {
    pub uid: Seq<char>,
    pub object: Option<PodObjectView>,
}

impl View for AdmissionRequest {
    type V = AdmissionRequestView;

    open spec fn view(&self) -> AdmissionRequestView {
        AdmissionRequestView {
            uid: self.uid@,
            object: match self.object {
                Some(pod) => Some(pod@),
                None => None,
            },
        }
    }
}

/// The decision on a request.
#[derive(Clone, Debug, PartialEq, Eq, Default)]
pub struct AdmissionResponse {
    /// The identifier of the request that is answered.
    pub uid: String,
    pub allowed: bool,
}

/// A response as contracts see it.
pub struct AdmissionResponseView {
    pub uid: Seq<char>,
    pub allowed: bool,
}

impl View for AdmissionResponse {
    type V = AdmissionResponseView;

    open spec fn view(&self) -> AdmissionResponseView {
        AdmissionResponseView { uid: self.uid@, allowed: self.allowed }
    }
}

/// The envelope that carries a request to the webhook and a response back.
#[derive(Clone, Debug, PartialEq, Eq, Default)]
pub struct AdmissionReview {
    pub api_version: String,
    pub kind: String,
    pub request: Option<AdmissionRequest>,
    pub response: Option<AdmissionResponse>,
}

/// An envelope as contracts see it.
pub struct AdmissionReviewView {
    pub api_version: Seq<char>,
    pub kind: Seq<char>,
    pub request: Option<AdmissionRequestView>,
    pub response: Option<AdmissionResponseView>,
}

impl View for AdmissionReview {
    type V = AdmissionReviewView;

    open spec fn view(&self) -> AdmissionReviewView {
        AdmissionReviewView {
            api_version: self.api_version@,
            kind: self.kind@,
            request: match self.request {
                Some(request) => Some(request@),
                None => None,
            },
            response: match self.response {
                Some(response) => Some(response@),
                None => None,
            },
        }
    }
}

/// The kind under which a Pod's containers are recorded.
pub open spec fn container_kind() -> Seq<char> {
    "container"@
}

/// The kind under which a Pod's init containers are recorded.
pub open spec fn init_container_kind() -> Seq<char> {
    "init container"@
}

/// The response that allows `request`: it carries the request's identifier.
pub open spec fn allowing(request: AdmissionRequestView) -> AdmissionResponseView {
    AdmissionResponseView { uid: request.uid, allowed: true }
}

/// The envelope that answers `review`: version and kind as they came, no
/// request, and a response exactly where there was a request, which allows it.
pub open spec fn reply_to(review: AdmissionReviewView) -> AdmissionReviewView {
    AdmissionReviewView {
        api_version: review.api_version,
        kind: review.kind,
        request: None,
        response: match review.request {
            Some(request) => Some(allowing(request)),
            None => None,
        },
    }
}

/// The records of a Pod specification: those of its containers, then those of
/// its init containers where it lists any.
pub open spec fn pod_spec_records(spec: PodSpecView) -> Seq<ImageRecordView> {
    image_records(spec.containers, container_kind()) + match spec.init_containers {
        Some(containers) => image_records(containers, init_container_kind()),
        None => Seq::empty(),
    }
}

/// The records that `review` gives rise to. Where the request, its Pod or the
/// Pod's specification is absent there are none.
pub open spec fn review_records(review: AdmissionReviewView) -> Seq<ImageRecordView> {
    match review.request {
        Some(request) => match request.object {
            Some(pod) => match pod.spec {
                Some(spec) => pod_spec_records(spec),
                None => Seq::empty(),
            },
            None => Seq::empty(),
        },
        None => Seq::empty(),
    }
}

/// No reply denies. A reply holds no request; it holds a response exactly where
/// the review held a request, and that response allows the request and carries
/// its identifier; version and kind are those of the review.
pub proof fn lemma_reply_never_denies(review: AdmissionReviewView)
    ensures
        reply_to(review).request is None,
        reply_to(review).response is Some <==> review.request is Some,
        reply_to(review).response matches Some(response) ==> response.allowed && response.uid
            == review.request.unwrap().uid,
        reply_to(review).api_version == review.api_version,
        reply_to(review).kind == review.kind,
{
}

/// The number of containers and init containers of `spec` that name an image.
pub open spec fn images_named(spec: PodSpecView) -> nat {
    count_with_image(spec.containers) + match spec.init_containers {
        Some(containers) => count_with_image(containers),
        None => 0,
    }
}

/// A review whose request, Pod or Pod specification is absent gives no record.
/// Any other gives one record for each container and init container that names
/// an image.
pub proof fn lemma_records_counted(review: AdmissionReviewView)
    ensures
        match review.request {
            Some(request) => match request.object {
                Some(pod) => match pod.spec {
                    Some(spec) => review_records(review).len() == images_named(spec),
                    None => review_records(review).len() == 0,
                },
                None => review_records(review).len() == 0,
            },
            None => review_records(review).len() == 0,
        },
{
    if let Some(request) = review.request {
        if let Some(pod) = request.object {
            if let Some(spec) = pod.spec {
                lemma_one_record_per_image(spec.containers, container_kind());
                if let Some(containers) = spec.init_containers {
                    lemma_one_record_per_image(containers, init_container_kind());
                }
            }
        }
    }
}

/// Neither the reply nor the records depend on a response that the review
/// already carries.
pub proof fn lemma_incoming_response_ignored(
    review: AdmissionReviewView,
    response: Option<AdmissionResponseView>,
)
    ensures
        reply_to(AdmissionReviewView { response, ..review }) == reply_to(review),
        review_records(AdmissionReviewView { response, ..review }) == review_records(review),
{
}

/// What handling one review yields: the envelope to send back and the records
/// to report, in the order in which they are to be reported.
#[derive(Clone, Debug, PartialEq, Eq)]
pub struct Outcome {
    pub review: AdmissionReview,
    pub records: Vec<ImageRecord>,
}

impl AdmissionResponse {
    /// The response that allows `request`.
    pub fn allow(request: &AdmissionRequest) -> (response: AdmissionResponse)
        ensures
            response@ == allowing(request@),
    {
        AdmissionResponse { uid: request.uid.clone(), allowed: true }
    }
}

/// The records of a Pod specification.
pub fn log_pod_spec(spec: &PodSpec) -> (records: Vec<ImageRecord>)
    ensures
        records.deep_view() == pod_spec_records(spec@),
{
    let mut records = log_containers(&spec.containers, "container");
    if let Some(init_containers) = &spec.init_containers {
        let mut more = log_containers(init_containers, "init container");
        let ghost first = records.deep_view();
        let ghost second = more.deep_view();
        records.append(&mut more);
        assert(records.deep_view() =~= first + second);
    } else {
        assert(records.deep_view() =~= records.deep_view() + Seq::empty());
    }
    records
}

/// Answers one review without counting it.
///
/// The reply allows the request and echoes its identifier; a review without a
/// request is answered with an envelope that holds neither request nor
/// response. The records are those of the Pod's containers and init containers.
pub fn answer_review(admission_review: AdmissionReview) -> (outcome: Outcome)
    ensures
        outcome.review@ == reply_to(admission_review@),
        outcome.records.deep_view() == review_records(admission_review@),
{
    let AdmissionReview { api_version, kind, request, response: _ } = admission_review;
    match request {
        Some(request) => {
            let records = match &request.object {
                Some(pod) => match &pod.spec {
                    Some(spec) => log_pod_spec(spec),
                    None => Vec::new(),
                },
                None => Vec::new(),
            };
            let response = AdmissionResponse::allow(&request);
            Outcome {
                review: AdmissionReview { api_version, kind, request: None, response: Some(response) },
                records,
            }
        },
        None => Outcome {
            review: AdmissionReview { api_version, kind, request: None, response: None },
            records: Vec::new(),
        },
    }
}

/// Handles one review: counts it, then answers it.
pub fn admission_handler(state: &AppState, admission_review: AdmissionReview) -> (outcome: Outcome)
    ensures
        outcome.review@ == reply_to(admission_review@),
        outcome.records.deep_view() == review_records(admission_review@),
{
    state.count_request();
    answer_review(admission_review)
}

} // verus!
