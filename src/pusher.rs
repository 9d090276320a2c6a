use vstd::prelude::*;

use crate::error::PushMetricsError;
use crate::error::Result;
use crate::url_path::create_metrics_job_url;
use crate::url_path::distinct_names;
use crate::url_path::job_root_of;

verus! {

/// The two kinds of push to the gateway.
pub enum PushType {
    /// Merges the metrics into those stored under the grouping key.
    Add,
    /// Replaces everything stored under the grouping key.
    All,
}

/// What a push sends: the target URL, the encoded body and its content type.
pub struct PushDetails {
    pub url: String,
    pub body: Vec<u8>,
    pub content_type: String,
}

/// Turns a metrics backend's values into push details.
pub trait ConvertMetrics {
    /// The metrics the backend pushes.
    type Metrics;

    /// The backend's handle on its collectors.
    type Collectors;

    /// `r` is what gathering the metrics of `collectors` may give.
    spec fn gathered(&self, collectors: Self::Collectors, r: Result<Self::Metrics>) -> bool;

    /// `r` is what building the push details of `metrics` below the job root `url` may give.
    spec fn detailed(
        &self,
        job: Seq<char>,
        url: Seq<char>,
        grouping: Seq<(String, String)>,
        metrics: Self::Metrics,
        r: Result<PushDetails>,
    ) -> bool;

    /// Gathers the current metrics of the collectors.
    fn metrics_from(&self, collectors: Self::Collectors) -> (r: Result<Self::Metrics>)
        ensures
            self.gathered(collectors, r),
    ;

    /// Builds the push URL below the job root `url` and encodes the metrics.
    fn create_push_details(
        &self,
        job: &str,
        url: &str,
        grouping: &Vec<(String, String)>,
        metrics: Self::Metrics,
    ) -> (r: Result<PushDetails>)
        requires
            distinct_names(grouping@),
        ensures
            self.detailed(job@, url@, grouping@, metrics, r),
    ;
}

/// The HTTP client that sends a push.
pub trait Push {
    /// `r` is what the client may answer when it sends `request`; a client that states
    /// nothing may answer anything.
    open spec fn answered(&self, request: PushRequest, r: Result<()>) -> bool {
        true
    }

    /// Sends the request: its body with the header `Content-Type: <content_type>`,
    /// by its method to its URL.
    fn send(&self, request: PushRequest) -> (r: Result<()>)
        ensures
            self.answered(request, r),
    ;
}

/// The HTTP method of a push.
#[derive(Debug, Clone, Copy, PartialEq, Eq, Structural)]
pub enum HttpMethod {
    Put,
    Post,
}

/// The method that a push of the given kind uses.
pub open spec fn method_of(push_type: PushType) -> HttpMethod {
    match push_type {
        PushType::All => HttpMethod::Put,
        PushType::Add => HttpMethod::Post,
    }
}

/// A push as it goes to the transport.
pub struct PushRequest {
    pub method: HttpMethod,
    pub url: String,
    pub body: Vec<u8>,
    pub content_type: String,
}

/// The request that a push of the given kind sends for `details`.
pub open spec fn request_of(details: PushDetails, push_type: PushType) -> PushRequest {
    PushRequest {
        method: method_of(push_type),
        url: details.url,
        body: details.body,
        content_type: details.content_type,
    }
}

impl PushRequest {
    /// The request for `details`: a PUT for `All`, a POST for `Add`, the rest unchanged.
    pub fn new(details: PushDetails, push_type: PushType) -> (r: PushRequest)
        ensures
            r == request_of(details, push_type),
    {
        let method = match push_type {
            PushType::All => HttpMethod::Put,
            PushType::Add => HttpMethod::Post,
        };
        PushRequest { method, url: details.url, body: details.body, content_type: details.content_type }
    }
}

/// Both kinds of push send the same URL, body and content type; `All` sends them
/// with PUT and `Add` with POST.
pub proof fn lemma_push_types_differ_only_in_method(details: PushDetails)
    ensures
        request_of(details, PushType::All).method == HttpMethod::Put,
        request_of(details, PushType::Add).method == HttpMethod::Post,
        request_of(details, PushType::All).url == request_of(details, PushType::Add).url,
        request_of(details, PushType::All).body == request_of(details, PushType::Add).body,
        request_of(details, PushType::All).content_type == request_of(details, PushType::Add).content_type,
{
}

/// Classifies the gateway's answer: 200 and 202 are success, any other status is an
/// error that carries it and the URL.
pub fn handle_response(status: u16, url: &str) -> (r: Result<()>)
    ensures
        status == 200 || status == 202 ==> r is Ok,
        !(status == 200 || status == 202) ==> (match r {
            Err(PushMetricsError::Response { status: s, url: u }) => s == status && u@ == url@,
            _ => false,
        }),
{
    if status == 200 || status == 202 {
        Ok(())
    } else {
        Err(PushMetricsError::Response { status, url: String::from_str(url) })
    }
}

/// A pushgateway client: the job root of the gateway, the transport that sends and
/// the backend that encodes.
pub struct MetricsPusher<P, CM> {
    push_client: P,
    metrics_converter: CM,
    url: String,
}

impl<P, CM: ConvertMetrics> MetricsPusher<P, CM> {
    /// The job root `<gateway>/metrics/job/` that every push URL is built below.
    pub closed spec fn job_root(&self) -> Seq<char> {
        self.url@
    }

    /// The transport this pusher sends with.
    pub closed spec fn client(&self) -> P {
        self.push_client
    }

    /// The backend this pusher encodes with.
    pub closed spec fn converter(&self) -> CM {
        self.metrics_converter
    }

    /// `r` is a request this pusher may build: the request of a kind `push_type` for
    /// details the backend may give, or the backend's error.
    pub open spec fn request_made(
        &self,
        job: Seq<char>,
        grouping: Seq<(String, String)>,
        metrics: CM::Metrics,
        push_type: PushType,
        r: Result<PushRequest>,
    ) -> bool {
        match r {
            Ok(q) => exists|d: PushDetails|
                #[trigger] self.converter().detailed(job, self.job_root(), grouping, metrics, Ok(d)) && q
                    == request_of(d, push_type),
            Err(e) => self.converter().detailed(job, self.job_root(), grouping, metrics, Err(e)),
        }
    }

    /// A pusher for the gateway at `url`; fails when the job root cannot be joined onto it.
    pub fn new(push_client: P, metrics_converter: CM, url: &str) -> (r: Result<Self>)
        ensures
            match r {
                Ok(p) => job_root_of(url@) == Some(p.job_root()) && p.client() == push_client
                    && p.converter() == metrics_converter,
                Err(e) => e is Url && job_root_of(url@) is None,
            },
    {
        let url = create_metrics_job_url(url)?;
        Ok(MetricsPusher { push_client, metrics_converter, url })
    }

    /// The transport this pusher sends with.
    pub fn push_client(&self) -> (r: &P)
        ensures
            *r == self.client(),
    {
        &self.push_client
    }

    /// The backend this pusher encodes with.
    pub fn metrics_converter(&self) -> (r: &CM)
        ensures
            *r == self.converter(),
    {
        &self.metrics_converter
    }

    /// The job root this pusher builds URLs below.
    pub fn job_url(&self) -> (r: &str)
        ensures
            r@ == self.job_root(),
    {
        self.url.as_str()
    }

    /// The request a push of the kind `push_type` sends: the backend's push details
    /// below this pusher's job root, by PUT for `All` and by POST for `Add`. An error
    /// of the backend comes back as it is.
    pub fn request(&self, job: &str, grouping: &Vec<(String, String)>, metrics: CM::Metrics, push_type: PushType) -> (r: Result<PushRequest>)
        requires
            distinct_names(grouping@),
        ensures
            self.request_made(job@, grouping@, metrics, push_type, r),
            r matches Ok(q) ==> q.method == method_of(push_type),
    {
        let details = self.metrics_converter.create_push_details(job, self.url.as_str(), grouping, metrics);
        match details {
            Ok(d) => {
                let q = PushRequest::new(d, push_type);
                assert(self.converter().detailed(job@, self.job_root(), grouping@, metrics, Ok(d)));
                Ok(q)
            },
            Err(e) => Err(e),
        }
    }

    /// Gathers the collectors' metrics; an error of the backend comes back as it is.
    pub fn gather(&self, collectors: CM::Collectors) -> (r: Result<CM::Metrics>)
        ensures
            self.converter().gathered(collectors, r),
    {
        self.metrics_converter.metrics_from(collectors)
    }
}

impl<P: Push, CM: ConvertMetrics> MetricsPusher<P, CM> {
    /// `r` is what a push may give: a request was built as `request_made` says; when
    /// that failed, its error is the result and nothing was sent, and otherwise the result
    /// is the client's answer to that request.
    pub open spec fn pushed(
        &self,
        job: Seq<char>,
        grouping: Seq<(String, String)>,
        metrics: CM::Metrics,
        push_type: PushType,
        r: Result<()>,
    ) -> bool {
        exists|q: Result<PushRequest>|
            #[trigger] self.request_made(job, grouping, metrics, push_type, q) && match q {
                Ok(request) => self.client().answered(request, r),
                Err(e) => r == Err::<(), PushMetricsError>(e),
            }
    }

    /// `r` is what a push of the collectors' metrics may give: when gathering failed,
    /// its error; otherwise what a push of the gathered metrics may give.
    pub open spec fn pushed_collectors(
        &self,
        job: Seq<char>,
        grouping: Seq<(String, String)>,
        collectors: CM::Collectors,
        push_type: PushType,
        r: Result<()>,
    ) -> bool {
        exists|m: Result<CM::Metrics>|
            #[trigger] self.converter().gathered(collectors, m) && match m {
                Err(e) => r == Err::<(), PushMetricsError>(e),
                Ok(metrics) => self.pushed(job, grouping, metrics, push_type, r),
            }
    }

    /// Whatever request a replacing push may send, it sends by PUT, and a merging push
    /// of the same metrics may send the same URL, body and content type by POST.
    pub proof fn lemma_push_kinds_share_requests(
        &self,
        job: Seq<char>,
        grouping: Seq<(String, String)>,
        metrics: CM::Metrics,
        q: PushRequest,
    )
        requires
            self.request_made(job, grouping, metrics, PushType::All, Ok(q)),
        ensures
            q.method == HttpMethod::Put,
            self.request_made(
                job,
                grouping,
                metrics,
                PushType::Add,
                Ok(PushRequest { method: HttpMethod::Post, url: q.url, body: q.body, content_type: q.content_type }),
            ),
    {
        let d = choose|d: PushDetails|
            #[trigger] self.converter().detailed(job, self.job_root(), grouping, metrics, Ok(d)) && q
                == request_of(d, PushType::All);
        assert(request_of(d, PushType::Add) == PushRequest {
            method: HttpMethod::Post,
            url: q.url,
            body: q.body,
            content_type: q.content_type,
        });
    }

    /// Pushes the metrics with PUT, replacing what the gateway holds for the grouping key.
    /// The job name and the grouping labels must not hold `/`.
    pub fn push_all(&self, job: &str, grouping: &Vec<(String, String)>, metrics: CM::Metrics) -> (r: Result<()>)
        requires
            distinct_names(grouping@),
        ensures
            self.pushed(job@, grouping@, metrics, PushType::All, r),
    {
        self.push(job, grouping, metrics, PushType::All)
    }

    /// Pushes the metrics with POST, merging them into what the gateway holds for the
    /// grouping key. The job name and the grouping labels must not hold `/`.
    pub fn push_add(&self, job: &str, grouping: &Vec<(String, String)>, metrics: CM::Metrics) -> (r: Result<()>)
        requires
            distinct_names(grouping@),
        ensures
            self.pushed(job@, grouping@, metrics, PushType::Add, r),
    {
        self.push(job, grouping, metrics, PushType::Add)
    }

    /// Gathers the collectors' metrics and pushes them with PUT.
    pub fn push_all_collectors(
        &self,
        job: &str,
        grouping: &Vec<(String, String)>,
        collectors: CM::Collectors,
    ) -> (r: Result<()>)
        requires
            distinct_names(grouping@),
        ensures
            self.pushed_collectors(job@, grouping@, collectors, PushType::All, r),
    {
        self.push_collectors(job, grouping, collectors, PushType::All)
    }

    /// Gathers the collectors' metrics and pushes them with POST.
    pub fn push_add_collectors(
        &self,
        job: &str,
        grouping: &Vec<(String, String)>,
        collectors: CM::Collectors,
    ) -> (r: Result<()>)
        requires
            distinct_names(grouping@),
        ensures
            self.pushed_collectors(job@, grouping@, collectors, PushType::Add, r),
    {
        self.push_collectors(job, grouping, collectors, PushType::Add)
    }

    fn push_collectors(
        &self,
        job: &str,
        grouping: &Vec<(String, String)>,
        collectors: CM::Collectors,
        push_type: PushType,
    ) -> (r: Result<()>)
        requires
            distinct_names(grouping@),
        ensures
            self.pushed_collectors(job@, grouping@, collectors, push_type, r),
    {
        let gathered = self.gather(collectors);
        match gathered {
            Ok(metrics) => {
                let r = self.push(job, grouping, metrics, push_type);
                assert(self.converter().gathered(collectors, Ok::<CM::Metrics, PushMetricsError>(metrics)));
                r
            },
            Err(e) => {
                assert(self.converter().gathered(collectors, Err::<CM::Metrics, PushMetricsError>(e)));
                Err(e)
            },
        }
    }

    /// Builds the request and hands it to the transport; when building fails, its
    /// error is the result and nothing is sent.
    pub fn push(&self, job: &str, grouping: &Vec<(String, String)>, metrics: CM::Metrics, push_type: PushType) -> (r: Result<()>)
        requires
            distinct_names(grouping@),
        ensures
            self.pushed(job@, grouping@, metrics, push_type, r),
    {
        let request = self.request(job, grouping, metrics, push_type);
        match request {
            Ok(q) => {
                let sent = self.push_client.send(q);
                assert(self.request_made(job@, grouping@, metrics, push_type, Ok::<PushRequest, PushMetricsError>(q)));
                sent
            },
            Err(e) => {
                assert(self.request_made(job@, grouping@, metrics, push_type, Err::<PushRequest, PushMetricsError>(e)));
                Err(e)
            },
        }
    }
}

} // verus!
