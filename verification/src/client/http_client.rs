//! Calls to the registries, one after the other until one answers.
//!
//! A client knows several registries. A call goes to the first; where that
//! one cannot be reached, or fails on its own account, the call goes to
//! the next, and so on. This module says which request to send to the
//! registry at a given place, and what its answer means. The caller sends
//! the requests.

use vstd::prelude::*;
use vstd::string::*;
use crate::client::error::WatchtowerError;
use crate::http::{
    content_type_header, Header, HeaderView, Method, Reply, Request, RequestView, CONTENT_TYPE_KEY,
    CONTENT_TYPE_VALUE, NOT_FOUND, UNAUTHORIZED,
};
use crate::instance::{InstanceInfo, InstanceInfoView};
use crate::text::string_views;

verus! {

/// The calls that a client makes.
#[derive(Debug, Clone, Copy, PartialEq, Eq, Structural)]
pub enum Call {
    Register,
    Renew,
    Cancel,
    GetAllInstances,
}

/// What the answer of one registry means for a call.
#[derive(Debug, Clone, Copy, PartialEq, Eq, Structural)]
pub enum Verdict {
    /// The registry has done what was asked.
    Success,
    /// The call fails with this error, and no other registry is asked.
    Failure(WatchtowerError),
    /// This registry failed: the next one is to be asked.
    TryNext,
}

/// What `reply` means for `call`. An answer with a status from 200 to 299
/// is a success. Refused credentials end the call, since all registries
/// share them, and so does "not found" for a lookup. A registry that was
/// not reached, or answers with a status from 500 to 599, has failed, and
/// the next one is asked. Any other answer ends the call as an internal
/// error.
pub open spec fn judged(call: Call, reply: Reply) -> Verdict {
    match reply {
        Reply::TransportError => Verdict::TryNext,
        Reply::Status(status) => if 200 <= status < 300 {
            Verdict::Success
        } else if status == UNAUTHORIZED {
            Verdict::Failure(WatchtowerError::Unauthorized)
        } else if status == NOT_FOUND && call == Call::GetAllInstances {
            Verdict::Failure(WatchtowerError::NotFound)
        } else if 500 <= status < 600 {
            Verdict::TryNext
        } else {
            Verdict::Failure(WatchtowerError::InternalError)
        },
    }
}

/// Says what the answer of one registry means for a call.
pub fn judge(call: Call, reply: Reply) -> (r: Verdict)
    ensures
        r == judged(call, reply),
{
    match reply {
        Reply::TransportError => Verdict::TryNext,
        Reply::Status(status) => {
            if 200 <= status && status < 300 {
                Verdict::Success
            } else if status == UNAUTHORIZED {
                Verdict::Failure(WatchtowerError::Unauthorized)
            } else if status == NOT_FOUND && call == Call::GetAllInstances {
                Verdict::Failure(WatchtowerError::NotFound)
            } else if 500 <= status && status < 600 {
                Verdict::TryNext
            } else {
                Verdict::Failure(WatchtowerError::InternalError)
            }
        },
    }
}

/// The outcome of a call when the registries, asked in their order, would
/// answer with `replies`: the first answer that is no failure of its
/// registry decides, and where every registry fails, or there is none, the
/// call has reached its last retry.
pub open spec fn failover(call: Call, replies: Seq<Reply>) -> Result<(), WatchtowerError>
    decreases replies.len(),
{
    if replies.len() == 0 {
        Err(WatchtowerError::MaxRetryReached)
    } else {
        match judged(call, replies[0]) {
            Verdict::Success => Ok(()),
            Verdict::Failure(e) => Err(e),
            Verdict::TryNext => failover(call, replies.drop_first()),
        }
    }
}

/// The outcome of a call whose registries, asked in their order, answered
/// with `replies`.
pub fn conclude(call: Call, replies: &[Reply]) -> (r: Result<(), WatchtowerError>)
    ensures
        r == failover(call, replies@),
{
    let mut i: usize = 0;
    assert(replies@.subrange(0, replies@.len() as int) =~= replies@);
    while i < replies.len()
        invariant
            i <= replies.len(),
            failover(call, replies@) == failover(call, replies@.subrange(i as int, replies@.len() as int)),
            decreases replies.len() - i,
    {
        let ghost rest = replies@.subrange(i as int, replies@.len() as int);
        proof {
            assert(rest[0] == replies@[i as int]);
            assert(rest.drop_first() =~= replies@.subrange(i + 1, replies@.len() as int));
        }
        match judge(call, replies[i]) {
            Verdict::Success => {
                return Ok(());
            },
            Verdict::Failure(e) => {
                return Err(e);
            },
            Verdict::TryNext => {},
        }
        i = i + 1;
    }
    Err(WatchtowerError::MaxRetryReached)
}

/// Every registry that answered `replies` failed on its own account.
pub open spec fn all_failed(call: Call, replies: Seq<Reply>) -> bool {
    forall|i: int| 0 <= i < replies.len() ==> judged(call, #[trigger] replies[i]) == Verdict::TryNext
}

/// A call has reached its last retry exactly where every registry failed.
pub proof fn lemma_last_retry(call: Call, replies: Seq<Reply>)
    ensures
        failover(call, replies) == Err::<(), WatchtowerError>(WatchtowerError::MaxRetryReached)
            <==> all_failed(call, replies),
    decreases replies.len(),
{
    if replies.len() > 0 {
        let rest = replies.drop_first();
        lemma_last_retry(call, rest);
        if all_failed(call, replies) {
            assert forall|i: int| 0 <= i < rest.len() implies judged(call, #[trigger] rest[i])
                == Verdict::TryNext by {
                assert(rest[i] == replies[i + 1]);
            }
        }
        if judged(call, replies[0]) == Verdict::TryNext && all_failed(call, rest) {
            assert forall|i: int| 0 <= i < replies.len() implies judged(call, #[trigger] replies[i])
                == Verdict::TryNext by {
                if i > 0 {
                    assert(replies[i] == rest[i - 1]);
                }
            }
        }
    }
}

/// What a call does next.
#[derive(Debug, PartialEq, Eq)]
pub enum Progress {
    /// The registry at this place is to be asked.
    Ask(usize),
    /// The call is over, with this outcome.
    Done(Result<(), WatchtowerError>),
}

/// What a call does next when the registries asked so far, in their order,
/// answered with `replies`, and there are `registries` of them in all: it
/// asks the next registry while every answer so far was a failure of its
/// registry and a registry is left, and is over otherwise.
pub open spec fn progress_of(call: Call, replies: Seq<Reply>, registries: nat) -> Progress {
    if all_failed(call, replies) && replies.len() < registries {
        Progress::Ask(replies.len() as usize)
    } else {
        Progress::Done(failover(call, replies))
    }
}

/// What an `HttpClient` holds, as plain mathematical values.
pub struct HttpClientView {
    pub urls: Seq<Seq<char>>,
    pub username: Seq<char>,
    pub password: Seq<char>,
}

/// The address of the leases of a service at the registry `base`.
pub open spec fn service_url(base: Seq<char>, service_id: Seq<char>) -> Seq<char> {
    base + "/api/v1/services/"@ + service_id
}

/// The address of the lease of an instance at the registry `base`.
pub open spec fn instance_url(base: Seq<char>, service_id: Seq<char>, instance_id: Seq<char>) -> Seq<
    char,
> {
    service_url(base, service_id) + "/"@ + instance_id
}

/// The request of `call` to the registry at place `attempt`.
pub open spec fn request_to(
    client: HttpClientView,
    attempt: int,
    call: Call,
    service_id: Seq<char>,
    info: InstanceInfoView,
) -> RequestView {
    let base = client.urls[attempt];
    match call {
        Call::Register => RequestView {
            method: Method::Post,
            url: service_url(base, service_id),
            username: client.username,
            password: client.password,
            headers: seq![content_type_header()],
            body: Some(info),
        },
        Call::Renew => RequestView {
            method: Method::Put,
            url: instance_url(base, service_id, info.instance_id),
            username: client.username,
            password: client.password,
            headers: Seq::empty(),
            body: None,
        },
        Call::Cancel => RequestView {
            method: Method::Delete,
            url: instance_url(base, service_id, info.instance_id),
            username: client.username,
            password: client.password,
            headers: Seq::empty(),
            body: None,
        },
        Call::GetAllInstances => RequestView {
            method: Method::Get,
            url: service_url(base, service_id),
            username: client.username,
            password: client.password,
            headers: Seq::empty(),
            body: None,
        },
    }
}

/// The request that a call makes of the registry at place `attempt`, or the
/// end of the call where no registry is left.
pub open spec fn attempted(
    r: Result<Request, WatchtowerError>,
    client: HttpClientView,
    attempt: usize,
    call: Call,
    service_id: Seq<char>,
    info: InstanceInfoView,
) -> bool {
    match r {
        Ok(request) => attempt < client.urls.len() && request@ == request_to(
            client,
            attempt as int,
            call,
            service_id,
            info,
        ),
        Err(e) => e == WatchtowerError::MaxRetryReached && attempt >= client.urls.len(),
    }
}

/// The registries of a client, in the order in which they are asked, and
/// the credentials that they ask for.
#[derive(Debug, PartialEq, Eq)]
pub struct HttpClient {
    urls: Vec<String>,
    username: String,
    password: String,
}

impl View for HttpClient {
    type V = HttpClientView;

    closed spec fn view(&self) -> HttpClientView {
        HttpClientView {
            urls: string_views(self.urls@),
            username: self.username@,
            password: self.password@,
        }
    }
}

impl HttpClient {
    /// A client of the registries at `urls`.
    pub fn new(urls: Vec<String>, username: String, password: String) -> (r: HttpClient)
        ensures
            r@ == (HttpClientView {
                urls: string_views(urls@),
                username: username@,
                password: password@,
            }),
    {
        HttpClient { urls, username, password }
    }

    /// The number of registries.
    pub fn len(&self) -> (n: usize)
        ensures
            n == self@.urls.len(),
    {
        self.urls.len()
    }

    /// What `call` does next when the registries asked so far, in their
    /// order, answered with `replies`.
    pub fn progress(&self, call: Call, replies: &[Reply]) -> (r: Progress)
        ensures
            r == progress_of(call, replies@, self@.urls.len()),
    {
        let mut i: usize = 0;
        while i < replies.len()
            invariant
                i <= replies.len(),
                forall|k: int| 0 <= k < i ==> judged(call, #[trigger] replies@[k]) == Verdict::TryNext,
            decreases replies.len() - i,
        {
            match judge(call, replies[i]) {
                Verdict::TryNext => {},
                _ => {
                    return Progress::Done(conclude(call, replies));
                },
            }
            i = i + 1;
        }
        if replies.len() < self.urls.len() {
            Progress::Ask(replies.len())
        } else {
            Progress::Done(conclude(call, replies))
        }
    }

    /// The address of the leases of `service_id` at the registry at place
    /// `attempt`.
    fn service_url(&self, attempt: usize, service_id: &str) -> (url: String)
        requires
            attempt < self@.urls.len(),
        ensures
            url@ == service_url(self@.urls[attempt as int], service_id@),
    {
        let mut url = self.urls[attempt].clone();
        url.append("/api/v1/services/");
        url.append(service_id);
        url
    }

    /// The address of the lease of an instance at the registry at place
    /// `attempt`.
    fn instance_url(&self, attempt: usize, service_id: &str, instance_id: &str) -> (url: String)
        requires
            attempt < self@.urls.len(),
        ensures
            url@ == instance_url(self@.urls[attempt as int], service_id@, instance_id@),
    {
        let mut url = self.service_url(attempt, service_id);
        url.append("/");
        url.append(instance_id);
        url
    }

    /// A request without headers of its own and without a body.
    fn bare(&self, method: Method, url: String) -> (request: Request)
        ensures
            request@ == (RequestView {
                method,
                url: url@,
                username: self@.username,
                password: self@.password,
                headers: Seq::empty(),
                body: None,
            }),
    {
        let request = Request {
            method,
            url,
            username: self.username.clone(),
            password: self.password.clone(),
            headers: Vec::new(),
            body: None,
        };
        assert(request@.headers =~= Seq::<HeaderView>::empty());
        request
    }

    /// The request that registers `instance_info` for `service_id` with the
    /// registry at place `attempt`.
    pub fn register(&self, attempt: usize, service_id: &str, instance_info: &InstanceInfo) -> (r: Result<
        Request,
        WatchtowerError,
    >)
        ensures
            attempted(r, self@, attempt, Call::Register, service_id@, instance_info@),
    {
        if attempt >= self.urls.len() {
            return Err(WatchtowerError::MaxRetryReached);
        }
        let mut headers: Vec<Header> = Vec::new();
        headers.push(
            Header { name: CONTENT_TYPE_KEY.to_owned(), value: CONTENT_TYPE_VALUE.to_owned() },
        );
        let request = Request {
            method: Method::Post,
            url: self.service_url(attempt, service_id),
            username: self.username.clone(),
            password: self.password.clone(),
            headers,
            body: Some(instance_info.clone()),
        };
        assert(request@.headers =~= seq![content_type_header()]);
        Ok(request)
    }

    /// The request that renews the lease of `instance_info` with the
    /// registry at place `attempt`.
    pub fn renew(&self, attempt: usize, service_id: &str, instance_info: &InstanceInfo) -> (r: Result<
        Request,
        WatchtowerError,
    >)
        ensures
            attempted(r, self@, attempt, Call::Renew, service_id@, instance_info@),
    {
        if attempt >= self.urls.len() {
            return Err(WatchtowerError::MaxRetryReached);
        }
        let url = self.instance_url(attempt, service_id, instance_info.instance_id.as_str());
        Ok(self.bare(Method::Put, url))
    }

    /// The request that cancels the lease of `instance_info` with the
    /// registry at place `attempt`.
    pub fn cancel(&self, attempt: usize, service_id: &str, instance_info: &InstanceInfo) -> (r: Result<
        Request,
        WatchtowerError,
    >)
        ensures
            attempted(r, self@, attempt, Call::Cancel, service_id@, instance_info@),
    {
        if attempt >= self.urls.len() {
            return Err(WatchtowerError::MaxRetryReached);
        }
        let url = self.instance_url(attempt, service_id, instance_info.instance_id.as_str());
        Ok(self.bare(Method::Delete, url))
    }

    /// The request that asks the registry at place `attempt` for the
    /// instances of `service_id`.
    pub fn get_all_instances(&self, attempt: usize, service_id: &str) -> (r: Result<
        Request,
        WatchtowerError,
    >)
        ensures
            match r {
                Ok(request) => {
                    &&& attempt < self@.urls.len()
                    &&& request@ == (RequestView {
                        method: Method::Get,
                        url: service_url(self@.urls[attempt as int], service_id@),
                        username: self@.username,
                        password: self@.password,
                        headers: Seq::empty(),
                        body: None,
                    })
                },
                Err(e) => e == WatchtowerError::MaxRetryReached && attempt >= self@.urls.len(),
            },
    {
        if attempt >= self.urls.len() {
            return Err(WatchtowerError::MaxRetryReached);
        }
        let url = self.service_url(attempt, service_id);
        Ok(self.bare(Method::Get, url))
    }
}

} // verus!
