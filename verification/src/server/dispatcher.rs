//! Replication of writes to the peer nodes.
//!
//! For each write that a node queues, every peer gets one HTTP request. The
//! replication is best effort: a peer that answers with an unexpected
//! status, or does not answer, is reported and not tried again. The one
//! exception heals a peer that missed a registration: where it does not
//! know the instance of a renewal, the instance is registered with it.
//!
//! This module says which requests to send and what each answer means. The
//! caller sends them.

use vstd::prelude::*;
use vstd::string::*;
use crate::http::{
    content_type_header, Header, HeaderView, Method, Reply, Request, RequestView, CONTENT_TYPE_KEY,
    CONTENT_TYPE_VALUE, NOT_FOUND, NO_CONTENT, OK,
};
use crate::instance::{InstanceInfo, InstanceInfoView};
use crate::server::auth::REPLICATION_HEADER;
use crate::server::env::AuthInfo;

verus! {

/// A write that a node passes on to its peers.
#[derive(Debug, PartialEq, Eq)]
pub enum DispatcherMessage {
    /// An instance was registered for a service.
    Register(String, InstanceInfo),
    /// The lease of an instance of a service was renewed.
    Renew(String, InstanceInfo),
    /// The lease of the instance with this identifier was cancelled.
    Cancel(String, String),
}

/// What a `DispatcherMessage` holds, as plain mathematical values.
pub enum DispatchView {
    Register(Seq<char>, InstanceInfoView),
    Renew(Seq<char>, InstanceInfoView),
    Cancel(Seq<char>, Seq<char>),
}

impl View for DispatcherMessage {
    type V = DispatchView;

    open spec fn view(&self) -> DispatchView {
        match self {
            DispatcherMessage::Register(service_id, info) => DispatchView::Register(service_id@, info@),
            DispatcherMessage::Renew(service_id, info) => DispatchView::Renew(service_id@, info@),
            DispatcherMessage::Cancel(service_id, instance_id) => DispatchView::Cancel(
                service_id@,
                instance_id@,
            ),
        }
    }
}

/// The name of the header that names the sender.
pub const USER_AGENT_KEY: &'static str = "User-Agent";

/// The name under which a node sends to its peers.
pub const USER_AGENT_VALUE: &'static str = "WatchtowerDispatcher";

/// The value of the header that marks a request of a peer.
pub const REPLICATION_VALUE: &'static str = "true";

/// What an answer of a peer means for the write that was passed on.
#[derive(Debug, PartialEq, Eq)]
pub enum Delivery {
    /// The peer has taken the write.
    Delivered,
    /// The peer does not know the instance of a renewal: this registration
    /// is to be sent to it in place of the renewal.
    RegisterInstead(Request),
    /// The peer answered with a status that does not accept the write. It
    /// is reported and not tried again.
    UnexpectedStatus(u16),
    /// The peer was not reached. It is reported and not tried again.
    Unreachable,
}

/// What a `Delivery` holds, as plain mathematical values.
pub enum DeliveryView {
    Delivered,
    RegisterInstead(RequestView),
    UnexpectedStatus(u16),
    Unreachable,
}

impl View for Delivery {
    type V = DeliveryView;

    open spec fn view(&self) -> DeliveryView {
        match self {
            Delivery::Delivered => DeliveryView::Delivered,
            Delivery::RegisterInstead(request) => DeliveryView::RegisterInstead(request@),
            Delivery::UnexpectedStatus(status) => DeliveryView::UnexpectedStatus(*status),
            Delivery::Unreachable => DeliveryView::Unreachable,
        }
    }
}

/// What a `Node` holds, as plain mathematical values.
pub struct NodeView {
    pub url: Seq<char>,
    pub username: Seq<char>,
    pub password: Seq<char>,
}

/// The address of the leases of a service on the node at `node`.
pub open spec fn service_url(node: Seq<char>, service_id: Seq<char>) -> Seq<char> {
    "http://"@ + node + "/api/v1/services/"@ + service_id
}

/// The address of the lease of an instance on the node at `node`.
pub open spec fn instance_url(node: Seq<char>, service_id: Seq<char>, instance_id: Seq<char>) -> Seq<
    char,
> {
    service_url(node, service_id) + "/"@ + instance_id
}

/// The headers that mark a request as passed on by a node.
pub open spec fn replication_headers() -> Seq<HeaderView> {
    seq![
        HeaderView { name: REPLICATION_HEADER@, value: REPLICATION_VALUE@ },
        HeaderView { name: USER_AGENT_KEY@, value: USER_AGENT_VALUE@ },
    ]
}

/// The request that registers `info` for `service_id` with `node`.
pub open spec fn register_request(
    node: NodeView,
    service_id: Seq<char>,
    info: InstanceInfoView,
) -> RequestView {
    RequestView {
        method: Method::Post,
        url: service_url(node.url, service_id),
        username: node.username,
        password: node.password,
        headers: seq![content_type_header()] + replication_headers(),
        body: Some(info),
    }
}

/// The request that renews the lease of an instance with `node`.
pub open spec fn renew_request(
    node: NodeView,
    service_id: Seq<char>,
    instance_id: Seq<char>,
) -> RequestView {
    RequestView {
        method: Method::Put,
        url: instance_url(node.url, service_id, instance_id),
        username: node.username,
        password: node.password,
        headers: replication_headers(),
        body: None,
    }
}

/// The request that cancels the lease of an instance with `node`.
pub open spec fn cancel_request(
    node: NodeView,
    service_id: Seq<char>,
    instance_id: Seq<char>,
) -> RequestView {
    RequestView {
        method: Method::Delete,
        url: instance_url(node.url, service_id, instance_id),
        username: node.username,
        password: node.password,
        headers: replication_headers(),
        body: None,
    }
}

/// The request that passes `message` on to `node`.
pub open spec fn request_for(node: NodeView, message: DispatchView) -> RequestView {
    match message {
        DispatchView::Register(service_id, info) => register_request(node, service_id, info),
        DispatchView::Renew(service_id, info) => renew_request(node, service_id, info.instance_id),
        DispatchView::Cancel(service_id, instance_id) => cancel_request(node, service_id, instance_id),
    }
}

/// Whether a request carries the header that marks it as passed on by a
/// node.
pub open spec fn marked_as_replication(request: RequestView) -> bool {
    request.headers.contains(HeaderView { name: REPLICATION_HEADER@, value: REPLICATION_VALUE@ })
}

/// What `outcome` means for a request that is accepted with the status
/// `accepted` and has no fallback.
pub open spec fn plain_delivery(outcome: Reply, accepted: u16) -> DeliveryView {
    match outcome {
        Reply::Status(status) => if status == accepted {
            DeliveryView::Delivered
        } else {
            DeliveryView::UnexpectedStatus(status)
        },
        Reply::TransportError => DeliveryView::Unreachable,
    }
}

/// What `outcome` means for the request that passed `message` on to
/// `node`.
pub open spec fn delivery_of(
    node: NodeView,
    message: DispatchView,
    outcome: Reply,
) -> DeliveryView {
    match message {
        DispatchView::Register(_, _) => plain_delivery(outcome, NO_CONTENT),
        DispatchView::Renew(service_id, info) => if outcome == Reply::Status(NOT_FOUND) {
            DeliveryView::RegisterInstead(register_request(node, service_id, info))
        } else {
            plain_delivery(outcome, OK)
        },
        DispatchView::Cancel(_, _) => plain_delivery(outcome, OK),
    }
}

/// A peer node: its address, as host and port, and the credentials that it
/// asks for.
#[derive(Debug, PartialEq, Eq)]
pub struct Node {
    url: String,
    username: String,
    password: String,
}

impl View for Node {
    type V = NodeView;

    closed spec fn view(&self) -> NodeView {
        NodeView { url: self.url@, username: self.username@, password: self.password@ }
    }
}

/// The two headers that mark a request as passed on by a node.
fn replication_header_list() -> (headers: Vec<Header>)
    ensures
        headers@.map_values(|header: Header| header@) == replication_headers(),
{
    let mut headers: Vec<Header> = Vec::new();
    headers.push(
        Header { name: REPLICATION_HEADER.to_owned(), value: REPLICATION_VALUE.to_owned() },
    );
    headers.push(Header { name: USER_AGENT_KEY.to_owned(), value: USER_AGENT_VALUE.to_owned() });
    assert(headers@.map_values(|header: Header| header@) =~= replication_headers());
    headers
}

/// What `outcome` means for a request that is accepted with the status
/// `accepted` and has no fallback.
fn settle_plain(outcome: Reply, accepted: u16) -> (r: Delivery)
    ensures
        r@ == plain_delivery(outcome, accepted),
{
    match outcome {
        Reply::Status(status) => {
            if status == accepted {
                Delivery::Delivered
            } else {
                Delivery::UnexpectedStatus(status)
            }
        },
        Reply::TransportError => Delivery::Unreachable,
    }
}

impl Node {
    /// The peer at `url`, which asks for the credentials `auth`.
    pub fn new(url: String, auth: AuthInfo) -> (r: Node)
        ensures
            r@ == (NodeView { url: url@, username: auth@.username, password: auth@.password }),
    {
        Node { url, username: auth.username, password: auth.password }
    }

    /// The address of the leases of `service_id` on this node.
    fn service_url(&self, service_id: &str) -> (url: String)
        ensures
            url@ == service_url(self@.url, service_id@),
    {
        let mut url = String::from_str("http://");
        url.append(self.url.as_str());
        url.append("/api/v1/services/");
        url.append(service_id);
        url
    }

    /// The address of the lease of an instance on this node.
    fn instance_url(&self, service_id: &str, instance_id: &str) -> (url: String)
        ensures
            url@ == instance_url(self@.url, service_id@, instance_id@),
    {
        let mut url = self.service_url(service_id);
        url.append("/");
        url.append(instance_id);
        url
    }

    /// The request that registers `instance_info` for `service_id` with
    /// this node.
    pub fn register(&self, service_id: &str, instance_info: &InstanceInfo) -> (request: Request)
        ensures
            request@ == register_request(self@, service_id@, instance_info@),
    {
        let mut headers: Vec<Header> = Vec::new();
        headers.push(
            Header { name: CONTENT_TYPE_KEY.to_owned(), value: CONTENT_TYPE_VALUE.to_owned() },
        );
        let mut marks = replication_header_list();
        let ghost first = headers@;
        let ghost rest = marks@;
        headers.append(&mut marks);
        let request = Request {
            method: Method::Post,
            url: self.service_url(service_id),
            username: self.username.clone(),
            password: self.password.clone(),
            headers,
            body: Some(instance_info.clone()),
        };
        proof {
            assert(request@.headers =~= seq![content_type_header()] + replication_headers()) by {
                assert(request.headers@ == first + rest);
                assert(first.map_values(|header: Header| header@) =~= seq![content_type_header()]);
            }
        }
        request
    }

    /// The request that renews the lease of `instance_info` with this node.
    pub fn renew(&self, service_id: &str, instance_info: &InstanceInfo) -> (request: Request)
        ensures
            request@ == renew_request(self@, service_id@, instance_info@.instance_id),
    {
        Request {
            method: Method::Put,
            url: self.instance_url(service_id, instance_info.instance_id.as_str()),
            username: self.username.clone(),
            password: self.password.clone(),
            headers: replication_header_list(),
            body: None,
        }
    }

    /// The request that cancels the lease of an instance with this node.
    pub fn cancel(&self, service_id: &str, instance_id: &str) -> (request: Request)
        ensures
            request@ == cancel_request(self@, service_id@, instance_id@),
    {
        Request {
            method: Method::Delete,
            url: self.instance_url(service_id, instance_id),
            username: self.username.clone(),
            password: self.password.clone(),
            headers: replication_header_list(),
            body: None,
        }
    }

    /// The request that passes `message` on to this node.
    pub fn request(&self, message: &DispatcherMessage) -> (request: Request)
        ensures
            request@ == request_for(self@, message@),
    {
        match message {
            DispatcherMessage::Register(service_id, info) => self.register(service_id.as_str(), info),
            DispatcherMessage::Renew(service_id, info) => self.renew(service_id.as_str(), info),
            DispatcherMessage::Cancel(service_id, instance_id) => self.cancel(
                service_id.as_str(),
                instance_id.as_str(),
            ),
        }
    }

    /// What `outcome` means for the request that passed `message` on to
    /// this node. A renewal that the node answers with "not found" turns
    /// into a registration of the same instance.
    pub fn settle(&self, message: &DispatcherMessage, outcome: Reply) -> (r: Delivery)
        ensures
            r@ == delivery_of(self@, message@, outcome),
    {
        match message {
            DispatcherMessage::Register(_, _) => settle_plain(outcome, NO_CONTENT),
            DispatcherMessage::Renew(service_id, info) => {
                match outcome {
                    Reply::Status(status) => {
                        if status == NOT_FOUND {
                            Delivery::RegisterInstead(self.register(service_id.as_str(), info))
                        } else {
                            settle_plain(outcome, OK)
                        }
                    },
                    Reply::TransportError => settle_plain(outcome, OK),
                }
            },
            DispatcherMessage::Cancel(_, _) => settle_plain(outcome, OK),
        }
    }

    /// What `outcome` means for a registration that took the place of a
    /// renewal.
    pub fn settle_fallback(outcome: Reply) -> (r: Delivery)
        ensures
            r@ == plain_delivery(outcome, NO_CONTENT),
    {
        settle_plain(outcome, NO_CONTENT)
    }
}

/// The replication to the peers of a node.
#[derive(Debug, PartialEq, Eq)]
pub struct Dispatcher {
    nodes: Vec<Node>,
}

impl Dispatcher {
    /// The peers, in the order in which they were configured.
    pub closed spec fn peers(&self) -> Seq<NodeView> {
        self.nodes@.map_values(|node: Node| node@)
    }

    /// The replication to the peers at `nodes_urls`, which ask for the
    /// credentials `auth`.
    pub fn new(nodes_urls: Vec<String>, auth: &AuthInfo) -> (r: Dispatcher)
        ensures
            r.peers().len() == nodes_urls.len(),
            forall|i: int|
                0 <= i < nodes_urls.len() ==> #[trigger] r.peers()[i] == (NodeView {
                    url: nodes_urls[i]@,
                    username: auth@.username,
                    password: auth@.password,
                }),
    {
        let mut nodes: Vec<Node> = Vec::new();
        let mut i: usize = 0;
        while i < nodes_urls.len()
            invariant
                i <= nodes_urls.len(),
                nodes.len() == i,
                forall|k: int|
                    0 <= k < i ==> (#[trigger] nodes[k])@ == (NodeView {
                        url: nodes_urls[k]@,
                        username: auth@.username,
                        password: auth@.password,
                    }),
            decreases nodes_urls.len() - i,
        {
            nodes.push(Node::new(nodes_urls[i].clone(), auth.clone()));
            i = i + 1;
        }
        Dispatcher { nodes }
    }

    /// The number of peers.
    pub fn len(&self) -> (n: usize)
        ensures
            n == self.peers().len(),
    {
        self.nodes.len()
    }

    /// The peer at place `i`.
    pub fn node(&self, i: usize) -> (r: Option<&Node>)
        ensures
            match r {
                Some(node) => i < self.peers().len() && node@ == self.peers()[i as int],
                None => i >= self.peers().len(),
            },
    {
        if i < self.nodes.len() {
            Some(&self.nodes[i])
        } else {
            None
        }
    }

    /// The requests that pass `event` on: one for each peer, in the order
    /// of the peers. Each is marked as passed on by a node.
    pub fn handle(&self, event: &DispatcherMessage) -> (requests: Vec<Request>)
        ensures
            requests.len() == self.peers().len(),
            forall|i: int|
                0 <= i < requests.len() ==> (#[trigger] requests[i])@ == request_for(
                    self.peers()[i],
                    event@,
                ),
    {
        let mut requests: Vec<Request> = Vec::new();
        let mut i: usize = 0;
        while i < self.nodes.len()
            invariant
                i <= self.nodes.len(),
                requests.len() == i,
                forall|k: int|
                    0 <= k < i ==> (#[trigger] requests[k])@ == request_for(self.peers()[k], event@),
            decreases self.nodes.len() - i,
        {
            requests.push(self.nodes[i].request(event));
            i = i + 1;
        }
        requests
    }
}

} // verus!
