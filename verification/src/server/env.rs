//! The settings of a node, as its environment gives them.
//!
//! The caller reads the environment and hands each variable over as it
//! found it: `None` where the variable is not set.

use vstd::prelude::*;
use crate::text::{split, split_on, str_eq, string_views};

verus! {

/// The user name that peers and clients present where none is set.
pub const DEFAULT_USERNAME: &'static str = "admin";

/// The password that peers and clients present where none is set.
pub const DEFAULT_PASSWORD: &'static str = "password";

/// The address that a node binds where none is set.
pub const DEFAULT_HOSTNAME: &'static str = "127.0.0.1:8088";

/// The credentials that every request to a node must carry.
#[derive(Debug, PartialEq, Eq)]
pub struct AuthInfo {
    pub username: String,
    pub password: String,
}

/// What an `AuthInfo` holds, as plain mathematical values.
pub struct AuthInfoView {
    pub username: Seq<char>,
    pub password: Seq<char>,
}

impl View for AuthInfo {
    type V = AuthInfoView;

    open spec fn view(&self) -> AuthInfoView {
        AuthInfoView { username: self.username@, password: self.password@ }
    }
}

impl Clone for AuthInfo {
    fn clone(&self) -> (r: Self)
        ensures
            r@ == self@,
    {
        AuthInfo { username: self.username.clone(), password: self.password.clone() }
    }
}

/// The value of a variable, or `default` where the variable is not set.
pub open spec fn value_or(variable: Option<String>, default: Seq<char>) -> Seq<char> {
    match variable {
        Some(value) => value@,
        None => default,
    }
}

/// The credentials of the cluster: the variables `USERNAME` and `PASSWORD`,
/// each with its default.
pub fn get_auth_info(username: Option<String>, password: Option<String>) -> (r: AuthInfo)
    ensures
        r@.username == value_or(username, DEFAULT_USERNAME@),
        r@.password == value_or(password, DEFAULT_PASSWORD@),
{
    AuthInfo {
        username: match username {
            Some(value) => value,
            None => DEFAULT_USERNAME.to_owned(),
        },
        password: match password {
            Some(value) => value,
            None => DEFAULT_PASSWORD.to_owned(),
        },
    }
}

/// The address that the node binds: the variable `HOSTNAME`, or the
/// default.
pub fn get_hostname(hostname: Option<String>) -> (r: String)
    ensures
        r@ == value_or(hostname, DEFAULT_HOSTNAME@),
{
    match hostname {
        Some(value) => value,
        None => DEFAULT_HOSTNAME.to_owned(),
    }
}

/// The addresses in `nodes` other than `hostname`, in their order.
pub open spec fn peers_among(nodes: Seq<Seq<char>>, hostname: Seq<char>) -> Seq<Seq<char>> {
    nodes.filter(|node: Seq<char>| node != hostname)
}

/// Drops the node's own address from the list of the cluster's nodes.
pub fn exclude_node(nodes: Vec<String>, hostname: &str) -> (peers: Vec<String>)
    ensures
        string_views(peers@) == peers_among(string_views(nodes@), hostname@),
{
    let ghost all = string_views(nodes@);
    let ghost other = |node: Seq<char>| node != hostname@;
    let mut peers: Vec<String> = Vec::new();
    let mut i: usize = 0;
    proof {
        reveal(Seq::filter);
        assert(all.subrange(0, 0).filter(other) =~= string_views(peers@));
    }
    while i < nodes.len()
        invariant
            i <= nodes.len(),
            all == string_views(nodes@),
            other == |node: Seq<char>| node != hostname@,
            string_views(peers@) == all.subrange(0, i as int).filter(other),
        decreases nodes.len() - i,
    {
        let ghost before = string_views(peers@);
        proof {
            reveal(Seq::filter);
            assert(all.subrange(0, i + 1).drop_last() =~= all.subrange(0, i as int));
            assert(all.subrange(0, i + 1).last() == nodes[i as int]@);
        }
        if !str_eq(nodes[i].as_str(), hostname) {
            peers.push(nodes[i].clone());
            assert(string_views(peers@) =~= before.push(nodes[i as int]@));
        }
        i = i + 1;
    }
    assert(all.subrange(0, nodes.len() as int) =~= all);
    peers
}

/// The peers of the node: the addresses that the variable `CLUSTER_NODES`
/// lists between commas, without the node's own. There are none where the
/// variable is not set.
pub fn get_cluster_nodes(cluster_nodes: Option<&str>, hostname: &str) -> (peers: Vec<String>)
    ensures
        string_views(peers@) == match cluster_nodes {
            Some(list) => peers_among(split_on(list@, ','), hostname@),
            None => Seq::<Seq<char>>::empty(),
        },
{
    match cluster_nodes {
        Some(list) => exclude_node(split(list, ','), hostname),
        None => {
            let peers: Vec<String> = Vec::new();
            assert(string_views(peers@) =~= Seq::<Seq<char>>::empty());
            peers
        },
    }
}

} // verus!
