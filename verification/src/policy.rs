//! OpenShell policy blocks: what a sandbox may touch on disk and on the network.

use crate::schema::{opt_view, views};
use crate::text::texts;
use vstd::prelude::*;

verus! {

/// The paths that a sandbox may write and read.
#[derive(Debug, Clone)]
pub struct FilesystemPolicy {
    pub read_write: Option<Vec<String>>,
    pub read_only: Option<Vec<String>>,
}

/// The requests that a rule lets pass; what is not given is not constrained.
#[derive(Debug)]
pub struct L7Allow {
    pub method: Option<String>,
    pub path: Option<String>,
}

/// The requests that a rule refuses; what is not given is not constrained.
#[derive(Debug)]
pub struct L7Deny {
    pub method: Option<String>,
    pub path: Option<String>,
}

/// A rule on the requests to an endpoint.
#[derive(Debug)]
pub struct L7Rule {
    pub allow: Option<L7Allow>,
    pub deny: Option<L7Deny>,
}

/// A host that a sandbox may reach.
#[derive(Debug, Clone)]
pub struct NetworkEndpoint {
    pub host: String,
    pub port: Option<u16>,
    pub protocol: Option<String>,
    pub tls: Option<String>,
    pub enforcement: Option<String>,
    pub access: Option<String>,
    pub rules: Vec<L7Rule>,
}

/// An executable that a network policy applies to.
#[derive(Debug, Clone)]
pub struct Binary {
    pub path: String,
}

/// The hosts that some executables of a sandbox may reach.
#[derive(Debug, Clone)]
pub struct NetworkPolicy {
    pub name: String,
    pub endpoints: Vec<NetworkEndpoint>,
    pub binaries: Vec<Binary>,
}

#[verifier::ext_equal]
pub struct FilesystemView {
    pub read_write: Option<Seq<Seq<char>>>,
    pub read_only: Option<Seq<Seq<char>>>,
}

/// What a rule matches.
#[verifier::ext_equal]
pub struct MatchView {
    pub method: Option<Seq<char>>,
    pub path: Option<Seq<char>>,
}

#[verifier::ext_equal]
pub struct RuleView {
    pub allow: Option<MatchView>,
    pub deny: Option<MatchView>,
}

#[verifier::ext_equal]
pub struct EndpointView {
    pub host: Seq<char>,
    pub port: Option<u16>,
    pub protocol: Option<Seq<char>>,
    pub tls: Option<Seq<char>>,
    pub enforcement: Option<Seq<char>>,
    pub access: Option<Seq<char>>,
    pub rules: Seq<RuleView>,
}

#[verifier::ext_equal]
pub struct NetworkView {
    pub name: Seq<char>,
    pub endpoints: Seq<EndpointView>,
    pub binaries: Seq<Seq<char>>,
}

/// What an optional list of texts holds.
pub open spec fn opt_texts(list: Option<Vec<String>>) -> Option<Seq<Seq<char>>> {
    match list {
        Some(v) => Some(texts(v@)),
        None => None,
    }
}

impl View for FilesystemPolicy {
    type V = FilesystemView;

    open spec fn view(&self) -> FilesystemView {
        FilesystemView {
            read_write: opt_texts(self.read_write),
            read_only: opt_texts(self.read_only),
        }
    }
}

impl View for L7Allow {
    type V = MatchView;

    open spec fn view(&self) -> MatchView {
        MatchView { method: opt_view(self.method), path: opt_view(self.path) }
    }
}

impl View for L7Deny {
    type V = MatchView;

    open spec fn view(&self) -> MatchView {
        MatchView { method: opt_view(self.method), path: opt_view(self.path) }
    }
}

impl View for L7Rule {
    type V = RuleView;

    open spec fn view(&self) -> RuleView {
        RuleView { allow: opt_view(self.allow), deny: opt_view(self.deny) }
    }
}

impl View for NetworkEndpoint {
    type V = EndpointView;

    open spec fn view(&self) -> EndpointView {
        EndpointView {
            host: self.host@,
            port: self.port,
            protocol: opt_view(self.protocol),
            tls: opt_view(self.tls),
            enforcement: opt_view(self.enforcement),
            access: opt_view(self.access),
            rules: views(self.rules@),
        }
    }
}

impl View for Binary {
    type V = Seq<char>;

    open spec fn view(&self) -> Seq<char> {
        self.path@
    }
}

impl View for NetworkPolicy {
    type V = NetworkView;

    open spec fn view(&self) -> NetworkView {
        NetworkView {
            name: self.name@,
            endpoints: views(self.endpoints@),
            binaries: views(self.binaries@),
        }
    }
}

/// Copies an optional text.
pub fn copy_opt(s: &Option<String>) -> (r: Option<String>)
    ensures
        r == *s,
{
    match s {
        Some(t) => Some(t.clone()),
        None => None,
    }
}

impl Clone for L7Allow {
    fn clone(&self) -> (r: L7Allow)
        ensures
            r == *self,
    {
        L7Allow { method: copy_opt(&self.method), path: copy_opt(&self.path) }
    }
}

impl Clone for L7Deny {
    fn clone(&self) -> (r: L7Deny)
        ensures
            r == *self,
    {
        L7Deny { method: copy_opt(&self.method), path: copy_opt(&self.path) }
    }
}

impl Clone for L7Rule {
    fn clone(&self) -> (r: L7Rule)
        ensures
            r == *self,
    {
        L7Rule {
            allow: match &self.allow {
                Some(a) => Some(a.clone()),
                None => None,
            },
            deny: match &self.deny {
                Some(d) => Some(d.clone()),
                None => None,
            },
        }
    }
}

/// Copies a list of rules.
pub fn copy_rules(rules: &Vec<L7Rule>) -> (r: Vec<L7Rule>)
    ensures
        r@ == rules@,
{
    let mut out: Vec<L7Rule> = Vec::new();
    for i in 0..rules.len()
        invariant
            out@ == rules@.take(i as int),
    {
        out.push(rules[i].clone());
    }
    out
}

} // verus!
