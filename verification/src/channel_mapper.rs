//! Channel to policy mapper: compiles Fractal's typed channel declarations into OpenShell policy
//! blocks.
//!
//! Fractal channels declare what a cell can do (read files, HTTP GET, git commit). OpenShell policies
//! enforce how those capabilities are constrained at the sandbox boundary (filesystem, network,
//! process layers).
//!
//! Keeper channels (those where Fractal adds semantic scoping beyond what the platform natively
//! provides) are mapped. Channels that duplicate platform RBAC (postgres roles, stripe restricted
//! keys, AWS IAM) are deliberately skipped.

use crate::json::{items_view, lemma_items_view, Json, JsonView};
use crate::outside::{
    alphanumeric, debug_texts, host_view, is_alphanumeric, parse_url_host, shown_list, to_upper,
    upper, url_host,
};
use crate::policy::{
    copy_opt, copy_rules, Binary, EndpointView, FilesystemPolicy, FilesystemView, L7Allow, L7Rule,
    MatchView, NetworkEndpoint, NetworkPolicy, NetworkView, RuleView,
};
use crate::schema::{opt_view, views, ChannelView, TypedChannelConfig};
use crate::text::{
    after_last, before_first, contains, has_part, holds_char, precedes, replace, replaced, same_text,
    starts_with, strings, text_after_last, text_before_first, texts,
};
use vstd::prelude::*;

verus! {

/// The result of mapping a single channel to policy blocks.
#[derive(Debug, Clone)]
pub enum MappingResult {
    Mapped(MappedChannel),
    Skipped(SkippedChannel),
}

/// The policy blocks of a channel. The network policies are listed in the order of their keys, each of
/// which occurs once.
#[derive(Debug, Clone)]
pub struct MappedChannel {
    pub channel_name: String,
    pub filesystem: Option<FilesystemPolicy>,
    pub network_policies: Vec<(String, NetworkPolicy)>,
    pub anomalies: Vec<String>,
}

#[derive(Debug, Clone)]
pub struct SkippedChannel {
    pub channel_name: String,
    pub kind: String,
    pub reason: String,
}

#[verifier::ext_equal]
pub struct MappedView {
    pub channel_name: Seq<char>,
    pub filesystem: Option<FilesystemView>,
    pub network_policies: Seq<(Seq<char>, NetworkView)>,
    pub anomalies: Seq<Seq<char>>,
}

#[verifier::ext_equal]
pub struct SkippedView {
    pub channel_name: Seq<char>,
    pub kind: Seq<char>,
    pub reason: Seq<char>,
}

#[verifier::ext_equal]
pub enum MappingView {
    Mapped(MappedView),
    Skipped(SkippedView),
}

/// What the network policies of a channel stand for.
pub open spec fn policies_view(list: Seq<(String, NetworkPolicy)>) -> Seq<(Seq<char>, NetworkView)> {
    list.map_values(|e: (String, NetworkPolicy)| (e.0@, e.1@))
}

/// Tells whether network policies are listed in the order of their keys, each of which occurs once.
pub open spec fn keyed(list: Seq<(Seq<char>, NetworkView)>) -> bool {
    forall|i: int, j: int|
        0 <= i < j < list.len() ==> precedes((#[trigger] list[i]).0, (#[trigger] list[j]).0)
}

impl View for MappedChannel {
    type V = MappedView;

    open spec fn view(&self) -> MappedView {
        MappedView {
            channel_name: self.channel_name@,
            filesystem: opt_view(self.filesystem),
            network_policies: policies_view(self.network_policies@),
            anomalies: texts(self.anomalies@),
        }
    }
}

impl View for SkippedChannel {
    type V = SkippedView;

    open spec fn view(&self) -> SkippedView {
        SkippedView { channel_name: self.channel_name@, kind: self.kind@, reason: self.reason@ }
    }
}

impl View for MappingResult {
    type V = MappingView;

    open spec fn view(&self) -> MappingView {
        match self {
            MappingResult::Mapped(m) => MappingView::Mapped(m@),
            MappingResult::Skipped(s) => MappingView::Skipped(s@),
        }
    }
}

/// The path of Node.js in sandbox images.
pub open spec fn node_binary() -> Seq<char> {
    "/usr/local/bin/node"@
}

// What a scope holds.

/// The texts in the array under `key`; none where there is no array.
pub open spec fn scope_texts(scope: JsonView, key: Seq<char>) -> Seq<Seq<char>> {
    match scope.field(key) {
        Some(JsonView::Array(items)) => items.filter_map(|v: JsonView| v.text()),
        _ => Seq::empty(),
    }
}

/// The texts in the array under `key`.
pub fn str_arr(scope: &Json, key: &str) -> (r: Vec<String>)
    ensures
        texts(r@) == scope_texts(scope@, key@),
{
    let mut out: Vec<String> = Vec::new();
    match scope.get(key) {
        Some(value) => match value.as_array() {
            Some(items) => {
                let ghost all = items_view(items@);
                let ghost pick = |v: JsonView| v.text();
                proof {
                    lemma_items_view(items@);
                    assert(all.take(0).filter_map(pick) == Seq::<Seq<char>>::empty()) by {
                        reveal(Seq::filter_map);
                    }
                }
                for i in 0..items.len()
                    invariant
                        all == items_view(items@),
                        all.len() == items@.len(),
                        forall|k: int| 0 <= k < items@.len() ==> #[trigger] all[k] == items@[k]@,
                        pick == (|v: JsonView| v.text()),
                        texts(out@) == all.take(i as int).filter_map(pick),
                {
                    proof {
                        all.lemma_filter_map_take_succ(pick, i as int);
                        assert(pick(all[i as int]) == items@[i as int]@.text());
                    }
                    let ghost before = out@;
                    if let Some(s) = items[i].as_str() {
                        out.push(s.to_owned());
                        assert(texts(out@) == texts(before).push(s@));
                        assert(texts(before) + seq![s@] == texts(before).push(s@));
                    } else {
                        assert(texts(before) + Seq::<Seq<char>>::empty() == texts(before));
                    }
                }
                assert(all.take(items@.len() as int) == all);
            },
            None => {},
        },
        None => {},
    }
    out
}

/// The executables that the scope declares, or else `fallback`.
pub open spec fn binary_paths(scope: JsonView, fallback: Seq<Seq<char>>) -> Seq<Seq<char>> {
    let declared = scope_texts(scope, "binaries"@);
    if declared.len() == 0 {
        fallback
    } else {
        declared
    }
}

/// The executables that the scope declares, or else `fallback`.
fn binaries_from_scope(scope: &Json, fallback: Vec<String>) -> (r: Vec<Binary>)
    ensures
        views(r@) == binary_paths(scope@, texts(fallback@)),
{
    let declared = str_arr(scope, "binaries");
    let ghost wanted = binary_paths(scope@, texts(fallback@));
    let paths = if declared.len() == 0 {
        fallback
    } else {
        declared
    };
    let mut out: Vec<Binary> = Vec::new();
    for i in 0..paths.len()
        invariant
            wanted == texts(paths@),
            views(out@) == wanted.take(i as int),
    {
        let binary = Binary { path: paths[i].clone() };
        proof {
            assert(views(out@.push(binary)) == views(out@).push(binary@));
        }
        out.push(binary);
    }
    assert(wanted.take(paths@.len() as int) == wanted);
    out
}

/// A channel name with every character but letters, digits, `-` and `_` replaced by `_`.
pub open spec fn sanitized(name: Seq<char>) -> Seq<char> {
    name.map_values(
        |c: char|
            if alphanumeric(c) || c == '-' || c == '_' {
                c
            } else {
                '_'
            },
    )
}

/// A channel name with every character but letters, digits, `-` and `_` replaced by `_`.
pub fn sanitize_name(name: &str) -> (r: String)
    ensures
        r@ == sanitized(name@),
{
    let mut out = String::new();
    for c in it: name.chars()
        invariant
            it.seq() == name@,
            out@ == sanitized(name@).take(it.index() as int),
    {
        if is_alphanumeric(c) || c == '-' || c == '_' {
            out.push(c);
        } else {
            out.push('_');
        }
    }
    out
}

/// A path with `${input.repoPath}` resolved to `/sandbox`, the default working directory of a sandbox.
/// Other variables are preserved.
pub open spec fn resolved(path: Seq<char>) -> Seq<char> {
    replaced(path, "${input.repoPath}"@, "/sandbox"@)
}

/// Resolves the template variables of a path.
pub fn resolve_path(path: &str) -> (r: String)
    ensures
        r@ == resolved(path@),
{
    proof {
        reveal_strlit("${input.repoPath}");
    }
    replace(path, "${input.repoPath}", "/sandbox")
}

// Skipped channels.

/// A channel that is skipped.
pub open spec fn skipped(channel: ChannelView, kind: Seq<char>, reason: Seq<char>) -> MappingView {
    MappingView::Skipped(SkippedView { channel_name: channel.name, kind, reason })
}

fn skip(channel: &TypedChannelConfig, kind: &str, reason: String) -> (r: MappingResult)
    ensures
        r@ == skipped(channel@, kind@, reason@),
{
    MappingResult::Skipped(
        SkippedChannel { channel_name: channel.name.clone(), kind: kind.to_owned(), reason },
    )
}

// File channels.

/// The paths that every sandbox may write.
pub open spec fn default_writable() -> Seq<Seq<char>> {
    seq!["/sandbox"@, "/tmp"@, "/dev/null"@]
}

/// The paths that every sandbox may read.
pub open spec fn default_readable() -> Seq<Seq<char>> {
    seq![
        "/usr"@,
        "/lib"@,
        "/dev/urandom"@,
        "/proc"@,
        "/app"@,
        "/etc"@,
        "/var/log"@,
    ]
}

/// The mapping of a file channel: the allowed paths, resolved, join the paths that every sandbox may
/// write. Protected paths cannot be expressed, which is an anomaly.
pub open spec fn file_mapping(channel: ChannelView) -> MappingView {
    let allowed = scope_texts(channel.scope, "allowedPaths"@);
    MappingView::Mapped(
        MappedView {
            channel_name: channel.name,
            filesystem: Some(
                FilesystemView {
                    read_write: Some(
                        default_writable() + allowed.map_values(|p: Seq<char>| resolved(p)),
                    ),
                    read_only: Some(default_readable()),
                },
            ),
            network_policies: Seq::empty(),
            anomalies: if scope_texts(channel.scope, "protectedPaths"@).len() == 0 {
                Seq::empty()
            } else {
                seq![
                    "file channel '"@ + channel.name
                        + "': protectedPaths cannot be expressed as deny-list in OpenShell filesystem_policy. Ensure these paths are NOT granted write access elsewhere."@,
                ]
            },
        },
    )
}

fn map_file_channel(channel: &TypedChannelConfig) -> (r: MappingResult)
    ensures
        r@ == file_mapping(channel@),
{
    let allowed = str_arr(&channel.scope, "allowedPaths");
    let protected = str_arr(&channel.scope, "protectedPaths");
    let mut anomalies: Vec<String> = Vec::new();
    if protected.len() > 0 {
        let mut anomaly = "file channel '".to_owned();
        anomaly.append(channel.name.as_str());
        anomaly.append(
            "': protectedPaths cannot be expressed as deny-list in OpenShell filesystem_policy. Ensure these paths are NOT granted write access elsewhere.",
        );
        anomalies.push(anomaly);
    }
    let mut writable = strings(&["/sandbox", "/tmp", "/dev/null"]);
    let ghost paths = scope_texts(channel@.scope, "allowedPaths"@);
    assert(texts(writable@) == default_writable());
    for i in 0..allowed.len()
        invariant
            paths == texts(allowed@),
            texts(writable@) == default_writable() + paths.take(i as int).map_values(
                |p: Seq<char>| resolved(p),
            ),
    {
        let path = resolve_path(allowed[i].as_str());
        assert(texts(writable@.push(path)) == texts(writable@).push(path@));
        assert(paths.take(i + 1).map_values(|p: Seq<char>| resolved(p)) == paths.take(
            i as int,
        ).map_values(|p: Seq<char>| resolved(p)).push(path@));
        writable.push(path);
    }
    assert(paths.take(allowed@.len() as int) == paths);
    let readable = strings(
        &["/usr", "/lib", "/dev/urandom", "/proc", "/app", "/etc", "/var/log"],
    );
    assert(texts(readable@) == default_readable());
    MappingResult::Mapped(
        MappedChannel {
            channel_name: channel.name.clone(),
            filesystem: Some(
                FilesystemPolicy { read_write: Some(writable), read_only: Some(readable) },
            ),
            network_policies: Vec::new(),
            anomalies,
        },
    )
}

// Network channels.

/// A rule that lets requests pass.
pub open spec fn allow_rule(method: Seq<char>, path: Option<Seq<char>>) -> RuleView {
    RuleView { allow: Some(MatchView { method: Some(method), path }), deny: None }
}

fn allow(method: String, path: Option<String>) -> (r: L7Rule)
    ensures
        r@ == allow_rule(method@, opt_view(path)),
{
    L7Rule { allow: Some(L7Allow { method: Some(method), path }), deny: None }
}

/// An endpoint: the host on port 443, with TLS terminated and the rules enforced.
pub open spec fn endpoint(
    host: Seq<char>,
    access: Option<Seq<char>>,
    rules: Seq<RuleView>,
) -> EndpointView {
    EndpointView {
        host,
        port: Some(443),
        protocol: Some("rest"@),
        tls: Some("terminate"@),
        enforcement: Some("enforce"@),
        access,
        rules,
    }
}

/// One endpoint for each host.
pub open spec fn endpoints(
    hosts: Seq<Seq<char>>,
    access: Option<Seq<char>>,
    rules: Seq<RuleView>,
) -> Seq<EndpointView> {
    hosts.map_values(|host: Seq<char>| endpoint(host, access, rules))
}

fn make_endpoint(host: String, access: Option<String>, rules: Vec<L7Rule>) -> (r: NetworkEndpoint)
    ensures
        r@ == endpoint(host@, opt_view(access), views(rules@)),
{
    NetworkEndpoint {
        host,
        port: Some(443),
        protocol: Some("rest".to_owned()),
        tls: Some("terminate".to_owned()),
        enforcement: Some("enforce".to_owned()),
        access,
        rules,
    }
}

fn make_endpoints(hosts: &Vec<String>, access: &Option<String>, rules: &Vec<L7Rule>) -> (r: Vec<
    NetworkEndpoint,
>)
    ensures
        views(r@) == endpoints(texts(hosts@), opt_view(*access), views(rules@)),
{
    let mut out: Vec<NetworkEndpoint> = Vec::new();
    let ghost all = endpoints(texts(hosts@), opt_view(*access), views(rules@));
    for i in 0..hosts.len()
        invariant
            all == endpoints(texts(hosts@), opt_view(*access), views(rules@)),
            views(out@) == all.take(i as int),
    {
        let one = make_endpoint(hosts[i].clone(), copy_opt(access), copy_rules(rules));
        assert(views(out@.push(one)) == views(out@).push(one@));
        out.push(one);
    }
    assert(all.take(hosts@.len() as int) == all);
    out
}

/// A channel that is mapped to one network policy. The policy is named after the kind and the
/// channel; its key has the name of the channel sanitized.
pub open spec fn network_mapping(
    channel: ChannelView,
    kind: Seq<char>,
    endpoints: Seq<EndpointView>,
    fallback: Seq<Seq<char>>,
    anomalies: Seq<Seq<char>>,
) -> MappingView {
    MappingView::Mapped(
        MappedView {
            channel_name: channel.name,
            filesystem: None,
            network_policies: seq![
                (
                    "fractal_"@ + kind + "_"@ + sanitized(channel.name),
                    NetworkView {
                        name: "fractal_"@ + kind + "_"@ + channel.name,
                        endpoints,
                        binaries: binary_paths(channel.scope, fallback),
                    },
                ),
            ],
            anomalies,
        },
    )
}

fn policy_name(kind: &str, name: &str) -> (r: String)
    ensures
        r@ == "fractal_"@ + kind@ + "_"@ + name@,
{
    let mut out = "fractal_".to_owned();
    out.append(kind);
    out.append("_");
    out.append(name);
    out
}

fn map_network(
    channel: &TypedChannelConfig,
    kind: &str,
    endpoints: Vec<NetworkEndpoint>,
    fallback: Vec<String>,
    anomalies: Vec<String>,
) -> (r: MappingResult)
    ensures
        r@ == network_mapping(
            channel@,
            kind@,
            views(endpoints@),
            texts(fallback@),
            texts(anomalies@),
        ),
{
    let key = policy_name(kind, sanitize_name(channel.name.as_str()).as_str());
    let policy = NetworkPolicy {
        name: policy_name(kind, channel.name.as_str()),
        endpoints,
        binaries: binaries_from_scope(&channel.scope, fallback),
    };
    let mut network_policies: Vec<(String, NetworkPolicy)> = Vec::new();
    network_policies.push((key, policy));
    MappingResult::Mapped(
        MappedChannel {
            channel_name: channel.name.clone(),
            filesystem: None,
            network_policies,
            anomalies,
        },
    )
}

// HTTP channels.

/// The mapping of an HTTP channel whose methods are given in upper case: every allowed host gets one
/// rule for each method.
pub open spec fn http_mapping(channel: ChannelView, methods: Seq<Seq<char>>) -> MappingView {
    let hosts = scope_texts(channel.scope, "allowedHosts"@);
    if hosts.len() == 0 {
        skipped(channel, "http"@, "no allowedHosts configured"@)
    } else {
        network_mapping(
            channel,
            "http"@,
            endpoints(hosts, None, methods.map_values(|m: Seq<char>| allow_rule(m, None))),
            seq![node_binary()],
            Seq::empty(),
        )
    }
}

/// The allowed methods of an HTTP channel, in upper case.
pub open spec fn http_methods(channel: ChannelView) -> Seq<Seq<char>> {
    scope_texts(channel.scope, "allowedMethods"@).map_values(|m: Seq<char>| upper(m))
}

/// Maps an HTTP channel whose methods are given in upper case.
pub fn map_http_methods(channel: &TypedChannelConfig, methods: &Vec<String>) -> (r: MappingResult)
    ensures
        r@ == http_mapping(channel@, texts(methods@)),
{
    let hosts = str_arr(&channel.scope, "allowedHosts");
    if hosts.len() == 0 {
        return skip(channel, "http", "no allowedHosts configured".to_owned());
    }
    let mut rules: Vec<L7Rule> = Vec::new();
    let ghost all = texts(methods@).map_values(|m: Seq<char>| allow_rule(m, None));
    for i in 0..methods.len()
        invariant
            all == texts(methods@).map_values(|m: Seq<char>| allow_rule(m, None)),
            views(rules@) == all.take(i as int),
    {
        let rule = allow(methods[i].clone(), None);
        assert(views(rules@.push(rule)) == views(rules@).push(rule@));
        rules.push(rule);
    }
    assert(all.take(methods@.len() as int) == all);
    let fallback = strings(&["/usr/local/bin/node"]);
    assert(texts(fallback@) == seq![node_binary()]);
    map_network(
        channel,
        "http",
        make_endpoints(&hosts, &None, &rules),
        fallback,
        Vec::new(),
    )
}

fn map_http_channel(channel: &TypedChannelConfig) -> (r: MappingResult)
    ensures
        r@ == http_mapping(channel@, http_methods(channel@)),
{
    let allowed = str_arr(&channel.scope, "allowedMethods");
    let mut methods: Vec<String> = Vec::new();
    let ghost all = http_methods(channel@);
    for i in 0..allowed.len()
        invariant
            texts(allowed@) == scope_texts(channel@.scope, "allowedMethods"@),
            all == http_methods(channel@),
            texts(methods@) == all.take(i as int),
    {
        let method = to_upper(allowed[i].as_str());
        assert(all[i as int] == upper(texts(allowed@)[i as int]));
        assert(texts(methods@.push(method)) == texts(methods@).push(method@));
        methods.push(method);
    }
    assert(all.take(allowed@.len() as int) == all);
    map_http_methods(channel, &methods)
}

// LLM channels.

/// The default API host of an LLM provider.
pub open spec fn llm_host(kind: Seq<char>) -> Option<Seq<char>> {
    if kind == "anthropic"@ {
        Some("api.anthropic.com"@)
    } else if kind == "openai"@ {
        Some("api.openai.com"@)
    } else if kind == "google-genai"@ {
        Some("generativelanguage.googleapis.com"@)
    } else if kind == "cohere"@ {
        Some("api.cohere.com"@)
    } else if kind == "mistral"@ {
        Some("api.mistral.ai"@)
    } else {
        None
    }
}

/// The default API host of an LLM provider.
fn default_llm_host(kind: &str) -> (r: Option<String>)
    ensures
        opt_view(r) == llm_host(kind@),
{
    if same_text(kind, "anthropic") {
        Some("api.anthropic.com".to_owned())
    } else if same_text(kind, "openai") {
        Some("api.openai.com".to_owned())
    } else if same_text(kind, "google-genai") {
        Some("generativelanguage.googleapis.com".to_owned())
    } else if same_text(kind, "cohere") {
        Some("api.cohere.com".to_owned())
    } else if same_text(kind, "mistral") {
        Some("api.mistral.ai".to_owned())
    } else {
        None
    }
}

/// The mapping of an LLM channel for the given host: requests by POST to the API. Limits on models,
/// tokens and rates are enforced by Fractal, which is an anomaly.
pub open spec fn llm_mapping(
    channel: ChannelView,
    kind: Seq<char>,
    host: Option<Seq<char>>,
) -> MappingView {
    match host {
        None => skipped(channel, kind, "no host resolvable from baseUrl or defaults"@),
        Some(h) => network_mapping(
            channel,
            kind,
            seq![endpoint(h, None, seq![allow_rule("POST"@, Some("/v1/**"@))])],
            seq![node_binary()],
            seq![
                kind + " channel '"@ + channel.name
                    + "': allowedModels/maxTokensPerCall/rate limits are Fractal-enforced (app-semantic); OpenShell network policy only constrains host+method."@,
            ],
        ),
    }
}

/// The host of an LLM channel: that of `baseUrl` where it has one, and else the default of the
/// provider.
pub open spec fn llm_channel_host(channel: ChannelView, kind: Seq<char>) -> Option<Seq<char>> {
    match channel.scope.text_field("baseUrl"@) {
        Some(url) => match url_text_host(url) {
            Some(host) => Some(host),
            None => llm_host(kind),
        },
        None => llm_host(kind),
    }
}

/// Maps an LLM channel for the given host.
pub fn map_llm_host(channel: &TypedChannelConfig, kind: &str, host: Option<String>) -> (r:
    MappingResult)
    ensures
        r@ == llm_mapping(channel@, kind@, opt_view(host)),
{
    match host {
        None => skip(channel, kind, "no host resolvable from baseUrl or defaults".to_owned()),
        Some(h) => {
            let mut rules: Vec<L7Rule> = Vec::new();
            rules.push(allow("POST".to_owned(), Some("/v1/**".to_owned())));
            assert(views(rules@) == seq![allow_rule("POST"@, Some("/v1/**"@))]);
            let mut list: Vec<NetworkEndpoint> = Vec::new();
            list.push(make_endpoint(h, None, rules));
            assert(views(list@) == seq![list@[0]@]);
            let fallback = strings(&["/usr/local/bin/node"]);
            assert(texts(fallback@) == seq![node_binary()]);
            let mut anomaly = kind.to_owned();
            anomaly.append(" channel '");
            anomaly.append(channel.name.as_str());
            anomaly.append(
                "': allowedModels/maxTokensPerCall/rate limits are Fractal-enforced (app-semantic); OpenShell network policy only constrains host+method.",
            );
            let mut anomalies: Vec<String> = Vec::new();
            anomalies.push(anomaly);
            assert(texts(anomalies@) == seq![anomaly@]);
            map_network(channel, kind, list, fallback, anomalies)
        },
    }
}

fn map_llm_channel(channel: &TypedChannelConfig, kind: &str) -> (r: MappingResult)
    ensures
        r@ == llm_mapping(channel@, kind@, llm_channel_host(channel@, kind@)),
{
    let from_url = match channel.scope.get_str("baseUrl") {
        Some(url) => host_from_url(url),
        None => None,
    };
    let host = match from_url {
        Some(h) => Some(h),
        None => default_llm_host(kind),
    };
    map_llm_host(channel, kind, host)
}

// Hosts.

/// The host of a URL.
pub open spec fn url_text_host(url: Seq<char>) -> Option<Seq<char>> {
    match url_host(url) {
        Some(host) => host,
        None => None,
    }
}

/// The host of a remote of the form `[user@]host:path`.
pub open spec fn scp_host(remote: Seq<char>) -> Seq<char> {
    before_first(after_last(remote, '@'), ':')
}

/// Tells whether a remote that reads as a URL without a host is of the form `[user@]host:path` after
/// all: a `:` stands behind the user, and it is not that of a `://`.
pub open spec fn names_scp_host(remote: Seq<char>) -> bool {
    after_last(remote, '@').contains(':') && !has_part(remote, "://"@)
}

/// The host of a git remote, given the host that it has as a URL. A remote `host:path` reads as a URL
/// without a host, whose scheme is the host.
pub open spec fn remote_host_of(
    remote: Seq<char>,
    parsed: Option<Option<Seq<char>>>,
) -> Option<Seq<char>> {
    match parsed {
        Some(Some(host)) => Some(host),
        Some(None) => if names_scp_host(remote) {
            Some(scp_host(remote))
        } else {
            None
        },
        None => Some(scp_host(remote)),
    }
}

/// The host of a git remote: that of a URL, or of the form `[user@]host:path`.
pub open spec fn remote_host(remote: Seq<char>) -> Option<Seq<char>> {
    remote_host_of(remote, url_host(remote))
}

/// The host of a package registry, which is a URL or a URL without its scheme.
pub open spec fn registry_host(registry: Seq<char>) -> Option<Seq<char>> {
    if "http"@.is_prefix_of(registry) {
        url_text_host(registry)
    } else {
        url_text_host("https://"@ + registry)
    }
}

/// The host of a URL.
pub fn host_from_url(url: &str) -> (r: Option<String>)
    ensures
        opt_view(r) == url_text_host(url@),
{
    match parse_url_host(url) {
        Some(host) => host,
        None => None,
    }
}

fn host_from_scp(remote: &str) -> (r: String)
    ensures
        r@ == scp_host(remote@),
{
    let tail = text_after_last(remote, '@');
    text_before_first(tail.as_str(), ':')
}

fn has_scp_host(remote: &str) -> (r: bool)
    ensures
        r == names_scp_host(remote@),
{
    let tail = text_after_last(remote, '@');
    holds_char(tail.as_str(), ':') && !contains(remote, "://")
}

/// The host of a git remote for which `parsed` is what it gives as a URL.
pub fn remote_host_after(remote: &str, parsed: Option<Option<String>>) -> (r: Option<String>)
    ensures
        opt_view(r) == remote_host_of(remote@, host_view(parsed)),
{
    match parsed {
        Some(Some(host)) => Some(host),
        Some(None) => if has_scp_host(remote) {
            Some(host_from_scp(remote))
        } else {
            None
        },
        None => Some(host_from_scp(remote)),
    }
}

/// The host of a git remote.
pub fn host_from_remote(remote: &str) -> (r: Option<String>)
    ensures
        opt_view(r) == remote_host(remote@),
{
    remote_host_after(remote, parse_url_host(remote))
}

/// The URL of a package registry.
pub fn registry_url(registry: &str) -> (r: String)
    ensures
        "http"@.is_prefix_of(registry@) ==> r@ == registry@,
        !"http"@.is_prefix_of(registry@) ==> r@ == "https://"@ + registry@,
{
    if starts_with(registry, "http") {
        registry.to_owned()
    } else {
        let mut url = "https://".to_owned();
        url.append(registry);
        url
    }
}

/// The host of a package registry.
pub fn host_from_registry(registry: &str) -> (r: Option<String>)
    ensures
        opt_view(r) == registry_host(registry@),
{
    host_from_url(registry_url(registry).as_str())
}

// Git channels.

/// The mapping of a git channel for the given hosts, which may be read and written. That a push can
/// carry data out is an anomaly.
pub open spec fn git_mapping(channel: ChannelView, hosts: Seq<Seq<char>>) -> MappingView {
    if hosts.len() == 0 {
        skipped(channel, "git"@, "no allowRemotes hosts resolvable"@)
    } else {
        network_mapping(
            channel,
            "git"@,
            endpoints(hosts, Some("read-write"@), Seq::empty()),
            seq!["/usr/bin/git"@, "/usr/local/bin/git"@, node_binary()],
            seq![
                "git channel '"@ + channel.name
                    + "': git can exfiltrate via commit+push. Review allowRemotes carefully."@,
            ],
        )
    }
}

/// The hosts of the allowed remotes that have one.
pub open spec fn git_hosts(channel: ChannelView) -> Seq<Seq<char>> {
    scope_texts(channel.scope, "allowRemotes"@).filter_map(|r: Seq<char>| remote_host(r))
}

/// Maps a git channel for the given hosts.
pub fn map_git_hosts(channel: &TypedChannelConfig, hosts: &Vec<String>) -> (r: MappingResult)
    ensures
        r@ == git_mapping(channel@, texts(hosts@)),
{
    if hosts.len() == 0 {
        return skip(channel, "git", "no allowRemotes hosts resolvable".to_owned());
    }
    let rules: Vec<L7Rule> = Vec::new();
    assert(views(rules@) == Seq::<RuleView>::empty());
    let list = make_endpoints(hosts, &Some("read-write".to_owned()), &rules);
    let fallback = strings(&["/usr/bin/git", "/usr/local/bin/git", "/usr/local/bin/node"]);
    assert(texts(fallback@) == seq!["/usr/bin/git"@, "/usr/local/bin/git"@, node_binary()]);
    let mut anomaly = "git channel '".to_owned();
    anomaly.append(channel.name.as_str());
    anomaly.append("': git can exfiltrate via commit+push. Review allowRemotes carefully.");
    let mut anomalies: Vec<String> = Vec::new();
    anomalies.push(anomaly);
    assert(texts(anomalies@) == seq![anomaly@]);
    map_network(channel, "git", list, fallback, anomalies)
}

fn map_git_channel(channel: &TypedChannelConfig) -> (r: MappingResult)
    ensures
        r@ == git_mapping(channel@, git_hosts(channel@)),
{
    let remotes = str_arr(&channel.scope, "allowRemotes");
    let mut hosts: Vec<String> = Vec::new();
    let ghost all = texts(remotes@);
    let ghost pick = |r: Seq<char>| remote_host(r);
    proof {
        assert(all.take(0).filter_map(pick) == Seq::<Seq<char>>::empty()) by {
            reveal(Seq::filter_map);
        }
    }
    for i in 0..remotes.len()
        invariant
            all == texts(remotes@),
            pick == (|r: Seq<char>| remote_host(r)),
            texts(hosts@) == all.take(i as int).filter_map(pick),
    {
        proof {
            all.lemma_filter_map_take_succ(pick, i as int);
            assert(pick(all[i as int]) == remote_host(remotes@[i as int]@));
        }
        let ghost before = hosts@;
        if let Some(h) = host_from_remote(remotes[i].as_str()) {
            hosts.push(h);
            assert(texts(hosts@) == texts(before).push(h@));
            assert(texts(before) + seq![h@] == texts(before).push(h@));
        } else {
            assert(texts(before) + Seq::<Seq<char>>::empty() == texts(before));
        }
    }
    assert(all.take(remotes@.len() as int) == all);
    map_git_hosts(channel, &hosts)
}

// Package channels.

/// The executables that install packages.
pub open spec fn package_binaries() -> Seq<Seq<char>> {
    seq![
        node_binary(),
        "/usr/bin/npm"@,
        "/usr/bin/pnpm"@,
        "/usr/bin/yarn"@,
        "/usr/bin/pip3"@,
        "/usr/bin/uv"@,
    ]
}

/// The mapping of a package channel for the given hosts, which may be read and written. Lockfiles and
/// package lists are enforced by Fractal, which is an anomaly.
pub open spec fn package_mapping(channel: ChannelView, hosts: Seq<Seq<char>>) -> MappingView {
    if hosts.len() == 0 {
        skipped(channel, "package"@, "no allowedRegistries hosts resolvable"@)
    } else {
        network_mapping(
            channel,
            "package"@,
            endpoints(hosts, Some("read-write"@), Seq::empty()),
            package_binaries(),
            seq![
                "package channel '"@ + channel.name
                    + "': lockfileEnforced/allowedPackages are Fractal-enforced (app-semantic); OpenShell network policy only constrains the registry host."@,
            ],
        )
    }
}

/// The hosts of the allowed registries that have one.
pub open spec fn package_hosts(channel: ChannelView) -> Seq<Seq<char>> {
    scope_texts(channel.scope, "allowedRegistries"@).filter_map(|r: Seq<char>| registry_host(r))
}

/// Maps a package channel for the given hosts.
pub fn map_package_hosts(channel: &TypedChannelConfig, hosts: &Vec<String>) -> (r: MappingResult)
    ensures
        r@ == package_mapping(channel@, texts(hosts@)),
{
    if hosts.len() == 0 {
        return skip(channel, "package", "no allowedRegistries hosts resolvable".to_owned());
    }
    let rules: Vec<L7Rule> = Vec::new();
    assert(views(rules@) == Seq::<RuleView>::empty());
    let list = make_endpoints(hosts, &Some("read-write".to_owned()), &rules);
    let fallback = strings(
        &[
            "/usr/local/bin/node",
            "/usr/bin/npm",
            "/usr/bin/pnpm",
            "/usr/bin/yarn",
            "/usr/bin/pip3",
            "/usr/bin/uv",
        ],
    );
    assert(texts(fallback@) == package_binaries());
    let mut anomaly = "package channel '".to_owned();
    anomaly.append(channel.name.as_str());
    anomaly.append(
        "': lockfileEnforced/allowedPackages are Fractal-enforced (app-semantic); OpenShell network policy only constrains the registry host.",
    );
    let mut anomalies: Vec<String> = Vec::new();
    anomalies.push(anomaly);
    assert(texts(anomalies@) == seq![anomaly@]);
    map_network(channel, "package", list, fallback, anomalies)
}

fn map_package_channel(channel: &TypedChannelConfig) -> (r: MappingResult)
    ensures
        r@ == package_mapping(channel@, package_hosts(channel@)),
{
    let registries = str_arr(&channel.scope, "allowedRegistries");
    let mut hosts: Vec<String> = Vec::new();
    let ghost all = texts(registries@);
    let ghost pick = |r: Seq<char>| registry_host(r);
    proof {
        assert(all.take(0).filter_map(pick) == Seq::<Seq<char>>::empty()) by {
            reveal(Seq::filter_map);
        }
    }
    for i in 0..registries.len()
        invariant
            all == texts(registries@),
            pick == (|r: Seq<char>| registry_host(r)),
            texts(hosts@) == all.take(i as int).filter_map(pick),
    {
        proof {
            all.lemma_filter_map_take_succ(pick, i as int);
            assert(pick(all[i as int]) == registry_host(registries@[i as int]@));
        }
        let ghost before = hosts@;
        if let Some(h) = host_from_registry(registries[i].as_str()) {
            hosts.push(h);
            assert(texts(hosts@) == texts(before).push(h@));
            assert(texts(before) + seq![h@] == texts(before).push(h@));
        } else {
            assert(texts(before) + Seq::<Seq<char>>::empty() == texts(before));
        }
    }
    assert(all.take(registries@.len() as int) == all);
    map_package_hosts(channel, &hosts)
}

// GitHub channels.

/// The HTTP method and the path of a GitHub operation. `/**` stands for the repository.
pub open spec fn github_operation(op: Seq<char>) -> Option<(Seq<char>, Seq<char>)> {
    if op == "createPR"@ {
        Some(("POST"@, "/repos/**/pulls"@))
    } else if op == "mergePR"@ {
        Some(("PUT"@, "/repos/**/pulls/*/merge"@))
    } else if op == "listPRs"@ {
        Some(("GET"@, "/repos/**/pulls"@))
    } else if op == "getPR"@ {
        Some(("GET"@, "/repos/**/pulls/*"@))
    } else if op == "createIssue"@ {
        Some(("POST"@, "/repos/**/issues"@))
    } else if op == "listIssues"@ {
        Some(("GET"@, "/repos/**/issues"@))
    } else if op == "getIssue"@ {
        Some(("GET"@, "/repos/**/issues/*"@))
    } else if op == "commentOnIssue"@ {
        Some(("POST"@, "/repos/**/issues/*/comments"@))
    } else if op == "closeIssue"@ {
        Some(("PATCH"@, "/repos/**/issues/*"@))
    } else if op == "listRepos"@ {
        Some(("GET"@, "/user/repos"@))
    } else if op == "getRepo"@ {
        Some(("GET"@, "/repos/**"@))
    } else if op == "createRelease"@ {
        Some(("POST"@, "/repos/**/releases"@))
    } else {
        None
    }
}

fn find_operation(op: &str) -> (r: Option<(&'static str, &'static str)>)
    ensures
        match r {
            Some(e) => github_operation(op@) == Some((e.0@, e.1@)),
            None => github_operation(op@) is None,
        },
{
    if same_text(op, "createPR") {
        Some(("POST", "/repos/**/pulls"))
    } else if same_text(op, "mergePR") {
        Some(("PUT", "/repos/**/pulls/*/merge"))
    } else if same_text(op, "listPRs") {
        Some(("GET", "/repos/**/pulls"))
    } else if same_text(op, "getPR") {
        Some(("GET", "/repos/**/pulls/*"))
    } else if same_text(op, "createIssue") {
        Some(("POST", "/repos/**/issues"))
    } else if same_text(op, "listIssues") {
        Some(("GET", "/repos/**/issues"))
    } else if same_text(op, "getIssue") {
        Some(("GET", "/repos/**/issues/*"))
    } else if same_text(op, "commentOnIssue") {
        Some(("POST", "/repos/**/issues/*/comments"))
    } else if same_text(op, "closeIssue") {
        Some(("PATCH", "/repos/**/issues/*"))
    } else if same_text(op, "listRepos") {
        Some(("GET", "/user/repos"))
    } else if same_text(op, "getRepo") {
        Some(("GET", "/repos/**"))
    } else if same_text(op, "createRelease") {
        Some(("POST", "/repos/**/releases"))
    } else {
        None
    }
}

/// The path of an operation on one repository.
pub open spec fn repository_path(path: Seq<char>, repo: Seq<char>) -> Seq<char> {
    replaced(path, "/**"@, "/"@ + repo)
}

/// The rules of one operation: one for each allowed repository, or one for all repositories where
/// none is listed. An operation without a mapping has no rule.
pub open spec fn operation_rules(op: Seq<char>, repos: Seq<Seq<char>>) -> Seq<RuleView> {
    match github_operation(op) {
        None => Seq::empty(),
        Some((method, path)) => if repos.len() == 0 {
            seq![allow_rule(method, Some(path))]
        } else {
            repos.map_values(
                |repo: Seq<char>| allow_rule(method, Some(repository_path(path, repo))),
            )
        },
    }
}

/// The rules of all allowed operations, in their order.
pub open spec fn github_rules(ops: Seq<Seq<char>>, repos: Seq<Seq<char>>) -> Seq<RuleView> {
    ops.flat_map(|op: Seq<char>| operation_rules(op, repos))
}

/// The operations that have no mapping.
pub open spec fn unmapped_operations(ops: Seq<Seq<char>>) -> Seq<Seq<char>> {
    ops.filter(|op: Seq<char>| github_operation(op) is None)
}

/// The mapping of a GitHub channel. `shown` is how the operations without a mapping are shown in the
/// anomaly that reports them.
pub open spec fn github_mapping(channel: ChannelView, shown: Seq<char>) -> MappingView {
    let ops = scope_texts(channel.scope, "allowedOperations"@);
    let rules = github_rules(ops, scope_texts(channel.scope, "allowedRepos"@));
    if rules.len() == 0 {
        skipped(channel, "github"@, "no allowedOperations mapped to GitHub API endpoints"@)
    } else {
        network_mapping(
            channel,
            "github"@,
            seq![endpoint("api.github.com"@, Some("read-only"@), rules)],
            seq![node_binary(), "/usr/bin/git"@, "/usr/local/bin/git"@],
            if unmapped_operations(ops).len() == 0 {
                Seq::empty()
            } else {
                seq![
                    "github channel \""@ + channel.name + "\": operations "@ + shown
                        + " have no L7 method/path mapping; emitted rules cover only the mapped subset."@,
                ]
            },
        )
    }
}

/// Adds the rules of one operation.
fn add_operation_rules(
    rules: &mut Vec<L7Rule>,
    method: &str,
    path: &str,
    repos: &Vec<String>,
    Ghost(op): Ghost<Seq<char>>,
)
    requires
        github_operation(op) == Some((method@, path@)),
    ensures
        views(final(rules)@) == views(old(rules)@) + operation_rules(op, texts(repos@)),
{
    if repos.len() == 0 {
        let rule = allow(method.to_owned(), Some(path.to_owned()));
        proof {
            assert(views(rules@.push(rule)) == views(rules@) + seq![rule@]);
        }
        rules.push(rule);
        return;
    }
    let ghost start = views(rules@);
    let ghost all = operation_rules(op, texts(repos@));
    proof {
        reveal_strlit("/**");
    }
    for i in 0..repos.len()
        invariant
            repos@.len() > 0,
            "/**"@.len() > 0,
            github_operation(op) == Some((method@, path@)),
            all == operation_rules(op, texts(repos@)),
            start == views(old(rules)@),
            views(rules@) == start + all.take(i as int),
    {
        let mut with = "/".to_owned();
        with.append(repos[i].as_str());
        let rule = allow(method.to_owned(), Some(replace(path, "/**", with.as_str())));
        proof {
            assert(views(rules@.push(rule)) == views(rules@).push(rule@));
            assert(all[i as int] == rule@);
            assert((start + all.take(i as int)).push(rule@) == start + all.take(i + 1));
        }
        rules.push(rule);
    }
    assert(all.take(repos@.len() as int) == all);
}

/// The rules of the allowed operations, and the operations that have no mapping.
pub fn compile_operations(ops: &Vec<String>, repos: &Vec<String>) -> (r: (Vec<L7Rule>, Vec<String>))
    ensures
        views(r.0@) == github_rules(texts(ops@), texts(repos@)),
        texts(r.1@) == unmapped_operations(texts(ops@)),
{
    let mut rules: Vec<L7Rule> = Vec::new();
    let mut unmapped: Vec<String> = Vec::new();
    let ghost all = texts(ops@);
    let ghost compile = |op: Seq<char>| operation_rules(op, texts(repos@));
    let ghost unknown = |op: Seq<char>| github_operation(op) is None;
    proof {
        assert(all.take(0) == Seq::<Seq<char>>::empty());
        assert(all.take(0).flat_map(compile) == Seq::<RuleView>::empty());
        assert(all.take(0).filter(unknown) == Seq::<Seq<char>>::empty()) by {
            reveal(Seq::filter);
        }
        assert(views(rules@) == Seq::<RuleView>::empty());
    }
    for i in 0..ops.len()
        invariant
            all == texts(ops@),
            compile == (|op: Seq<char>| operation_rules(op, texts(repos@))),
            unknown == (|op: Seq<char>| github_operation(op) is None),
            views(rules@) == all.take(i as int).flat_map(compile),
            texts(unmapped@) == all.take(i as int).filter(unknown),
    {
        let ghost op = all[i as int];
        proof {
            all.lemma_flat_map_take_append(compile, i as int);
            assert(all.take(i + 1) == all.take(i as int).push(op));
            assert(all.take(i + 1).filter(unknown) == if unknown(op) {
                all.take(i as int).filter(unknown).push(op)
            } else {
                all.take(i as int).filter(unknown)
            }) by {
                reveal(Seq::filter);
                assert(all.take(i + 1).drop_last() == all.take(i as int));
            }
        }
        match find_operation(ops[i].as_str()) {
            Some((method, path)) => {
                add_operation_rules(&mut rules, method, path, repos, Ghost(op));
            },
            None => {
                let name = ops[i].clone();
                assert(views(rules@) + operation_rules(op, texts(repos@)) == views(rules@));
                assert(texts(unmapped@.push(name)) == texts(unmapped@).push(name@));
                unmapped.push(name);
            },
        }
    }
    assert(all.take(ops@.len() as int) == all);
    (rules, unmapped)
}

/// Maps a GitHub channel, with `shown` for the operations that have no mapping.
pub fn map_github_shown(channel: &TypedChannelConfig, shown: &str) -> (r: MappingResult)
    ensures
        r@ == github_mapping(channel@, shown@),
{
    let repos = str_arr(&channel.scope, "allowedRepos");
    let ops = str_arr(&channel.scope, "allowedOperations");
    let (rules, unmapped) = compile_operations(&ops, &repos);
    let mut anomalies: Vec<String> = Vec::new();
    if unmapped.len() > 0 {
        let mut anomaly = "github channel \"".to_owned();
        anomaly.append(channel.name.as_str());
        anomaly.append("\": operations ");
        anomaly.append(shown);
        anomaly.append(
            " have no L7 method/path mapping; emitted rules cover only the mapped subset.",
        );
        anomalies.push(anomaly);
        assert(texts(anomalies@) == seq![anomaly@]);
    }
    if rules.len() == 0 {
        return skip(
            channel,
            "github",
            "no allowedOperations mapped to GitHub API endpoints".to_owned(),
        );
    }
    let mut list: Vec<NetworkEndpoint> = Vec::new();
    list.push(
        make_endpoint("api.github.com".to_owned(), Some("read-only".to_owned()), rules),
    );
    assert(views(list@) == seq![list@[0]@]);
    let fallback = strings(&["/usr/local/bin/node", "/usr/bin/git", "/usr/local/bin/git"]);
    assert(texts(fallback@) == seq![node_binary(), "/usr/bin/git"@, "/usr/local/bin/git"@]);
    map_network(channel, "github", list, fallback, anomalies)
}

/// How the operations of a GitHub channel that have no mapping are shown.
pub open spec fn shown_unmapped(channel: ChannelView) -> Seq<char> {
    shown_list(unmapped_operations(scope_texts(channel.scope, "allowedOperations"@)))
}

fn map_github_channel(channel: &TypedChannelConfig) -> (r: MappingResult)
    ensures
        r@ == github_mapping(channel@, shown_unmapped(channel@)),
{
    let repos: Vec<String> = Vec::new();
    let ops = str_arr(&channel.scope, "allowedOperations");
    let (_, unmapped) = compile_operations(&ops, &repos);
    map_github_shown(channel, debug_texts(&unmapped).as_str())
}

// All channels.

/// Why channels of a kind are not mapped: they would duplicate what the platform enforces.
pub open spec fn skip_reason(kind: Seq<char>) -> Option<Seq<char>> {
    if kind == "postgres"@ {
        Some("read-only via SQL inspection is unsound — use a Postgres read-only role"@)
    } else if kind == "sqlite"@ {
        Some("read-only via SQL inspection is unsound — use a read-only DB file/role"@)
    } else if kind == "stripe"@ {
        Some("duplicates Stripe's restricted-key + permission-scope model"@)
    } else if kind == "aws-s3"@ {
        Some("duplicates AWS IAM — lean on roles, not JS bucket-scoping"@)
    } else if kind == "sqs"@ {
        Some("duplicates AWS IAM"@)
    } else if kind == "docker"@ || kind == "kubernetes"@ || kind == "github-actions"@ {
        Some("native RBAC; JS re-scoping is a fragile duplicate"@)
    } else if kind == "terraform"@ || kind == "vault"@ {
        Some("native policy model; JS re-scoping is a fragile duplicate"@)
    } else if kind == "browser"@ {
        Some("allowedHosts overlaps OpenShell network policy — redundant"@)
    } else {
        None
    }
}

fn find_skip_reason(kind: &str) -> (r: Option<String>)
    ensures
        opt_view(r) == skip_reason(kind@),
{
    if same_text(kind, "postgres") {
        Some(
            "read-only via SQL inspection is unsound — use a Postgres read-only role".to_owned(),
        )
    } else if same_text(kind, "sqlite") {
        Some("read-only via SQL inspection is unsound — use a read-only DB file/role".to_owned())
    } else if same_text(kind, "stripe") {
        Some("duplicates Stripe's restricted-key + permission-scope model".to_owned())
    } else if same_text(kind, "aws-s3") {
        Some("duplicates AWS IAM — lean on roles, not JS bucket-scoping".to_owned())
    } else if same_text(kind, "sqs") {
        Some("duplicates AWS IAM".to_owned())
    } else if same_text(kind, "docker") || same_text(kind, "kubernetes") || same_text(
        kind,
        "github-actions",
    ) {
        Some("native RBAC; JS re-scoping is a fragile duplicate".to_owned())
    } else if same_text(kind, "terraform") || same_text(kind, "vault") {
        Some("native policy model; JS re-scoping is a fragile duplicate".to_owned())
    } else if same_text(kind, "browser") {
        Some("allowedHosts overlaps OpenShell network policy — redundant".to_owned())
    } else {
        None
    }
}

/// The mapping of a channel by its kind.
pub open spec fn mapping(channel: ChannelView) -> MappingView {
    match skip_reason(channel.kind) {
        Some(reason) => skipped(channel, channel.kind, reason),
        None => if channel.kind == "file"@ {
            file_mapping(channel)
        } else if channel.kind == "http"@ {
            http_mapping(channel, http_methods(channel))
        } else if llm_host(channel.kind) is Some {
            llm_mapping(channel, channel.kind, llm_channel_host(channel, channel.kind))
        } else if channel.kind == "github"@ {
            github_mapping(channel, shown_unmapped(channel))
        } else if channel.kind == "git"@ {
            git_mapping(channel, git_hosts(channel))
        } else if channel.kind == "package"@ {
            package_mapping(channel, package_hosts(channel))
        } else {
            skipped(
                channel,
                channel.kind,
                "unknown kind '"@ + channel.kind
                    + "' — not in the keeper set; skipped to avoid false assurance"@,
            )
        },
    }
}

/// Maps a single Fractal channel to OpenShell policy blocks.
pub fn map_channel(channel: &TypedChannelConfig) -> (r: MappingResult)
    ensures
        r@ == mapping(channel@),
{
    let kind = channel.kind.as_str();
    if let Some(reason) = find_skip_reason(kind) {
        return skip(channel, kind, reason);
    }
    if same_text(kind, "file") {
        map_file_channel(channel)
    } else if same_text(kind, "http") {
        map_http_channel(channel)
    } else if default_llm_host(kind).is_some() {
        map_llm_channel(channel, kind)
    } else if same_text(kind, "github") {
        map_github_channel(channel)
    } else if same_text(kind, "git") {
        map_git_channel(channel)
    } else if same_text(kind, "package") {
        map_package_channel(channel)
    } else {
        let mut reason = "unknown kind '".to_owned();
        reason.append(kind);
        reason.append("' — not in the keeper set; skipped to avoid false assurance");
        skip(channel, kind, reason)
    }
}

/// Maps all channels of a cell, collecting the results.
pub fn map_all(channels: &[TypedChannelConfig]) -> (r: Vec<MappingResult>)
    ensures
        views(r@) == views(channels@).map_values(|c: ChannelView| mapping(c)),
{
    let mut out: Vec<MappingResult> = Vec::new();
    let ghost all = views(channels@).map_values(|c: ChannelView| mapping(c));
    for i in 0..channels.len()
        invariant
            all == views(channels@).map_values(|c: ChannelView| mapping(c)),
            views(out@) == all.take(i as int),
    {
        let one = map_channel(&channels[i]);
        assert(views(out@.push(one)) == views(out@).push(one@));
        out.push(one);
    }
    assert(all.take(channels@.len() as int) == all);
    out
}

} // verus!
