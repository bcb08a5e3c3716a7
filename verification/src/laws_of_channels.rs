//! What holds of the mapping of channels, kind by kind.

use crate::channel_mapper::{
    binary_paths, git_mapping, github_mapping, github_operation, github_rules, http_mapping,
    http_methods, llm_mapping, mapping, operation_rules, package_mapping, registry_host, remote_host,
    remote_host_of, repository_path, resolved, sanitized, scope_texts, unmapped_operations,
    url_text_host, MappedChannel, MappingResult, MappingView, SkippedChannel,
};
use crate::json::JsonView;
use crate::laws_of_text::{law_first_occurrence_is_replaced, law_nothing_to_replace};
use crate::outside::{alphanumeric, shown_list, upper, url_host};
use crate::policy::{
    Binary, EndpointView, FilesystemPolicy, L7Allow, L7Deny, L7Rule, NetworkEndpoint, NetworkPolicy,
    RuleView,
};
use crate::schema::ChannelView;
use crate::text::{after_last, before_first, has_part, replaced};
use vstd::prelude::*;

verus! {

// What a scope holds.

/// The texts under a key are those of the array that stands there, in order, and without what is no
/// text; where no array stands there is none.
pub proof fn law_scope_texts(scope: JsonView, key: Seq<char>)
    ensures
        scope_texts(scope, key) == match scope {
            JsonView::Object(m) => if m.dom().contains(key) {
                match m[key] {
                    JsonView::Array(items) => items.filter_map(
                        |v: JsonView|
                            match v {
                                JsonView::Text(s) => Some(s),
                                _ => None,
                            },
                    ),
                    _ => Seq::empty(),
                }
            } else {
                Seq::empty()
            },
            _ => Seq::empty(),
        },
{
    if let JsonView::Object(m) = scope {
        if m.dom().contains(key) {
            if let JsonView::Array(items) = m[key] {
                let a = |v: JsonView| v.text();
                let b = |v: JsonView|
                    match v {
                        JsonView::Text(s) => Some(s),
                        _ => None,
                    };
                assert(a =~= b);
            }
        }
    }
}

/// Arrays under a key that follow one another give their texts one after the other.
pub proof fn law_scope_texts_follow_items(key: Seq<char>, a: Seq<JsonView>, v: JsonView)
    ensures
        ({
            let scope = |items: Seq<JsonView>|
                JsonView::Object(Map::empty().insert(key, JsonView::Array(items)));
            scope_texts(scope(a.push(v)), key) == match v {
                JsonView::Text(s) => scope_texts(scope(a), key).push(s),
                _ => scope_texts(scope(a), key),
            }
        }),
{
    let pick = |v: JsonView| v.text();
    let all = a.push(v);
    all.lemma_filter_map_take_succ(pick, a.len() as int);
    assert(all.take(a.len() as int) =~= a);
    assert(all.take((a.len() + 1) as int) =~= all);
    if let JsonView::Text(s) = v {
        assert(a.filter_map(pick) + seq![s] =~= a.filter_map(pick).push(s));
    } else {
        assert(a.filter_map(pick) + Seq::<Seq<char>>::empty() =~= a.filter_map(pick));
    }
}

/// Executables are those that the scope declares; others stand in where it declares none.
pub proof fn law_declared_binaries(scope: JsonView, fallback: Seq<Seq<char>>)
    ensures
        scope_texts(scope, "binaries"@).len() > 0 ==> binary_paths(scope, fallback) == scope_texts(
            scope,
            "binaries"@,
        ),
        scope_texts(scope, "binaries"@).len() == 0 ==> binary_paths(scope, fallback) == fallback,
{
}

/// A sanitized name keeps letters, digits, `-` and `_` where they stand, and has `_` in every other place.
pub proof fn law_sanitized_characters(name: Seq<char>, i: int)
    requires
        0 <= i < name.len(),
    ensures
        sanitized(name).len() == name.len(),
        alphanumeric(name[i]) || name[i] == '-' || name[i] == '_' ==> sanitized(name)[i] == name[i],
        !alphanumeric(name[i]) && name[i] != '-' ==> sanitized(name)[i] == '_',
{
}

/// The one variable that is resolved in a path is `${input.repoPath}`, and it is resolved to `/sandbox`.
pub proof fn law_resolved_variable(path: Seq<char>)
    ensures
        resolved(path) == replaced(path, "${input.repoPath}"@, "/sandbox"@),
{
}

// Kinds.

/// What tells the kinds apart.
proof fn lemma_kinds()
    ensures
        "postgres"@.len() == 8 && "postgres"@[0] == 'p',
        "sqlite"@.len() == 6 && "sqlite"@[0] == 's' && "sqlite"@[1] == 'q',
        "stripe"@.len() == 6 && "stripe"@[0] == 's' && "stripe"@[1] == 't',
        "aws-s3"@.len() == 6 && "aws-s3"@[0] == 'a',
        "sqs"@.len() == 3 && "sqs"@[0] == 's',
        "docker"@.len() == 6 && "docker"@[0] == 'd',
        "kubernetes"@.len() == 10,
        "github-actions"@.len() == 14,
        "terraform"@.len() == 9 && "terraform"@[0] == 't',
        "vault"@.len() == 5,
        "browser"@.len() == 7 && "browser"@[0] == 'b',
        "file"@.len() == 4 && "file"@[0] == 'f',
        "http"@.len() == 4 && "http"@[0] == 'h',
        "anthropic"@.len() == 9 && "anthropic"@[0] == 'a',
        "openai"@.len() == 6 && "openai"@[0] == 'o',
        "google-genai"@.len() == 12,
        "cohere"@.len() == 6 && "cohere"@[0] == 'c',
        "mistral"@.len() == 7 && "mistral"@[0] == 'm',
        "github"@.len() == 6 && "github"@[0] == 'g',
        "git"@.len() == 3 && "git"@[0] == 'g',
        "package"@.len() == 7 && "package"@[0] == 'p',
{
    reveal_strlit("postgres");
    reveal_strlit("sqlite");
    reveal_strlit("stripe");
    reveal_strlit("aws-s3");
    reveal_strlit("sqs");
    reveal_strlit("docker");
    reveal_strlit("kubernetes");
    reveal_strlit("github-actions");
    reveal_strlit("terraform");
    reveal_strlit("vault");
    reveal_strlit("browser");
    reveal_strlit("file");
    reveal_strlit("http");
    reveal_strlit("anthropic");
    reveal_strlit("openai");
    reveal_strlit("google-genai");
    reveal_strlit("cohere");
    reveal_strlit("mistral");
    reveal_strlit("github");
    reveal_strlit("git");
    reveal_strlit("package");
}

/// Tells whether a mapping skips a channel for a reason, under its own name.
pub open spec fn skips(
    m: MappingView,
    channel: ChannelView,
    kind: Seq<char>,
    reason: Seq<char>,
) -> bool {
    m matches MappingView::Skipped(s) && s.channel_name == channel.name && s.kind == kind && s.reason
        == reason
}

/// Tells whether a channel is skipped for a reason, under its own name and kind.
pub open spec fn is_skipped(channel: ChannelView, reason: Seq<char>) -> bool {
    skips(mapping(channel), channel, channel.kind, reason)
}

/// Channels whose kind the platform itself governs are skipped, each kind for its own reason.
pub proof fn law_reasons_of_skipped_kinds(channel: ChannelView)
    ensures
        channel.kind == "postgres"@ ==> is_skipped(
            channel,
            "read-only via SQL inspection is unsound — use a Postgres read-only role"@,
        ),
        channel.kind == "sqlite"@ ==> is_skipped(
            channel,
            "read-only via SQL inspection is unsound — use a read-only DB file/role"@,
        ),
        channel.kind == "stripe"@ ==> is_skipped(
            channel,
            "duplicates Stripe's restricted-key + permission-scope model"@,
        ),
        channel.kind == "aws-s3"@ ==> is_skipped(
            channel,
            "duplicates AWS IAM — lean on roles, not JS bucket-scoping"@,
        ),
        channel.kind == "sqs"@ ==> is_skipped(channel, "duplicates AWS IAM"@),
        channel.kind == "docker"@ || channel.kind == "kubernetes"@ || channel.kind
            == "github-actions"@ ==> is_skipped(
            channel,
            "native RBAC; JS re-scoping is a fragile duplicate"@,
        ),
        channel.kind == "terraform"@ || channel.kind == "vault"@ ==> is_skipped(
            channel,
            "native policy model; JS re-scoping is a fragile duplicate"@,
        ),
        channel.kind == "browser"@ ==> is_skipped(
            channel,
            "allowedHosts overlaps OpenShell network policy — redundant"@,
        ),
{
    lemma_kinds();
}

/// The kinds that the mapper knows.
pub open spec fn known_kinds() -> Set<Seq<char>> {
    set![
        "postgres"@,
        "sqlite"@,
        "stripe"@,
        "aws-s3"@,
        "sqs"@,
        "docker"@,
        "kubernetes"@,
        "github-actions"@,
        "terraform"@,
        "vault"@,
        "browser"@,
        "file"@,
        "http"@,
        "anthropic"@,
        "openai"@,
        "google-genai"@,
        "cohere"@,
        "mistral"@,
        "github"@,
        "git"@,
        "package"@,
    ]
}

/// A channel of any other kind is skipped, and the reason names the kind.
pub proof fn law_unknown_kinds_are_skipped(channel: ChannelView)
    requires
        !known_kinds().contains(channel.kind),
    ensures
        is_skipped(
            channel,
            "unknown kind '"@ + channel.kind
                + "' — not in the keeper set; skipped to avoid false assurance"@,
        ),
{
}

// File channels.

/// A file channel may write the paths that every sandbox may and then its allowed paths, resolved, in
/// their order; it may read what every sandbox may. Protected paths are reported, and nothing else is.
pub proof fn law_file_channels(channel: ChannelView, i: int)
    requires
        channel.kind == "file"@,
    ensures
        mapping(channel) matches MappingView::Mapped(m) && m.channel_name == channel.name
            && m.network_policies.len() == 0 && (m.filesystem matches Some(fs) && (
        fs.read_write matches Some(rw) && (fs.read_only matches Some(ro) && {
            let allowed = scope_texts(channel.scope, "allowedPaths"@);
            &&& rw.len() == 3 + allowed.len()
            &&& rw[0] == "/sandbox"@ && rw[1] == "/tmp"@ && rw[2] == "/dev/null"@
            &&& 0 <= i < allowed.len() ==> rw[3 + i] == resolved(allowed[i])
            &&& ro == seq![
                "/usr"@,
                "/lib"@,
                "/dev/urandom"@,
                "/proc"@,
                "/app"@,
                "/etc"@,
                "/var/log"@,
            ]
            &&& scope_texts(channel.scope, "protectedPaths"@).len() == 0 ==> m.anomalies.len() == 0
            &&& scope_texts(channel.scope, "protectedPaths"@).len() > 0 ==> m.anomalies == seq![
                "file channel '"@ + channel.name
                    + "': protectedPaths cannot be expressed as deny-list in OpenShell filesystem_policy. Ensure these paths are NOT granted write access elsewhere."@,
            ]
        }))),
{
    lemma_kinds();
}

// Network channels.

/// Tells whether a mapping gives a channel one network policy and nothing else: named after the kind and
/// the channel, with one enforced endpoint for each host in order, and the declared executables or else the
/// given ones.
pub open spec fn opens(
    m: MappingView,
    channel: ChannelView,
    kind: Seq<char>,
    hosts: Seq<Seq<char>>,
    access: Option<Seq<char>>,
    rules: Seq<RuleView>,
    fallback: Seq<Seq<char>>,
    anomalies: Seq<Seq<char>>,
) -> bool {
    m matches MappingView::Mapped(m) && {
        let (key, policy) = m.network_policies[0];
        let declared = scope_texts(channel.scope, "binaries"@);
        &&& m.channel_name == channel.name
        &&& m.filesystem is None
        &&& m.network_policies.len() == 1
        &&& key == "fractal_"@ + kind + "_"@ + sanitized(channel.name)
        &&& policy.name == "fractal_"@ + kind + "_"@ + channel.name
        &&& policy.binaries == if declared.len() == 0 {
            fallback
        } else {
            declared
        }
        &&& policy.endpoints.len() == hosts.len()
        &&& forall|i: int|
            0 <= i < hosts.len() ==> opens_host(#[trigger] policy.endpoints[i], hosts[i], access, rules)
        &&& m.anomalies == anomalies
    }
}

/// Tells whether an endpoint opens a host on port 443, with TLS terminated and the rules enforced.
pub open spec fn opens_host(
    e: EndpointView,
    host: Seq<char>,
    access: Option<Seq<char>>,
    rules: Seq<RuleView>,
) -> bool {
    &&& e.host == host
    &&& e.port == Some(443u16)
    &&& e.protocol == Some("rest"@)
    &&& e.tls == Some("terminate"@)
    &&& e.enforcement == Some("enforce"@)
    &&& e.access == access
    &&& e.rules == rules
}

/// Tells whether a rule lets requests of a method pass, to a path if one is given, and denies none.
pub open spec fn lets_pass(r: RuleView, method: Seq<char>, path: Option<Seq<char>>) -> bool {
    r.deny is None && (r.allow matches Some(m) && m.method == Some(method) && m.path == path)
}

/// An HTTP channel without a host is skipped. Another one opens its hosts, each for the given methods in
/// their order, to every path.
pub proof fn law_http_channels(channel: ChannelView, methods: Seq<Seq<char>>)
    ensures
        ({
            let m = http_mapping(channel, methods);
            let hosts = scope_texts(channel.scope, "allowedHosts"@);
            &&& hosts.len() == 0 ==> skips(m, channel, "http"@, "no allowedHosts configured"@)
            &&& hosts.len() > 0 ==> exists|rules: Seq<RuleView>|
                #[trigger] opens(
                    m,
                    channel,
                    "http"@,
                    hosts,
                    None,
                    rules,
                    seq!["/usr/local/bin/node"@],
                    Seq::empty(),
                ) && rules.len() == methods.len() && forall|i: int|
                    0 <= i < rules.len() ==> lets_pass(#[trigger] rules[i], methods[i], None)
        }),
{
    let m = http_mapping(channel, methods);
    let hosts = scope_texts(channel.scope, "allowedHosts"@);
    if hosts.len() > 0 {
        let rules = m->Mapped_0.network_policies[0].1.endpoints[0].rules;
        assert(opens(
            m,
            channel,
            "http"@,
            hosts,
            None,
            rules,
            seq!["/usr/local/bin/node"@],
            Seq::empty(),
        ));
    }
}

/// The host of an LLM provider.
pub open spec fn provider_host(kind: Seq<char>) -> Seq<char> {
    if kind == "anthropic"@ {
        "api.anthropic.com"@
    } else if kind == "openai"@ {
        "api.openai.com"@
    } else if kind == "google-genai"@ {
        "generativelanguage.googleapis.com"@
    } else if kind == "cohere"@ {
        "api.cohere.com"@
    } else {
        "api.mistral.ai"@
    }
}

/// An LLM channel opens one host for POST requests to the API, and is skipped without a host.
pub proof fn law_llm_channels(channel: ChannelView, kind: Seq<char>, host: Seq<char>)
    ensures
        skips(
            llm_mapping(channel, kind, None),
            channel,
            kind,
            "no host resolvable from baseUrl or defaults"@,
        ),
        exists|rule: RuleView|
            #[trigger] lets_pass(rule, "POST"@, Some("/v1/**"@)) && opens(
                llm_mapping(channel, kind, Some(host)),
                channel,
                kind,
                seq![host],
                None,
                seq![rule],
                seq!["/usr/local/bin/node"@],
                seq![
                    kind + " channel '"@ + channel.name
                        + "': allowedModels/maxTokensPerCall/rate limits are Fractal-enforced (app-semantic); OpenShell network policy only constrains host+method."@,
                ],
            ),
{
    let m = llm_mapping(channel, kind, Some(host));
    let rule = m->Mapped_0.network_policies[0].1.endpoints[0].rules[0];
    assert(lets_pass(rule, "POST"@, Some("/v1/**"@)));
    assert(m->Mapped_0.network_policies[0].1.endpoints[0].rules =~= seq![rule]);
}

/// A channel is mapped by its kind: an HTTP channel for its methods in upper case; an LLM channel for the
/// host of the URL under `baseUrl` where this is a URL with a host, and else for that of the provider; a git
/// channel for the hosts of its remotes and a package channel for those of its registries, as far as they
/// have one and in their order.
pub proof fn law_channels_are_mapped_by_kind(channel: ChannelView, i: int)
    ensures
        channel.kind == "http"@ ==> exists|methods: Seq<Seq<char>>|
            mapping(channel) == #[trigger] http_mapping(channel, methods) && methods.len()
                == scope_texts(channel.scope, "allowedMethods"@).len() && (0 <= i < methods.len()
                ==> methods[i] == upper(scope_texts(channel.scope, "allowedMethods"@)[i])),
        set!["anthropic"@, "openai"@, "google-genai"@, "cohere"@, "mistral"@].contains(channel.kind)
            ==> mapping(channel) == llm_mapping(
            channel,
            channel.kind,
            Some(
                match channel.scope.text_field("baseUrl"@) {
                    Some(url) => match url_host(url) {
                        Some(Some(h)) => h,
                        _ => provider_host(channel.kind),
                    },
                    None => provider_host(channel.kind),
                },
            ),
        ),
        channel.kind == "git"@ ==> mapping(channel) == git_mapping(
            channel,
            scope_texts(channel.scope, "allowRemotes"@).filter_map(|r: Seq<char>| remote_host(r)),
        ),
        channel.kind == "package"@ ==> mapping(channel) == package_mapping(
            channel,
            scope_texts(channel.scope, "allowedRegistries"@).filter_map(
                |r: Seq<char>| registry_host(r),
            ),
        ),
        channel.kind == "github"@ ==> mapping(channel) == github_mapping(
            channel,
            shown_list(unmapped_operations(scope_texts(channel.scope, "allowedOperations"@))),
        ),
{
    lemma_kinds();
    if channel.kind == "http"@ {
        let methods = http_methods(channel);
        assert(mapping(channel) == http_mapping(channel, methods));
    }
}

// Hosts.

/// The host of a git remote is that of the URL that it is. A remote that is no URL, or one without a host
/// and without `://` that holds a `:` behind its last `@`, has its host between that `@` and the first
/// `:` behind it. Any other has none.
pub proof fn law_hosts_of_remotes(remote: Seq<char>, parsed: Option<Option<Seq<char>>>)
    ensures
        remote_host(remote) == remote_host_of(remote, url_host(remote)),
        parsed matches Some(Some(h)) ==> remote_host_of(remote, parsed) == Some(h),
        parsed is None ==> remote_host_of(remote, parsed) == Some(
            before_first(after_last(remote, '@'), ':'),
        ),
        parsed == Some(None::<Seq<char>>) && after_last(remote, '@').contains(':') && !has_part(
            remote,
            "://"@,
        ) ==> remote_host_of(remote, parsed) == Some(before_first(after_last(remote, '@'), ':')),
        parsed == Some(None::<Seq<char>>) && (!after_last(remote, '@').contains(':') || has_part(
            remote,
            "://"@,
        )) ==> remote_host_of(remote, parsed) is None,
{
}

/// The host of a registry is that of the URL that it is, or that it is behind `https://`.
pub proof fn law_hosts_of_registries(registry: Seq<char>)
    ensures
        "http"@.is_prefix_of(registry) ==> registry_host(registry) == match url_host(registry) {
            Some(h) => h,
            None => None,
        },
        !"http"@.is_prefix_of(registry) ==> registry_host(registry) == match url_host(
            "https://"@ + registry,
        ) {
            Some(h) => h,
            None => None,
        },
        url_text_host(registry) == match url_host(registry) {
            Some(h) => h,
            None => None,
        },
{
}

/// A git channel opens the given hosts, in their order, to read and write; it is skipped where there is
/// none.
pub proof fn law_git_channels(channel: ChannelView, hosts: Seq<Seq<char>>)
    ensures
        hosts.len() == 0 ==> skips(
            git_mapping(channel, hosts),
            channel,
            "git"@,
            "no allowRemotes hosts resolvable"@,
        ),
        hosts.len() > 0 ==> opens(
            git_mapping(channel, hosts),
            channel,
            "git"@,
            hosts,
            Some("read-write"@),
            Seq::empty(),
            seq!["/usr/bin/git"@, "/usr/local/bin/git"@, "/usr/local/bin/node"@],
            seq![
                "git channel '"@ + channel.name
                    + "': git can exfiltrate via commit+push. Review allowRemotes carefully."@,
            ],
        ),
{
}

/// A package channel opens the given hosts, in their order, to read and write; it is skipped where there is
/// none.
pub proof fn law_package_channels(channel: ChannelView, hosts: Seq<Seq<char>>)
    ensures
        hosts.len() == 0 ==> skips(
            package_mapping(channel, hosts),
            channel,
            "package"@,
            "no allowedRegistries hosts resolvable"@,
        ),
        hosts.len() > 0 ==> opens(
            package_mapping(channel, hosts),
            channel,
            "package"@,
            hosts,
            Some("read-write"@),
            Seq::empty(),
            seq![
                "/usr/local/bin/node"@,
                "/usr/bin/npm"@,
                "/usr/bin/pnpm"@,
                "/usr/bin/yarn"@,
                "/usr/bin/pip3"@,
                "/usr/bin/uv"@,
            ],
            seq![
                "package channel '"@ + channel.name
                    + "': lockfileEnforced/allowedPackages are Fractal-enforced (app-semantic); OpenShell network policy only constrains the registry host."@,
            ],
        ),
{
}

// GitHub channels.

/// The method of an operation on a repository, and where below the repository it goes.
pub open spec fn on_repository(op: Seq<char>) -> Option<(Seq<char>, Seq<char>)> {
    if op == "createPR"@ {
        Some(("POST"@, "/pulls"@))
    } else if op == "mergePR"@ {
        Some(("PUT"@, "/pulls/*/merge"@))
    } else if op == "listPRs"@ {
        Some(("GET"@, "/pulls"@))
    } else if op == "getPR"@ {
        Some(("GET"@, "/pulls/*"@))
    } else if op == "createIssue"@ {
        Some(("POST"@, "/issues"@))
    } else if op == "listIssues"@ {
        Some(("GET"@, "/issues"@))
    } else if op == "getIssue"@ {
        Some(("GET"@, "/issues/*"@))
    } else if op == "commentOnIssue"@ {
        Some(("POST"@, "/issues/*/comments"@))
    } else if op == "closeIssue"@ {
        Some(("PATCH"@, "/issues/*"@))
    } else if op == "getRepo"@ {
        Some(("GET"@, ""@))
    } else if op == "createRelease"@ {
        Some(("POST"@, "/releases"@))
    } else {
        None
    }
}

/// Tells whether a path has no `**` in it.
spec fn single_stars(s: Seq<char>) -> bool {
    forall|i: int| 0 <= i < s.len() - 1 ==> !(#[trigger] s[i] == '*' && s[i + 1] == '*')
}

proof fn lemma_no_placeholder(s: Seq<char>)
    requires
        single_stars(s),
    ensures
        forall|at: int| 0 <= at <= s.len() ==> !"/**"@.is_prefix_of(#[trigger] s.skip(at)),
{
    reveal_strlit("/**");
    assert forall|at: int| 0 <= at <= s.len() implies !"/**"@.is_prefix_of(
        #[trigger] s.skip(at),
    ) by {
        if "/**"@.is_prefix_of(s.skip(at)) {
            assert(s.skip(at).subrange(0, 3) =~= "/**"@);
            assert(s.skip(at).subrange(0, 3)[1] == '*' && s.skip(at).subrange(0, 3)[2] == '*');
            assert(s[at + 1] == '*' && s[at + 2] == '*');
        }
    }
}

/// The repository stands in the place of `**` behind `/repos`, and what comes behind it is kept. A path
/// without `**` is kept as it is.
pub proof fn law_suffix_is_kept(suffix: Seq<char>, repo: Seq<char>)
    requires
        forall|i: int|
            0 <= i < suffix.len() - 1 ==> !(#[trigger] suffix[i] == '*' && suffix[i + 1] == '*'),
    ensures
        repository_path("/repos/**"@ + suffix, repo) == "/repos/"@ + repo + suffix,
        repository_path(suffix, repo) == suffix,
{
    reveal_strlit("/repos/**");
    reveal_strlit("/repos/");
    reveal_strlit("/repos");
    reveal_strlit("/**");
    reveal_strlit("/");
    let whole = "/repos"@ + "/**"@ + suffix;
    assert("/repos/**"@ + suffix =~= whole);
    assert forall|at: int| 0 <= at < "/repos"@.len() implies !"/**"@.is_prefix_of(
        #[trigger] whole.skip(at),
    ) by {
        if "/**"@.is_prefix_of(whole.skip(at)) {
            assert(whole.skip(at).subrange(0, 3) =~= "/**"@);
            assert(whole.skip(at).subrange(0, 3)[0] == '/');
            assert(whole.skip(at).subrange(0, 3)[1] == '*');
            assert(whole[at] == '/' && whole[at + 1] == '*');
        }
    }
    law_first_occurrence_is_replaced("/repos"@, "/**"@, suffix, "/"@ + repo);
    lemma_no_placeholder(suffix);
    law_nothing_to_replace(suffix, "/**"@, "/"@ + repo);
    assert("/repos"@ + ("/"@ + repo) + suffix =~= "/repos/"@ + repo + suffix);
}

proof fn lemma_suffixes(op: Seq<char>)
    requires
        on_repository(op) is Some,
    ensures
        ({
            let (method, suffix) = on_repository(op)->0;
            single_stars(suffix) && github_operation(op) == Some((method, "/repos/**"@ + suffix))
        }),
{
    reveal_strlit("/repos/**");
    reveal_strlit("/pulls");
    reveal_strlit("/pulls/*/merge");
    reveal_strlit("/pulls/*");
    reveal_strlit("/issues");
    reveal_strlit("/issues/*");
    reveal_strlit("/issues/*/comments");
    reveal_strlit("");
    reveal_strlit("/releases");
    reveal_strlit("/repos/**/pulls");
    reveal_strlit("/repos/**/pulls/*/merge");
    reveal_strlit("/repos/**/pulls/*");
    reveal_strlit("/repos/**/issues");
    reveal_strlit("/repos/**/issues/*");
    reveal_strlit("/repos/**/issues/*/comments");
    reveal_strlit("/repos/**/releases");
    assert("/repos/**/pulls"@ =~= "/repos/**"@ + "/pulls"@);
    assert("/repos/**/pulls/*/merge"@ =~= "/repos/**"@ + "/pulls/*/merge"@);
    assert("/repos/**/pulls/*"@ =~= "/repos/**"@ + "/pulls/*"@);
    assert("/repos/**/issues"@ =~= "/repos/**"@ + "/issues"@);
    assert("/repos/**/issues/*"@ =~= "/repos/**"@ + "/issues/*"@);
    assert("/repos/**/issues/*/comments"@ =~= "/repos/**"@ + "/issues/*/comments"@);
    assert("/repos/**"@ =~= "/repos/**"@ + ""@);
    assert("/repos/**/releases"@ =~= "/repos/**"@ + "/releases"@);
    reveal_strlit("getRepo");
    reveal_strlit("listRepos");
    reveal_strlit("createRelease");
    assert("getRepo"@.len() == 7 && "listRepos"@.len() == 9 && "createRelease"@.len() == 13);
}

/// An operation on repositories gives one rule for each listed repository: its method on the repository's
/// path with the operation's own suffix. Where none is listed it gives one for all repositories.
pub proof fn law_rules_of_repository_operations(op: Seq<char>, repos: Seq<Seq<char>>, i: int)
    requires
        on_repository(op) is Some,
    ensures
        ({
            let (method, suffix) = on_repository(op)->0;
            let rules = operation_rules(op, repos);
            &&& repos.len() == 0 ==> rules.len() == 1 && lets_pass(
                rules[0],
                method,
                Some("/repos/**"@ + suffix),
            )
            &&& repos.len() > 0 ==> rules.len() == repos.len()
            &&& 0 <= i < repos.len() ==> lets_pass(
                rules[i],
                method,
                Some("/repos/"@ + repos[i] + suffix),
            )
        }),
{
    lemma_suffixes(op);
    if 0 <= i < repos.len() {
        let (_, suffix) = on_repository(op)->0;
        law_suffix_is_kept(suffix, repos[i]);
    }
}

/// Listing the repositories of the user is no operation on a repository: its rules are for `/user/repos`,
/// as many as there are listed repositories.
pub proof fn law_rules_of_listing_repositories(repos: Seq<Seq<char>>, i: int)
    ensures
        repos.len() == 0 ==> operation_rules("listRepos"@, repos).len() == 1 && lets_pass(
            operation_rules("listRepos"@, repos)[0],
            "GET"@,
            Some("/user/repos"@),
        ),
        repos.len() > 0 ==> operation_rules("listRepos"@, repos).len() == repos.len(),
        0 <= i < repos.len() ==> lets_pass(
            operation_rules("listRepos"@, repos)[i],
            "GET"@,
            Some("/user/repos"@),
        ),
{
    lemma_list_repos();
    if 0 <= i < repos.len() {
        reveal_strlit("/user/repos");
        law_suffix_is_kept("/user/repos"@, repos[i]);
    }
}

proof fn lemma_list_repos()
    ensures
        github_operation("listRepos"@) == Some(("GET"@, "/user/repos"@)),
{
    reveal_strlit("listRepos");
    reveal_strlit("createPR");
    reveal_strlit("mergePR");
    reveal_strlit("listPRs");
    reveal_strlit("getPR");
    reveal_strlit("createIssue");
    reveal_strlit("listIssues");
    reveal_strlit("getIssue");
    reveal_strlit("commentOnIssue");
    reveal_strlit("closeIssue");
    assert("listRepos"@.len() == 9 && "createPR"@.len() == 8 && "mergePR"@.len() == 7);
    assert("listPRs"@.len() == 7 && "getPR"@.len() == 5 && "createIssue"@.len() == 11);
    assert("listIssues"@.len() == 10 && "getIssue"@.len() == 8 && "commentOnIssue"@.len() == 14);
    assert("closeIssue"@.len() == 10);
}

/// Any other operation gives no rule, and is what is reported as having none.
pub proof fn law_other_operations_have_no_rules(op: Seq<char>, repos: Seq<Seq<char>>)
    ensures
        on_repository(op) is None && op != "listRepos"@ ==> operation_rules(op, repos).len() == 0,
        unmapped_operations(seq![op]) == if on_repository(op) is None && op != "listRepos"@ {
            seq![op]
        } else {
            Seq::empty()
        },
{
    let unknown = |op: Seq<char>| github_operation(op) is None;
    reveal(Seq::filter);
    assert(seq![op].drop_last() =~= Seq::empty());
    assert(Seq::<Seq<char>>::empty().filter(unknown) =~= Seq::empty());
    if on_repository(op) is Some {
        lemma_suffixes(op);
    }
    if op == "listRepos"@ {
        lemma_list_repos();
    }
    if on_repository(op) is None && op != "listRepos"@ {
        assert(unmapped_operations(seq![op]) =~= seq![op]);
    }
}

/// The rules of operations that follow one another follow one another, and so do the operations without a
/// rule.
pub proof fn law_rules_follow_the_operations(
    ops: Seq<Seq<char>>,
    op: Seq<char>,
    repos: Seq<Seq<char>>,
)
    ensures
        github_rules(Seq::empty(), repos).len() == 0,
        github_rules(ops.push(op), repos) == github_rules(ops, repos) + operation_rules(op, repos),
        unmapped_operations(Seq::empty()).len() == 0,
        unmapped_operations(ops.push(op)) == unmapped_operations(ops) + unmapped_operations(
            seq![op],
        ),
{
    let compile = |op: Seq<char>| operation_rules(op, repos);
    let unknown = |op: Seq<char>| github_operation(op) is None;
    assert(Seq::<Seq<char>>::empty().flat_map(compile) =~= Seq::<RuleView>::empty());
    ops.lemma_flat_map_push(compile, op);
    reveal(Seq::filter);
    assert(ops.push(op).drop_last() =~= ops);
    assert(seq![op].drop_last() =~= Seq::empty());
    assert(Seq::<Seq<char>>::empty().filter(unknown) =~= Seq::empty());
    assert(unmapped_operations(seq![op]) =~= if unknown(op) {
        seq![op]
    } else {
        Seq::empty()
    });
    assert(unmapped_operations(ops.push(op)) =~= unmapped_operations(ops) + unmapped_operations(
        seq![op],
    ));
}

/// A GitHub channel opens the API for the rules of its operations on its repositories, and reports the
/// operations that have none, as they are shown. It is skipped where there is no rule.
pub proof fn law_github_channels(channel: ChannelView, shown: Seq<char>)
    ensures
        ({
            let m = github_mapping(channel, shown);
            let ops = scope_texts(channel.scope, "allowedOperations"@);
            let rules = github_rules(ops, scope_texts(channel.scope, "allowedRepos"@));
            &&& rules.len() == 0 ==> skips(
                m,
                channel,
                "github"@,
                "no allowedOperations mapped to GitHub API endpoints"@,
            )
            &&& rules.len() > 0 ==> opens(
                m,
                channel,
                "github"@,
                seq!["api.github.com"@],
                Some("read-only"@),
                rules,
                seq!["/usr/local/bin/node"@, "/usr/bin/git"@, "/usr/local/bin/git"@],
                if unmapped_operations(ops).len() == 0 {
                    Seq::empty()
                } else {
                    seq![
                        "github channel \""@ + channel.name + "\": operations "@ + shown
                            + " have no L7 method/path mapping; emitted rules cover only the mapped subset."@,
                    ]
                },
            )
        }),
{
}

// What the types stand for.

/// A mapping stands for its fields, one by one.
pub proof fn law_mapping_views(mapped: MappedChannel, skipped: SkippedChannel, i: int)
    ensures
        MappingResult::Mapped(mapped)@ == MappingView::Mapped(mapped@),
        MappingResult::Skipped(skipped)@ == MappingView::Skipped(skipped@),
        mapped@.channel_name == mapped.channel_name@,
        mapped@.filesystem is Some <==> mapped.filesystem is Some,
        mapped.filesystem is Some ==> mapped@.filesystem->0 == mapped.filesystem->0@,
        mapped@.network_policies.len() == mapped.network_policies@.len(),
        0 <= i < mapped.network_policies@.len() ==> mapped@.network_policies[i] == (
            mapped.network_policies@[i].0@,
            mapped.network_policies@[i].1@,
        ),
        mapped@.anomalies.len() == mapped.anomalies@.len(),
        0 <= i < mapped.anomalies@.len() ==> mapped@.anomalies[i] == mapped.anomalies@[i]@,
        skipped@.channel_name == skipped.channel_name@,
        skipped@.kind == skipped.kind@,
        skipped@.reason == skipped.reason@,
{
}

/// What an optional text stands for.
pub open spec fn stands_for(view: Option<Seq<char>>, s: Option<String>) -> bool {
    (view is Some <==> s is Some) && (s is Some ==> view->0 == s->0@)
}

/// A policy block stands for its fields, one by one.
pub proof fn law_policy_views(
    fs: FilesystemPolicy,
    policy: NetworkPolicy,
    e: NetworkEndpoint,
    rule: L7Rule,
    allow: L7Allow,
    deny: L7Deny,
    binary: Binary,
    i: int,
)
    ensures
        fs@.read_write is Some <==> fs.read_write is Some,
        fs.read_write is Some ==> fs@.read_write->0.len() == fs.read_write->0@.len(),
        fs.read_write is Some && 0 <= i < fs.read_write->0@.len() ==> fs@.read_write->0[i]
            == fs.read_write->0@[i]@,
        fs@.read_only is Some <==> fs.read_only is Some,
        fs.read_only is Some ==> fs@.read_only->0.len() == fs.read_only->0@.len(),
        fs.read_only is Some && 0 <= i < fs.read_only->0@.len() ==> fs@.read_only->0[i]
            == fs.read_only->0@[i]@,
        policy@.name == policy.name@,
        policy@.endpoints.len() == policy.endpoints@.len(),
        0 <= i < policy.endpoints@.len() ==> policy@.endpoints[i] == policy.endpoints@[i]@,
        policy@.binaries.len() == policy.binaries@.len(),
        0 <= i < policy.binaries@.len() ==> policy@.binaries[i] == policy.binaries@[i].path@,
        e@.host == e.host@,
        e@.port == e.port,
        stands_for(e@.protocol, e.protocol),
        stands_for(e@.tls, e.tls),
        stands_for(e@.enforcement, e.enforcement),
        stands_for(e@.access, e.access),
        e@.rules.len() == e.rules@.len(),
        0 <= i < e.rules@.len() ==> e@.rules[i] == e.rules@[i]@,
        rule@.allow is Some <==> rule.allow is Some,
        rule.allow is Some ==> rule@.allow->0 == rule.allow->0@,
        rule@.deny is Some <==> rule.deny is Some,
        rule.deny is Some ==> rule@.deny->0 == rule.deny->0@,
        stands_for(allow@.method, allow.method),
        stands_for(allow@.path, allow.path),
        stands_for(deny@.method, deny.method),
        stands_for(deny@.path, deny.path),
        binary@ == binary.path@,
{
}

} // verus!
