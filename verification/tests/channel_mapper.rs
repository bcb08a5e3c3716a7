use openshell_fractal::channel_mapper::{
    compile_operations, host_from_registry, host_from_remote, host_from_url, map_git_hosts,
    map_github_shown, map_http_methods, map_llm_host, map_package_hosts, registry_url,
    remote_host_after, resolve_path, sanitize_name, str_arr, MappedChannel, SkippedChannel,
};
use openshell_fractal::json::Json;
use openshell_fractal::policy::NetworkPolicy;
use openshell_fractal::{map_all, map_channel, MappingResult, TypedChannelConfig};

fn texts(items: &[&str]) -> Json {
    Json::Array(items.iter().map(|s| Json::Text(s.to_string())).collect())
}

fn channel(name: &str, kind: &str, scope: Vec<(&str, Json)>) -> TypedChannelConfig {
    TypedChannelConfig {
        name: name.into(),
        kind: kind.into(),
        scope: Json::Object(scope.into_iter().map(|(k, v)| (k.to_string(), v)).collect()),
    }
}

fn mapped(result: MappingResult) -> MappedChannel {
    match result {
        MappingResult::Mapped(m) => m,
        MappingResult::Skipped(s) => panic!("expected Mapped: {:?}", s),
    }
}

fn skipped(result: MappingResult) -> SkippedChannel {
    match result {
        MappingResult::Skipped(s) => s,
        MappingResult::Mapped(m) => panic!("expected Skipped: {:?}", m),
    }
}

fn policy(m: &MappedChannel) -> &NetworkPolicy {
    assert_eq!(m.network_policies.len(), 1);
    &m.network_policies[0].1
}

fn paths(p: &NetworkPolicy) -> Vec<&str> {
    p.binaries.iter().map(|b| b.path.as_str()).collect()
}

#[test]
fn test_map_file_channel() {
    let channel = TypedChannelConfig {
        name: "workspace".into(),
        kind: "file".into(),
        scope: Json::Object(vec![
            ("allowedPaths".into(), texts(&["./workspace/**"])),
            ("protectedPaths".into(), texts(&[".env"])),
        ]),
    };
    let result = map_channel(&channel);
    match result {
        MappingResult::Mapped(m) => {
            assert!(m.filesystem.is_some());
            assert_eq!(m.anomalies.len(), 1); // protectedPaths warning
        }
        _ => panic!("expected Mapped"),
    }
}

#[test]
fn test_skip_stripe_channel() {
    let channel = TypedChannelConfig {
        name: "billing".into(),
        kind: "stripe".into(),
        scope: Json::Object(vec![]),
    };
    let result = map_channel(&channel);
    assert!(matches!(result, MappingResult::Skipped(_)));
}

#[test]
fn test_map_anthropic_channel() {
    let channel = TypedChannelConfig {
        name: "model".into(),
        kind: "anthropic".into(),
        scope: Json::Object(vec![]),
    };
    let result = map_channel(&channel);
    match result {
        MappingResult::Mapped(m) => {
            assert_eq!(m.network_policies.len(), 1);
            let policy = &m.network_policies[0].1;
            assert_eq!(policy.endpoints[0].host, "api.anthropic.com");
        }
        _ => panic!("expected Mapped"),
    }
}

#[test]
fn file_channel_in_full() {
    let c = channel(
        "ws",
        "file",
        vec![
            ("allowedPaths", texts(&["${input.repoPath}/src", "/data/${input.other}"])),
            ("protectedPaths", texts(&[".env"])),
        ],
    );
    let m = mapped(map_channel(&c));
    assert_eq!(m.channel_name, "ws");
    assert!(m.network_policies.is_empty());
    let fs = m.filesystem.unwrap();
    assert_eq!(
        fs.read_write.unwrap(),
        ["/sandbox", "/tmp", "/dev/null", "/sandbox/src", "/data/${input.other}"]
    );
    assert_eq!(
        fs.read_only.unwrap(),
        ["/usr", "/lib", "/dev/urandom", "/proc", "/app", "/etc", "/var/log"]
    );
    assert_eq!(m.anomalies, ["file channel 'ws': protectedPaths cannot be expressed as deny-list in OpenShell filesystem_policy. Ensure these paths are NOT granted write access elsewhere."]);
    let plain = mapped(map_channel(&channel("ws", "file", vec![])));
    assert!(plain.anomalies.is_empty());
    assert_eq!(plain.filesystem.unwrap().read_write.unwrap().len(), 3);
}

#[test]
fn http_channel_in_full() {
    let c = channel(
        "my api",
        "http",
        vec![
            ("allowedHosts", texts(&["a.com", "b.com"])),
            ("allowedMethods", texts(&["get", "Post", "stra\u{df}e"])),
        ],
    );
    let m = mapped(map_channel(&c));
    assert_eq!(m.network_policies[0].0, "fractal_http_my_api");
    let p = policy(&m);
    assert_eq!(p.name, "fractal_http_my api");
    assert_eq!(paths(p), ["/usr/local/bin/node"]);
    assert_eq!(p.endpoints.len(), 2);
    assert_eq!(p.endpoints[0].host, "a.com");
    let e = &p.endpoints[1];
    assert_eq!(e.host, "b.com");
    assert_eq!(e.port, Some(443));
    assert_eq!(e.protocol.as_deref(), Some("rest"));
    assert_eq!(e.tls.as_deref(), Some("terminate"));
    assert_eq!(e.enforcement.as_deref(), Some("enforce"));
    assert_eq!(e.access, None);
    let methods: Vec<_> =
        e.rules.iter().map(|r| r.allow.as_ref().unwrap().method.clone().unwrap()).collect();
    assert_eq!(methods, ["GET", "POST", "STRASSE"]);
    assert!(e.rules.iter().all(|r| r.deny.is_none() && r.allow.as_ref().unwrap().path.is_none()));
    assert!(m.filesystem.is_none() && m.anomalies.is_empty());

    let none = skipped(map_channel(&channel("n", "http", vec![("allowedMethods", texts(&["GET"]))])));
    assert_eq!(none.reason, "no allowedHosts configured");
    assert_eq!(none.kind, "http");
    assert_eq!(none.channel_name, "n");
}

#[test]
fn http_methods_are_taken_as_given() {
    let c = channel("x", "http", vec![("allowedHosts", texts(&["a.com"]))]);
    let m = mapped(map_http_methods(&c, &vec!["get".to_string()]));
    let rule = &policy(&m).endpoints[0].rules[0];
    assert_eq!(rule.allow.as_ref().unwrap().method.as_deref(), Some("get"));
}

#[test]
fn declared_binaries_take_the_place_of_the_defaults() {
    let c = channel(
        "x",
        "http",
        vec![("allowedHosts", texts(&["a.com"])), ("binaries", texts(&["/opt/bin/x", "/y"]))],
    );
    assert_eq!(paths(policy(&mapped(map_channel(&c)))), ["/opt/bin/x", "/y"]);
}

#[test]
fn llm_channels() {
    let hosts = [
        ("anthropic", "api.anthropic.com"),
        ("openai", "api.openai.com"),
        ("google-genai", "generativelanguage.googleapis.com"),
        ("cohere", "api.cohere.com"),
        ("mistral", "api.mistral.ai"),
    ];
    for (kind, host) in hosts {
        let m = mapped(map_channel(&channel("m", kind, vec![])));
        let p = policy(&m);
        assert_eq!(m.network_policies[0].0, format!("fractal_{}_m", kind));
        assert_eq!(p.endpoints.len(), 1);
        assert_eq!(p.endpoints[0].host, host);
        let allow = p.endpoints[0].rules[0].allow.as_ref().unwrap();
        assert_eq!(allow.method.as_deref(), Some("POST"));
        assert_eq!(allow.path.as_deref(), Some("/v1/**"));
        assert_eq!(m.anomalies, [format!("{} channel 'm': allowedModels/maxTokensPerCall/rate limits are Fractal-enforced (app-semantic); OpenShell network policy only constrains host+method.", kind)]);
    }
    let own = channel("m", "openai", vec![("baseUrl", Json::Text("https://LLM.internal:8443/v1".into()))]);
    assert_eq!(policy(&mapped(map_channel(&own))).endpoints[0].host, "llm.internal");
    let bad = channel("m", "openai", vec![("baseUrl", Json::Text("not a url".into()))]);
    assert_eq!(policy(&mapped(map_channel(&bad))).endpoints[0].host, "api.openai.com");
    let hostless = channel("m", "openai", vec![("baseUrl", Json::Text("mailto:a@b".into()))]);
    assert_eq!(policy(&mapped(map_channel(&hostless))).endpoints[0].host, "api.openai.com");
    let number = channel("m", "openai", vec![("baseUrl", Json::Bool(true))]);
    assert_eq!(policy(&mapped(map_channel(&number))).endpoints[0].host, "api.openai.com");
    let none = skipped(map_llm_host(&channel("m", "x", vec![]), "x", None));
    assert_eq!(none.reason, "no host resolvable from baseUrl or defaults");
}

#[test]
fn github_channel_with_repositories() {
    let c = channel(
        "gh",
        "github",
        vec![
            ("allowedRepos", texts(&["org/a", "org/b"])),
            ("allowedOperations", texts(&["mergePR", "listRepos", "nope", "getRepo", "o\"x"])),
        ],
    );
    let m = mapped(map_channel(&c));
    let p = policy(&m);
    assert_eq!(p.endpoints[0].host, "api.github.com");
    assert_eq!(p.endpoints[0].access.as_deref(), Some("read-only"));
    assert_eq!(paths(p), ["/usr/local/bin/node", "/usr/bin/git", "/usr/local/bin/git"]);
    let rules: Vec<(String, String)> = p.endpoints[0]
        .rules
        .iter()
        .map(|r| {
            let a = r.allow.as_ref().unwrap();
            (a.method.clone().unwrap(), a.path.clone().unwrap())
        })
        .collect();
    let expected = [
        ("PUT", "/repos/org/a/pulls/*/merge"),
        ("PUT", "/repos/org/b/pulls/*/merge"),
        ("GET", "/user/repos"),
        ("GET", "/user/repos"),
        ("GET", "/repos/org/a"),
        ("GET", "/repos/org/b"),
    ];
    assert_eq!(rules.len(), expected.len());
    for (r, e) in rules.iter().zip(expected) {
        assert_eq!((r.0.as_str(), r.1.as_str()), e);
    }
    assert_eq!(m.anomalies, ["github channel \"gh\": operations [\"nope\", \"o\\\"x\"] have no L7 method/path mapping; emitted rules cover only the mapped subset."]);
}

#[test]
fn github_operations_for_all_repositories() {
    let ops = [
        ("createPR", "POST", "/repos/**/pulls"),
        ("mergePR", "PUT", "/repos/**/pulls/*/merge"),
        ("listPRs", "GET", "/repos/**/pulls"),
        ("getPR", "GET", "/repos/**/pulls/*"),
        ("createIssue", "POST", "/repos/**/issues"),
        ("listIssues", "GET", "/repos/**/issues"),
        ("getIssue", "GET", "/repos/**/issues/*"),
        ("commentOnIssue", "POST", "/repos/**/issues/*/comments"),
        ("closeIssue", "PATCH", "/repos/**/issues/*"),
        ("listRepos", "GET", "/user/repos"),
        ("getRepo", "GET", "/repos/**"),
        ("createRelease", "POST", "/repos/**/releases"),
    ];
    for (op, method, path) in ops {
        let (rules, unmapped) = compile_operations(&vec![op.to_string()], &vec![]);
        assert!(unmapped.is_empty());
        assert_eq!(rules.len(), 1);
        let allow = rules[0].allow.as_ref().unwrap();
        assert_eq!(allow.method.as_deref(), Some(method));
        assert_eq!(allow.path.as_deref(), Some(path));
    }
    let ops = texts(&["getRepo", "nope", "op2"]);
    let m = mapped(map_channel(&channel("gh", "github", vec![("allowedOperations", ops)])));
    assert!(m.anomalies[0].starts_with("github channel \"gh\": operations [\"nope\", \"op2\"] have"));
    let c = channel("gh", "github", vec![("allowedOperations", texts(&["nope"]))]);
    let s = skipped(map_channel(&c));
    assert_eq!(s.reason, "no allowedOperations mapped to GitHub API endpoints");
    let c = channel("gh", "github", vec![("allowedOperations", texts(&["getRepo", "nope"]))]);
    let m = mapped(map_github_shown(&c, "<shown>"));
    assert_eq!(m.anomalies, ["github channel \"gh\": operations <shown> have no L7 method/path mapping; emitted rules cover only the mapped subset."]);
}

#[test]
fn git_channel_in_full() {
    let c = channel(
        "src",
        "git",
        vec![(
            "allowRemotes",
            texts(&["https://github.com/o/r.git", "git@gitlab.com:o/r.git", "mailto:a@b.com"]),
        )],
    );
    let m = mapped(map_channel(&c));
    let p = policy(&m);
    assert_eq!(p.name, "fractal_git_src");
    let hosts: Vec<_> = p.endpoints.iter().map(|e| e.host.as_str()).collect();
    assert_eq!(hosts, ["github.com", "gitlab.com"]);
    assert!(p.endpoints.iter().all(|e| e.access.as_deref() == Some("read-write") && e.rules.is_empty()));
    assert_eq!(paths(p), ["/usr/bin/git", "/usr/local/bin/git", "/usr/local/bin/node"]);
    assert_eq!(m.anomalies, ["git channel 'src': git can exfiltrate via commit+push. Review allowRemotes carefully."]);
    let s = skipped(map_channel(&channel("src", "git", vec![])));
    assert_eq!(s.reason, "no allowRemotes hosts resolvable");
    let given = mapped(map_git_hosts(&channel("src", "git", vec![]), &vec!["h".to_string()]));
    assert_eq!(policy(&given).endpoints[0].host, "h");
}

#[test]
fn package_channel_in_full() {
    let c = channel(
        "deps",
        "package",
        vec![("allowedRegistries", texts(&["registry.npmjs.org", "https://pypi.org/simple", "http:"]))],
    );
    let m = mapped(map_channel(&c));
    let p = policy(&m);
    let hosts: Vec<_> = p.endpoints.iter().map(|e| e.host.as_str()).collect();
    assert_eq!(hosts, ["registry.npmjs.org", "pypi.org"]);
    assert_eq!(
        paths(p),
        [
            "/usr/local/bin/node",
            "/usr/bin/npm",
            "/usr/bin/pnpm",
            "/usr/bin/yarn",
            "/usr/bin/pip3",
            "/usr/bin/uv"
        ]
    );
    assert_eq!(m.anomalies, ["package channel 'deps': lockfileEnforced/allowedPackages are Fractal-enforced (app-semantic); OpenShell network policy only constrains the registry host."]);
    let s = skipped(map_package_hosts(&c, &vec![]));
    assert_eq!(s.reason, "no allowedRegistries hosts resolvable");
    assert_eq!(s.kind, "package");
}

#[test]
fn platform_kinds_and_unknown_kinds_are_skipped() {
    let reasons = [
        ("postgres", "read-only via SQL inspection is unsound — use a Postgres read-only role"),
        ("sqlite", "read-only via SQL inspection is unsound — use a read-only DB file/role"),
        ("stripe", "duplicates Stripe's restricted-key + permission-scope model"),
        ("aws-s3", "duplicates AWS IAM — lean on roles, not JS bucket-scoping"),
        ("sqs", "duplicates AWS IAM"),
        ("docker", "native RBAC; JS re-scoping is a fragile duplicate"),
        ("kubernetes", "native RBAC; JS re-scoping is a fragile duplicate"),
        ("terraform", "native policy model; JS re-scoping is a fragile duplicate"),
        ("vault", "native policy model; JS re-scoping is a fragile duplicate"),
        ("github-actions", "native RBAC; JS re-scoping is a fragile duplicate"),
        ("browser", "allowedHosts overlaps OpenShell network policy — redundant"),
        ("ftp", "unknown kind 'ftp' — not in the keeper set; skipped to avoid false assurance"),
    ];
    for (kind, reason) in reasons {
        let c = channel("n", kind, vec![("allowedHosts", texts(&["a.com"]))]);
        let s = skipped(map_channel(&c));
        assert_eq!(s.reason, reason);
        assert_eq!(s.kind, kind);
        assert_eq!(s.channel_name, "n");
    }
}

#[test]
fn all_channels_are_mapped_in_order() {
    let list = vec![channel("a", "file", vec![]), channel("b", "sqs", vec![]), channel("c", "x", vec![])];
    let results = map_all(&list);
    assert_eq!(results.len(), 3);
    assert!(matches!(&results[0], MappingResult::Mapped(m) if m.channel_name == "a"));
    assert!(matches!(&results[1], MappingResult::Skipped(s) if s.channel_name == "b"));
    assert!(matches!(&results[2], MappingResult::Skipped(s) if s.channel_name == "c"));
    assert!(map_all(&[]).is_empty());
}

#[test]
fn scope_arrays_keep_their_texts_only() {
    let scope = Json::Object(vec![
        ("k".into(), texts(&["old"])),
        ("k".into(), Json::Array(vec![Json::Text("a".into()), Json::Bool(true), Json::Text("b".into())])),
    ]);
    assert_eq!(str_arr(&scope, "k"), ["a", "b"]);
    assert!(str_arr(&scope, "other").is_empty());
    assert!(str_arr(&Json::Text("k".into()), "k").is_empty());
    assert!(str_arr(&Json::Object(vec![("k".into(), Json::Text("a".into()))]), "k").is_empty());
}

#[test]
fn names_are_sanitized() {
    assert_eq!(sanitize_name("a b/c-d_e.9Z"), "a_b_c-d_e_9Z");
    assert_eq!(sanitize_name("\u{e9}\u{4e2d}\u{2192}"), "\u{e9}\u{4e2d}_");
    assert_eq!(sanitize_name(&sanitize_name("x y")), "x_y");
}

#[test]
fn paths_are_resolved() {
    assert_eq!(resolve_path("${input.repoPath}/a/${input.repoPath}"), "/sandbox/a//sandbox");
    assert_eq!(resolve_path("${input.x}/${input.repoPat}"), "${input.x}/${input.repoPat}");
    assert_eq!(resolve_path(""), "");
}

#[test]
fn hosts_are_found() {
    assert_eq!(host_from_url("https://Example.COM/x").as_deref(), Some("example.com"));
    assert_eq!(host_from_url("example.com"), None);
    assert_eq!(host_from_remote("git@github.com:o/r").as_deref(), Some("github.com"));
    assert_eq!(host_from_remote("github.com").as_deref(), Some("github.com"));
    assert_eq!(host_from_remote("ssh://git@h.example/o/r").as_deref(), Some("h.example"));
    assert_eq!(host_from_remote("").as_deref(), Some(""));
    assert_eq!(remote_host_after("a@b@c:d:e", None).as_deref(), Some("c"));
    assert_eq!(host_from_remote("github.com:org/repo.git").as_deref(), Some("github.com"));
    assert_eq!(host_from_remote("file:///srv/r"), None);
    assert_eq!(remote_host_after("h.x:o/r", Some(None)).as_deref(), Some("h.x"));
    assert_eq!(remote_host_after("a://b", Some(None)), None);
    assert_eq!(host_from_remote("mailto:a@b.com"), None);
    assert_eq!(remote_host_after("u@h.x:o/r", Some(None)).as_deref(), Some("h.x"));
    assert_eq!(remote_host_after("a@b", Some(None)), None);
    assert_eq!(remote_host_after("a", Some(Some("b".into()))).as_deref(), Some("b"));
    assert_eq!(registry_url("httpbin.org"), "httpbin.org");
    assert_eq!(registry_url("npm.x"), "https://npm.x");
    assert_eq!(host_from_registry("httpbin.org"), None);
    assert_eq!(host_from_registry("npm.x:8080/y").as_deref(), Some("npm.x"));
}
