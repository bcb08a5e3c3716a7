//! Constitutional validation: enforces Fractal's compile-time checks before any cell logic is allowed
//! to execute inside an OpenShell sandbox.
//!
//! Every cell must pass:
//!   - Structural SHA-256 signature verification
//!   - Banned-pattern scan (eval, fetch, process.env, Function constructor, etc.)
//!   - Classification tag consistency (taint inheritance)
//!   - Declassifier authorization (if the output classification is below the input)

use crate::classification::{inherits_taint, keeps_taint};
use crate::json::{Json, JsonView};
use crate::json_text::{compact_json, to_compact};
use crate::laws::law_scan_passes_iff_nothing_banned_matches;
use crate::laws_of_cells::{is_reported, law_scan_reports_exactly_what_matches, place};
use crate::outside::{
    called, dotted, hex_encode, hex_text, matches_anywhere, matches_plainly, regex_is_match,
    regex_match, sha256, sha256_digest, unanchored, within, word,
};
use crate::schema::{
    opt_view, views, CellLineage, CellView, CheckView, ConstitutionalCheck, ContractView,
    FractalCell, LineageView, PatternScanResult, PatternViolation, ScanView, ViolationSeverity,
    ViolationView,
};
use crate::text::{
    blank, contains, decimal, decimal_text, has_part, is_blank, lines, replace, replaced, same_text,
    split_lines, strings, texts,
};
use vstd::prelude::*;
use vstd::utf8::encode_utf8;

verus! {

/// Banned patterns that are constitutional hard-blocks.
///
/// These patterns represent escape-hatch access to host capabilities. Any cell containing them is
/// rejected before sandbox creation.
pub open spec fn banned_patterns() -> Seq<Seq<char>> {
    seq![
        "eval\\s*\\("@,
        "new\\s+Function\\s*\\("@,
        "process\\.env"@,
        "WebAssembly\\.(compile|instantiate|Module)"@,
        "fetch\\s*\\("@,
        "XMLHttpRequest"@,
        "require\\s*\\("@,
        "import\\s*\\(.*\\)"@,
        "globalThis"@,
        "Deno\\."@,
    ]
}

/// Warning patterns: they are flagged but do not block.
pub open spec fn warning_patterns() -> Seq<Seq<char>> {
    seq!["console\\.(log|warn|error|debug)\\s*\\("@, "setTimeout|setInterval"@]
}

/// The banned patterns.
pub fn list_banned_patterns() -> (r: Vec<String>)
    ensures
        texts(r@) == banned_patterns(),
{
    let r = strings(
        &[
            "eval\\s*\\(",
            "new\\s+Function\\s*\\(",
            "process\\.env",
            "WebAssembly\\.(compile|instantiate|Module)",
            "fetch\\s*\\(",
            "XMLHttpRequest",
            "require\\s*\\(",
            "import\\s*\\(.*\\)",
            "globalThis",
            "Deno\\.",
        ],
    );
    assert(texts(r@) == banned_patterns());
    r
}

/// The warning patterns.
pub fn list_warning_patterns() -> (r: Vec<String>)
    ensures
        texts(r@) == warning_patterns(),
{
    let r = strings(
        &["console\\.(log|warn|error|debug)\\s*\\(", "setTimeout|setInterval"],
    );
    assert(texts(r@) == warning_patterns());
    r
}

/// Tells whether a line holds the pattern, as it is written or without its `\s*`.
pub open spec fn line_shows(line: Seq<char>, pattern: Seq<char>) -> bool {
    has_part(line, pattern) || has_part(line, replaced(pattern, "\\s*"@, ""@))
}

/// The first of some lines that shows the pattern.
pub open spec fn first_line(list: Seq<Seq<char>>, pattern: Seq<char>) -> Option<nat>
    decreases list.len(),
{
    if list.len() == 0 {
        None
    } else if line_shows(list[0], pattern) {
        Some(0)
    } else {
        match first_line(list.skip(1), pattern) {
            Some(n) => Some(n + 1),
            None => None,
        }
    }
}

/// Where the logic shows the pattern: its first such line, counted from one.
pub open spec fn location(logic: Seq<char>, pattern: Seq<char>) -> Option<Seq<char>> {
    match first_line(lines(logic), pattern) {
        Some(n) => Some("line "@ + decimal(n + 1)),
        None => None,
    }
}

/// Where the logic shows the pattern.
pub fn find_location(logic: &str, pattern: &str) -> (r: Option<String>)
    ensures
        opt_view(r) == location(logic@, pattern@),
{
    let list = split_lines(logic);
    proof {
        reveal_strlit("\\s*");
    }
    let bare = replace(pattern, "\\s*", "");
    let ghost all = lines(logic@);
    assert(all.skip(0) == all);
    for i in 0..list.len()
        invariant
            all == texts(list@),
            all == lines(logic@),
            list@.len() <= usize::MAX,
            bare@ == replaced(pattern@, "\\s*"@, ""@),
            first_line(all, pattern@) == match first_line(all.skip(i as int), pattern@) {
                Some(n) => Some((n + i) as nat),
                None => None,
            },
    {
        assert(all.skip(i as int).skip(1) == all.skip(i + 1));
        assert(all[i as int] == list@[i as int]@);
        if contains(list[i].as_str(), pattern) || contains(list[i].as_str(), bare.as_str()) {
            let mut out = "line ".to_owned();
            let number = decimal_text(i as u128 + 1);
            out.append(number.as_str());
            return Some(out);
        }
    }
    assert(all.skip(list@.len() as int).len() == 0);
    None
}

/// What a pattern that matches is reported as.
pub open spec fn violation(
    pattern: Seq<char>,
    logic: Seq<char>,
    severity: ViolationSeverity,
) -> ViolationView {
    ViolationView { pattern, location: location(logic, pattern), severity }
}

/// The violations of those patterns for which `hits` holds, in order.
pub open spec fn violations_of(
    patterns: Seq<Seq<char>>,
    hits: Seq<bool>,
    logic: Seq<char>,
    severity: ViolationSeverity,
) -> Seq<ViolationView>
    decreases patterns.len(),
{
    if patterns.len() == 0 {
        Seq::empty()
    } else {
        let earlier = violations_of(patterns.drop_last(), hits.drop_last(), logic, severity);
        if hits.last() {
            earlier.push(violation(patterns.last(), logic, severity))
        } else {
            earlier
        }
    }
}

/// Tells whether a list holds a violation of the given severity.
pub open spec fn has_severity(list: Seq<ViolationView>, severity: ViolationSeverity) -> bool {
    exists|i: int| 0 <= i < list.len() && (#[trigger] list[i]).severity == severity
}

/// The result of a scan in which the banned and the warning patterns matched as given. The scan
/// passes if nothing blocks.
pub open spec fn scan_of(logic: Seq<char>, banned: Seq<bool>, warned: Seq<bool>) -> ScanView {
    let violations = violations_of(banned_patterns(), banned, logic, ViolationSeverity::Block)
        + violations_of(warning_patterns(), warned, logic, ViolationSeverity::Warn);
    ScanView { passed: !has_severity(violations, ViolationSeverity::Block), violations }
}

/// Which of some patterns match in the logic. One that does not compile does not match.
pub open spec fn pattern_hits(patterns: Seq<Seq<char>>, logic: Seq<char>) -> Seq<bool> {
    patterns.map_values(|p: Seq<char>| regex_match(p, logic) == Some(true))
}

/// The result of scanning some logic.
pub open spec fn scan(logic: Seq<char>) -> ScanView {
    scan_of(
        logic,
        pattern_hits(banned_patterns(), logic),
        pattern_hits(warning_patterns(), logic),
    )
}

/// Tells whether a list holds a violation of the given severity.
pub fn any_severity(list: &Vec<PatternViolation>, severity: ViolationSeverity) -> (r: bool)
    ensures
        r == has_severity(views(list@), severity),
{
    for i in 0..list.len()
        invariant
            forall|j: int| 0 <= j < i ==> (#[trigger] list@[j]).severity != severity,
    {
        if list[i].severity == severity {
            assert(views(list@)[i as int].severity == severity);
            return true;
        }
    }
    assert forall|j: int| 0 <= j < views(list@).len() implies (#[trigger] views(
        list@,
    )[j]).severity != severity by {
        assert(views(list@)[j].severity == list@[j].severity);
    }
    false
}

fn add_violations(
    out: &mut Vec<PatternViolation>,
    patterns: &Vec<String>,
    hits: &Vec<bool>,
    logic: &str,
    severity: ViolationSeverity,
)
    requires
        hits@.len() == patterns@.len(),
    ensures
        views(final(out)@) == views(old(out)@) + violations_of(
            texts(patterns@),
            hits@,
            logic@,
            severity,
        ),
{
    let ghost start = views(out@);
    let ghost all = texts(patterns@);
    assert(start + Seq::<ViolationView>::empty() == start);
    for i in 0..patterns.len()
        invariant
            hits@.len() == patterns@.len(),
            all == texts(patterns@),
            start == views(old(out)@),
            views(out@) == start + violations_of(
                all.take(i as int),
                hits@.take(i as int),
                logic@,
                severity,
            ),
    {
        let ghost earlier = violations_of(
            all.take(i as int),
            hits@.take(i as int),
            logic@,
            severity,
        );
        proof {
            assert(all.take(i + 1).drop_last() == all.take(i as int));
            assert(hits@.take(i + 1).drop_last() == hits@.take(i as int));
            assert(all.take(i + 1).last() == patterns@[i as int]@);
        }
        if hits[i] {
            let found = PatternViolation {
                pattern: patterns[i].clone(),
                location: find_location(logic, patterns[i].as_str()),
                severity,
            };
            proof {
                assert(views(out@.push(found)) == views(out@).push(found@));
                assert((start + earlier).push(found@) == start + earlier.push(found@));
            }
            out.push(found);
        }
    }
    assert(all.take(patterns@.len() as int) == all);
    assert(hits@.take(patterns@.len() as int) == hits@);
}

/// The result of a scan in which the banned and the warning patterns matched as given.
pub fn scan_with_hits(logic: &str, banned: &Vec<bool>, warned: &Vec<bool>) -> (r: PatternScanResult)
    requires
        banned@.len() == banned_patterns().len(),
        warned@.len() == warning_patterns().len(),
    ensures
        r@ == scan_of(logic@, banned@, warned@),
{
    let mut violations: Vec<PatternViolation> = Vec::new();
    assert(views(violations@) == Seq::<ViolationView>::empty());
    let blocks = list_banned_patterns();
    let warnings = list_warning_patterns();
    assert(texts(blocks@).len() == blocks@.len() && texts(warnings@).len() == warnings@.len());
    add_violations(&mut violations, &blocks, banned, logic, ViolationSeverity::Block);
    assert(views(violations@) == violations_of(
        banned_patterns(),
        banned@,
        logic@,
        ViolationSeverity::Block,
    ));
    add_violations(&mut violations, &warnings, warned, logic, ViolationSeverity::Warn);
    PatternScanResult {
        passed: !any_severity(&violations, ViolationSeverity::Block),
        violations,
    }
}

fn find_hits(patterns: &Vec<String>, logic: &str) -> (r: Vec<bool>)
    ensures
        r@ == pattern_hits(texts(patterns@), logic@),
        forall|i: int|
            0 <= i < r@.len() ==> matches_plainly(texts(patterns@)[i], logic@, #[trigger] r@[i]),
        forall|i: int|
            0 <= i < r@.len() ==> matches_anywhere(texts(patterns@)[i], logic@, #[trigger] r@[i]),
{
    let mut out: Vec<bool> = Vec::new();
    let ghost all = pattern_hits(texts(patterns@), logic@);
    for i in 0..patterns.len()
        invariant
            all == pattern_hits(texts(patterns@), logic@),
            out@ == all.take(i as int),
            forall|j: int|
                0 <= j < i ==> matches_plainly(texts(patterns@)[j], logic@, #[trigger] out@[j]),
            forall|j: int|
                0 <= j < i ==> matches_anywhere(texts(patterns@)[j], logic@, #[trigger] out@[j]),
    {
        let hit = match regex_is_match(patterns[i].as_str(), logic) {
            Some(matched) => matched,
            None => false,
        };
        assert(all[i as int] == (regex_match(patterns@[i as int]@, logic@) == Some(true)));
        out.push(hit);
    }
    out
}

/// Texts that no logic may hold: what the banned patterns ask for, written plainly.
pub open spec fn banned_texts() -> Seq<Seq<char>> {
    seq![
        "eval("@,
        "process.env"@,
        "fetch("@,
        "XMLHttpRequest"@,
        "require("@,
        "globalThis"@,
        "Deno."@,
    ]
}

/// Tells whether some logic holds a text that no logic may hold.
pub open spec fn shows_banned_text(logic: Seq<char>) -> bool {
    exists|i: int| 0 <= i < banned_texts().len() && has_part(logic, #[trigger] banned_texts()[i])
}

/// Logic that holds a banned text is hit by a banned pattern.
proof fn lemma_banned_text_is_hit(logic: Seq<char>, hits: Seq<bool>)
    requires
        hits.len() == banned_patterns().len(),
        forall|i: int|
            0 <= i < hits.len() ==> matches_plainly(banned_patterns()[i], logic, #[trigger] hits[i]),
        shows_banned_text(logic),
    ensures
        exists|i: int| 0 <= i < hits.len() && #[trigger] hits[i],
{
    reveal_strlit("eval\\s*\\(");
    reveal_strlit("process\\.env");
    reveal_strlit("fetch\\s*\\(");
    reveal_strlit("XMLHttpRequest");
    reveal_strlit("require\\s*\\(");
    reveal_strlit("globalThis");
    reveal_strlit("Deno\\.");
    reveal_strlit("eval");
    reveal_strlit("fetch");
    reveal_strlit("require");
    reveal_strlit("process");
    reveal_strlit("env");
    reveal_strlit("Deno");
    reveal_strlit("");
    reveal_strlit("eval(");
    reveal_strlit("fetch(");
    reveal_strlit("require(");
    reveal_strlit("process.env");
    reveal_strlit("Deno.");
    reveal_strlit("\\s*\\(");
    reveal_strlit("\\.");
    reveal_strlit("(");
    reveal_strlit(".");
    let patterns = banned_patterns();
    assert(patterns[0] =~= called("eval"@) && "eval("@ =~= "eval"@ + "("@ && word("eval"@));
    assert(patterns[2] =~= dotted("process"@, "env"@) && word("process"@) && word("env"@));
    assert("process.env"@ =~= "process"@ + "."@ + "env"@);
    assert(patterns[4] =~= called("fetch"@) && "fetch("@ =~= "fetch"@ + "("@ && word("fetch"@));
    assert(patterns[5] == "XMLHttpRequest"@ && word("XMLHttpRequest"@));
    assert(patterns[6] =~= called("require"@) && "require("@ =~= "require"@ + "("@);
    assert(word("require"@));
    assert(patterns[8] == "globalThis"@ && word("globalThis"@));
    assert(patterns[9] =~= dotted("Deno"@, ""@) && word("Deno"@) && word(""@));
    assert("Deno."@ =~= "Deno"@ + "."@ + ""@);
    assert(hits[0] || hits[2] || hits[4] || hits[5] || hits[6] || hits[8] || hits[9]) by {
        let i = choose|i: int|
            0 <= i < banned_texts().len() && has_part(logic, #[trigger] banned_texts()[i]);
        assert(matches_plainly(patterns[0], logic, hits[0]));
        assert(matches_plainly(patterns[2], logic, hits[2]));
        assert(matches_plainly(patterns[4], logic, hits[4]));
        assert(matches_plainly(patterns[5], logic, hits[5]));
        assert(matches_plainly(patterns[6], logic, hits[6]));
        assert(matches_plainly(patterns[8], logic, hits[8]));
        assert(matches_plainly(patterns[9], logic, hits[9]));
    }
}

/// Tells whether a scan reports a pattern.
pub open spec fn reports(scan: ScanView, pattern: Seq<char>) -> bool {
    exists|i: int| 0 <= i < scan.violations.len() && (#[trigger] scan.violations[i]).pattern == pattern
}

/// Tells whether a pattern of a list hits.
pub open spec fn hit_by(patterns: Seq<Seq<char>>, hits: Seq<bool>, pattern: Seq<char>) -> bool {
    exists|i: int| 0 <= i < hits.len() && #[trigger] hits[i] && patterns[i] == pattern
}

proof fn lemma_violations_report(
    patterns: Seq<Seq<char>>,
    hits: Seq<bool>,
    logic: Seq<char>,
    severity: ViolationSeverity,
    pattern: Seq<char>,
)
    requires
        patterns.len() == hits.len(),
    ensures
        ({
            let list = violations_of(patterns, hits, logic, severity);
            hit_by(patterns, hits, pattern) <==> exists|i: int|
                0 <= i < list.len() && (#[trigger] list[i]).pattern == pattern
        }),
    decreases patterns.len(),
{
    if patterns.len() > 0 {
        let (p, h) = (patterns.drop_last(), hits.drop_last());
        lemma_violations_report(p, h, logic, severity, pattern);
        let earlier = violations_of(p, h, logic, severity);
        let list = violations_of(patterns, hits, logic, severity);
        if hit_by(patterns, hits, pattern) {
            let i = choose|i: int|
                0 <= i < hits.len() && #[trigger] hits[i] && patterns[i] == pattern;
            if i < hits.len() - 1 {
                assert(h[i] && p[i] == pattern);
                let k = choose|k: int|
                    0 <= k < earlier.len() && (#[trigger] earlier[k]).pattern == pattern;
                assert(list[k] == earlier[k]);
            } else {
                assert(list[list.len() - 1].pattern == pattern);
            }
        }
        if exists|k: int| 0 <= k < list.len() && (#[trigger] list[k]).pattern == pattern {
            let k = choose|k: int| 0 <= k < list.len() && (#[trigger] list[k]).pattern == pattern;
            if k < earlier.len() {
                assert(earlier[k].pattern == pattern);
                let i = choose|i: int| 0 <= i < h.len() && #[trigger] h[i] && p[i] == pattern;
                assert(hits[i] && patterns[i] == pattern);
            } else {
                assert(hits[hits.len() - 1]);
            }
        }
    }
}

/// A scan reports exactly the patterns that hit.
pub proof fn lemma_scan_reports(
    logic: Seq<char>,
    banned: Seq<bool>,
    warned: Seq<bool>,
    pattern: Seq<char>,
)
    requires
        banned.len() == banned_patterns().len(),
        warned.len() == warning_patterns().len(),
    ensures
        reports(scan_of(logic, banned, warned), pattern) <==> hit_by(
            banned_patterns(),
            banned,
            pattern,
        ) || hit_by(warning_patterns(), warned, pattern),
{
    let blocks = violations_of(banned_patterns(), banned, logic, ViolationSeverity::Block);
    let warnings = violations_of(warning_patterns(), warned, logic, ViolationSeverity::Warn);
    lemma_violations_report(banned_patterns(), banned, logic, ViolationSeverity::Block, pattern);
    lemma_violations_report(warning_patterns(), warned, logic, ViolationSeverity::Warn, pattern);
    let all = scan_of(logic, banned, warned).violations;
    if hit_by(banned_patterns(), banned, pattern) {
        let k = choose|k: int| 0 <= k < blocks.len() && (#[trigger] blocks[k]).pattern == pattern;
        assert(all[k] == blocks[k]);
    }
    if hit_by(warning_patterns(), warned, pattern) {
        let k = choose|k: int|
            0 <= k < warnings.len() && (#[trigger] warnings[k]).pattern == pattern;
        assert(all[blocks.len() + k] == warnings[k]);
    }
    if reports(scan_of(logic, banned, warned), pattern) {
        let k = choose|k: int| 0 <= k < all.len() && (#[trigger] all[k]).pattern == pattern;
        if k < blocks.len() {
            assert(blocks[k].pattern == pattern);
        } else {
            assert(warnings[k - blocks.len()].pattern == pattern);
        }
    }
}

/// The patterns ask nothing of what stands around a match.
proof fn lemma_patterns_are_unanchored()
    ensures
        forall|i: int|
            0 <= i < banned_patterns().len() ==> unanchored(#[trigger] banned_patterns()[i]),
        forall|i: int|
            0 <= i < warning_patterns().len() ==> unanchored(#[trigger] warning_patterns()[i]),
{
    reveal_strlit("eval\\s*\\(");
    reveal_strlit("new\\s+Function\\s*\\(");
    reveal_strlit("process\\.env");
    reveal_strlit("WebAssembly\\.(compile|instantiate|Module)");
    reveal_strlit("fetch\\s*\\(");
    reveal_strlit("XMLHttpRequest");
    reveal_strlit("require\\s*\\(");
    reveal_strlit("import\\s*\\(.*\\)");
    reveal_strlit("globalThis");
    reveal_strlit("Deno\\.");
    reveal_strlit("console\\.(log|warn|error|debug)\\s*\\(");
    reveal_strlit("setTimeout|setInterval");
    assert(unanchored("eval\\s*\\("@));
    assert(unanchored("new\\s+Function\\s*\\("@));
    assert(unanchored("process\\.env"@));
    assert(unanchored("WebAssembly\\.(compile|instantiate|Module)"@));
    assert(unanchored("fetch\\s*\\("@));
    assert(unanchored("XMLHttpRequest"@));
    assert(unanchored("require\\s*\\("@));
    assert(unanchored("import\\s*\\(.*\\)"@));
    assert(unanchored("globalThis"@));
    assert(unanchored("Deno\\."@));
    assert(unanchored("console\\.(log|warn|error|debug)\\s*\\("@));
    assert(unanchored("setTimeout|setInterval"@));
}

/// What hits in some logic hits in all logic that holds it.
proof fn lemma_hits_stay(
    patterns: Seq<Seq<char>>,
    hits: Seq<bool>,
    logic: Seq<char>,
    before: Seq<char>,
    after: Seq<char>,
)
    requires
        hits == pattern_hits(patterns, logic),
        forall|i: int| 0 <= i < patterns.len() ==> unanchored(#[trigger] patterns[i]),
        forall|i: int|
            0 <= i < hits.len() ==> matches_anywhere(patterns[i], logic, #[trigger] hits[i]),
    ensures
        forall|i: int|
            0 <= i < hits.len() && #[trigger] hits[i] ==> pattern_hits(
                patterns,
                within(before, logic, after),
            )[i],
        forall|p: Seq<char>|
            hit_by(patterns, hits, p) ==> #[trigger] hit_by(
                patterns,
                pattern_hits(patterns, within(before, logic, after)),
                p,
            ),
{
    let more = pattern_hits(patterns, within(before, logic, after));
    assert forall|i: int| 0 <= i < hits.len() && #[trigger] hits[i] implies more[i] by {
        assert(unanchored(patterns[i]));
        assert(matches_anywhere(patterns[i], logic, hits[i]));
        assert(regex_match(patterns[i], within(before, logic, after)) == Some(true));
    }
    assert forall|p: Seq<char>| hit_by(patterns, hits, p) implies #[trigger] hit_by(
        patterns,
        more,
        p,
    ) by {
        let i = choose|i: int| 0 <= i < hits.len() && #[trigger] hits[i] && patterns[i] == p;
        assert(more[i] && patterns[i] == p);
    }
}

/// Scans cell logic for banned and warning patterns. It reports exactly those that match. Logic that holds a banned text never passes. Text
/// before and after the logic takes no report away, and makes no logic pass that does not.
pub fn scan_patterns(logic: &str) -> (r: PatternScanResult)
    ensures
        r@ == scan(logic@),
        forall|pattern: Seq<char>|
            #[trigger] is_reported(r@.violations, pattern) <==> place(pattern) >= 0 && regex_match(
                pattern,
                logic@,
            ) == Some(true),
        shows_banned_text(logic@) ==> !r.passed,
        forall|before: Seq<char>, after: Seq<char>, pattern: Seq<char>|
            reports(r@, pattern) ==> #[trigger] reports(
                scan(within(before, logic@, after)),
                pattern,
            ),
        !r.passed ==> forall|before: Seq<char>, after: Seq<char>|
            !scan(#[trigger] within(before, logic@, after)).passed,
{
    let banned = find_hits(&list_banned_patterns(), logic);
    let warned = find_hits(&list_warning_patterns(), logic);
    let r = scan_with_hits(logic, &banned, &warned);
    proof {
        if shows_banned_text(logic@) {
            lemma_banned_text_is_hit(logic@, banned@);
        }
        law_scan_passes_iff_nothing_banned_matches(logic@, banned@, warned@);
        assert forall|pattern: Seq<char>|
            #[trigger] is_reported(r@.violations, pattern) <==> place(pattern) >= 0 && regex_match(
                pattern,
                logic@,
            ) == Some(true) by {
            law_scan_reports_exactly_what_matches(logic@, pattern, 0, 0);
        }
        lemma_patterns_are_unanchored();
        assert forall|before: Seq<char>, after: Seq<char>, pattern: Seq<char>|
            reports(r@, pattern) implies #[trigger] reports(
            scan(within(before, logic@, after)),
            pattern,
        ) by {
            let whole = within(before, logic@, after);
            lemma_hits_stay(banned_patterns(), banned@, logic@, before, after);
            lemma_hits_stay(warning_patterns(), warned@, logic@, before, after);
            lemma_scan_reports(logic@, banned@, warned@, pattern);
            lemma_scan_reports(
                whole,
                pattern_hits(banned_patterns(), whole),
                pattern_hits(warning_patterns(), whole),
                pattern,
            );
        }
        assert forall|before: Seq<char>, after: Seq<char>| !r.passed implies !scan(
            #[trigger] within(before, logic@, after),
        ).passed by {
            let whole = within(before, logic@, after);
            lemma_hits_stay(banned_patterns(), banned@, logic@, before, after);
            law_scan_passes_iff_nothing_banned_matches(
                whole,
                pattern_hits(banned_patterns(), whole),
                pattern_hits(warning_patterns(), whole),
            );
            let i = choose|i: int| 0 <= i < banned@.len() && #[trigger] banned@[i];
            assert(pattern_hits(banned_patterns(), whole)[i]);
        }
    }
    r
}

// The structural signature.

/// A text as JSON.
pub open spec fn json_string(s: Seq<char>) -> Seq<char> {
    compact_json(JsonView::Text(s))
}

/// A contract as JSON.
pub open spec fn contract_json(contract: ContractView) -> Seq<char> {
    "{\"input\":"@ + compact_json(contract.input) + ",\"output\":"@ + compact_json(contract.output)
        + "}"@
}

/// A lineage as JSON.
pub open spec fn lineage_json(lineage: LineageView) -> Seq<char> {
    "{\"source\":"@ + json_string(lineage.source) + ",\"trigger\":"@ + json_string(lineage.trigger)
        + ",\"justification\":"@ + json_string(lineage.justification) + ",\"signature\":"@
        + json_string(lineage.signature) + "}"@
}

/// The bytes that the structural signature of a cell covers: identity, contract, logic and lineage,
/// with a zero byte between each two. The signature field itself is not among them.
pub open spec fn preimage(cell: CellView) -> Seq<u8> {
    encode_utf8(cell.identity.name) + seq![0u8] + encode_utf8(
        json_string(cell.identity.cell_type.spec_tag()),
    ) + seq![0u8] + encode_utf8(cell.identity.version) + seq![0u8] + encode_utf8(
        contract_json(cell.contract),
    ) + seq![0u8] + encode_utf8(cell.logic) + seq![0u8] + encode_utf8(lineage_json(cell.lineage))
}

/// The structural signature of a cell: the SHA-256 digest of what it covers, in hexadecimal.
pub open spec fn structural_hash(cell: CellView) -> Seq<char> {
    hex_text(sha256(preimage(cell)))
}

fn quote(s: &String) -> (r: String)
    ensures
        r@ == json_string(s@),
{
    to_compact(&Json::Text(s.clone()))
}

fn write_contract(cell: &FractalCell) -> (r: String)
    ensures
        r@ == contract_json(cell@.contract),
{
    let mut out = "{\"input\":".to_owned();
    out.append(to_compact(&cell.contract.input).as_str());
    out.append(",\"output\":");
    out.append(to_compact(&cell.contract.output).as_str());
    out.append("}");
    out
}

fn write_lineage(lineage: &CellLineage) -> (r: String)
    ensures
        r@ == lineage_json(lineage@),
{
    let mut out = "{\"source\":".to_owned();
    out.append(quote(&lineage.source).as_str());
    out.append(",\"trigger\":");
    out.append(quote(&lineage.trigger).as_str());
    out.append(",\"justification\":");
    out.append(quote(&lineage.justification).as_str());
    out.append(",\"signature\":");
    out.append(quote(&lineage.signature).as_str());
    out.append("}");
    out
}

fn add_bytes(out: &mut Vec<u8>, s: &str)
    ensures
        final(out)@ == old(out)@ + encode_utf8(s@),
{
    let bytes = s.as_bytes();
    let ghost start = out@;
    assert(start + bytes@.take(0) == start);
    for i in 0..bytes.len()
        invariant
            start == old(out)@,
            bytes@ == encode_utf8(s@),
            out@ == start + bytes@.take(i as int),
    {
        out.push(bytes[i]);
        assert(start + bytes@.take(i + 1) == (start + bytes@.take(i as int)).push(
            bytes@[i as int],
        ));
    }
    assert(bytes@.take(bytes@.len() as int) == bytes@);
}

fn add_separator(out: &mut Vec<u8>)
    ensures
        final(out)@ == old(out)@ + seq![0u8],
{
    out.push(0);
    assert(out@ == old(out)@ + seq![0u8]);
}

/// The bytes that the structural signature of a cell covers.
pub fn structural_preimage(cell: &FractalCell) -> (r: Vec<u8>)
    ensures
        r@ == preimage(cell@),
{
    let mut out: Vec<u8> = Vec::new();
    add_bytes(&mut out, cell.identity.name.as_str());
    assert(out@ == encode_utf8(cell.identity.name@));
    add_separator(&mut out);
    add_bytes(&mut out, quote(&cell.identity.cell_type.tag().to_owned()).as_str());
    add_separator(&mut out);
    add_bytes(&mut out, cell.identity.version.as_str());
    add_separator(&mut out);
    add_bytes(&mut out, write_contract(cell).as_str());
    add_separator(&mut out);
    add_bytes(&mut out, cell.logic.as_str());
    add_separator(&mut out);
    add_bytes(&mut out, write_lineage(&cell.lineage).as_str());
    out
}

/// Computes the SHA-256 structural signature of a cell.
///
/// Covers identity, contract, logic and lineage, but not the signature field itself.
pub fn compute_structural_hash(cell: &FractalCell) -> (r: String)
    ensures
        r@ == structural_hash(cell@),
        r@.len() == 64,
{
    let digest = sha256_digest(structural_preimage(cell).as_slice());
    hex_encode(digest.as_slice())
}

// The checks.

/// A lineage is complete if all of its fields hold something.
pub open spec fn lineage_complete(lineage: LineageView) -> bool {
    lineage.source.len() > 0 && lineage.trigger.len() > 0 && lineage.justification.len() > 0
        && lineage.signature.len() > 0
}

/// Tells whether all fields of a lineage hold something.
pub fn is_lineage_valid(lineage: &CellLineage) -> (r: bool)
    ensures
        r == lineage_complete(lineage@),
{
    !lineage.source.as_str().is_empty() && !lineage.trigger.as_str().is_empty()
        && !lineage.justification.as_str().is_empty() && !lineage.signature.as_str().is_empty()
}

/// The ten checks of a cell, given its structural signature, its pattern scan, and what was decided on
/// it as a declassifier, if anything was.
pub open spec fn checks(
    cell: CellView,
    hash: Seq<char>,
    scan: ScanView,
    approval: Option<bool>,
) -> Seq<bool> {
    let inherits = inherits_taint(cell.contract.input, cell.contract.output);
    seq![
        // Identity completeness
        cell.identity.name.len() > 0 && cell.identity.version.len() > 0,
        // Contract presence
        cell.contract.input is Object && cell.contract.output is Object,
        // Logic body present
        !blank(cell.logic),
        // Lineage completeness
        lineage_complete(cell.lineage),
        // Structural signature
        cell.signature == Some(hash),
        // No hard-block patterns
        !has_severity(scan.violations, ViolationSeverity::Block),
        // Logging hygiene
        !has_severity(scan.violations, ViolationSeverity::Warn),
        // Pattern scan overall
        scan.passed,
        // Taint inheritance
        inherits,
        // Declassifier authorization: what lowers a level takes the approval of a human
        inherits || approval == Some(true),
    ]
}

/// How many of some checks passed.
pub open spec fn count_passed(list: Seq<bool>) -> nat
    decreases list.len(),
{
    if list.len() == 0 {
        0
    } else {
        count_passed(list.drop_last()) + if list.last() {
            1nat
        } else {
            0nat
        }
    }
}

/// At most all checks pass.
pub proof fn lemma_count_passed(list: Seq<bool>)
    ensures
        count_passed(list) <= list.len(),
        count_passed(list) == list.len() <==> forall|i: int| 0 <= i < list.len() ==> list[i],
    decreases list.len(),
{
    if list.len() > 0 {
        let shorter = list.drop_last();
        lemma_count_passed(shorter);
        if count_passed(list) == list.len() {
            assert forall|i: int| 0 <= i < list.len() implies list[i] by {
                if i < list.len() - 1 {
                    assert(shorter[i]);
                }
            }
        }
        if forall|i: int| 0 <= i < list.len() ==> list[i] {
            assert forall|i: int| 0 <= i < shorter.len() implies shorter[i] by {
                assert(list[i]);
            }
        }
    }
}

/// The constitutional check of a cell, given its structural signature, its pattern scan, and what was
/// decided on it as a declassifier.
pub open spec fn check_of(
    cell: CellView,
    hash: Seq<char>,
    scan: ScanView,
    approval: Option<bool>,
) -> CheckView {
    CheckView {
        structural_hash: hash,
        pattern_scan: scan,
        classification_valid: inherits_taint(cell.contract.input, cell.contract.output),
        declassifier_approved: approval,
        checks_passed: count_passed(checks(cell, hash, scan, approval)) as u8,
        checks_total: 10,
    }
}

/// The constitutional check of a cell on which no human has decided.
pub open spec fn check(cell: CellView) -> CheckView {
    check_of(cell, structural_hash(cell), scan(cell.logic), None)
}

/// Checks a cell whose structural signature and pattern scan are given. `approval` is what a human has
/// decided on the cell as a declassifier, if anything.
pub fn assess_cell(
    cell: &FractalCell,
    structural_hash: String,
    pattern_scan: PatternScanResult,
    approval: Option<bool>,
) -> (r: ConstitutionalCheck)
    ensures
        r@ == check_of(cell@, structural_hash@, pattern_scan@, approval),
{
    let classification_valid = keeps_taint(&cell.contract.input, &cell.contract.output);
    let approved = match approval {
        Some(decision) => decision,
        None => false,
    };
    let signed = match &cell.signature {
        Some(signature) => same_text(signature.as_str(), structural_hash.as_str()),
        None => false,
    };
    let results: [bool; 10] = [
        !cell.identity.name.as_str().is_empty() && !cell.identity.version.as_str().is_empty(),
        cell.contract.input.is_object() && cell.contract.output.is_object(),
        !is_blank(cell.logic.as_str()),
        is_lineage_valid(&cell.lineage),
        signed,
        !any_severity(&pattern_scan.violations, ViolationSeverity::Block),
        !any_severity(&pattern_scan.violations, ViolationSeverity::Warn),
        pattern_scan.passed,
        classification_valid,
        classification_valid || approved,
    ];
    let ghost list = checks(cell@, structural_hash@, pattern_scan@, approval);
    assert(results@ == list);
    let mut checks_passed: u8 = 0;
    for i in 0..10
        invariant
            results@ == list,
            list.len() == 10,
            checks_passed <= i,
            checks_passed == count_passed(list.take(i as int)),
    {
        assert(list.take(i + 1).drop_last() == list.take(i as int));
        if results[i] {
            checks_passed = checks_passed + 1;
        }
    }
    assert(list.take(10) == list);
    ConstitutionalCheck {
        structural_hash,
        pattern_scan,
        classification_valid,
        declassifier_approved: approval,
        checks_passed,
        checks_total: 10,
    }
}

/// Runs constitutional checks against a Fractal cell.
///
/// Returns a `ConstitutionalCheck` with the results. If `pattern_scan.passed` is false, the cell must
/// not be executed; so it is wherever the logic holds a banned text. No human has decided on the cell: one
/// whose output is less sensitive than its input does not pass.
pub fn validate_cell(cell: &FractalCell) -> (r: ConstitutionalCheck)
    ensures
        r@ == check(cell@),
        forall|pattern: Seq<char>|
            #[trigger] is_reported(r@.pattern_scan.violations, pattern) <==> place(pattern) >= 0
                && regex_match(pattern, cell@.logic) == Some(true),
        shows_banned_text(cell@.logic) ==> !r.pattern_scan.passed,
{
    let pattern_scan = scan_patterns(cell.logic.as_str());
    assess_cell(cell, compute_structural_hash(cell), pattern_scan, None)
}

} // verus!
