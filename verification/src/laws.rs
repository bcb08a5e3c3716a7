//! What holds of the library as a whole.

use crate::cell_file::{cell_of, cell_type_of};
use crate::cell_runner::{admitted, approved, cell_outcome, outcome, plan_of, refusal, ErrorView};
use crate::channel_mapper::{
    allow_rule, git_mapping, github_operation, github_rules, http_mapping, keyed, llm_channel_host,
    llm_host, mapping, names_scp_host, operation_rules, package_mapping, remote_host,
    repository_path, resolved, sanitized, scope_texts, skip_reason, MappingView,
};
use crate::classification::{covers, has_level, highest, inherits_taint};
use crate::constitution::{
    banned_patterns, banned_texts, check, check_of, checks, contract_json, count_passed, first_line,
    has_severity, json_string, lemma_count_passed, line_shows, lineage_complete, lineage_json,
    location, pattern_hits, preimage, scan, scan_of, shows_banned_text, structural_hash,
    violations_of, warning_patterns,
};
use crate::json::JsonView;
use crate::outside::{alphanumeric, lower, url_host, within};
use crate::policy::{EndpointView, RuleView};
use crate::report::failed;
use crate::sandbox::{lemma_sandbox_is_not_wired, sandbox_not_wired, sandbox_run};
use crate::scaffold::{
    advance, cell_at, lemma_cell_at, next_input, not_found, pipeline, result_of, run_id, start,
    ResultView, RunView,
};
use crate::schema::{
    CellType, CellView, ChannelView, CheckView, ClassificationLevel, OutputView, ScaffoldView,
    ScanView, ViolationSeverity,
};
use crate::text::{
    after_last, before_first, blank, decimal, differs_at, digit, first_at, has_part, lemma_first_at,
    lines, padded_hex, precedes, radix, replaced, stands_at,
};
use vstd::arithmetic::power::{lemma_pow1, pow};
use vstd::prelude::*;
use vstd::utf8::{encode_utf8, encode_utf8_decode_utf8};

verus! {

// Classification.

/// Dominance orders the levels: it is reflexive, transitive and total, and two levels that dominate
/// each other are one. Secret dominates every level, and every level dominates public.
pub proof fn law_dominance_is_a_total_order(
    a: ClassificationLevel,
    b: ClassificationLevel,
    c: ClassificationLevel,
)
    ensures
        a.spec_dominates(a),
        a.spec_dominates(b) && b.spec_dominates(c) ==> a.spec_dominates(c),
        a.spec_dominates(b) || b.spec_dominates(a),
        a.spec_dominates(b) && b.spec_dominates(a) ==> a == b,
        ClassificationLevel::Secret.spec_dominates(a),
        a.spec_dominates(ClassificationLevel::Public),
{
}

// The constitution.

/// The structural signature covers identity, contract, logic and lineage: cells that agree on these
/// have one signature, whatever their channels and signature fields are.
pub proof fn law_signature_field_is_not_hashed(a: CellView, b: CellView)
    requires
        a.identity == b.identity,
        a.contract == b.contract,
        a.logic == b.logic,
        a.lineage == b.lineage,
    ensures
        preimage(a) == preimage(b),
        structural_hash(a) == structural_hash(b),
{
}

proof fn lemma_encoding_is_one_to_one(a: Seq<char>, b: Seq<char>)
    requires
        encode_utf8(a) == encode_utf8(b),
    ensures
        a == b,
{
    encode_utf8_decode_utf8(a);
    encode_utf8_decode_utf8(b);
}

proof fn lemma_middle(front: Seq<u8>, a: Seq<u8>, b: Seq<u8>, back: Seq<u8>)
    requires
        front + a + back == front + b + back,
    ensures
        a == b,
{
    let x = front + a + back;
    let y = front + b + back;
    assert(x.len() == y.len());
    assert(a == x.subrange(front.len() as int, (front.len() + a.len()) as int));
    assert(b == y.subrange(front.len() as int, (front.len() + b.len()) as int));
}

/// A change of the logic alone changes the bytes that are hashed.
pub proof fn law_logic_is_hashed(a: CellView, b: CellView)
    requires
        a.identity == b.identity,
        a.contract == b.contract,
        a.lineage == b.lineage,
        a.logic != b.logic,
    ensures
        preimage(a) != preimage(b),
{
    if preimage(a) == preimage(b) {
        let front = encode_utf8(a.identity.name) + seq![0u8] + encode_utf8(
            json_string(a.identity.cell_type.spec_tag()),
        ) + seq![0u8] + encode_utf8(a.identity.version) + seq![0u8] + encode_utf8(
            contract_json(a.contract),
        ) + seq![0u8];
        let back = seq![0u8] + encode_utf8(lineage_json(a.lineage));
        assert(preimage(a) == front + encode_utf8(a.logic) + back);
        assert(preimage(b) == front + encode_utf8(b.logic) + back);
        lemma_middle(front, encode_utf8(a.logic), encode_utf8(b.logic), back);
        lemma_encoding_is_one_to_one(a.logic, b.logic);
    }
}

/// A change of the name alone, or of the version alone, changes the bytes that are hashed.
pub proof fn law_identity_is_hashed(a: CellView, b: CellView)
    requires
        a.contract == b.contract,
        a.logic == b.logic,
        a.lineage == b.lineage,
        a.identity.cell_type == b.identity.cell_type,
        a.identity.name == b.identity.name <==> a.identity.version != b.identity.version,
    ensures
        preimage(a) != preimage(b),
{
    if preimage(a) == preimage(b) {
        let tag = seq![0u8] + encode_utf8(json_string(a.identity.cell_type.spec_tag())) + seq![
            0u8,
        ];
        let back = seq![0u8] + encode_utf8(contract_json(a.contract)) + seq![0u8] + encode_utf8(
            a.logic,
        ) + seq![0u8] + encode_utf8(lineage_json(a.lineage));
        let (n, m) = (encode_utf8(a.identity.name), encode_utf8(b.identity.name));
        let (v, w) = (encode_utf8(a.identity.version), encode_utf8(b.identity.version));
        if a.identity.name == b.identity.name {
            assert(preimage(a) == (n + tag) + v + back);
            assert(preimage(b) == (n + tag) + w + back);
            lemma_middle(n + tag, v, w, back);
            lemma_encoding_is_one_to_one(a.identity.version, b.identity.version);
        } else {
            let rest = tag + v + back;
            let none = Seq::<u8>::empty();
            assert(preimage(a) == none + n + rest);
            assert(preimage(b) == none + m + rest);
            lemma_middle(none, n, m, rest);
            lemma_encoding_is_one_to_one(a.identity.name, b.identity.name);
        }
    }
}

/// A change of the contract alone, or of the lineage alone, changes the bytes that are hashed, if it
/// changes the JSON text of the contract or lineage.
pub proof fn law_contract_and_lineage_are_hashed(a: CellView, b: CellView)
    requires
        a.identity == b.identity,
        a.logic == b.logic,
        contract_json(a.contract) == contract_json(b.contract) <==> lineage_json(a.lineage)
            != lineage_json(b.lineage),
    ensures
        preimage(a) != preimage(b),
{
    if preimage(a) == preimage(b) {
        let front = encode_utf8(a.identity.name) + seq![0u8] + encode_utf8(
            json_string(a.identity.cell_type.spec_tag()),
        ) + seq![0u8] + encode_utf8(a.identity.version) + seq![0u8];
        let (c, d) = (contract_json(a.contract), contract_json(b.contract));
        let (l, m) = (lineage_json(a.lineage), lineage_json(b.lineage));
        let logic = seq![0u8] + encode_utf8(a.logic) + seq![0u8];
        if c == d {
            let before = front + encode_utf8(c) + logic;
            let none = Seq::<u8>::empty();
            assert(preimage(a) == before + encode_utf8(l) + none);
            assert(preimage(b) == before + encode_utf8(m) + none);
            lemma_middle(before, encode_utf8(l), encode_utf8(m), none);
            lemma_encoding_is_one_to_one(l, m);
        } else {
            let back = logic + encode_utf8(l);
            assert(preimage(a) == front + encode_utf8(c) + back);
            assert(preimage(b) == front + encode_utf8(d) + back);
            lemma_middle(front, encode_utf8(c), encode_utf8(d), back);
            lemma_encoding_is_one_to_one(c, d);
        }
    }
}

/// The violations of one list of patterns have one severity, and there are some exactly where a
/// pattern hits.
proof fn lemma_violations_of(
    patterns: Seq<Seq<char>>,
    hits: Seq<bool>,
    logic: Seq<char>,
    severity: ViolationSeverity,
)
    requires
        patterns.len() == hits.len(),
    ensures
        ({
            let list = violations_of(patterns, hits, logic, severity);
            &&& forall|i: int| 0 <= i < list.len() ==> (#[trigger] list[i]).severity == severity
            &&& list.len() == count_passed(hits)
            &&& list.len() > 0 <==> exists|i: int| 0 <= i < hits.len() && #[trigger] hits[i]
        }),
    decreases patterns.len(),
{
    if patterns.len() > 0 {
        let (p, h) = (patterns.drop_last(), hits.drop_last());
        lemma_violations_of(p, h, logic, severity);
        let earlier = violations_of(p, h, logic, severity);
        if earlier.len() > 0 {
            let i = choose|i: int| 0 <= i < h.len() && #[trigger] h[i];
            assert(hits[i]);
        }
        if exists|i: int| 0 <= i < hits.len() && #[trigger] hits[i] {
            let i = choose|i: int| 0 <= i < hits.len() && #[trigger] hits[i];
            if i < hits.len() - 1 {
                assert(h[i]);
            }
        }
        if hits.last() {
            assert(hits[hits.len() - 1]);
        }
    }
}

/// A scan reports every pattern that matches, once. It passes exactly where no banned pattern
/// matches: warnings are flagged and never block.
pub proof fn law_scan_passes_iff_nothing_banned_matches(
    logic: Seq<char>,
    banned: Seq<bool>,
    warned: Seq<bool>,
)
    requires
        banned.len() == banned_patterns().len(),
        warned.len() == warning_patterns().len(),
    ensures
        scan_of(logic, banned, warned).passed <==> forall|i: int|
            0 <= i < banned.len() ==> !#[trigger] banned[i],
        scan_of(logic, banned, warned).violations.len() == count_passed(banned) + count_passed(
            warned,
        ),
        has_severity(scan_of(logic, banned, warned).violations, ViolationSeverity::Warn)
            <==> exists|i: int| 0 <= i < warned.len() && #[trigger] warned[i],
{
    let blocks = violations_of(banned_patterns(), banned, logic, ViolationSeverity::Block);
    let warnings = violations_of(warning_patterns(), warned, logic, ViolationSeverity::Warn);
    lemma_violations_of(banned_patterns(), banned, logic, ViolationSeverity::Block);
    lemma_violations_of(warning_patterns(), warned, logic, ViolationSeverity::Warn);
    let all = blocks + warnings;
    if blocks.len() > 0 {
        assert(all[0].severity == ViolationSeverity::Block);
    }
    if warnings.len() > 0 {
        assert(all[blocks.len() as int] == warnings[0]);
        assert(all[blocks.len() as int].severity == ViolationSeverity::Warn);
    }
    assert forall|i: int| 0 <= i < all.len() implies (#[trigger] all[i]).severity == (if i
        < blocks.len() {
        ViolationSeverity::Block
    } else {
        ViolationSeverity::Warn
    }) by {
        if i < blocks.len() {
            assert(all[i] == blocks[i]);
        } else {
            assert(all[i] == warnings[i - blocks.len()]);
        }
    }
}

/// The scan of a cell's logic passes exactly where no banned pattern matches in it.
pub proof fn law_banned_pattern_fails_the_scan(logic: Seq<char>)
    ensures
        scan(logic).passed <==> forall|i: int|
            0 <= i < banned_patterns().len() ==> !#[trigger] pattern_hits(
                banned_patterns(),
                logic,
            )[i],
        scan(logic).passed == !has_severity(scan(logic).violations, ViolationSeverity::Block),
{
    law_scan_passes_iff_nothing_banned_matches(
        logic,
        pattern_hits(banned_patterns(), logic),
        pattern_hits(warning_patterns(), logic),
    );
}

proof fn lemma_first_line(list: Seq<Seq<char>>, pattern: Seq<char>)
    ensures
        match first_line(list, pattern) {
            Some(n) => {
                &&& n < list.len()
                &&& line_shows(list[n as int], pattern)
                &&& forall|j: int| 0 <= j < n ==> !line_shows(#[trigger] list[j], pattern)
            },
            None => forall|j: int| 0 <= j < list.len() ==> !line_shows(#[trigger] list[j], pattern),
        },
    decreases list.len(),
{
    if list.len() > 0 && !line_shows(list[0], pattern) {
        let rest = list.skip(1);
        lemma_first_line(rest, pattern);
        assert forall|j: int|
            0 <= j < list.len() && (match first_line(rest, pattern) {
                Some(n) => j < n + 1,
                None => true,
            }) implies !line_shows(#[trigger] list[j], pattern) by {
            if j > 0 {
                assert(rest[j - 1] == list[j]);
            }
        }
    }
}

/// The location of a pattern is the first line that shows it, counted from one; a pattern without a
/// location is shown by no line.
pub proof fn law_location_is_the_first_line(logic: Seq<char>, pattern: Seq<char>)
    ensures
        match location(logic, pattern) {
            Some(text) => exists|n: nat|
                n < lines(logic).len() && text == "line "@ + #[trigger] decimal(n + 1)
                    && line_shows(lines(logic)[n as int], pattern) && forall|j: int|
                    0 <= j < n ==> !line_shows(#[trigger] lines(logic)[j], pattern),
            None => forall|j: int|
                0 <= j < lines(logic).len() ==> !line_shows(#[trigger] lines(logic)[j], pattern),
        },
{
    lemma_first_line(lines(logic), pattern);
    if let Some(n) = first_line(lines(logic), pattern) {
        assert(location(logic, pattern) == Some("line "@ + decimal(n + 1)));
    }
}

/// Ten checks are run. No more than these pass, and all ten exactly where each one holds.
pub proof fn law_checks_are_counted(
    cell: CellView,
    hash: Seq<char>,
    scan: ScanView,
    approval: Option<bool>,
)
    ensures
        check_of(cell, hash, scan, approval).checks_total == 10,
        check_of(cell, hash, scan, approval).checks_passed <= 10,
        check_of(cell, hash, scan, approval).checks_passed == 10 <==> forall|i: int|
            0 <= i < 10 ==> #[trigger] checks(cell, hash, scan, approval)[i],
{
    lemma_count_passed(checks(cell, hash, scan, approval));
}

/// The number of checks that pass, written out.
proof fn lemma_ten_checks(list: Seq<bool>)
    requires
        list.len() == 10,
    ensures
        count_passed(list) == count_one(list[0]) + count_one(list[1]) + count_one(list[2])
            + count_one(list[3]) + count_one(list[4]) + count_one(list[5]) + count_one(list[6])
            + count_one(list[7]) + count_one(list[8]) + count_one(list[9]),
{
    reveal_with_fuel(count_passed, 11);
}

spec fn count_one(b: bool) -> nat {
    if b {
        1
    } else {
        0
    }
}

/// Signing a cell with its structural signature does not change that signature, and makes one more
/// check pass unless the cell was so signed before.
pub proof fn law_signing_passes_one_more_check(cell: CellView)
    ensures
        ({
            let hash = structural_hash(cell);
            let signed = CellView { signature: Some(hash), ..cell };
            &&& check(signed).structural_hash == hash
            &&& check(signed).pattern_scan == check(cell).pattern_scan
            &&& check(signed).checks_passed == check(cell).checks_passed + (if cell.signature
                == Some(hash) {
                0int
            } else {
                1int
            })
        }),
{
    let hash = structural_hash(cell);
    let signed = CellView { signature: Some(hash), ..cell };
    law_signature_field_is_not_hashed(cell, signed);
    lemma_ten_checks(checks(cell, hash, scan(cell.logic), None));
    lemma_ten_checks(checks(signed, hash, scan(cell.logic), None));
}

/// A cell on which no human has decided is admitted exactly where it passes every check but logging
/// hygiene: its identity, contract, logic and lineage are complete, it carries its structural signature,
/// no banned pattern matches, and its output inherits the taint of its input.
pub proof fn law_admission(cell: CellView)
    ensures
        admitted(check(cell)) <==> {
            &&& cell.identity.name.len() > 0
            &&& cell.identity.version.len() > 0
            &&& cell.contract.input is Object
            &&& cell.contract.output is Object
            &&& !blank(cell.logic)
            &&& lineage_complete(cell.lineage)
            &&& cell.signature == Some(structural_hash(cell))
            &&& inherits_taint(cell.contract.input, cell.contract.output)
            &&& forall|i: int|
                0 <= i < banned_patterns().len() ==> !#[trigger] pattern_hits(
                    banned_patterns(),
                    cell.logic,
                )[i]
        },
{
    law_banned_pattern_fails_the_scan(cell.logic);
    lemma_ten_checks(checks(cell, structural_hash(cell), scan(cell.logic), None));
}

/// Taint inheritance holds exactly where every level of the output dominates every level of the input.
pub proof fn law_taint_is_inherited_pairwise(input: JsonView, output: JsonView)
    ensures
        inherits_taint(input, output) <==> forall|o: ClassificationLevel, i: ClassificationLevel|
            #[trigger] has_level(output, o) && #[trigger] has_level(input, i)
                ==> o.spec_dominates(i),
{
    if inherits_taint(input, output) {
        assert forall|o: ClassificationLevel, i: ClassificationLevel|
            #[trigger] has_level(output, o) && #[trigger] has_level(
                input,
                i,
            ) implies o.spec_dominates(i) by {
            assert(covers(o, input));
            assert(highest(input) is Some && highest(input)->0.spec_dominates(i));
        }
    } else {
        let o = choose|o: ClassificationLevel|
            #[trigger] has_level(output, o) && !covers(o, input);
        assert(has_level(input, highest(input)->0));
    }
}

/// A cell that takes data of one level and gives data of a lower one fails taint inheritance. It also
/// fails declassifier authorization, and is not admitted, unless a human has approved it.
pub proof fn law_lowering_needs_approval(
    cell: CellView,
    hash: Seq<char>,
    scan: ScanView,
    approval: Option<bool>,
    taken: ClassificationLevel,
    given: ClassificationLevel,
)
    requires
        has_level(cell.contract.input, taken),
        has_level(cell.contract.output, given),
        !given.spec_dominates(taken),
    ensures
        !check_of(cell, hash, scan, approval).classification_valid,
        check_of(cell, hash, scan, approval).checks_passed < 10,
        approval != Some(true) ==> check_of(cell, hash, scan, approval).checks_passed < 9,
        approval != Some(true) ==> !admitted(check_of(cell, hash, scan, approval)),
{
    law_taint_is_inherited_pairwise(cell.contract.input, cell.contract.output);
    lemma_ten_checks(checks(cell, hash, scan, approval));
}

/// The only checks that approval makes a difference to are those on classification: a cell that passes
/// all others is admitted as an approved declassifier.
pub proof fn law_approved_declassifier_is_admitted(cell: CellView)
    ensures
        ({
            let hash = structural_hash(cell);
            let list = checks(cell, hash, scan(cell.logic), Some(true));
            admitted(check_of(cell, hash, scan(cell.logic), Some(true))) <==> forall|i: int|
                0 <= i < 8 && i != 6 ==> #[trigger] list[i]
        }),
{
    let hash = structural_hash(cell);
    let list = checks(cell, hash, scan(cell.logic), Some(true));
    law_banned_pattern_fails_the_scan(cell.logic);
    lemma_ten_checks(list);
    if forall|i: int| 0 <= i < 8 && i != 6 ==> #[trigger] list[i] {
        assert(list[0] && list[1] && list[2] && list[3] && list[4] && list[5] && list[7]);
    }
}

/// An output that comes out of a run is at least as sensitive as the input of its cell, unless a human has
/// approved the cell as a declassifier.
pub proof fn law_outputs_dominate_inputs(
    cell: CellView,
    check: CheckView,
    run: Result<OutputView, ErrorView>,
    level: ClassificationLevel,
)
    requires
        has_level(cell.contract.input, level),
        !approved(check),
    ensures
        outcome(cell, check, run) matches Ok(output) ==> output.classification.spec_dominates(level),
{
}

/// Text before and after some logic hides no banned text that it holds.
pub proof fn law_banned_text_stays_banned(before: Seq<char>, logic: Seq<char>, after: Seq<char>)
    requires
        shows_banned_text(logic),
    ensures
        shows_banned_text(within(before, logic, after)),
{
    let whole = within(before, logic, after);
    let i = choose|i: int|
        0 <= i < banned_texts().len() && has_part(logic, #[trigger] banned_texts()[i]);
    let part = banned_texts()[i];
    let at = choose|at: int| #[trigger] stands_at(logic, part, at);
    assert(whole.subrange(before.len() + at, before.len() + at + part.len()) =~= logic.subrange(
        at,
        at + part.len(),
    ));
    assert(stands_at(whole, part, before.len() + at));
    assert(has_part(whole, banned_texts()[i]));
}

/// A cell in which a banned pattern matches is never executed, whatever a run would give: it is refused as
/// a constitutional violation.
pub proof fn law_blocked_cell_never_runs(
    cell: CellView,
    run: Result<OutputView, ErrorView>,
    approval: Option<bool>,
    i: int,
)
    requires
        0 <= i < banned_patterns().len(),
        pattern_hits(banned_patterns(), cell.logic)[i],
    ensures
        ({
            let check = check_of(cell, structural_hash(cell), scan(cell.logic), approval);
            &&& outcome(cell, check, run) == Err::<OutputView, ErrorView>(refusal(cell, check))
            &&& refusal(cell, check) is ConstitutionalViolation
        }),
{
    law_banned_pattern_fails_the_scan(cell.logic);
}

/// A cell gives an output exactly where it is admitted and its run gives one that is sensitive enough, or
/// that it is approved to give.
pub proof fn law_cell_succeeds_iff_admitted_and_run(
    cell: CellView,
    check: CheckView,
    run: Result<OutputView, ErrorView>,
)
    ensures
        outcome(cell, check, run) is Ok <==> admitted(check) && (run matches Ok(output) && (
        approved(check) || covers(output.classification, cell.contract.input))),
{
}

// Channel mapping.

/// A mapping tells of the channel that it is of: its name, and its kind where the channel is skipped.
pub proof fn law_mapping_names_its_channel(channel: ChannelView)
    ensures
        match mapping(channel) {
            MappingView::Mapped(m) => m.channel_name == channel.name,
            MappingView::Skipped(s) => s.channel_name == channel.name && s.kind == channel.kind,
        },
{
}

/// Channels that duplicate what the platform enforces are skipped, whatever their scope is.
pub proof fn law_platform_kinds_are_skipped(channel: ChannelView)
    requires
        skip_reason(channel.kind) is Some,
    ensures
        mapping(channel) matches MappingView::Skipped(s) && Some(s.reason) == skip_reason(
            channel.kind,
        ),
{
}

/// The kinds of the keeper set.
pub open spec fn keeper_kind(kind: Seq<char>) -> bool {
    ||| kind == "file"@
    ||| kind == "http"@
    ||| llm_host(kind) is Some
    ||| kind == "github"@
    ||| kind == "git"@
    ||| kind == "package"@
}

/// No kind outside the keeper set is ever mapped.
pub proof fn law_only_keeper_kinds_are_mapped(channel: ChannelView)
    ensures
        mapping(channel) is Mapped ==> keeper_kind(channel.kind) && skip_reason(channel.kind) is None,
{
}

/// A mapped file channel has a filesystem policy and no network policy; every other mapped channel has
/// one network policy and no filesystem policy.
pub proof fn law_blocks_of_a_mapped_channel(channel: ChannelView)
    ensures
        mapping(channel) matches MappingView::Mapped(m) ==> {
            &&& m.filesystem is Some <==> channel.kind == "file"@
            &&& m.network_policies.len() == if channel.kind == "file"@ {
                0nat
            } else {
                1nat
            }
        },
{
}

/// The network policies of a mapped channel are listed in the order of their keys, each of which occurs
/// once.
pub proof fn law_policies_are_keyed(channel: ChannelView)
    ensures
        mapping(channel) matches MappingView::Mapped(m) ==> keyed(m.network_policies),
{
}

/// An endpoint on port 443, with TLS terminated and its rules enforced, none of which denies.
pub open spec fn enforced(e: EndpointView) -> bool {
    &&& e.port == Some(443u16)
    &&& e.protocol == Some("rest"@)
    &&& e.tls == Some("terminate"@)
    &&& e.enforcement == Some("enforce"@)
    &&& forall|i: int| 0 <= i < e.rules.len() ==> allows_method(#[trigger] e.rules[i])
}

/// A rule that lets requests of one method pass.
pub open spec fn allows_method(r: RuleView) -> bool {
    r.deny is None && r.allow is Some && r.allow->0.method is Some
}

proof fn lemma_operation_rules_allow(op: Seq<char>, repos: Seq<Seq<char>>)
    ensures
        forall|i: int|
            0 <= i < operation_rules(op, repos).len() ==> allows_method(
                #[trigger] operation_rules(op, repos)[i],
            ),
{
}

proof fn lemma_github_rules_allow(ops: Seq<Seq<char>>, repos: Seq<Seq<char>>)
    ensures
        forall|i: int|
            0 <= i < github_rules(ops, repos).len() ==> allows_method(
                #[trigger] github_rules(ops, repos)[i],
            ),
    decreases ops.len(),
{
    let compile = |op: Seq<char>| operation_rules(op, repos);
    if ops.len() == 0 {
        assert(ops =~= Seq::empty());
        assert(ops.flat_map(compile) =~= Seq::<RuleView>::empty());
    } else {
        let shorter = ops.drop_last();
        lemma_github_rules_allow(shorter, repos);
        lemma_operation_rules_allow(ops.last(), repos);
        shorter.lemma_flat_map_push(compile, ops.last());
        assert(shorter.push(ops.last()) =~= ops);
        let earlier = github_rules(shorter, repos);
        let last = operation_rules(ops.last(), repos);
        assert(github_rules(ops, repos) == earlier + last);
        assert forall|i: int| 0 <= i < github_rules(ops, repos).len() implies allows_method(
            #[trigger] github_rules(ops, repos)[i],
        ) by {
            if i < earlier.len() {
                assert(github_rules(ops, repos)[i] == earlier[i]);
            } else {
                assert(github_rules(ops, repos)[i] == last[i - earlier.len()]);
            }
        }
    }
}

/// Every endpoint that a channel is mapped to is enforced on port 443 with TLS terminated, and every
/// rule on it lets some method pass and denies none.
pub proof fn law_endpoints_are_enforced(channel: ChannelView, p: int, e: int)
    ensures
        mapping(channel) matches MappingView::Mapped(m) ==> (0 <= p < m.network_policies.len() && 0
            <= e < m.network_policies[p].1.endpoints.len() ==> enforced(
            m.network_policies[p].1.endpoints[e],
        )),
{
    lemma_github_rules_allow(
        scope_texts(channel.scope, "allowedOperations"@),
        scope_texts(channel.scope, "allowedRepos"@),
    );
}

/// The rules of a GitHub channel are those of its allowed operations, in their order: as many for each
/// operation that has a mapping as there are allowed repositories, or one where none is listed.
pub proof fn law_github_grants_per_operation_and_repository(
    ops: Seq<Seq<char>>,
    repos: Seq<Seq<char>>,
)
    ensures
        github_rules(ops, repos).len() == ops.filter(
            |op: Seq<char>| github_operation(op) is Some,
        ).len() * (if repos.len() == 0 {
            1nat
        } else {
            repos.len()
        }),
    decreases ops.len(),
{
    let compile = |op: Seq<char>| operation_rules(op, repos);
    let known = |op: Seq<char>| github_operation(op) is Some;
    let each = if repos.len() == 0 {
        1nat
    } else {
        repos.len()
    };
    reveal(Seq::filter);
    if ops.len() == 0 {
        assert(ops =~= Seq::empty());
        assert(ops.flat_map(compile) =~= Seq::<RuleView>::empty());
        assert(ops.filter(known).len() * each == 0) by (nonlinear_arith)
            requires
                ops.filter(known).len() == 0,
        ;
    } else {
        let shorter = ops.drop_last();
        law_github_grants_per_operation_and_repository(shorter, repos);
        shorter.lemma_flat_map_push(compile, ops.last());
        assert(shorter.push(ops.last()) =~= ops);
        let n = shorter.filter(known).len();
        assert((n + 1) * each == n * each + each) by (nonlinear_arith);
    }
}

/// A rule that lets pass what an operation does on a repository.
pub open spec fn grants(rule: RuleView, op: Seq<char>, repo: Seq<char>) -> bool {
    match github_operation(op) {
        Some((method, path)) => rule == allow_rule(method, Some(repository_path(path, repo))),
        None => false,
    }
}

/// Where repositories are listed, every rule of a GitHub channel is for an allowed operation on one of
/// the listed repositories: nothing else is granted.
pub proof fn law_github_grants_nothing_else(
    ops: Seq<Seq<char>>,
    repos: Seq<Seq<char>>,
    i: int,
)
    requires
        repos.len() > 0,
        0 <= i < github_rules(ops, repos).len(),
    ensures
        exists|o: int, r: int|
            0 <= o < ops.len() && 0 <= r < repos.len() && #[trigger] grants(
                github_rules(ops, repos)[i],
                ops[o],
                repos[r],
            ),
    decreases ops.len(),
{
    let compile = |op: Seq<char>| operation_rules(op, repos);
    if ops.len() == 0 {
        assert(ops =~= Seq::empty());
        assert(ops.flat_map(compile) =~= Seq::<RuleView>::empty());
    } else {
        let shorter = ops.drop_last();
        shorter.lemma_flat_map_push(compile, ops.last());
        assert(shorter.push(ops.last()) =~= ops);
        let earlier = github_rules(shorter, repos);
        let last = operation_rules(ops.last(), repos);
        let rule = github_rules(ops, repos)[i];
        assert(github_rules(ops, repos) == earlier + last);
        if i < earlier.len() {
            law_github_grants_nothing_else(shorter, repos, i);
            let (o, r) = choose|o: int, r: int|
                0 <= o < shorter.len() && 0 <= r < repos.len() && #[trigger] grants(
                    earlier[i],
                    shorter[o],
                    repos[r],
                );
            assert(grants(rule, ops[o], repos[r]));
        } else {
            let r = i - earlier.len();
            assert(rule == last[r]);
            assert(grants(rule, ops[ops.len() - 1], repos[r]));
        }
    }
}

/// A sanitized name is as long as the name, holds only letters, digits, `-` and `_`, and does not
/// change when it is sanitized again.
pub proof fn law_sanitizing(name: Seq<char>)
    ensures
        sanitized(name).len() == name.len(),
        forall|i: int|
            0 <= i < name.len() ==> alphanumeric(#[trigger] sanitized(name)[i]) || sanitized(
                name,
            )[i] == '-' || sanitized(name)[i] == '_',
        sanitized(sanitized(name)) == sanitized(name),
{
    assert(sanitized(sanitized(name)) =~= sanitized(name));
}

/// A path that does not hold `${input.repoPath}` is preserved, other variables and all.
pub proof fn law_other_variables_are_preserved(path: Seq<char>)
    requires
        !has_part(path, "${input.repoPath}"@),
    ensures
        resolved(path) == path,
{
    reveal_strlit("${input.repoPath}");
    lemma_replaced_without(path, "${input.repoPath}"@, "/sandbox"@);
}

proof fn lemma_replaced_without(s: Seq<char>, from: Seq<char>, to: Seq<char>)
    requires
        !has_part(s, from),
    ensures
        replaced(s, from, to) == s,
    decreases s.len(),
{
    if s.len() > 0 && from.len() > 0 {
        assert(!stands_at(s, from, 0));
        assert(!has_part(s.skip(1), from)) by {
            if has_part(s.skip(1), from) {
                let at = choose|at: int| #[trigger] stands_at(s.skip(1), from, at);
                assert(s.skip(1).subrange(at, at + from.len()) =~= s.subrange(
                    at + 1,
                    at + 1 + from.len(),
                ));
                assert(stands_at(s, from, at + 1));
            }
        }
        lemma_replaced_without(s.skip(1), from, to);
        assert(seq![s[0]] + s.skip(1) =~= s);
    }
}

/// A path below the repository is resolved to the same path below the working directory of the
/// sandbox.
pub proof fn law_repository_path_is_resolved(rest: Seq<char>)
    ensures
        resolved("${input.repoPath}"@ + rest) == "/sandbox"@ + resolved(rest),
{
    reveal_strlit("${input.repoPath}");
    let from = "${input.repoPath}"@;
    let path = from + rest;
    assert(path.subrange(0, from.len() as int) =~= from);
    assert(path.skip(from.len() as int) =~= rest);
}

/// The channels of an LLM provider are always mapped, to a single endpoint: the host of `baseUrl`, or
/// else that of the provider.
pub proof fn law_llm_channels_are_mapped(channel: ChannelView)
    requires
        llm_host(channel.kind) is Some,
    ensures
        mapping(channel) matches MappingView::Mapped(m) && m.network_policies[0].1.endpoints.len()
            == 1 && Some(m.network_policies[0].1.endpoints[0].host)
            == llm_channel_host(channel, channel.kind),
{
    lemma_llm_kinds_are_not_other_kinds(channel.kind);
}

proof fn lemma_llm_kinds_are_not_other_kinds(kind: Seq<char>)
    requires
        llm_host(kind) is Some,
    ensures
        skip_reason(kind) is None,
        kind != "file"@,
        kind != "http"@,
{
    reveal_strlit("anthropic");
    reveal_strlit("openai");
    reveal_strlit("google-genai");
    reveal_strlit("cohere");
    reveal_strlit("mistral");
    reveal_strlit("postgres");
    reveal_strlit("sqlite");
    reveal_strlit("stripe");
    reveal_strlit("aws-s3");
    reveal_strlit("sqs");
    reveal_strlit("docker");
    reveal_strlit("kubernetes");
    reveal_strlit("github-actions");
    reveal_strlit("terraform");
    reveal_strlit("vault");
    reveal_strlit("browser");
    reveal_strlit("file");
    reveal_strlit("http");
    assert(kind[0] == 'a' || kind[0] == 'o' || kind[0] == 'g' || kind[0] == 'c' || kind[0] == 'm');
    assert("anthropic"@.len() == 9 && "aws-s3"@.len() == 6);
    assert("google-genai"@.len() == 12 && "github-actions"@.len() == 14);
    assert("postgres"@[0] == 'p' && "sqlite"@[0] == 's' && "stripe"@[0] == 's' && "sqs"@[0] == 's');
    assert("docker"@[0] == 'd' && "kubernetes"@[0] == 'k' && "terraform"@[0] == 't');
    assert("vault"@[0] == 'v' && "browser"@[0] == 'b' && "file"@[0] == 'f' && "http"@[0] == 'h');
    assert(kind[0] == 'a' ==> kind.len() == 9);
    assert(kind[0] == 'g' ==> kind.len() == 12);
}

/// A channel that is mapped reaches one endpoint for each of some hosts, in their order, and no other.
pub open spec fn reaches(m: MappingView, hosts: Seq<Seq<char>>) -> bool {
    m matches MappingView::Mapped(m) ==> {
        let list = m.network_policies[0].1.endpoints;
        list.len() == hosts.len() && forall|i: int|
            0 <= i < list.len() ==> (#[trigger] list[i]).host == hosts[i]
    }
}

/// An HTTP channel is mapped exactly where it allows a host, and it reaches the allowed hosts alone,
/// whatever its methods are.
pub proof fn law_http_reaches_allowed_hosts_alone(channel: ChannelView, methods: Seq<Seq<char>>)
    ensures
        ({
            let hosts = scope_texts(channel.scope, "allowedHosts"@);
            &&& http_mapping(channel, methods) is Mapped <==> hosts.len() > 0
            &&& reaches(http_mapping(channel, methods), hosts)
        }),
{
}

/// A git or package channel is mapped exactly where a host is resolved, and it reaches the resolved
/// hosts alone.
pub proof fn law_git_and_package_reach_resolved_hosts_alone(
    channel: ChannelView,
    hosts: Seq<Seq<char>>,
)
    ensures
        git_mapping(channel, hosts) is Mapped <==> hosts.len() > 0,
        reaches(git_mapping(channel, hosts), hosts),
        package_mapping(channel, hosts) is Mapped <==> hosts.len() > 0,
        reaches(package_mapping(channel, hosts), hosts),
{
}

proof fn lemma_first_at_after(front: Seq<char>, c: char, back: Seq<char>)
    requires
        forall|j: int| 0 <= j < front.len() ==> front[j] != c,
    ensures
        first_at(front + seq![c] + back, c) == Some(front.len() as int),
    decreases front.len(),
{
    let whole = front + seq![c] + back;
    lemma_first_at(whole, c);
    assert(whole[front.len() as int] == c);
    assert forall|j: int| 0 <= j < front.len() implies whole[j] != c by {
        assert(whole[j] == front[j]);
    }
}

proof fn lemma_after_last(front: Seq<char>, c: char, back: Seq<char>)
    requires
        forall|j: int| 0 <= j < back.len() ==> back[j] != c,
    ensures
        after_last(front + seq![c] + back, c) == back,
    decreases front.len(),
{
    let whole = front + seq![c] + back;
    lemma_first_at(whole, c);
    assert(whole[front.len() as int] == c);
    let i = first_at(whole, c)->0;
    if i == front.len() {
        assert(whole.skip(i + 1) =~= back);
        lemma_first_at(back, c);
        assert(after_last(back, c) == back);
    } else {
        let shorter = front.skip(i + 1);
        assert(whole.skip(i + 1) =~= shorter + seq![c] + back);
        lemma_after_last(shorter, c, back);
    }
}

/// Tells whether a remote is of the form `[user@]host:path`: it has no host as a URL, and no `://` if it
/// is one.
pub open spec fn scp_like(remote: Seq<char>) -> bool {
    match url_host(remote) {
        None => true,
        Some(host) => host is None && !has_part(remote, "://"@),
    }
}

/// Tells whether two texts are a host and a path: neither holds an `@`, and the host no `:`.
pub open spec fn host_and_path(host: Seq<char>, path: Seq<char>) -> bool {
    &&& forall|j: int| 0 <= j < host.len() ==> host[j] != '@' && host[j] != ':'
    &&& forall|j: int| 0 <= j < path.len() ==> path[j] != '@'
}

proof fn lemma_host_before_path(host: Seq<char>, path: Seq<char>)
    requires
        host_and_path(host, path),
    ensures
        ({
            let tail = host + seq![':'] + path;
            &&& forall|j: int| 0 <= j < tail.len() ==> tail[j] != '@'
            &&& before_first(tail, ':') == host
            &&& tail.contains(':')
        }),
{
    let tail = host + seq![':'] + path;
    assert forall|j: int| 0 <= j < tail.len() implies tail[j] != '@' by {
        if j < host.len() {
            assert(tail[j] == host[j]);
        } else if j > host.len() {
            assert(tail[j] == path[j - host.len() - 1]);
        }
    }
    lemma_first_at_after(host, ':', path);
    assert(tail.take(host.len() as int) =~= host);
    assert(tail[host.len() as int] == ':');
}

/// The host of a remote `user@host:path` is `host`.
pub proof fn law_scp_remote_has_its_host(user: Seq<char>, host: Seq<char>, path: Seq<char>)
    requires
        scp_like(user + seq!['@'] + (host + seq![':'] + path)),
        host_and_path(host, path),
    ensures
        remote_host(user + seq!['@'] + (host + seq![':'] + path)) == Some(host),
{
    lemma_host_before_path(host, path);
    lemma_after_last(user, '@', host + seq![':'] + path);
}

/// The host of a remote `host:path` is `host`: the user is optional.
pub proof fn law_scp_remote_without_user_has_its_host(host: Seq<char>, path: Seq<char>)
    requires
        scp_like(host + seq![':'] + path),
        host_and_path(host, path),
    ensures
        remote_host(host + seq![':'] + path) == Some(host),
{
    let tail = host + seq![':'] + path;
    lemma_host_before_path(host, path);
    lemma_first_at(tail, '@');
    assert(after_last(tail, '@') == tail);
}

/// A remote always has a host, unless it is a URL without one that is not of the form
/// `[user@]host:path` either.
pub proof fn law_remote_has_a_host(remote: Seq<char>)
    ensures
        remote_host(remote) is None <==> url_host(remote) == Some(None::<Seq<char>>)
            && !names_scp_host(remote),
{
}

// Scaffolds.

/// The output of each cell is the input of the next.
pub proof fn law_outputs_are_threaded(
    scaffold: ScaffoldView,
    run: RunView,
    output: OutputView,
    initial: JsonView,
)
    requires
        run.cells_executed < scaffold.execution_order.len(),
    ensures
        next_input(scaffold, advance(scaffold, run, output), initial) == output.data,
{
}

/// A run ends with the output of the cell that was executed last.
pub proof fn law_last_output_is_final(
    scaffold: ScaffoldView,
    run: RunView,
    output: OutputView,
    paused: bool,
    id: Seq<char>,
)
    requires
        run.cells_executed < scaffold.execution_order.len(),
    ensures
        result_of(scaffold, advance(scaffold, run, output), paused, id).final_output == output,
        result_of(scaffold, advance(scaffold, run, output), paused, id).cells_executed
            == run.cells_executed + 1,
{
}

/// The input of a cell of a pipeline whose cells gave some outputs: the first cell gets the initial
/// input, and every other one the data of the output before it.
pub open spec fn threaded_input(outputs: Seq<OutputView>, initial: JsonView, i: int) -> JsonView {
    if i == 0 {
        initial
    } else {
        outputs[i - 1].data
    }
}

/// Tells whether a cell of the execution order is there, and gives its output for the input that is
/// threaded to it.
pub open spec fn gives_output(
    scaffold: ScaffoldView,
    outputs: Seq<OutputView>,
    initial: JsonView,
    execute: spec_fn(CellView, JsonView) -> Result<OutputView, ErrorView>,
    i: int,
) -> bool {
    match cell_at(scaffold.cells, scaffold.execution_order[i]) {
        Some(at) => execute(scaffold.cells[at], threaded_input(outputs, initial, i)) == Ok::<
            OutputView,
            ErrorView,
        >(outputs[i]),
        None => false,
    }
}

proof fn lemma_pipeline_threads_from(
    scaffold: ScaffoldView,
    run: RunView,
    initial: JsonView,
    id: Seq<char>,
    execute: spec_fn(CellView, JsonView) -> Result<OutputView, ErrorView>,
    outputs: Seq<OutputView>,
)
    requires
        0 < scaffold.execution_order.len() == outputs.len(),
        run.cells_executed <= outputs.len(),
        forall|i: int|
            0 <= i < outputs.len() ==> gives_output(scaffold, outputs, initial, execute, i)
                && !scaffold.pause_after.contains(#[trigger] scaffold.execution_order[i]),
        run.cells_executed > 0 ==> {
            let name = scaffold.execution_order[run.cells_executed - 1];
            run.outputs.contains_key(name) && run.outputs[name] == outputs[run.cells_executed - 1]
        },
    ensures
        pipeline(scaffold, run, initial, id, execute) == Ok::<ResultView, ErrorView>(
            ResultView {
                final_output: outputs.last(),
                cells_executed: outputs.len(),
                paused_at: None,
                run_id: id,
            },
        ),
    decreases outputs.len() - run.cells_executed,
{
    if run.cells_executed < outputs.len() {
        let i = run.cells_executed as int;
        let name = scaffold.execution_order[i];
        assert(gives_output(scaffold, outputs, initial, execute, i));
        assert(next_input(scaffold, run, initial) == threaded_input(outputs, initial, i));
        let next = advance(scaffold, run, outputs[i]);
        lemma_pipeline_threads_from(scaffold, next, initial, id, execute, outputs);
        assert(pipeline(scaffold, run, initial, id, execute) == pipeline(
            scaffold,
            next,
            initial,
            id,
            execute,
        ));
    }
}

/// The cells of a pipeline are executed one at a time in the execution order. Where the first one gives
/// an output for the initial input, every other one gives an output for the data of the output before
/// it, and no pause is asked for, the pipeline ends with the last output and has executed all cells.
pub proof fn law_pipeline_threads_outputs(
    scaffold: ScaffoldView,
    initial: JsonView,
    id: Seq<char>,
    execute: spec_fn(CellView, JsonView) -> Result<OutputView, ErrorView>,
    outputs: Seq<OutputView>,
)
    requires
        0 < scaffold.execution_order.len() == outputs.len(),
        forall|i: int|
            0 <= i < outputs.len() ==> gives_output(scaffold, outputs, initial, execute, i)
                && !scaffold.pause_after.contains(#[trigger] scaffold.execution_order[i]),
    ensures
        pipeline(scaffold, start(), initial, id, execute) == Ok::<ResultView, ErrorView>(
            ResultView {
                final_output: outputs.last(),
                cells_executed: outputs.len(),
                paused_at: None,
                run_id: id,
            },
        ),
{
    lemma_pipeline_threads_from(scaffold, start(), initial, id, execute, outputs);
}

/// While no sandbox is wired, a pipeline ends at its first cell: with the refusal of the cell, or with
/// what the sandbox manager answers.
pub proof fn law_pipelines_wait_for_sandboxes(
    scaffold: ScaffoldView,
    initial: JsonView,
    id: Seq<char>,
)
    requires
        scaffold.execution_order.len() > 0,
    ensures
        pipeline(
            scaffold,
            start(),
            initial,
            id,
            |c: CellView, input: JsonView| cell_outcome(c, input),
        ) == Err::<ResultView, ErrorView>(
            match cell_at(scaffold.cells, scaffold.execution_order[0]) {
                None => not_found(scaffold.execution_order[0]),
                Some(i) => if admitted(check(scaffold.cells[i])) {
                    sandbox_not_wired()
                } else {
                    refusal(scaffold.cells[i], check(scaffold.cells[i]))
                },
            },
        ),
{
    let execute = |c: CellView, input: JsonView| cell_outcome(c, input);
    if let Some(i) = cell_at(scaffold.cells, scaffold.execution_order[0]) {
        let cell = scaffold.cells[i];
        let plan = plan_of(cell, check(cell));
        lemma_sandbox_is_not_wired(cell, plan, initial, sandbox_run(cell, plan, initial));
        assert(execute(cell, next_input(scaffold, start(), initial)) == cell_outcome(cell, initial));
    }
}

/// A pipeline that succeeds has found and executed its cells in order: all of them, or those up to the
/// first one after which it pauses. It keeps its run identifier.
pub proof fn law_pipeline_runs_in_order_up_to_a_pause(
    scaffold: ScaffoldView,
    run: RunView,
    initial: JsonView,
    id: Seq<char>,
    execute: spec_fn(CellView, JsonView) -> Result<OutputView, ErrorView>,
)
    requires
        run.cells_executed < scaffold.execution_order.len(),
    ensures
        pipeline(scaffold, run, initial, id, execute) matches Ok(r) ==> {
            let order = scaffold.execution_order;
            &&& r.run_id == id
            &&& run.cells_executed < r.cells_executed <= order.len()
            &&& match r.paused_at {
                Some(name) => name == order[r.cells_executed - 1] && scaffold.pause_after.contains(
                    name,
                ),
                None => r.cells_executed == order.len() && !scaffold.pause_after.contains(
                    order.last(),
                ),
            }
            &&& forall|j: int|
                run.cells_executed <= j < r.cells_executed - 1 ==> !scaffold.pause_after.contains(
                    #[trigger] order[j],
                )
            &&& forall|j: int|
                run.cells_executed <= j < r.cells_executed ==> cell_at(
                    scaffold.cells,
                    #[trigger] order[j],
                ) is Some
        },
    decreases scaffold.execution_order.len() - run.cells_executed,
{
    let order = scaffold.execution_order;
    let name = order[run.cells_executed as int];
    if let Some(i) = cell_at(scaffold.cells, name) {
        if let Ok(output) = execute(scaffold.cells[i], next_input(scaffold, run, initial)) {
            let next = advance(scaffold, run, output);
            if scaffold.pause_after.contains(name) {
                assert(pipeline(scaffold, run, initial, id, execute) == Ok::<
                    ResultView,
                    ErrorView,
                >(result_of(scaffold, next, true, id)));
            } else {
                let rest = pipeline(scaffold, next, initial, id, execute);
                assert(pipeline(scaffold, run, initial, id, execute) == rest);
                if next.cells_executed < order.len() {
                    law_pipeline_runs_in_order_up_to_a_pause(scaffold, next, initial, id, execute);
                } else {
                    assert(rest == Ok::<ResultView, ErrorView>(
                        result_of(scaffold, next, false, id),
                    ));
                    assert(order.last() == name);
                }
            }
        }
    }
}

/// A pipeline whose next cell the scaffold does not have fails, and names that cell.
pub proof fn law_missing_cell_stops_the_pipeline(
    scaffold: ScaffoldView,
    run: RunView,
    initial: JsonView,
    id: Seq<char>,
    execute: spec_fn(CellView, JsonView) -> Result<OutputView, ErrorView>,
)
    requires
        run.cells_executed < scaffold.execution_order.len(),
        forall|j: int|
            0 <= j < scaffold.cells.len() ==> (#[trigger] scaffold.cells[j]).identity.name
                != scaffold.execution_order[run.cells_executed as int],
    ensures
        pipeline(scaffold, run, initial, id, execute) == Err::<ResultView, ErrorView>(
            not_found(scaffold.execution_order[run.cells_executed as int]),
        ),
{
    lemma_cell_at(
        scaffold.cells,
        scaffold.execution_order[run.cells_executed as int],
    );
}

// Cell files.

/// A cell type is read back from its tag, and from its name in lower case.
pub proof fn law_cell_type_is_read_back(t: CellType)
    ensures
        cell_type_of(t.spec_tag()) == t,
        cell_type_of(lower(t.spec_name())) == t,
{
    reveal_strlit("transformer");
    reveal_strlit("reactor");
    reveal_strlit("keeper");
    reveal_strlit("channel");
    reveal_strlit("Transformer");
    reveal_strlit("Reactor");
    reveal_strlit("Keeper");
    reveal_strlit("Channel");
    assert("transformer"@.len() == 11 && "reactor"@.len() == 7 && "keeper"@.len() == 6);
    assert("channel"@.len() == 7 && "reactor"@[0] == 'r' && "channel"@[0] == 'c');
    assert(lower("Transformer"@) =~= "transformer"@);
    assert(lower("Reactor"@) =~= "reactor"@);
    assert(lower("Keeper"@) =~= "keeper"@);
    assert(lower("Channel"@) =~= "channel"@);
}

/// A cell can be read exactly where identity, contract and logic are there.
pub proof fn law_cell_needs_identity_contract_and_logic(node: JsonView)
    ensures
        cell_of(node) is Ok <==> node.field("identity"@) is Some && node.field("contract"@) is Some
            && node.field("logic"@) is Some,
{
}

// Validation.

/// A validation finds no failure exactly where every cell passes the pattern scan, and each failure is
/// a cell that does not.
pub proof fn law_validation_fails_iff_a_cell_fails(names: Seq<Seq<char>>, checks: Seq<CheckView>)
    ensures
        failed(names, checks).len() == 0 <==> forall|i: int|
            0 <= i < checks.len() ==> (#[trigger] checks[i]).pattern_scan.passed,
        forall|i: int|
            0 <= i < failed(names, checks).len() ==> !(#[trigger] failed(
                names,
                checks,
            )[i]).1.pattern_scan.passed,
    decreases checks.len(),
{
    if checks.len() > 0 {
        let shorter = checks.drop_last();
        law_validation_fails_iff_a_cell_fails(names.drop_last(), shorter);
        if forall|i: int| 0 <= i < checks.len() ==> (#[trigger] checks[i]).pattern_scan.passed {
            assert forall|i: int| 0 <= i < shorter.len() implies (
            #[trigger] shorter[i]).pattern_scan.passed by {
                assert(checks[i].pattern_scan.passed);
            }
        }
        if failed(names, checks).len() == 0 {
            assert forall|i: int| 0 <= i < checks.len() implies (
            #[trigger] checks[i]).pattern_scan.passed by {
                if i < checks.len() - 1 {
                    assert(shorter[i].pattern_scan.passed);
                }
            }
        }
    }
}

// Run identifiers.

/// The last `width` hexadecimal digits of a number.
spec fn hex_digits(n: nat, width: nat) -> Seq<char>
    decreases width,
{
    if width == 0 {
        Seq::empty()
    } else {
        hex_digits(n / 16, (width - 1) as nat).push(digit((n % 16) as int))
    }
}

proof fn lemma_hex_digits_of_zero(width: nat)
    ensures
        hex_digits(0, width) == Seq::new(width, |i: int| '0'),
    decreases width,
{
    if width > 0 {
        lemma_hex_digits_of_zero((width - 1) as nat);
        assert(digit(0) == '0');
        assert(hex_digits(0, width) =~= Seq::new(width, |i: int| '0'));
    } else {
        assert(hex_digits(0, width) =~= Seq::new(width, |i: int| '0'));
    }
}

/// A number that fits is written with exactly `width` digits.
proof fn lemma_padded_hex(n: nat, width: nat)
    requires
        width >= 1,
        n < pow(16, width),
    ensures
        1 <= radix(n, 16).len() <= width,
        padded_hex(n, width) == hex_digits(n, width),
        padded_hex(n, width).len() == width,
    decreases width,
{
    let less = (width - 1) as nat;
    if n < 16 {
        lemma_hex_digits_of_zero(less);
        assert(n / 16 == 0 && n % 16 == n);
        assert(padded_hex(n, width) =~= hex_digits(n, width));
    } else {
        if width == 1 {
            lemma_pow1(16);
        }
        reveal(pow);
        assert(pow(16, width) == 16 * pow(16, less));
        lemma_padded_hex(n / 16, less);
        assert(padded_hex(n, width) =~= padded_hex(n / 16, less).push(digit((n % 16) as int)));
    }
}

/// Of two numbers written with as many digits, the lower one comes first.
proof fn lemma_hex_order(a: nat, b: nat, width: nat) -> (i: int)
    requires
        a < b < pow(16, width),
    ensures
        hex_digits(a, width).len() == width == hex_digits(b, width).len(),
        0 <= i < width,
        differs_at(hex_digits(a, width), hex_digits(b, width), i),
    decreases width,
{
    reveal(pow);
    assert(width > 0);
    let less = (width - 1) as nat;
    assert(pow(16, width) == 16 * pow(16, less));
    let (x, y) = (hex_digits(a, width), hex_digits(b, width));
    let (u, v) = (hex_digits(a / 16, less), hex_digits(b / 16, less));
    if a / 16 < b / 16 {
        let i = lemma_hex_order(a / 16, b / 16, less);
        assert(x.take(i) =~= u.take(i));
        assert(y.take(i) =~= v.take(i));
        i
    } else {
        lemma_hex_digits_len(a / 16, less);
        assert(a / 16 == b / 16 && a % 16 < b % 16);
        assert(x.take(less as int) =~= u);
        assert(y.take(less as int) =~= u);
        less as int
    }
}

proof fn lemma_hex_digits_len(n: nat, width: nat)
    ensures
        hex_digits(n, width).len() == width,
    decreases width,
{
    if width > 0 {
        lemma_hex_digits_len(n / 16, (width - 1) as nat);
    }
}

proof fn lemma_powers_of_sixteen()
    ensures
        pow(16, 16) == 0x1_0000_0000_0000_0000,
        pow(16, 4) == 0x1_0000,
{
    reveal_with_fuel(pow, 17);
}

/// The identifier of a run is sixteen digits, a dash and four digits, for every time whose
/// milliseconds fit in 64 bits.
pub proof fn law_run_id_has_a_fixed_length(millis: u64)
    ensures
        run_id(millis as nat).len() == 21,
        run_id(millis as nat)[16] == '-',
{
    lemma_powers_of_sixteen();
    reveal_strlit("-");
    lemma_padded_hex(millis as nat, 16);
    lemma_padded_hex(millis as nat % 0xFFFF, 4);
}

/// Run identifiers are ordered by time: of two times whose milliseconds fit in 64 bits, the later one
/// gives the identifier that is later in the order of texts.
pub proof fn law_run_ids_are_ordered_by_time(earlier: u64, later: u64)
    requires
        earlier < later,
    ensures
        precedes(run_id(earlier as nat), run_id(later as nat)),
{
    lemma_powers_of_sixteen();
    lemma_padded_hex(earlier as nat, 16);
    lemma_padded_hex(later as nat, 16);
    let i = lemma_hex_order(earlier as nat, later as nat, 16);
    let (a, b) = (run_id(earlier as nat), run_id(later as nat));
    assert(a.take(i) =~= hex_digits(earlier as nat, 16).take(i));
    assert(b.take(i) =~= hex_digits(later as nat, 16).take(i));
    assert(differs_at(a, b, i));
}

} // verus!
