//! Cell files: a YAML document whose `cell` entry describes a cell.
//!
//! ```yaml
//! cell:
//!   identity:
//!     name: "greet"
//!     version: "1.0.0"
//!     type: "Transformer"
//!   contract:
//!     input: "object"
//!     output: "object"
//!   logic:
//!     lang: "typescript"
//!     process: |
//!       return ...;
//!   lineage:
//!     source: "..."
//!     trigger: "..."
//!     justification: "..."
//!     parent_context_hash: "..."
//!   signature: "0x..."
//! ```

use crate::json::{items_view, lemma_items_view, Json, JsonView};
use crate::json_text::{parse_yaml, reading, yaml_document};
use crate::outside::{lower, to_lower};
use crate::schema::{
    views, CellContract, CellIdentity, CellLineage, CellType, CellView, ChannelView, ContractView,
    FractalCell, IdentityView, LineageView, TypedChannelConfig,
};
use crate::text::same_text;
use vstd::prelude::*;

verus! {

/// The cell type that a text names, in any case. Other texts name a transformer.
pub open spec fn cell_type_of(lowered: Seq<char>) -> CellType {
    if lowered == "reactor"@ {
        CellType::Reactor
    } else if lowered == "keeper"@ {
        CellType::Keeper
    } else if lowered == "channel"@ {
        CellType::Channel
    } else {
        CellType::Transformer
    }
}

/// The cell type that a text in lower case names.
pub fn cell_type_named(lowered: &str) -> (r: CellType)
    ensures
        r == cell_type_of(lowered@),
{
    if same_text(lowered, "reactor") {
        CellType::Reactor
    } else if same_text(lowered, "keeper") {
        CellType::Keeper
    } else if same_text(lowered, "channel") {
        CellType::Channel
    } else {
        CellType::Transformer
    }
}

/// The cell type that a text names, in any case.
pub fn parse_cell_type(s: &str) -> (r: CellType)
    ensures
        r == cell_type_of(lower(s@)),
{
    cell_type_named(to_lower(s).as_str())
}

/// The text under `key`, or else `default`.
pub open spec fn text_or(node: JsonView, key: Seq<char>, default: Seq<char>) -> Seq<char> {
    match node.text_field(key) {
        Some(s) => s,
        None => default,
    }
}

/// The text under `key` where there is a node, or else `default`.
pub open spec fn opt_text_or(
    node: Option<JsonView>,
    key: Seq<char>,
    default: Seq<char>,
) -> Seq<char> {
    match node {
        Some(n) => text_or(n, key, default),
        None => default,
    }
}

/// The value under `key`, or else an empty object.
pub open spec fn value_or_empty(node: JsonView, key: Seq<char>) -> JsonView {
    match node.field(key) {
        Some(v) => v,
        None => JsonView::Object(Map::empty()),
    }
}

/// The channel that a node describes.
pub open spec fn channel_of(node: JsonView) -> ChannelView {
    ChannelView {
        name: text_or(node, "name"@, "unnamed"@),
        kind: text_or(node, "kind"@, "unknown"@),
        scope: value_or_empty(node, "scope"@),
    }
}

/// The channels of a cell; none where there is no array of them.
pub open spec fn channels_of(cell: JsonView) -> Seq<ChannelView> {
    match cell.field("channels"@) {
        Some(JsonView::Array(items)) => items.map_values(|c: JsonView| channel_of(c)),
        _ => Seq::empty(),
    }
}

/// The cell that a node describes. Identity, contract and logic must be there; the rest has defaults.
pub open spec fn cell_of(cell: JsonView) -> Result<CellView, Seq<char>> {
    match cell.field("identity"@) {
        None => Err("missing identity"@),
        Some(identity) => match cell.field("contract"@) {
            None => Err("missing contract"@),
            Some(contract) => match cell.field("logic"@) {
                None => Err("missing logic"@),
                Some(logic) => {
                    let lineage = cell.field("lineage"@);
                    Ok(
                        CellView {
                            identity: IdentityView {
                                name: text_or(identity, "name"@, "unnamed"@),
                                cell_type: match identity.text_field("type"@) {
                                    Some(s) => cell_type_of(lower(s)),
                                    None => CellType::Transformer,
                                },
                                version: text_or(identity, "version"@, "0.1.0"@),
                            },
                            contract: ContractView {
                                input: value_or_empty(contract, "input"@),
                                output: value_or_empty(contract, "output"@),
                            },
                            channels: channels_of(cell),
                            logic: text_or(logic, "process"@, ""@),
                            lineage: LineageView {
                                source: opt_text_or(lineage, "source"@, "unknown"@),
                                trigger: opt_text_or(lineage, "trigger"@, "manual"@),
                                justification: opt_text_or(lineage, "justification"@, ""@),
                                signature: opt_text_or(lineage, "parent_context_hash"@, ""@),
                            },
                            signature: cell.text_field("signature"@),
                        },
                    )
                },
            },
        },
    }
}

fn read_text(node: &Json, key: &str, default: &str) -> (r: String)
    ensures
        r@ == text_or(node@, key@, default@),
{
    match node.get_str(key) {
        Some(s) => s.to_owned(),
        None => default.to_owned(),
    }
}

/// What an optional node stands for.
pub open spec fn node_view(node: Option<&Json>) -> Option<JsonView> {
    match node {
        Some(n) => Some(n@),
        None => None,
    }
}

fn read_opt_text(node: Option<&Json>, key: &str, default: &str) -> (r: String)
    ensures
        r@ == opt_text_or(node_view(node), key@, default@),
{
    match node {
        Some(n) => read_text(n, key, default),
        None => default.to_owned(),
    }
}

fn read_value(node: &Json, key: &str) -> (r: Json)
    ensures
        r@ == value_or_empty(node@, key@),
{
    match node.get(key) {
        Some(v) => v.clone(),
        None => {
            let empty: Vec<(String, Json)> = Vec::new();
            Json::Object(empty)
        },
    }
}

fn read_channels(cell: &Json) -> (r: Vec<TypedChannelConfig>)
    ensures
        views(r@) == channels_of(cell@),
{
    let mut out: Vec<TypedChannelConfig> = Vec::new();
    assert(views(out@) == Seq::<ChannelView>::empty());
    let items = match cell.get("channels") {
        Some(node) => match node.as_array() {
            Some(items) => items,
            None => {
                return out;
            },
        },
        None => {
            return out;
        },
    };
    let ghost all = channels_of(cell@);
    proof {
        lemma_items_view(items@);
        assert(all == items_view(items@).map_values(|c: JsonView| channel_of(c)));
    }
    for i in 0..items.len()
        invariant
            all.len() == items@.len(),
            forall|k: int| 0 <= k < items@.len() ==> #[trigger] all[k] == channel_of(items@[k]@),
            views(out@) == all.take(i as int),
    {
        let node = &items[i];
        let channel = TypedChannelConfig {
            name: read_text(node, "name", "unnamed"),
            kind: read_text(node, "kind", "unknown"),
            scope: read_value(node, "scope"),
        };
        assert(all[i as int] == channel@);
        assert(views(out@.push(channel)) == views(out@).push(channel@));
        out.push(channel);
    }
    assert(all.take(items@.len() as int) == all);
    out
}

/// What the reading of a cell stands for.
pub open spec fn cell_reading(r: Result<FractalCell, String>) -> Result<CellView, Seq<char>> {
    match r {
        Ok(cell) => Ok(cell@),
        Err(e) => Err(e@),
    }
}

/// Reads the cell that a node describes.
pub fn parse_cell_from_yaml(cell: &Json) -> (r: Result<FractalCell, String>)
    ensures
        cell_reading(r) == cell_of(cell@),
{
    let identity = match cell.get("identity") {
        Some(node) => node,
        None => {
            return Err("missing identity".to_owned());
        },
    };
    let contract = match cell.get("contract") {
        Some(node) => node,
        None => {
            return Err("missing contract".to_owned());
        },
    };
    let logic = match cell.get("logic") {
        Some(node) => node,
        None => {
            return Err("missing logic".to_owned());
        },
    };
    let lineage = cell.get("lineage");
    let cell_type = match identity.get_str("type") {
        Some(s) => parse_cell_type(s),
        None => CellType::Transformer,
    };
    let signature = match cell.get_str("signature") {
        Some(s) => Some(s.to_owned()),
        None => None,
    };
    Ok(
        FractalCell {
            identity: CellIdentity {
                name: read_text(identity, "name", "unnamed"),
                cell_type,
                version: read_text(identity, "version", "0.1.0"),
            },
            contract: CellContract {
                input: read_value(contract, "input"),
                output: read_value(contract, "output"),
            },
            channels: read_channels(cell),
            logic: read_text(logic, "process", ""),
            lineage: CellLineage {
                source: read_opt_text(lineage, "source", "unknown"),
                trigger: read_opt_text(lineage, "trigger", "manual"),
                justification: read_opt_text(lineage, "justification", ""),
                signature: read_opt_text(lineage, "parent_context_hash", ""),
            },
            signature,
        },
    )
}

/// The cell of a file at `path` whose text was read as `document`.
pub open spec fn file_cell(
    document: Result<JsonView, Seq<char>>,
    path: Seq<char>,
) -> Result<CellView, Seq<char>> {
    match document {
        Err(e) => Err("YAML parse error in "@ + path + ": "@ + e),
        Ok(root) => match root.field("cell"@) {
            None => Err("Missing 'cell:' key in "@ + path),
            Some(node) => match cell_of(node) {
                Err(e) => Err("Invalid cell in "@ + path + ": "@ + e),
                Ok(cell) => Ok(cell),
            },
        },
    }
}

fn complaint(what: &str, path: &str, why: &str) -> (r: String)
    ensures
        r@ == what@ + path@ + ": "@ + why@,
{
    let mut out = what.to_owned();
    out.append(path);
    out.append(": ");
    out.append(why);
    out
}

/// Takes the cell from a file at `path` whose text was read as `document`.
pub fn cell_from_document(document: Result<Json, String>, path: &str) -> (r: Result<
    FractalCell,
    String,
>)
    ensures
        cell_reading(r) == file_cell(reading(document), path@),
{
    match document {
        Err(e) => Err(complaint("YAML parse error in ", path, e.as_str())),
        Ok(root) => match root.get("cell") {
            None => {
                let mut message = "Missing 'cell:' key in ".to_owned();
                message.append(path);
                Err(message)
            },
            Some(node) => match parse_cell_from_yaml(node) {
                Err(e) => Err(complaint("Invalid cell in ", path, e.as_str())),
                Ok(cell) => Ok(cell),
            },
        },
    }
}

/// Parses a cell file: a YAML `cell:` document with embedded logic. `path` is named in errors.
pub fn parse_fc_file(content: &str, path: &str) -> (r: Result<FractalCell, String>)
    ensures
        cell_reading(r) == file_cell(yaml_document(content@), path@),
{
    cell_from_document(parse_yaml(content), path)
}

/// Tells whether a file is a cell file, by the extension of its name.
pub fn is_cell_file(extension: Option<&str>) -> (r: bool)
    ensures
        r == (extension matches Some(e) && e@ == "fc"@),
{
    match extension {
        Some(e) => same_text(e, "fc"),
        None => false,
    }
}

/// Asks for at least one cell in the directory `dir`, which is named in the error.
pub fn require_cells(cells: Vec<FractalCell>, dir: &str) -> (r: Result<Vec<FractalCell>, String>)
    ensures
        match r {
            Ok(list) => cells@.len() > 0 && list == cells,
            Err(e) => cells@.len() == 0 && e@ == "No .fc files found in "@ + dir@,
        },
{
    if cells.len() == 0 {
        let mut message = "No .fc files found in ".to_owned();
        message.append(dir);
        Err(message)
    } else {
        Ok(cells)
    }
}

} // verus!
