//! Classification tags: how sensitive the data of a contract is.
//!
//! A contract tags a value with its level, as in `string<pii>`. What a cell gives must be at least as
//! sensitive as what it takes.

use crate::json::{
    items_view, lemma_entries_finite, lemma_entries_keys, lemma_items_view, Json, JsonView,
};
use crate::schema::ClassificationLevel;
use crate::text::{contains, has_part};
use vstd::prelude::*;

verus! {

/// Tells whether a value holds a text with the given tag in it, at any depth.
pub open spec fn tagged(j: JsonView, tag: Seq<char>) -> bool
    decreases j,
{
    match j {
        JsonView::Text(s) => has_part(s, tag),
        JsonView::Array(items) => exists|i: int|
            0 <= i < items.len() && tagged(#[trigger] items[i], tag),
        JsonView::Object(fields) => fields.dom().finite() && exists|key: Seq<char>|
            fields.contains_key(key) && tagged(#[trigger] fields[key], tag),
        _ => false,
    }
}

/// Tells whether data of a level occurs in what a schema describes.
pub open spec fn has_level(schema: JsonView, level: ClassificationLevel) -> bool {
    tagged(schema, level.spec_tag())
}

/// The highest level that occurs in a schema, if it is tagged at all.
pub open spec fn highest(schema: JsonView) -> Option<ClassificationLevel> {
    if has_level(schema, ClassificationLevel::Secret) {
        Some(ClassificationLevel::Secret)
    } else if has_level(schema, ClassificationLevel::Pii) {
        Some(ClassificationLevel::Pii)
    } else if has_level(schema, ClassificationLevel::Internal) {
        Some(ClassificationLevel::Internal)
    } else if has_level(schema, ClassificationLevel::Public) {
        Some(ClassificationLevel::Public)
    } else {
        None
    }
}

/// Tells whether a level dominates the highest level of a schema.
pub open spec fn covers(level: ClassificationLevel, schema: JsonView) -> bool {
    match highest(schema) {
        Some(top) => level.spec_dominates(top),
        None => true,
    }
}

/// Taint inheritance: every level of the output dominates the highest level of the input.
pub open spec fn inherits_taint(input: JsonView, output: JsonView) -> bool {
    forall|level: ClassificationLevel|
        #[trigger] has_level(output, level) ==> covers(level, input)
}

/// Tells whether a value holds a text with the given tag in it, at any depth.
pub fn is_tagged(j: &Json, tag: &str) -> (r: bool)
    ensures
        r == tagged(j@, tag@),
    decreases j@,
{
    match j {
        Json::Text(s) => contains(s.as_str(), tag),
        Json::Array(items) => {
            let ghost all = items_view(items@);
            proof {
                lemma_items_view(items@);
            }
            for i in 0..items.len()
                invariant
                    j@ == JsonView::Array(all),
                    all.len() == items@.len(),
                    forall|k: int| 0 <= k < items@.len() ==> #[trigger] all[k] == items@[k]@,
                    forall|k: int| 0 <= k < i ==> !tagged(#[trigger] all[k], tag@),
            {
                assert(decreases_to!(j@ => j@->Array_0));
                assert(decreases_to!(j@->Array_0 => j@->Array_0[i as int]));
                if is_tagged(&items[i], tag) {
                    assert(tagged(all[i as int], tag@));
                    return true;
                }
            }
            false
        },
        Json::Object(entries) => {
            let ghost fields = j@->Object_0;
            proof {
                lemma_entries_finite(entries@);
            }
            for i in 0..entries.len()
                invariant
                    *j == Json::Object(*entries),
                    j@ == JsonView::Object(fields),
                    fields.dom().finite(),
                    forall|k: int|
                        0 <= k < i ==> !tagged(fields[(#[trigger] entries@[k]).0@], tag@),
            {
                if let Some(value) = j.get(entries[i].0.as_str()) {
                    assert(decreases_to!(j@ => j@->Object_0));
                    assert(decreases_to!(j@->Object_0 => j@->Object_0[entries@[i as int].0@]));
                    if is_tagged(value, tag) {
                        assert(tagged(fields[entries@[i as int].0@], tag@));
                        return true;
                    }
                } else {
                    proof {
                        lemma_entries_keys(entries@, entries@[i as int].0@);
                        assert(false);
                    }
                }
            }
            proof {
                assert forall|key: Seq<char>| fields.contains_key(key) implies !tagged(
                    #[trigger] fields[key],
                    tag@,
                ) by {
                    lemma_entries_keys(entries@, key);
                    let k = choose|k: int|
                        0 <= k < entries@.len() && (#[trigger] entries@[k]).0@ == key;
                    assert(entries@[k].0@ == key);
                }
            }
            false
        },
        _ => false,
    }
}

/// The highest level that occurs in a schema, if it is tagged at all.
pub fn highest_level(schema: &Json) -> (r: Option<ClassificationLevel>)
    ensures
        r == highest(schema@),
{
    if is_tagged(schema, ClassificationLevel::Secret.tag()) {
        Some(ClassificationLevel::Secret)
    } else if is_tagged(schema, ClassificationLevel::Pii.tag()) {
        Some(ClassificationLevel::Pii)
    } else if is_tagged(schema, ClassificationLevel::Internal.tag()) {
        Some(ClassificationLevel::Internal)
    } else if is_tagged(schema, ClassificationLevel::Public.tag()) {
        Some(ClassificationLevel::Public)
    } else {
        None
    }
}

fn level_is_kept(output: &Json, level: ClassificationLevel, top: &ClassificationLevel) -> (r: bool)
    ensures
        r == (has_level(output@, level) ==> level.spec_dominates(*top)),
{
    level.dominates(top) || !is_tagged(output, level.tag())
}

/// Tells whether every level of the output dominates the highest level of the input.
pub fn keeps_taint(input: &Json, output: &Json) -> (r: bool)
    ensures
        r == inherits_taint(input@, output@),
{
    match highest_level(input) {
        None => true,
        Some(top) => {
            let r = level_is_kept(output, ClassificationLevel::Public, &top) && level_is_kept(
                output,
                ClassificationLevel::Internal,
                &top,
            ) && level_is_kept(output, ClassificationLevel::Pii, &top) && level_is_kept(
                output,
                ClassificationLevel::Secret,
                &top,
            );
            proof {
                if !r {
                    assert(exists|level: ClassificationLevel|
                        #[trigger] has_level(output@, level) && !covers(level, input@)) by {
                        if has_level(output@, ClassificationLevel::Public) && !covers(
                            ClassificationLevel::Public,
                            input@,
                        ) {
                        } else if has_level(output@, ClassificationLevel::Internal) && !covers(
                            ClassificationLevel::Internal,
                            input@,
                        ) {
                        } else if has_level(output@, ClassificationLevel::Pii) && !covers(
                            ClassificationLevel::Pii,
                            input@,
                        ) {
                        } else {
                            assert(has_level(output@, ClassificationLevel::Secret));
                        }
                    }
                }
            }
            r
        },
    }
}

} // verus!
