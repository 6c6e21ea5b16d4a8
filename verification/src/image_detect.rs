//! Whether the body of a chat request carries a picture.
use crate::json::{fields_of, get_field, tree_of, trees_of, JsonTree};
use crate::text::same;
use vstd::prelude::*;

verus! {

/// The part types that stand for a picture.
pub open spec fn is_picture_type(name: Seq<char>) -> bool {
    name == "image"@ || name == "image_url"@ || name == "input_image"@
}

/// An object that is itself a picture: a list `images` that is not empty, or a
/// `type` that stands for a picture.
pub open spec fn is_picture(object: Map<Seq<char>, JsonTree>) -> bool {
    ||| object.contains_key("images"@) && object["images"@] is List
        && object["images"@]->List_0.len() > 0
    ||| object.contains_key("type"@) && object["type"@] is Text && is_picture_type(
        object["type"@]->Text_0,
    )
}

/// A value that is a picture or holds one, at any depth.
pub open spec fn holds_picture(tree: JsonTree) -> bool
    decreases tree,
{
    match tree {
        JsonTree::Object(object) => {
            ||| is_picture(object)
            ||| exists|key: Seq<char>| #[trigger]
                object.contains_key(key) && holds_picture(object[key])
        },
        JsonTree::List(items) => exists|i: int|
            0 <= i < items.len() && holds_picture(#[trigger] items[i]),
        _ => false,
    }
}

/// Whether a request body carries a picture in any of the known shapes.
pub fn body_contains_image(body: &serde_json::Value) -> (b: bool)
    ensures
        b == holds_picture(tree_of(*body)),
{
    contains_image(body)
}

fn is_picture_name(name: &str) -> (b: bool)
    ensures
        b == is_picture_type(name@),
{
    same(name, "image") || same(name, "image_url") || same(name, "input_image")
}

/// Whether a value is a picture or holds one.
pub fn contains_image(v: &serde_json::Value) -> (b: bool)
    ensures
        b == holds_picture(tree_of(*v)),
    decreases tree_of(*v),
{
    if let Some(items) = v.as_array() {
        let mut i: usize = 0;
        while i < items.len()
            invariant
                i <= items@.len(),
                tree_of(*v) == JsonTree::List(trees_of(items@)),
                forall|j: int| 0 <= j < i ==> !holds_picture(#[trigger] trees_of(items@)[j]),
            decreases items@.len() - i,
        {
            let ghost tree = tree_of(*v);
            assert(tree->List_0[i as int] == tree_of(items@[i as int]));
            assert(decreases_to!(tree => tree->List_0));
            assert(decreases_to!(tree->List_0 => tree->List_0[i as int]));
            if contains_image(&items[i]) {
                return true;
            }
            i = i + 1;
        }
        return false;
    }
    if let Some(fields) = fields_of(v) {
        if let Some(images) = get_field(v, "images") {
            if let Some(items) = images.as_array() {
                if items.len() > 0 {
                    return true;
                }
            }
        }
        if let Some(kind) = get_field(v, "type") {
            if let Some(name) = kind.as_str() {
                if is_picture_name(name) {
                    return true;
                }
            }
        }
        let ghost object = tree_of(*v)->Object_0;
        let mut i: usize = 0;
        while i < fields.len()
            invariant
                i <= fields@.len(),
                tree_of(*v) == JsonTree::Object(object),
                forall|j: int|
                    0 <= j < fields@.len() ==> object.contains_key((#[trigger] fields@[j]).0@)
                        && object[fields@[j].0@] == tree_of(*fields@[j].1),
                forall|j: int| 0 <= j < i ==> !holds_picture(object[(#[trigger] fields@[j]).0@]),
            decreases fields@.len() - i,
        {
            let child = fields[i].1;
            let ghost tree = tree_of(*v);
            let ghost key = fields@[i as int].0@;
            assert(object.contains_key(key));
            assert(decreases_to!(tree => tree->Object_0[key]));
            if contains_image(child) {
                return true;
            }
            i = i + 1;
        }
        return false;
    }
    false
}

} // verus!
