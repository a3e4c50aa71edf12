//! Picking a display string out of an upstream JSON payload.
//!
//! The payload is a `serde_json::Value`, opaque to this core; the lookup
//! of a field and the rendering of a value are relied upon from
//! serde_json, and the search over candidate keys is verified against
//! names for what those calls return.
use vstd::prelude::*;
use vstd::slice::slice_index_get;

verus! {

#[verifier::external_type_specification]
#[verifier::external_body]
pub struct ExValue(serde_json::Value);

/// What looking up the object field named `k` in `v` yields: a function of
/// the value and the key alone.
pub uninterp spec fn json_field_at(v: serde_json::Value, k: Seq<char>) -> Option<
    serde_json::Value,
>;

/// The character content of a string value; none when the value is not a
/// string.
pub uninterp spec fn json_str_content(v: serde_json::Value) -> Option<Seq<char>>;

/// The compact textual rendering of a value.
pub uninterp spec fn json_text(v: serde_json::Value) -> Seq<char>;

/// Relies on serde_json::Value::get with a string index: looks the key up
/// in an object, yielding the field's value exactly when it is present.
#[verifier::external_body]
fn json_get<'a>(v: &'a serde_json::Value, k: &str) -> (r: Option<&'a serde_json::Value>)
    ensures
        match r {
            Some(x) => json_field_at(*v, k@) == Some(*x),
            None => json_field_at(*v, k@) is None,
        },
{
    v.get(k)
}

/// Relies on serde_json::Value::as_str: the content of a string value,
/// and nothing for any other value.
#[verifier::external_body]
fn json_as_str(v: &serde_json::Value) -> (r: Option<String>)
    ensures
        match r {
            Some(s) => json_str_content(*v) == Some(s@),
            None => json_str_content(*v) is None,
        },
{
    match v.as_str() {
        Some(s) => Some(s.to_string()),
        None => None,
    }
}

/// Relies on serde_json's Display for Value: the compact rendering,
/// a function of the value alone.
#[verifier::external_body]
fn json_render(v: &serde_json::Value) -> (r: String)
    ensures
        r@ == json_text(*v),
{
    v.to_string()
}

/// How one field value is shown: a string value by its content, any other
/// value by its rendering.
pub open spec fn shown(v: serde_json::Value) -> Seq<char> {
    match json_str_content(v) {
        Some(c) => c,
        None => json_text(v),
    }
}

/// The views of a sequence of keys.
pub open spec fn key_views(ks: Seq<&str>) -> Seq<Seq<char>> {
    ks.map_values(|k: &str| k@)
}

/// The first key of `keys`, from index `i` on, that is present in `v`,
/// shown; none when no key is present.
pub open spec fn pick_from(v: serde_json::Value, keys: Seq<Seq<char>>, i: int) -> Option<
    Seq<char>,
>
    decreases keys.len() - i,
{
    if i < 0 || i >= keys.len() {
        None
    } else {
        match json_field_at(v, keys[i]) {
            Some(x) => Some(shown(x)),
            None => pick_from(v, keys, i + 1),
        }
    }
}

/// The first of the candidate keys that is present in `v`, shown: a string
/// field by its content, any other field by its rendering, and `None` when
/// no candidate is present.
pub fn s_pick(v: &serde_json::Value, keys: &[&str]) -> (r: Option<String>)
    ensures
        match r {
            Some(s) => pick_from(*v, key_views(keys@), 0) == Some(s@),
            None => pick_from(*v, key_views(keys@), 0) is None,
        },
{
    let n = keys.len();
    let mut i: usize = 0;
    while i < n
        invariant
            i <= n,
            n == keys@.len(),
            pick_from(*v, key_views(keys@), 0) == pick_from(*v, key_views(keys@), i as int),
        decreases n - i,
    {
        let k: &str = *slice_index_get(keys, i);
        match json_get(v, k) {
            Some(x) => {
                proof {
                    assert(key_views(keys@)[i as int] == k@);
                }
                match json_as_str(x) {
                    Some(s) => {
                        return Some(s);
                    },
                    None => {
                        return Some(json_render(x));
                    },
                }
            },
            None => {
                proof {
                    assert(key_views(keys@)[i as int] == k@);
                }
            },
        }
        i += 1;
    }
    None
}

} // verus!
