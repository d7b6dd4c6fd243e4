//! References to a worldbook that is deleted: the global selection and the
//! extra books of each character binding in the global state, the worldbook
//! of a chat and its disabled worldbooks, and the world a character card is
//! bound to. Each is cleaned of the deleted worldbook.

use vstd::prelude::*;
use crate::json::{json_view, vget, vget_str, vjson_get, vjson_get_str, vmember_index_from, JsonValue, JsonView};
use crate::provider_bodies::members_view;
use crate::text::{chars_to_string, ends_with, has_suffix, str_chars, str_eq, sub_chars};

verus! {

/// The JSON value names the worldbook `id`.
pub open spec fn names_lore(v: JsonView, id: Seq<char>) -> bool {
    v == JsonView::Str(id)
}

/// The items of an array that do not name the worldbook `id`, in order.
pub open spec fn drop_lore(items: Seq<JsonView>, id: Seq<char>) -> Seq<JsonView>
    decreases items.len(),
{
    if items.len() == 0 {
        items
    } else {
        let rest = drop_lore(items.drop_last(), id);
        if names_lore(items.last(), id) {
            rest
        } else {
            rest.push(items.last())
        }
    }
}

/// Some item of the array names the worldbook `id`.
pub open spec fn has_lore(items: Seq<JsonView>, id: Seq<char>) -> bool {
    exists|k: int| 0 <= k < items.len() && #[trigger] names_lore(items[k], id)
}

pub open spec fn array_views(items: Seq<JsonValue>) -> Seq<JsonView> {
    items.map_values(|x: JsonValue| json_view(x))
}

pub proof fn lemma_drop_lore_clean(items: Seq<JsonView>, id: Seq<char>)
    ensures
        !has_lore(drop_lore(items, id), id),
    decreases items.len(),
{
    if items.len() > 0 {
        lemma_drop_lore_clean(items.drop_last(), id);
        let rest = drop_lore(items.drop_last(), id);
        if !names_lore(items.last(), id) {
            assert forall|k: int| 0 <= k < rest.push(items.last()).len() implies !#[trigger] names_lore(
                rest.push(items.last())[k],
                id,
            ) by {
                if k < rest.len() {
                    assert(rest.push(items.last())[k] == rest[k]);
                }
            }
        }
    }
}

pub proof fn lemma_drop_lore_none(items: Seq<JsonView>, id: Seq<char>)
    requires
        !has_lore(items, id),
    ensures
        drop_lore(items, id) == items,
    decreases items.len(),
{
    if items.len() > 0 {
        assert(!has_lore(items.drop_last(), id)) by {
            assert forall|k: int| 0 <= k < items.drop_last().len() implies !#[trigger] names_lore(
                items.drop_last()[k],
                id,
            ) by {
                assert(items.drop_last()[k] == items[k]);
            }
        }
        lemma_drop_lore_none(items.drop_last(), id);
        assert(!names_lore(items[items.len() - 1], id));
        assert(items.drop_last().push(items.last()) =~= items);
    }
}

fn is_lore_value(v: &JsonValue, id: &str) -> (r: bool)
    ensures
        r == names_lore(json_view(*v), id@),
{
    match v {
        JsonValue::String(s) => str_eq(s.as_str(), id),
        _ => false,
    }
}

/// `items.retain(|v| v.as_str() != Some(id))`, and whether any item left.
fn retain_other_lores(items: Vec<JsonValue>, id: &str) -> (r: (Vec<JsonValue>, bool))
    ensures
        array_views(r.0@) == drop_lore(array_views(items@), id@),
        r.1 == has_lore(array_views(items@), id@),
{
    let ghost src = items@;
    let ghost sv = array_views(src);
    let n: usize = items.len();
    let mut rest = items;
    let mut out: Vec<JsonValue> = Vec::new();
    let mut removed = false;
    let mut i: usize = 0;
    while rest.len() > 0
        invariant
            i + rest@.len() == src.len(),
            src.len() == n,
            rest@ == src.skip(i as int),
            sv == array_views(src),
            array_views(out@) == drop_lore(sv.take(i as int), id@),
            removed == has_lore(sv.take(i as int), id@),
        decreases rest@.len(),
    {
        let x = rest.remove(0);
        assert(x == src[i as int]);
        let ghost t = sv.take(i + 1);
        assert(t.drop_last() =~= sv.take(i as int));
        assert(t.last() == json_view(x));
        if is_lore_value(&x, id) {
            assert(names_lore(t[i as int], id@));
            removed = true;
        } else {
            let ghost before = array_views(out@);
            out.push(x);
            assert(array_views(out@) =~= before.push(json_view(x)));
            assert(has_lore(t, id@) == has_lore(sv.take(i as int), id@)) by {
                if has_lore(t, id@) {
                    let k = choose|k: int| 0 <= k < t.len() && #[trigger] names_lore(t[k], id@);
                    assert(k < i);
                    assert(sv.take(i as int)[k] == t[k]);
                }
                if has_lore(sv.take(i as int), id@) {
                    let k = choose|k: int| 0 <= k < i && #[trigger] names_lore(sv.take(i as int)[k], id@);
                    assert(t[k] == sv.take(i as int)[k]);
                }
            }
        }
        assert(rest@ =~= src.skip(i + 1));
        i += 1;
    }
    assert(sv.take(i as int) =~= sv);
    (out, removed)
}

// ---------------------------------------------------------------------------
// Members of objects
// ---------------------------------------------------------------------------

pub proof fn lemma_object_view(m: Vec<(String, JsonValue)>)
    ensures
        json_view(JsonValue::Object(m)) == JsonView::Object(members_view(m@)),
{
    assert(json_view(JsonValue::Object(m))->Object_0 =~= members_view(m@));
}

pub proof fn lemma_array_view(a: Vec<JsonValue>)
    ensures
        json_view(JsonValue::Array(a)) == JsonView::Array(array_views(a@)),
{
    assert(json_view(JsonValue::Array(a))->Array_0 =~= array_views(a@));
}

proof fn lemma_vmember_range(m: Seq<(Seq<char>, JsonView)>, key: Seq<char>, i: int)
    requires
        0 <= i,
    ensures
        vmember_index_from(m, key, i) matches Some(j) ==> i <= j < m.len() && m[j].0 == key,
    decreases m.len() - i,
{
    if i < m.len() {
        lemma_vmember_range(m, key, i + 1);
    }
}

/// Changing the value of a member leaves where each key is found.
proof fn lemma_vmember_update(m: Seq<(Seq<char>, JsonView)>, j: int, v: JsonView, key: Seq<char>, i: int)
    requires
        0 <= j < m.len(),
    ensures
        vmember_index_from(m.update(j, (m[j].0, v)), key, i) == vmember_index_from(m, key, i),
    decreases m.len() - i,
{
    if 0 <= i < m.len() {
        lemma_vmember_update(m, j, v, key, i + 1);
    }
}

/// Takes out the first member named `key`, with its position.
fn take_member(m: &mut Vec<(String, JsonValue)>, key: &str) -> (r: Option<(usize, String, JsonValue)>)
    ensures
        match vmember_index_from(members_view(old(m)@), key@, 0) {
            None => r is None && final(m)@ == old(m)@,
            Some(i) => r matches Some(t) && t.0 == i && i < old(m)@.len() && t.1 == old(m)@[i].0
                && t.2 == old(m)@[i].1 && final(m)@ == old(m)@.remove(i),
        },
{
    let ghost mv = members_view(m@);
    let mut i: usize = 0;
    while i < m.len()
        invariant
            i <= m.len(),
            m@ == old(m)@,
            mv == members_view(m@),
            vmember_index_from(mv, key@, 0) == vmember_index_from(mv, key@, i as int),
        decreases m.len() - i,
    {
        assert(mv[i as int].0 == m@[i as int].0@);
        if str_eq(m[i].0.as_str(), key) {
            let (k, v) = m.remove(i);
            return Some((i, k, v));
        }
        i += 1;
    }
    None
}

/// Puts a member back at its position.
fn put_member(m: &mut Vec<(String, JsonValue)>, i: usize, key: String, value: JsonValue)
    requires
        i <= old(m)@.len(),
    ensures
        members_view(final(m)@) == members_view(old(m)@).insert(i as int, (key@, json_view(value))),
{
    let ghost v = json_view(value);
    m.insert(i, (key, value));
    assert(members_view(m@) =~= members_view(old(m)@).insert(i as int, (key@, v)));
}

/// The members with the array member `key` cleaned of the worldbook `id`,
/// where that member is an array.
pub open spec fn scrub_array_member(m: Seq<(Seq<char>, JsonView)>, key: Seq<char>, id: Seq<char>) -> Seq<
    (Seq<char>, JsonView),
> {
    match vmember_index_from(m, key, 0) {
        Some(i) => match m[i].1 {
            JsonView::Array(a) => m.update(i, (m[i].0, JsonView::Array(drop_lore(a, id)))),
            _ => m,
        },
        None => m,
    }
}

/// The array member `key` names the worldbook `id`.
pub open spec fn array_member_has_lore(m: Seq<(Seq<char>, JsonView)>, key: Seq<char>, id: Seq<char>) -> bool {
    match vmember_index_from(m, key, 0) {
        Some(i) => match m[i].1 {
            JsonView::Array(a) => has_lore(a, id),
            _ => false,
        },
        None => false,
    }
}

/// Cleans the array member `key` of the worldbook `id`; says whether it
/// named it.
fn retain_member_lores(m: Vec<(String, JsonValue)>, key: &str, id: &str) -> (r: (Vec<(String, JsonValue)>, bool))
    ensures
        members_view(r.0@) == scrub_array_member(members_view(m@), key@, id@),
        r.1 == array_member_has_lore(members_view(m@), key@, id@),
{
    let ghost mv = members_view(m@);
    let mut m = m;
    proof {
        lemma_vmember_range(mv, key@, 0);
    }
    match take_member(&mut m, key) {
        None => (m, false),
        Some((i, k, v)) => {
            assert(mv[i as int] == (k@, json_view(v)));
            match v {
                JsonValue::Array(items) => {
                    proof {
                        lemma_array_view(items);
                    }
                    let (kept, removed) = retain_other_lores(items, id);
                    let nv = JsonValue::Array(kept);
                    proof {
                        lemma_array_view(kept);
                    }
                    put_member(&mut m, i, k, nv);
                    assert(members_view(m@) =~= mv.update(
                        i as int,
                        (mv[i as int].0, JsonView::Array(drop_lore(mv[i as int].1->Array_0, id@))),
                    ));
                    (m, removed)
                },
                other => {
                    let ghost ov = json_view(other);
                    put_member(&mut m, i, k, other);
                    assert(members_view(m@) =~= mv);
                    (m, false)
                },
            }
        },
    }
}

// ---------------------------------------------------------------------------
// The global state
// ---------------------------------------------------------------------------

/// A character binding with its extra books cleaned of the worldbook `id`.
pub open spec fn scrub_binding(b: JsonView, id: Seq<char>) -> JsonView {
    match b {
        JsonView::Object(m) => JsonView::Object(scrub_array_member(m, "extra_books"@, id)),
        _ => b,
    }
}

pub open spec fn binding_has_lore(b: JsonView, id: Seq<char>) -> bool {
    match b {
        JsonView::Object(m) => array_member_has_lore(m, "extra_books"@, id),
        _ => false,
    }
}

pub open spec fn scrub_bindings(a: Seq<JsonView>, id: Seq<char>) -> Seq<JsonView> {
    a.map_values(|b: JsonView| scrub_binding(b, id))
}

pub open spec fn bindings_have_lore(a: Seq<JsonView>, id: Seq<char>) -> bool {
    exists|k: int| 0 <= k < a.len() && #[trigger] binding_has_lore(a[k], id)
}

/// The world info settings with the global selection and the extra books
/// of each character binding cleaned of the worldbook `id`.
pub open spec fn scrub_settings(s: JsonView, id: Seq<char>) -> JsonView {
    match s {
        JsonView::Object(m) => {
            let m1 = scrub_array_member(m, "global_select"@, id);
            JsonView::Object(
                match vmember_index_from(m1, "char_lore"@, 0) {
                    Some(i) => match m1[i].1 {
                        JsonView::Array(a) => m1.update(i, (m1[i].0, JsonView::Array(scrub_bindings(a, id)))),
                        _ => m1,
                    },
                    None => m1,
                },
            )
        },
        _ => s,
    }
}

/// The character bindings of the settings name the worldbook `id`.
pub open spec fn char_lore_has_lore(m: Seq<(Seq<char>, JsonView)>, id: Seq<char>) -> bool {
    match vmember_index_from(m, "char_lore"@, 0) {
        Some(i) => match m[i].1 {
            JsonView::Array(a) => bindings_have_lore(a, id),
            _ => false,
        },
        None => false,
    }
}

pub open spec fn settings_has_lore(s: JsonView, id: Seq<char>) -> bool {
    match s {
        JsonView::Object(m) => array_member_has_lore(m, "global_select"@, id) || char_lore_has_lore(m, id),
        _ => false,
    }
}

/// The global state with its world info settings cleaned of the worldbook
/// `id`.
pub open spec fn scrub_global_view(state: JsonView, id: Seq<char>) -> JsonView {
    match state {
        JsonView::Object(m) => match vmember_index_from(m, "world_info_settings"@, 0) {
            Some(i) => JsonView::Object(m.update(i, (m[i].0, scrub_settings(m[i].1, id)))),
            None => state,
        },
        _ => state,
    }
}

/// The global state names the worldbook `id` in its global selection or in
/// the extra books of a character binding.
pub open spec fn global_state_has_lore(state: JsonView, id: Seq<char>) -> bool {
    match state {
        JsonView::Object(m) => match vmember_index_from(m, "world_info_settings"@, 0) {
            Some(i) => settings_has_lore(m[i].1, id),
            None => false,
        },
        _ => false,
    }
}

fn scrub_bindings_exec(items: Vec<JsonValue>, id: &str) -> (r: (Vec<JsonValue>, bool))
    ensures
        array_views(r.0@) == scrub_bindings(array_views(items@), id@),
        r.1 == bindings_have_lore(array_views(items@), id@),
{
    let ghost src = items@;
    let ghost sv = array_views(src);
    let n: usize = items.len();
    let mut rest = items;
    let mut out: Vec<JsonValue> = Vec::new();
    let mut any = false;
    let mut i: usize = 0;
    while rest.len() > 0
        invariant
            i + rest@.len() == src.len(),
            src.len() == n,
            rest@ == src.skip(i as int),
            sv == array_views(src),
            out@.len() == i,
            forall|k: int| 0 <= k < i ==> json_view(#[trigger] out@[k]) == scrub_binding(sv[k], id@),
            any == (exists|k: int| 0 <= k < i && #[trigger] binding_has_lore(sv[k], id@)),
        decreases rest@.len(),
    {
        let b = rest.remove(0);
        assert(b == src[i as int]);
        assert(sv[i as int] == json_view(b));
        let ghost before = out@;
        let nb: JsonValue;
        let mut ch = false;
        match b {
            JsonValue::Object(m) => {
                proof {
                    lemma_object_view(m);
                }
                let (m2, c) = retain_member_lores(m, "extra_books", id);
                proof {
                    lemma_object_view(m2);
                }
                ch = c;
                nb = JsonValue::Object(m2);
            },
            other => {
                nb = other;
            },
        }
        assert(json_view(nb) == scrub_binding(sv[i as int], id@));
        assert(ch == binding_has_lore(sv[i as int], id@));
        out.push(nb);
        assert forall|k: int| 0 <= k < i + 1 implies json_view(#[trigger] out@[k]) == scrub_binding(sv[k], id@) by {
            if k < i {
                assert(out@[k] == before[k]);
            }
        }
        any = any || ch;
        assert(rest@ =~= src.skip(i + 1));
        i += 1;
    }
    assert(array_views(out@) =~= scrub_bindings(sv, id@));
    (out, any)
}

fn scrub_settings_exec(s: JsonValue, id: &str) -> (r: (JsonValue, bool))
    ensures
        json_view(r.0) == scrub_settings(json_view(s), id@),
        r.1 == settings_has_lore(json_view(s), id@),
{
    match s {
        JsonValue::Object(m) => {
            let ghost mv = members_view(m@);
            proof {
                lemma_object_view(m);
            }
            let (m1, c1) = retain_member_lores(m, "global_select", id);
            let ghost mv1 = members_view(m1@);
            let mut m1 = m1;
            proof {
                lemma_vmember_range(mv, "global_select"@, 0);
                lemma_vmember_range(mv, "char_lore"@, 0);
                lemma_vmember_range(mv1, "char_lore"@, 0);
                reveal_strlit("global_select");
                reveal_strlit("char_lore");
                assert("global_select"@.len() != "char_lore"@.len());
                match vmember_index_from(mv, "global_select"@, 0) {
                    Some(g) => match mv[g].1 {
                        JsonView::Array(a) => {
                            lemma_vmember_update(mv, g, JsonView::Array(drop_lore(a, id@)), "char_lore"@, 0);
                        },
                        _ => {},
                    },
                    None => {},
                }
                assert(vmember_index_from(mv1, "char_lore"@, 0) == vmember_index_from(mv, "char_lore"@, 0));
                match vmember_index_from(mv, "char_lore"@, 0) {
                    Some(c) => {
                        assert(mv1[c] == mv[c]);
                    },
                    None => {},
                }
            }
            match take_member(&mut m1, "char_lore") {
                None => {
                    let r = JsonValue::Object(m1);
                    proof {
                        lemma_object_view(m1);
                    }
                    (r, c1)
                },
                Some((i, k, v)) => {
                    assert(mv1[i as int] == (k@, json_view(v)));
                    match v {
                        JsonValue::Array(a) => {
                            proof {
                                lemma_array_view(a);
                            }
                            let (a2, c2) = scrub_bindings_exec(a, id);
                            let nv = JsonValue::Array(a2);
                            proof {
                                lemma_array_view(a2);
                            }
                            put_member(&mut m1, i, k, nv);
                            assert(members_view(m1@) =~= mv1.update(
                                i as int,
                                (mv1[i as int].0, JsonView::Array(scrub_bindings(mv1[i as int].1->Array_0, id@))),
                            ));
                            let r = JsonValue::Object(m1);
                            proof {
                                lemma_object_view(m1);
                            }
                            (r, c1 || c2)
                        },
                        other => {
                            put_member(&mut m1, i, k, other);
                            assert(members_view(m1@) =~= mv1);
                            let r = JsonValue::Object(m1);
                            proof {
                                lemma_object_view(m1);
                            }
                            (r, c1)
                        },
                    }
                },
            }
        },
        other => (other, false),
    }
}

/// Cleans the global state of the worldbook `id`: its world info settings'
/// global selection and the extra books of each character binding. Says
/// whether the state named it, which is when it has to be written back.
pub fn scrub_global_state(state: JsonValue, id: &str) -> (r: (JsonValue, bool))
    ensures
        json_view(r.0) == scrub_global_view(json_view(state), id@),
        r.1 == global_state_has_lore(json_view(state), id@),
{
    match state {
        JsonValue::Object(m) => {
            let ghost mv = members_view(m@);
            proof {
                lemma_object_view(m);
                lemma_vmember_range(mv, "world_info_settings"@, 0);
            }
            let mut m = m;
            match take_member(&mut m, "world_info_settings") {
                None => {
                    proof {
                        lemma_object_view(m);
                    }
                    (JsonValue::Object(m), false)
                },
                Some((i, k, v)) => {
                    assert(mv[i as int] == (k@, json_view(v)));
                    let (nv, ch) = scrub_settings_exec(v, id);
                    let ghost nvv = json_view(nv);
                    put_member(&mut m, i, k, nv);
                    assert(members_view(m@) =~= mv.update(i as int, (mv[i as int].0, nvv)));
                    proof {
                        lemma_object_view(m);
                    }
                    (JsonValue::Object(m), ch)
                },
            }
        },
        other => (other, false),
    }
}

// ---------------------------------------------------------------------------
// Laws of cleaning the global state
// ---------------------------------------------------------------------------

proof fn lemma_scrub_member_clean(m: Seq<(Seq<char>, JsonView)>, key: Seq<char>, id: Seq<char>)
    ensures
        !array_member_has_lore(scrub_array_member(m, key, id), key, id),
        vmember_index_from(scrub_array_member(m, key, id), key, 0) == vmember_index_from(m, key, 0),
{
    lemma_vmember_range(m, key, 0);
    match vmember_index_from(m, key, 0) {
        Some(i) => match m[i].1 {
            JsonView::Array(a) => {
                lemma_vmember_update(m, i, JsonView::Array(drop_lore(a, id)), key, 0);
                lemma_drop_lore_clean(a, id);
            },
            _ => {},
        },
        None => {},
    }
}

proof fn lemma_scrub_member_none(m: Seq<(Seq<char>, JsonView)>, key: Seq<char>, id: Seq<char>)
    requires
        !array_member_has_lore(m, key, id),
    ensures
        scrub_array_member(m, key, id) == m,
{
    lemma_vmember_range(m, key, 0);
    match vmember_index_from(m, key, 0) {
        Some(i) => match m[i].1 {
            JsonView::Array(a) => {
                lemma_drop_lore_none(a, id);
                assert(m.update(i, (m[i].0, JsonView::Array(a))) =~= m);
            },
            _ => {},
        },
        None => {},
    }
}

/// Updating the value of a member with a key of its own leaves the index of
/// every key, and the members at other positions.
proof fn lemma_update_keeps(m: Seq<(Seq<char>, JsonView)>, j: int, v: JsonView, key: Seq<char>)
    requires
        0 <= j < m.len(),
    ensures
        vmember_index_from(m.update(j, (m[j].0, v)), key, 0) == vmember_index_from(m, key, 0),
{
    lemma_vmember_update(m, j, v, key, 0);
}

proof fn lemma_settings_clean(s: JsonView, id: Seq<char>)
    ensures
        !settings_has_lore(scrub_settings(s, id), id),
{
    match s {
        JsonView::Object(m) => {
            let m1 = scrub_array_member(m, "global_select"@, id);
            lemma_scrub_member_clean(m, "global_select"@, id);
            lemma_vmember_range(m1, "char_lore"@, 0);
            lemma_vmember_range(m1, "global_select"@, 0);
            reveal_strlit("global_select");
            reveal_strlit("char_lore");
            assert("global_select"@.len() != "char_lore"@.len());
            match vmember_index_from(m1, "char_lore"@, 0) {
                Some(c) => match m1[c].1 {
                    JsonView::Array(a) => {
                        let sa = scrub_bindings(a, id);
                        let m2 = m1.update(c, (m1[c].0, JsonView::Array(sa)));
                        lemma_update_keeps(m1, c, JsonView::Array(sa), "char_lore"@);
                        lemma_update_keeps(m1, c, JsonView::Array(sa), "global_select"@);
                        match vmember_index_from(m1, "global_select"@, 0) {
                            Some(g) => {
                                assert(m2[g] == m1[g]);
                            },
                            None => {},
                        }
                        assert(!array_member_has_lore(m2, "global_select"@, id));
                        assert forall|k: int| 0 <= k < sa.len() implies !#[trigger] binding_has_lore(sa[k], id) by {
                            match a[k] {
                                JsonView::Object(mb) => {
                                    lemma_scrub_member_clean(mb, "extra_books"@, id);
                                },
                                _ => {},
                            }
                        }
                        assert(!char_lore_has_lore(m2, id));
                    },
                    _ => {},
                },
                None => {},
            }
        },
        _ => {},
    }
}

proof fn lemma_settings_none(s: JsonView, id: Seq<char>)
    requires
        !settings_has_lore(s, id),
    ensures
        scrub_settings(s, id) == s,
{
    match s {
        JsonView::Object(m) => {
            lemma_scrub_member_none(m, "global_select"@, id);
            lemma_vmember_range(m, "char_lore"@, 0);
            match vmember_index_from(m, "char_lore"@, 0) {
                Some(c) => match m[c].1 {
                    JsonView::Array(a) => {
                        assert forall|k: int| 0 <= k < a.len() implies #[trigger] scrub_binding(a[k], id) == a[k] by {
                            assert(!binding_has_lore(a[k], id));
                            match a[k] {
                                JsonView::Object(mb) => {
                                    lemma_scrub_member_none(mb, "extra_books"@, id);
                                },
                                _ => {},
                            }
                        }
                        assert(scrub_bindings(a, id) =~= a);
                        assert(m.update(c, (m[c].0, JsonView::Array(a))) =~= m);
                    },
                    _ => {},
                },
                None => {},
            }
        },
        _ => {},
    }
}

/// Once the global state is cleaned of a worldbook, it names it nowhere.
pub proof fn law_cleaned_global_state_names_no_lore(state: JsonView, id: Seq<char>)
    ensures
        !global_state_has_lore(scrub_global_view(state, id), id),
{
    match state {
        JsonView::Object(m) => {
            lemma_vmember_range(m, "world_info_settings"@, 0);
            match vmember_index_from(m, "world_info_settings"@, 0) {
                Some(i) => {
                    lemma_update_keeps(m, i, scrub_settings(m[i].1, id), "world_info_settings"@);
                    lemma_settings_clean(m[i].1, id);
                },
                None => {},
            }
        },
        _ => {},
    }
}

/// A global state that does not name a worldbook is left as it is.
pub proof fn law_global_state_without_lore_unchanged(state: JsonView, id: Seq<char>)
    requires
        !global_state_has_lore(state, id),
    ensures
        scrub_global_view(state, id) == state,
{
    match state {
        JsonView::Object(m) => {
            lemma_vmember_range(m, "world_info_settings"@, 0);
            match vmember_index_from(m, "world_info_settings"@, 0) {
                Some(i) => {
                    lemma_settings_none(m[i].1, id);
                    assert(m.update(i, (m[i].0, m[i].1)) =~= m);
                },
                None => {},
            }
        },
        _ => {},
    }
}

// ---------------------------------------------------------------------------
// Chats
// ---------------------------------------------------------------------------

/// Chat metadata with its worldbook set to null where it is `id`, and its
/// disabled worldbooks cleaned of `id`.
pub open spec fn scrub_meta(meta: Seq<(Seq<char>, JsonView)>, id: Seq<char>) -> Seq<(Seq<char>, JsonView)> {
    let m1 = match vmember_index_from(meta, "world_info"@, 0) {
        Some(i) => if names_lore(meta[i].1, id) {
            meta.update(i, (meta[i].0, JsonView::Null))
        } else {
            meta
        },
        None => meta,
    };
    scrub_array_member(m1, "disabled_world_info"@, id)
}

/// The chat's worldbook is `id`.
pub open spec fn meta_world_is(meta: Seq<(Seq<char>, JsonView)>, id: Seq<char>) -> bool {
    match vmember_index_from(meta, "world_info"@, 0) {
        Some(i) => names_lore(meta[i].1, id),
        None => false,
    }
}

pub open spec fn meta_has_lore(meta: Seq<(Seq<char>, JsonView)>, id: Seq<char>) -> bool {
    meta_world_is(meta, id) || array_member_has_lore(meta, "disabled_world_info"@, id)
}

/// A chat with its metadata cleaned of the worldbook `id`.
pub open spec fn scrub_chat_view(chat: JsonView, id: Seq<char>) -> JsonView {
    match chat {
        JsonView::Object(m) => match vmember_index_from(m, "chat_metadata"@, 0) {
            Some(i) => match m[i].1 {
                JsonView::Object(meta) => JsonView::Object(
                    m.update(i, (m[i].0, JsonView::Object(scrub_meta(meta, id)))),
                ),
                _ => chat,
            },
            None => chat,
        },
        _ => chat,
    }
}

/// The chat's metadata names the worldbook `id`.
pub open spec fn chat_has_lore(chat: JsonView, id: Seq<char>) -> bool {
    match chat {
        JsonView::Object(m) => match vmember_index_from(m, "chat_metadata"@, 0) {
            Some(i) => match m[i].1 {
                JsonView::Object(meta) => meta_has_lore(meta, id),
                _ => false,
            },
            None => false,
        },
        _ => false,
    }
}

fn scrub_meta_exec(meta: Vec<(String, JsonValue)>, id: &str) -> (r: (Vec<(String, JsonValue)>, bool))
    ensures
        members_view(r.0@) == scrub_meta(members_view(meta@), id@),
        r.1 == meta_has_lore(members_view(meta@), id@),
{
    let ghost mv = members_view(meta@);
    let mut meta = meta;
    proof {
        lemma_vmember_range(mv, "world_info"@, 0);
        lemma_vmember_range(mv, "disabled_world_info"@, 0);
    }
    let mut c1 = false;
    match take_member(&mut meta, "world_info") {
        None => {},
        Some((i, k, v)) => {
            assert(mv[i as int] == (k@, json_view(v)));
            if is_lore_value(&v, id) {
                put_member(&mut meta, i, k, JsonValue::Null);
                assert(members_view(meta@) =~= mv.update(i as int, (mv[i as int].0, JsonView::Null)));
                c1 = true;
            } else {
                put_member(&mut meta, i, k, v);
                assert(members_view(meta@) =~= mv);
            }
        },
    }
    let ghost mv1 = members_view(meta@);
    proof {
        match vmember_index_from(mv, "world_info"@, 0) {
            Some(i) => {
                if names_lore(mv[i].1, id@) {
                    lemma_update_keeps(mv, i, JsonView::Null, "disabled_world_info"@);
                    reveal_strlit("world_info");
                    reveal_strlit("disabled_world_info");
                    assert("world_info"@.len() != "disabled_world_info"@.len());
                    match vmember_index_from(mv, "disabled_world_info"@, 0) {
                        Some(d) => {
                            assert(mv1[d] == mv[d]);
                        },
                        None => {},
                    }
                }
            },
            None => {},
        }
        assert(array_member_has_lore(mv1, "disabled_world_info"@, id@) == array_member_has_lore(
            mv,
            "disabled_world_info"@,
            id@,
        ));
    }
    let (m2, c2) = retain_member_lores(meta, "disabled_world_info", id);
    (m2, c1 || c2)
}

/// Cleans a chat of the worldbook `id`: its metadata's worldbook becomes
/// null where it is `id`, and `id` leaves its disabled worldbooks. Says
/// whether the chat named it, which is when it has to be written back.
pub fn scrub_chat(chat: JsonValue, id: &str) -> (r: (JsonValue, bool))
    ensures
        json_view(r.0) == scrub_chat_view(json_view(chat), id@),
        r.1 == chat_has_lore(json_view(chat), id@),
{
    match chat {
        JsonValue::Object(m) => {
            let ghost mv = members_view(m@);
            proof {
                lemma_object_view(m);
                lemma_vmember_range(mv, "chat_metadata"@, 0);
            }
            let mut m = m;
            match take_member(&mut m, "chat_metadata") {
                None => {
                    proof {
                        lemma_object_view(m);
                    }
                    (JsonValue::Object(m), false)
                },
                Some((i, k, v)) => {
                    assert(mv[i as int] == (k@, json_view(v)));
                    match v {
                        JsonValue::Object(meta) => {
                            proof {
                                lemma_object_view(meta);
                            }
                            let (meta2, ch) = scrub_meta_exec(meta, id);
                            let ghost nv = JsonView::Object(members_view(meta2@));
                            proof {
                                lemma_object_view(meta2);
                            }
                            put_member(&mut m, i, k, JsonValue::Object(meta2));
                            assert(members_view(m@) =~= mv.update(i as int, (mv[i as int].0, nv)));
                            proof {
                                lemma_object_view(m);
                            }
                            (JsonValue::Object(m), ch)
                        },
                        other => {
                            put_member(&mut m, i, k, other);
                            assert(members_view(m@) =~= mv);
                            proof {
                                lemma_object_view(m);
                            }
                            (JsonValue::Object(m), false)
                        },
                    }
                },
            }
        },
        other => (other, false),
    }
}

proof fn lemma_meta_clean(meta: Seq<(Seq<char>, JsonView)>, id: Seq<char>)
    ensures
        !meta_has_lore(scrub_meta(meta, id), id),
{
    lemma_vmember_range(meta, "world_info"@, 0);
    let m1 = match vmember_index_from(meta, "world_info"@, 0) {
        Some(i) => if names_lore(meta[i].1, id) {
            meta.update(i, (meta[i].0, JsonView::Null))
        } else {
            meta
        },
        None => meta,
    };
    match vmember_index_from(meta, "world_info"@, 0) {
        Some(i) => {
            if names_lore(meta[i].1, id) {
                lemma_update_keeps(meta, i, JsonView::Null, "world_info"@);
            }
        },
        None => {},
    }
    assert(!meta_world_is(m1, id));
    let m2 = scrub_array_member(m1, "disabled_world_info"@, id);
    lemma_scrub_member_clean(m1, "disabled_world_info"@, id);
    lemma_vmember_range(m1, "disabled_world_info"@, 0);
    lemma_vmember_range(m1, "world_info"@, 0);
    reveal_strlit("world_info");
    reveal_strlit("disabled_world_info");
    assert("world_info"@.len() != "disabled_world_info"@.len());
    match vmember_index_from(m1, "disabled_world_info"@, 0) {
        Some(d) => match m1[d].1 {
            JsonView::Array(a) => {
                lemma_update_keeps(m1, d, JsonView::Array(drop_lore(a, id)), "world_info"@);
                match vmember_index_from(m1, "world_info"@, 0) {
                    Some(w) => {
                        assert(m2[w] == m1[w]);
                    },
                    None => {},
                }
            },
            _ => {},
        },
        None => {},
    }
}

/// Once a chat is cleaned of a worldbook, its metadata names it nowhere.
pub proof fn law_cleaned_chat_names_no_lore(chat: JsonView, id: Seq<char>)
    ensures
        !chat_has_lore(scrub_chat_view(chat, id), id),
{
    match chat {
        JsonView::Object(m) => {
            lemma_vmember_range(m, "chat_metadata"@, 0);
            match vmember_index_from(m, "chat_metadata"@, 0) {
                Some(i) => match m[i].1 {
                    JsonView::Object(meta) => {
                        lemma_update_keeps(m, i, JsonView::Object(scrub_meta(meta, id)), "chat_metadata"@);
                        lemma_meta_clean(meta, id);
                    },
                    _ => {},
                },
                None => {},
            }
        },
        _ => {},
    }
}

/// A chat whose metadata does not name a worldbook is left as it is.
pub proof fn law_chat_without_lore_unchanged(chat: JsonView, id: Seq<char>)
    requires
        !chat_has_lore(chat, id),
    ensures
        scrub_chat_view(chat, id) == chat,
{
    match chat {
        JsonView::Object(m) => {
            lemma_vmember_range(m, "chat_metadata"@, 0);
            match vmember_index_from(m, "chat_metadata"@, 0) {
                Some(i) => match m[i].1 {
                    JsonView::Object(meta) => {
                        lemma_scrub_member_none(meta, "disabled_world_info"@, id);
                        assert(scrub_meta(meta, id) == meta);
                        assert(m.update(i, (m[i].0, m[i].1)) =~= m);
                    },
                    _ => {},
                },
                None => {},
            }
        },
        _ => {},
    }
}

// ---------------------------------------------------------------------------
// Character cards
// ---------------------------------------------------------------------------

/// The extensions of a character card's data.
pub open spec fn card_extensions(card: JsonView) -> Option<JsonView> {
    match vget(card, "data"@) {
        Some(d) => vget(d, "extensions"@),
        None => None,
    }
}

/// The name of the world a card is bound to.
pub open spec fn card_world(card: JsonView) -> Option<Seq<char>> {
    match card_extensions(card) {
        Some(e) => vget_str(e, "world"@),
        None => None,
    }
}

/// The id of the worldbook a card is bound to.
pub open spec fn card_lore_id(card: JsonView) -> Option<Seq<char>> {
    match card_extensions(card) {
        Some(e) => vget_str(e, "rst_world_lore_id"@),
        None => None,
    }
}

/// What deleting a worldbook asks of a character card.
#[derive(Debug, Clone, PartialEq, Eq)]
pub enum CharacterLoreCheck {
    /// The card is bound to no world.
    Skip,
    /// The card is bound to the deleted worldbook by its id.
    Unbind,
    /// The card is bound to this world by name: it is unbound when the
    /// worldbook of that name is the deleted one.
    LookUpWorld(String),
}

/// What deleting the worldbook `id` asks of a card: nothing where it names
/// no world; unbinding where it is bound to `id`; else a look-up of the
/// worldbook by the world's name.
pub fn character_lore_check(card: &JsonValue, id: &str) -> (r: CharacterLoreCheck)
    ensures
        match card_world(json_view(*card)) {
            None => r is Skip,
            Some(w) => if card_lore_id(json_view(*card)) == Some(id@) {
                r is Unbind
            } else {
                r matches CharacterLoreCheck::LookUpWorld(x) && x@ == w
            },
        },
{
    let ext = match vjson_get(card, "data") {
        Some(d) => vjson_get(d, "extensions"),
        None => None,
    };
    let ext = match ext {
        Some(e) => e,
        None => return CharacterLoreCheck::Skip,
    };
    let bound_is_deleted = match vjson_get_str(ext, "rst_world_lore_id") {
        Some(b) => str_eq(b.as_str(), id),
        None => false,
    };
    match vjson_get_str(ext, "world") {
        None => CharacterLoreCheck::Skip,
        Some(w) => if bound_is_deleted {
            CharacterLoreCheck::Unbind
        } else {
            CharacterLoreCheck::LookUpWorld(w.clone())
        },
    }
}

/// The members without the first one named `key`.
pub open spec fn remove_member(m: Seq<(Seq<char>, JsonView)>, key: Seq<char>) -> Seq<(Seq<char>, JsonView)> {
    match vmember_index_from(m, key, 0) {
        Some(i) => m.remove(i),
        None => m,
    }
}

/// The extensions without the world binding.
pub open spec fn unbind_extensions(me: Seq<(Seq<char>, JsonView)>) -> Seq<(Seq<char>, JsonView)> {
    remove_member(remove_member(me, "world"@), "rst_world_lore_id"@)
}

/// A card with the world binding taken out of its data's extensions, where
/// those are an object.
pub open spec fn unbind_card_view(card: JsonView) -> JsonView {
    match card {
        JsonView::Object(m) => match vmember_index_from(m, "data"@, 0) {
            Some(d) => match m[d].1 {
                JsonView::Object(md) => match vmember_index_from(md, "extensions"@, 0) {
                    Some(e) => match md[e].1 {
                        JsonView::Object(me) => JsonView::Object(
                            m.update(
                                d,
                                (
                                    m[d].0,
                                    JsonView::Object(
                                        md.update(e, (md[e].0, JsonView::Object(unbind_extensions(me)))),
                                    ),
                                ),
                            ),
                        ),
                        _ => card,
                    },
                    None => card,
                },
                _ => card,
            },
            None => card,
        },
        _ => card,
    }
}

/// The card's data has extensions that are an object.
pub open spec fn card_has_extension_object(card: JsonView) -> bool {
    card_extensions(card) matches Some(JsonView::Object(_))
}

fn remove_member_exec(m: &mut Vec<(String, JsonValue)>, key: &str)
    ensures
        members_view(final(m)@) == remove_member(members_view(old(m)@), key@),
{
    let ghost mv = members_view(m@);
    match take_member(m, key) {
        None => {},
        Some((i, k, v)) => {
            assert(members_view(m@) =~= mv.remove(i as int));
        },
    }
}

proof fn lemma_get_index(m: Seq<(Seq<char>, JsonView)>, key: Seq<char>)
    ensures
        vget(JsonView::Object(m), key) == (match vmember_index_from(m, key, 0) {
            Some(i) => Some(m[i].1),
            None => None::<JsonView>,
        }),
{
}

/// Takes the world binding out of a card's data's extensions; says whether
/// they were an object, which is when the card has to be written back.
pub fn unbind_character_world(card: JsonValue) -> (r: (JsonValue, bool))
    ensures
        json_view(r.0) == unbind_card_view(json_view(card)),
        r.1 == card_has_extension_object(json_view(card)),
{
    let ghost cv = json_view(card);
    match card {
        JsonValue::Object(m) => {
            let ghost mv = members_view(m@);
            proof {
                lemma_object_view(m);
                lemma_vmember_range(mv, "data"@, 0);
            }
            let mut m = m;
            match take_member(&mut m, "data") {
                None => {
                    proof {
                        lemma_object_view(m);
                    }
                    (JsonValue::Object(m), false)
                },
                Some((d, kd, vd)) => {
                    assert(mv[d as int] == (kd@, json_view(vd)));
                    match vd {
                        JsonValue::Object(md) => {
                            let ghost mdv = members_view(md@);
                            proof {
                                lemma_object_view(md);
                                lemma_vmember_range(mdv, "extensions"@, 0);
                            }
                            let mut md = md;
                            match take_member(&mut md, "extensions") {
                                None => {
                                    let ghost dv = JsonView::Object(members_view(md@));
                                    proof {
                                        lemma_object_view(md);
                                    }
                                    put_member(&mut m, d, kd, JsonValue::Object(md));
                                    assert(members_view(m@) =~= mv);
                                    proof {
                                        lemma_object_view(m);
                                    }
                                    (JsonValue::Object(m), false)
                                },
                                Some((e, ke, ve)) => {
                                    assert(mdv[e as int] == (ke@, json_view(ve)));
                                    match ve {
                                        JsonValue::Object(me) => {
                                            let ghost mev = members_view(me@);
                                            proof {
                                                lemma_object_view(me);
                                            }
                                            let mut me = me;
                                            remove_member_exec(&mut me, "world");
                                            remove_member_exec(&mut me, "rst_world_lore_id");
                                            let ghost nev = JsonView::Object(members_view(me@));
                                            proof {
                                                lemma_object_view(me);
                                            }
                                            put_member(&mut md, e, ke, JsonValue::Object(me));
                                            assert(members_view(md@) =~= mdv.update(e as int, (mdv[e as int].0, nev)));
                                            let ghost ndv = JsonView::Object(members_view(md@));
                                            proof {
                                                lemma_object_view(md);
                                            }
                                            put_member(&mut m, d, kd, JsonValue::Object(md));
                                            assert(members_view(m@) =~= mv.update(d as int, (mv[d as int].0, ndv)));
                                            proof {
                                                lemma_object_view(m);
                                                lemma_get_index(mv, "data"@);
                                                lemma_get_index(mdv, "extensions"@);
                                            }
                                            (JsonValue::Object(m), true)
                                        },
                                        other => {
                                            put_member(&mut md, e, ke, other);
                                            assert(members_view(md@) =~= mdv);
                                            proof {
                                                lemma_object_view(md);
                                            }
                                            put_member(&mut m, d, kd, JsonValue::Object(md));
                                            assert(members_view(m@) =~= mv);
                                            proof {
                                                lemma_object_view(m);
                                                lemma_get_index(mv, "data"@);
                                                lemma_get_index(mdv, "extensions"@);
                                            }
                                            (JsonValue::Object(m), false)
                                        },
                                    }
                                },
                            }
                        },
                        other => {
                            put_member(&mut m, d, kd, other);
                            assert(members_view(m@) =~= mv);
                            proof {
                                lemma_object_view(m);
                                lemma_get_index(mv, "data"@);
                            }
                            (JsonValue::Object(m), false)
                        },
                    }
                },
            }
        },
        other => (other, false),
    }
}

// ---------------------------------------------------------------------------
// Worldbook files
// ---------------------------------------------------------------------------

/// `name.trim_end_matches(".json")`: every trailing `.json` removed.
pub open spec fn strip_json_suffixes(name: Seq<char>) -> Seq<char>
    decreases name.len(),
{
    if name.len() >= 5 && ends_with(name, ".json"@) {
        strip_json_suffixes(name.take(name.len() - 5))
    } else {
        name
    }
}

/// The id of the worldbook stored in a file: the file's name without its
/// trailing `.json` suffixes.
pub fn lore_id_of_file(file: &str) -> (r: String)
    ensures
        r@ == strip_json_suffixes(file@),
{
    proof {
        reveal_strlit(".json");
    }
    let suffix = str_chars(".json");
    let mut v = str_chars(file);
    while v.len() >= 5 && has_suffix(&v, &suffix)
        invariant
            suffix@ == ".json"@,
            strip_json_suffixes(v@) == strip_json_suffixes(file@),
        decreases v.len(),
    {
        v = sub_chars(&v, 0, v.len() - 5);
    }
    chars_to_string(&v)
}

} // verus!
