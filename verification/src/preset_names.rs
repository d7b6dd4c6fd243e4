//! Names of presets: which preset is active, which names can be set, saved
//! or deleted, and how the stored presets are listed.

use vstd::prelude::*;
use crate::json::{json_view, vget, vget_str, vjson_get, vjson_get_str, JsonValue, JsonView};
use crate::lore_selection::opt_view;
use crate::stable_order::{lemma_insert_ordered, lemma_ordered_unique, ordered_by, strict_order};
use crate::text::{chars_to_string, lemma_lex_asymmetric, lemma_lex_irreflexive, lemma_lex_total, lemma_lex_transitive, lex_lt, str_chars, str_eq, str_lt, trim, trim_chars, ends_with};

verus! {

/// The preset every data directory has.
pub fn default_preset_name() -> (r: &'static str)
    ensures
        r@ == "Default"@,
{
    "Default"
}

/// `name.trim()` where it is not blank.
pub open spec fn non_blank(name: Seq<char>) -> Option<Seq<char>> {
    if trim(name).len() == 0 {
        None
    } else {
        Some(trim(name))
    }
}

/// The preset a request uses: the one it names, trimmed, where that is not
/// blank; else the active preset, trimmed; else the default one.
pub open spec fn resolved_preset(requested: Option<Seq<char>>, active: Seq<char>) -> Seq<char> {
    match requested {
        Some(r) if trim(r).len() > 0 => trim(r),
        _ => if trim(active).len() == 0 {
            "Default"@
        } else {
            trim(active)
        },
    }
}

fn trimmed(s: &str) -> (r: Vec<char>)
    ensures
        r@ == trim(s@),
{
    trim_chars(&str_chars(s))
}

/// The preset a request uses; there always is one.
pub fn resolve_active_preset_name(requested: Option<&str>, active_preset: &str) -> (r: Option<String>)
    ensures
        r matches Some(name) && name@ == resolved_preset(
            match requested {
                Some(x) => Some(x@),
                None => None,
            },
            active_preset@,
        ),
{
    match requested {
        Some(x) => {
            let t = trimmed(x);
            if t.len() > 0 {
                return Some(chars_to_string(&t));
            }
        },
        None => {},
    }
    let a = trimmed(active_preset);
    if a.len() == 0 {
        Some(default_preset_name().to_owned())
    } else {
        Some(chars_to_string(&a))
    }
}

/// The keys under which older global states named their presets, in the
/// order they are consulted.
pub open spec fn legacy_keys() -> Seq<Seq<char>> {
    seq![
        "active_prompt_preset"@,
        "active_sampler_preset"@,
        "active_instruct_preset"@,
        "active_context_preset"@,
        "active_sysprompt_preset"@,
        "active_reasoning_preset"@,
    ]
}

/// The first of `keys` under which `state` holds a text that is not blank,
/// trimmed.
pub open spec fn first_named(state: JsonView, keys: Seq<Seq<char>>) -> Option<Seq<char>>
    decreases keys.len(),
{
    if keys.len() == 0 {
        None
    } else {
        match vget_str(state, keys[0]) {
            Some(s) if trim(s).len() > 0 => Some(trim(s)),
            _ => first_named(state, keys.drop_first()),
        }
    }
}

fn named_at(state: &JsonValue, key: &str) -> (r: Option<Vec<char>>)
    ensures
        match vget_str(json_view(*state), key@) {
            Some(s) if trim(s).len() > 0 => r matches Some(v) && v@ == trim(s),
            _ => r is None,
        },
{
    match vjson_get_str(state, key) {
        Some(s) => {
            let t = trimmed(s.as_str());
            if t.len() > 0 {
                Some(t)
            } else {
                None
            }
        },
        None => None,
    }
}

/// The preset an older global state named: the first of its legacy keys
/// that holds a text that is not blank, trimmed.
pub fn legacy_active_preset_name(state: &JsonValue) -> (r: Option<String>)
    ensures
        opt_view(r) == first_named(json_view(*state), legacy_keys()),
{
    let ghost sv = json_view(*state);
    let ghost k = legacy_keys();
    assert(k.drop_first() =~= k.subrange(1, 6));
    proof {
        reveal_with_fuel(first_named, 7);
        assert(k.subrange(1, 6).drop_first() =~= k.subrange(2, 6));
        assert(k.subrange(2, 6).drop_first() =~= k.subrange(3, 6));
        assert(k.subrange(3, 6).drop_first() =~= k.subrange(4, 6));
        assert(k.subrange(4, 6).drop_first() =~= k.subrange(5, 6));
        assert(k.subrange(5, 6).drop_first() =~= Seq::<Seq<char>>::empty());
    }
    if let Some(v) = named_at(state, "active_prompt_preset") {
        return Some(chars_to_string(&v));
    }
    if let Some(v) = named_at(state, "active_sampler_preset") {
        return Some(chars_to_string(&v));
    }
    if let Some(v) = named_at(state, "active_instruct_preset") {
        return Some(chars_to_string(&v));
    }
    if let Some(v) = named_at(state, "active_context_preset") {
        return Some(chars_to_string(&v));
    }
    if let Some(v) = named_at(state, "active_sysprompt_preset") {
        return Some(chars_to_string(&v));
    }
    if let Some(v) = named_at(state, "active_reasoning_preset") {
        return Some(chars_to_string(&v));
    }
    None
}

/// The active preset of a stored global state, from the state and the
/// active preset read from it: where the state has no `active_preset` or it
/// is blank, the preset an older state named, else the default one.
pub open spec fn active_preset_of_state(state: JsonView, parsed_active: Seq<char>) -> Seq<char> {
    if vget(state, "active_preset"@) is None || trim(parsed_active).len() == 0 {
        match first_named(state, legacy_keys()) {
            Some(n) => n,
            None => "Default"@,
        }
    } else {
        parsed_active
    }
}

/// The active preset of a stored global state.
pub fn active_preset_of(state: &JsonValue, parsed_active: &str) -> (r: String)
    ensures
        r@ == active_preset_of_state(json_view(*state), parsed_active@),
{
    let missing = vjson_get(state, "active_preset").is_none();
    if missing || trimmed(parsed_active).len() == 0 {
        match legacy_active_preset_name(state) {
            Some(n) => n,
            None => default_preset_name().to_owned(),
        }
    } else {
        parsed_active.to_owned()
    }
}

/// The active preset a global state is saved with: the default one where
/// it is blank, else as given.
pub fn saved_active_preset(active_preset: &str) -> (r: String)
    ensures
        r@ == (if trim(active_preset@).len() == 0 {
            "Default"@
        } else {
            active_preset@
        }),
{
    if trimmed(active_preset).len() == 0 {
        default_preset_name().to_owned()
    } else {
        active_preset.to_owned()
    }
}

/// The name a preset is made active under: trimmed, and not blank.
pub fn check_preset_name(name: &str) -> (r: Result<String, String>)
    ensures
        match non_blank(name@) {
            Some(t) => r matches Ok(x) && x@ == t,
            None => r matches Err(e) && e@ == "Preset name must not be empty"@,
        },
{
    let t = trimmed(name);
    if t.len() == 0 {
        Err("Preset name must not be empty".to_owned())
    } else {
        Ok(chars_to_string(&t))
    }
}

/// A preset is saved only under a name.
pub fn check_preset_savable(name: &str) -> (r: Result<(), String>)
    ensures
        r is Ok <==> name@.len() > 0,
        r matches Err(e) ==> e@ == "Preset must have a name"@,
{
    if str_chars(name).len() == 0 {
        Err("Preset must have a name".to_owned())
    } else {
        Ok(())
    }
}

/// Every preset but the default one can be deleted.
pub fn check_preset_deletable(name: &str) -> (r: Result<(), String>)
    ensures
        r is Ok <==> name@ != "Default"@,
        r matches Err(e) ==> e@ == "Default preset cannot be deleted"@,
{
    if str_eq(name, default_preset_name()) {
        Err("Default preset cannot be deleted".to_owned())
    } else {
        Ok(())
    }
}

/// A stored preset in the list of presets.
#[derive(Debug, Clone)]
pub struct PresetListItem {
    pub name: String,
    pub source_api_id: Option<String>,
}

/// The list item of a preset file: its name is the file's without `.json`;
/// files of other kinds are not presets.
pub fn preset_list_item(file: &str, source_api_id: Option<String>) -> (r: Option<PresetListItem>)
    ensures
        match r {
            Some(item) => ends_with(file@, ".json"@) && item.name@ == file@.take(file@.len() - 5)
                && item.source_api_id == source_api_id,
            None => !ends_with(file@, ".json"@),
        },
{
    match crate::lore_selection::lore_file_id(file) {
        Some(name) => Some(PresetListItem { name, source_api_id }),
        None => None,
    }
}

pub open spec fn preset_names_view(s: Seq<PresetListItem>) -> Seq<Seq<char>> {
    s.map_values(|p: PresetListItem| p.name@)
}

/// Preset `i` is listed before preset `j`: its name comes first, or the
/// names are the same and it came first.
pub open spec fn name_prec(names: Seq<Seq<char>>) -> spec_fn(int, int) -> bool {
    |i: int, j: int| lex_lt(names[i], names[j]) || (names[i] == names[j] && i < j)
}

/// The order in which presets are listed: by name, presets of the same
/// name in the order given.
pub open spec fn name_order(names: Seq<Seq<char>>) -> Seq<int> {
    choose|o: Seq<int>| ordered_by(name_prec(names), o) && o.to_set() == Set::new(|i: int| 0 <= i < names.len())
}

proof fn lemma_name_strict(names: Seq<Seq<char>>)
    ensures
        strict_order(name_prec(names)),
{
    let prec = name_prec(names);
    assert forall|i: int| !#[trigger] prec(i, i) by {
        lemma_lex_irreflexive(names[i]);
    }
    assert forall|i: int, j: int, k: int| #[trigger] prec(i, j) && #[trigger] prec(j, k) implies prec(i, k) by {
        if lex_lt(names[i], names[j]) && lex_lt(names[j], names[k]) {
            lemma_lex_transitive(names[i], names[j], names[k]);
        }
    }
}

/// The presets by name; presets of the same name keep their order.
pub fn sort_presets(items: Vec<PresetListItem>) -> (r: Vec<PresetListItem>)
    ensures
        r@.len() == items@.len(),
        forall|k: int| 0 <= k < items@.len() ==> #[trigger] r@[k] == items@[name_order(preset_names_view(items@))[k]],
        forall|k: int, l: int| 0 <= k < l < items@.len() ==> !lex_lt(#[trigger] r@[l].name@, #[trigger] r@[k].name@),
{
    let ghost src = items@;
    let ghost names = preset_names_view(src);
    let ghost prec = name_prec(names);
    let n: usize = items.len();
    let mut rest = items;
    let mut out: Vec<PresetListItem> = Vec::new();
    let ghost mut orig: Seq<int> = Seq::empty();
    let mut i: usize = 0;
    proof {
        lemma_name_strict(names);
    }
    while rest.len() > 0
        invariant
            i + rest@.len() == src.len(),
            src.len() == n,
            out@.len() == i,
            rest@ == src.skip(i as int),
            names == preset_names_view(src),
            prec == name_prec(names),
            strict_order(prec),
            out@.len() == orig.len(),
            ordered_by(prec, orig),
            orig.to_set() == Set::new(|j: int| 0 <= j < i),
            forall|k: int| 0 <= k < orig.len() ==> 0 <= #[trigger] orig[k] < i,
            forall|k: int| 0 <= k < out@.len() ==> #[trigger] out@[k] == src[orig[k]],
        decreases rest@.len(),
    {
        let x = rest.remove(0);
        assert(x == src[i as int]);
        let mut p: usize = 0;
        while p < out.len() && !str_lt(x.name.as_str(), out[p].name.as_str())
            invariant
                p <= out@.len(),
                out@.len() == orig.len(),
                x == src[i as int],
                names == preset_names_view(src),
                prec == name_prec(names),
                i < src.len(),
                forall|k: int| 0 <= k < orig.len() ==> 0 <= #[trigger] orig[k] < i,
                forall|k: int| 0 <= k < out@.len() ==> #[trigger] out@[k] == src[orig[k]],
                forall|q: int| 0 <= q < p ==> #[trigger] prec(orig[q], i as int),
            decreases out@.len() - p,
        {
            assert(out@[p as int] == src[orig[p as int]]);
            assert(names[orig[p as int]] == src[orig[p as int]].name@);
            assert(names[i as int] == x.name@);
            assert(orig[p as int] < i);
            proof {
                lemma_lex_total(names[orig[p as int]], names[i as int]);
            }
            p += 1;
        }
        proof {
            if p < out@.len() {
                assert(out@[p as int] == src[orig[p as int]]);
                assert(names[orig[p as int]] == src[orig[p as int]].name@);
                assert(names[i as int] == x.name@);
                assert(prec(i as int, orig[p as int]));
            }
            lemma_insert_ordered(prec, orig, p as int, i as int);
        }
        let ghost old_out = out@;
        let ghost old_orig = orig;
        out.insert(p, x);
        proof {
            orig = old_orig.take(p as int).push(i as int) + old_orig.skip(p as int);
            assert(Set::new(|j: int| 0 <= j < i).insert(i as int) =~= Set::new(|j: int| 0 <= j < i + 1));
            assert forall|k: int| 0 <= k < out@.len() implies #[trigger] out@[k] == src[orig[k]] by {
                if k < p {
                    assert(out@[k] == old_out[k] && orig[k] == old_orig[k]);
                } else if k > p {
                    assert(out@[k] == old_out[k - 1] && orig[k] == old_orig[k - 1]);
                }
            }
            assert forall|k: int| 0 <= k < orig.len() implies 0 <= #[trigger] orig[k] < i + 1 by {
                if k < p {
                    assert(orig[k] == old_orig[k]);
                } else if k > p {
                    assert(orig[k] == old_orig[k - 1]);
                }
            }
            assert(rest@ =~= src.skip(i + 1));
        }
        i += 1;
    }
    proof {
        assert(names.len() == src.len());
        assert(Set::new(|j: int| 0 <= j < i) =~= Set::new(|j: int| 0 <= j < names.len()));
        let c = name_order(names);
        assert(ordered_by(prec, orig) && orig.to_set() == Set::new(|j: int| 0 <= j < names.len()));
        lemma_ordered_unique(prec, orig, c);
        assert forall|k: int, l: int| 0 <= k < l < src.len() implies !lex_lt(#[trigger] out@[l].name@, #[trigger] out@[k].name@) by {
            assert(prec(orig[k], orig[l]));
            assert(names[orig[k]] == src[orig[k]].name@);
            assert(names[orig[l]] == src[orig[l]].name@);
            lemma_lex_asymmetric(names[orig[k]], names[orig[l]]);
            lemma_lex_irreflexive(names[orig[k]]);
        }
    }
    out
}

} // verus!
