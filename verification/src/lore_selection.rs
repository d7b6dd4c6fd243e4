//! Which worldbooks a chat request scans: those of the chat, the global
//! selection and the character, each once, leaving out those the chat
//! disabled; and the worldbooks bound to a character.

use vstd::prelude::*;
use crate::text::{chars_to_string, ends_with, extend_chars, has_suffix, str_chars, str_eq, sub_chars, trim, trim_chars};
use crate::world_ids::{contains_string, views};

verus! {

/// Where a worldbook that a request scans was selected.
#[derive(Debug, Clone, Copy, PartialEq, Eq)]
pub enum WorldInfoSourceKind {
    ChatLore,
    GlobalLore,
    CharacterLore,
}

/// A character's binding to extra worldbooks, in the world info settings.
#[derive(Debug, Clone)]
pub struct CharLoreBinding {
    pub name: String,
    pub extra_books: Vec<String>,
}

// ---------------------------------------------------------------------------
// The worldbooks bound to a character
// ---------------------------------------------------------------------------

/// The ids of `ids` that the chat did not disable, in order.
pub open spec fn enabled_only(ids: Seq<Seq<char>>, disabled: Seq<Seq<char>>) -> Seq<Seq<char>>
    decreases ids.len(),
{
    if ids.len() == 0 {
        ids
    } else {
        let rest = enabled_only(ids.drop_last(), disabled);
        if disabled.contains(ids.last()) {
            rest
        } else {
            rest.push(ids.last())
        }
    }
}

/// The extra books of the bindings named after the character, the chat's
/// disabled ones left out, binding after binding.
pub open spec fn binding_books(
    bindings: Seq<CharLoreBinding>,
    character_name: Seq<char>,
    disabled: Seq<Seq<char>>,
) -> Seq<Seq<char>>
    decreases bindings.len(),
{
    if bindings.len() == 0 {
        Seq::empty()
    } else {
        let rest = binding_books(bindings.drop_last(), character_name, disabled);
        let b = bindings.last();
        if b.name@ == character_name {
            rest + enabled_only(views(b.extra_books@), disabled)
        } else {
            rest
        }
    }
}

/// The worldbooks of a character: the one its world is stored as, unless
/// the chat disabled it, then the extra books of its bindings.
pub open spec fn character_lore_ids_of(
    world_lore_id: Option<Seq<char>>,
    character_name: Seq<char>,
    bindings: Seq<CharLoreBinding>,
    disabled: Seq<Seq<char>>,
) -> Seq<Seq<char>> {
    let head = match world_lore_id {
        Some(id) => if disabled.contains(id) {
            Seq::empty()
        } else {
            seq![id]
        },
        None => Seq::empty(),
    };
    head + binding_books(bindings, character_name, disabled)
}

fn push_enabled(out: &mut Vec<String>, ids: &Vec<String>, disabled: &Vec<String>)
    ensures
        views(final(out)@) == views(old(out)@) + enabled_only(views(ids@), views(disabled@)),
{
    let ghost start = views(out@);
    let mut i: usize = 0;
    while i < ids.len()
        invariant
            i <= ids.len(),
            views(out@) == start + enabled_only(views(ids@).take(i as int), views(disabled@)),
        decreases ids.len() - i,
    {
        let ghost t = views(ids@).take(i + 1);
        assert(t.drop_last() =~= views(ids@).take(i as int));
        assert(t.last() == ids@[i as int]@);
        if !contains_string(disabled.as_slice(), &ids[i]) {
            let ghost before = views(out@);
            out.push(ids[i].clone());
            assert(views(out@) =~= before.push(ids@[i as int]@));
        }
        i += 1;
    }
    assert(views(ids@).take(i as int) =~= views(ids@));
}

/// The worldbooks a character brings to a request: the one stored under the
/// name of its world (`world_lore_id`, looked up by the caller), unless the
/// chat disabled it; then the extra books of every binding with the
/// character's name that the chat did not disable.
pub fn character_lore_ids(
    world_lore_id: Option<String>,
    character_name: &str,
    bindings: &Vec<CharLoreBinding>,
    disabled: &Vec<String>,
) -> (r: Vec<String>)
    ensures
        views(r@) == character_lore_ids_of(
            match world_lore_id {
                Some(s) => Some(s@),
                None => None,
            },
            character_name@,
            bindings@,
            views(disabled@),
        ),
{
    let mut ids: Vec<String> = Vec::new();
    match world_lore_id {
        Some(id) => {
            if !contains_string(disabled.as_slice(), &id) {
                ids.push(id);
                assert(views(ids@) =~= seq![id@]);
            } else {
                assert(views(ids@) =~= Seq::<Seq<char>>::empty());
            }
        },
        None => {
            assert(views(ids@) =~= Seq::<Seq<char>>::empty());
        },
    }
    let ghost head = views(ids@);
    let mut i: usize = 0;
    while i < bindings.len()
        invariant
            i <= bindings.len(),
            views(ids@) == head + binding_books(bindings@.take(i as int), character_name@, views(disabled@)),
        decreases bindings.len() - i,
    {
        let ghost t = bindings@.take(i + 1);
        assert(t.drop_last() =~= bindings@.take(i as int));
        assert(t.last() == bindings@[i as int]);
        if str_eq(bindings[i].name.as_str(), character_name) {
            push_enabled(&mut ids, &bindings[i].extra_books, disabled);
            assert(views(ids@) =~= head + binding_books(t, character_name@, views(disabled@)));
        }
        i += 1;
    }
    assert(bindings@.take(i as int) =~= bindings@);
    ids
}

// ---------------------------------------------------------------------------
// The worldbooks a request scans
// ---------------------------------------------------------------------------

/// The worldbooks a chat selects: the one a request names, else those it
/// enabled, else its own worldbook.
pub open spec fn chat_ids_of(
    chat_lore_id: Option<Seq<char>>,
    enabled: Seq<Seq<char>>,
    world_info: Option<Seq<char>>,
) -> Seq<Seq<char>> {
    match chat_lore_id {
        Some(id) => seq![id],
        None => if enabled.len() > 0 {
            enabled
        } else {
            match world_info {
                Some(w) => seq![w],
                None => Seq::empty(),
            }
        },
    }
}

/// A worldbook to scan: where it was selected, its id, and whether the
/// chat's disabled worldbooks hold it back.
pub open spec fn candidates_of(
    chat: Seq<Seq<char>>,
    global: Seq<Seq<char>>,
    character: Seq<Seq<char>>,
) -> Seq<(WorldInfoSourceKind, Seq<char>, bool)> {
    chat.map_values(|id: Seq<char>| (WorldInfoSourceKind::ChatLore, id, true)) + global.map_values(
        |id: Seq<char>| (WorldInfoSourceKind::GlobalLore, id, true),
    ) + character.map_values(|id: Seq<char>| (WorldInfoSourceKind::CharacterLore, id, false))
}

pub open spec fn plan_ids(plan: Seq<(WorldInfoSourceKind, Seq<char>)>) -> Seq<Seq<char>> {
    plan.map_values(|p: (WorldInfoSourceKind, Seq<char>)| p.1)
}

/// The worldbooks scanned, in order: each candidate unless it is held back
/// as disabled or its id was taken already.
pub open spec fn plan_of(
    cands: Seq<(WorldInfoSourceKind, Seq<char>, bool)>,
    disabled: Seq<Seq<char>>,
) -> Seq<(WorldInfoSourceKind, Seq<char>)>
    decreases cands.len(),
{
    if cands.len() == 0 {
        Seq::empty()
    } else {
        let prev = plan_of(cands.drop_last(), disabled);
        let c = cands.last();
        if (c.2 && disabled.contains(c.1)) || plan_ids(prev).contains(c.1) {
            prev
        } else {
            prev.push((c.0, c.1))
        }
    }
}

pub open spec fn opt_view(o: Option<String>) -> Option<Seq<char>> {
    match o {
        Some(s) => Some(s@),
        None => None,
    }
}

pub open spec fn plan_view(p: Seq<(WorldInfoSourceKind, String)>) -> Seq<(WorldInfoSourceKind, Seq<char>)> {
    p.map_values(|x: (WorldInfoSourceKind, String)| (x.0, x.1@))
}

fn plan_contains(plan: &Vec<(WorldInfoSourceKind, String)>, id: &String) -> (r: bool)
    ensures
        r == plan_ids(plan_view(plan@)).contains(id@),
{
    let ghost ids = plan_ids(plan_view(plan@));
    let mut i: usize = 0;
    while i < plan.len()
        invariant
            i <= plan.len(),
            ids == plan_ids(plan_view(plan@)),
            forall|k: int| 0 <= k < i ==> ids[k] != id@,
        decreases plan.len() - i,
    {
        if str_eq(plan[i].1.as_str(), id.as_str()) {
            assert(ids[i as int] == id@);
            return true;
        }
        i += 1;
    }
    false
}

fn add_candidates(
    plan: &mut Vec<(WorldInfoSourceKind, String)>,
    ids: &Vec<String>,
    kind: WorldInfoSourceKind,
    held: bool,
    disabled: &Vec<String>,
    Ghost(done): Ghost<Seq<(WorldInfoSourceKind, Seq<char>, bool)>>,
)
    requires
        plan_view(old(plan)@) == plan_of(done, views(disabled@)),
    ensures
        plan_view(final(plan)@) == plan_of(
            done + views(ids@).map_values(|id: Seq<char>| (kind, id, held)),
            views(disabled@),
        ),
{
    let ghost ext = views(ids@).map_values(|id: Seq<char>| (kind, id, held));
    let mut i: usize = 0;
    assert(done + ext.take(0) =~= done);
    while i < ids.len()
        invariant
            i <= ids.len(),
            ext == views(ids@).map_values(|id: Seq<char>| (kind, id, held)),
            plan_view(plan@) == plan_of(done + ext.take(i as int), views(disabled@)),
        decreases ids.len() - i,
    {
        let ghost c = done + ext.take(i + 1);
        assert(c.drop_last() =~= done + ext.take(i as int));
        assert(c.last() == (kind, ids@[i as int]@, held));
        let skip = (held && contains_string(disabled.as_slice(), &ids[i])) || plan_contains(plan, &ids[i]);
        if !skip {
            let ghost before = plan_view(plan@);
            plan.push((kind, ids[i].clone()));
            assert(plan_view(plan@) =~= before.push((kind, ids@[i as int]@)));
        }
        i += 1;
    }
    assert(ext.take(i as int) =~= ext);
}

/// The worldbooks a request scans, in order, each with where it was
/// selected: the chat's (the one named for the request, else those the
/// chat enabled, else the chat's own), then the global selection, then the
/// character's. A worldbook the chat disabled is not scanned from the chat
/// or the global selection, and no worldbook is scanned twice.
pub fn world_info_plan(
    chat_lore_id: &Option<String>,
    enabled: &Vec<String>,
    world_info: &Option<String>,
    disabled: &Vec<String>,
    global: &Vec<String>,
    character: &Vec<String>,
) -> (r: Vec<(WorldInfoSourceKind, String)>)
    ensures
        plan_view(r@) == plan_of(
            candidates_of(
                chat_ids_of(opt_view(*chat_lore_id), views(enabled@), opt_view(*world_info)),
                views(global@),
                views(character@),
            ),
            views(disabled@),
        ),
{
    let mut chat: Vec<String> = Vec::new();
    match chat_lore_id {
        Some(id) => {
            chat.push(id.clone());
        },
        None => if enabled.len() > 0 {
            chat = enabled.clone();
        } else {
            match world_info {
                Some(w) => {
                    chat.push(w.clone());
                },
                None => {},
            }
        },
    }
    assert(views(chat@) =~= chat_ids_of(opt_view(*chat_lore_id), views(enabled@), opt_view(*world_info)));
    let mut plan: Vec<(WorldInfoSourceKind, String)> = Vec::new();
    let ghost d0: Seq<(WorldInfoSourceKind, Seq<char>, bool)> = Seq::empty();
    assert(plan_view(plan@) =~= plan_of(d0, views(disabled@)));
    add_candidates(&mut plan, &chat, WorldInfoSourceKind::ChatLore, true, disabled, Ghost(d0));
    let ghost d1 = d0 + views(chat@).map_values(|id: Seq<char>| (WorldInfoSourceKind::ChatLore, id, true));
    add_candidates(&mut plan, global, WorldInfoSourceKind::GlobalLore, true, disabled, Ghost(d1));
    let ghost d2 = d1 + views(global@).map_values(|id: Seq<char>| (WorldInfoSourceKind::GlobalLore, id, true));
    add_candidates(&mut plan, character, WorldInfoSourceKind::CharacterLore, false, disabled, Ghost(d2));
    assert(d2 + views(character@).map_values(|id: Seq<char>| (WorldInfoSourceKind::CharacterLore, id, false))
        =~= candidates_of(views(chat@), views(global@), views(character@)));
    plan
}

// ---------------------------------------------------------------------------
// Laws of the scan plan
// ---------------------------------------------------------------------------

/// No worldbook is scanned twice.
pub proof fn law_plan_has_no_duplicates(cands: Seq<(WorldInfoSourceKind, Seq<char>, bool)>, disabled: Seq<Seq<char>>)
    ensures
        plan_ids(plan_of(cands, disabled)).no_duplicates(),
    decreases cands.len(),
{
    if cands.len() > 0 {
        law_plan_has_no_duplicates(cands.drop_last(), disabled);
        let prev = plan_of(cands.drop_last(), disabled);
        let c = cands.last();
        if !((c.2 && disabled.contains(c.1)) || plan_ids(prev).contains(c.1)) {
            let ids = plan_ids(prev.push((c.0, c.1)));
            assert(ids =~= plan_ids(prev).push(c.1));
            assert forall|i: int, j: int| 0 <= i < ids.len() && 0 <= j < ids.len() && i != j implies ids[i] != ids[j] by {
                if i < plan_ids(prev).len() && j < plan_ids(prev).len() {
                    assert(ids[i] == plan_ids(prev)[i] && ids[j] == plan_ids(prev)[j]);
                } else if i == plan_ids(prev).len() {
                    assert(ids[j] == plan_ids(prev)[j]);
                    assert(plan_ids(prev).contains(ids[j]));
                } else {
                    assert(ids[i] == plan_ids(prev)[i]);
                    assert(plan_ids(prev).contains(ids[i]));
                }
            }
        }
    }
}

/// A worldbook the chat disabled is scanned only where the character brings
/// it.
pub proof fn law_disabled_only_from_character(
    cands: Seq<(WorldInfoSourceKind, Seq<char>, bool)>,
    disabled: Seq<Seq<char>>,
    k: int,
)
    requires
        0 <= k < plan_of(cands, disabled).len(),
        disabled.contains(plan_of(cands, disabled)[k].1),
        forall|i: int| 0 <= i < cands.len() ==> (#[trigger] cands[i]).2 == (cands[i].0 != WorldInfoSourceKind::CharacterLore),
    ensures
        plan_of(cands, disabled)[k].0 == WorldInfoSourceKind::CharacterLore,
    decreases cands.len(),
{
    let prev = plan_of(cands.drop_last(), disabled);
    let c = cands.last();
    assert forall|i: int| 0 <= i < cands.drop_last().len() implies (#[trigger] cands.drop_last()[i]).2 == (
    cands.drop_last()[i].0 != WorldInfoSourceKind::CharacterLore) by {
        assert(cands.drop_last()[i] == cands[i]);
    }
    if k < prev.len() {
        law_disabled_only_from_character(cands.drop_last(), disabled, k);
    } else {
        assert(cands[cands.len() - 1] == c);
    }
}

// ---------------------------------------------------------------------------
// Worldbook files
// ---------------------------------------------------------------------------

/// The id of the worldbook in a file: its name without the `.json` suffix;
/// none for a file that is not `.json`.
pub fn lore_file_id(file: &str) -> (r: Option<String>)
    ensures
        match r {
            Some(id) => ends_with(file@, ".json"@) && id@ == file@.take(file@.len() - 5),
            None => !ends_with(file@, ".json"@),
        },
{
    proof {
        reveal_strlit(".json");
    }
    let v = str_chars(file);
    let suffix = str_chars(".json");
    if has_suffix(&v, &suffix) {
        let id = sub_chars(&v, 0, v.len() - 5);
        assert(id@ =~= file@.take(file@.len() - 5));
        Some(chars_to_string(&id))
    } else {
        None
    }
}

/// What reading a worldbook file gave: a worldbook that was never stored is
/// absent (the store's error says it failed to read it), any other error
/// stands.
pub fn worldbook_read_outcome<T>(read: Result<T, String>) -> (r: Result<Option<T>, String>)
    ensures
        match read {
            Ok(v) => r matches Ok(Some(x)) && x == v,
            Err(e) => if crate::text::contains(e@, "Failed to read"@) {
                r matches Ok(None)
            } else {
                r matches Err(x) && x == e
            },
        },
{
    match read {
        Ok(v) => Ok(Some(v)),
        Err(e) => {
            if crate::text::contains_seq(&str_chars(e.as_str()), &str_chars("Failed to read")) {
                Ok(None)
            } else {
                Err(e)
            }
        },
    }
}

// ---------------------------------------------------------------------------
// The user's persona
// ---------------------------------------------------------------------------

/// The persona the user speaks as in a chat.
#[derive(Debug, Clone)]
pub struct UserPersona {
    pub name: String,
    pub description: String,
}

/// The text of a persona that world info scans: its trimmed name and
/// description, on two lines where it has both.
pub open spec fn persona_text(persona: Option<UserPersona>) -> Seq<char> {
    match persona {
        None => Seq::empty(),
        Some(p) => {
            let n = trim(p.name@);
            let d = trim(p.description@);
            if n.len() == 0 {
                d
            } else if d.len() == 0 {
                n
            } else {
                n + "\n"@ + d
            }
        },
    }
}

/// The text of the user's persona that world info scans.
pub fn persona_scan_text(persona: &Option<UserPersona>) -> (r: String)
    ensures
        r@ == persona_text(*persona),
{
    match persona {
        None => String::new(),
        Some(p) => {
            let n = trim_chars(&str_chars(p.name.as_str()));
            let d = trim_chars(&str_chars(p.description.as_str()));
            if n.len() == 0 {
                chars_to_string(&d)
            } else if d.len() == 0 {
                chars_to_string(&n)
            } else {
                let mut v = n;
                extend_chars(&mut v, &str_chars("\n"));
                extend_chars(&mut v, &d);
                chars_to_string(&v)
            }
        },
    }
}

/// The request's global lorebooks followed by each selected global lorebook
/// it does not list yet, in selection order.
pub open spec fn merged_lore_ids(request: Seq<Seq<char>>, selected: Seq<Seq<char>>) -> Seq<Seq<char>>
    decreases selected.len(),
{
    if selected.len() == 0 {
        request
    } else {
        let m = merged_lore_ids(request, selected.drop_last());
        if m.contains(selected.last()) {
            m
        } else {
            m.push(selected.last())
        }
    }
}

/// Merging keeps the request's lorebooks first, in order, and ends up
/// naming every selected lorebook.
pub proof fn law_merged_lore_ids_cover(request: Seq<Seq<char>>, selected: Seq<Seq<char>>)
    ensures
        merged_lore_ids(request, selected).len() >= request.len(),
        merged_lore_ids(request, selected).take(request.len() as int) == request,
        forall|k: int| 0 <= k < selected.len() ==> merged_lore_ids(request, selected).contains(
            #[trigger] selected[k],
        ),
    decreases selected.len(),
{
    if selected.len() == 0 {
        assert(request.take(request.len() as int) =~= request);
    } else {
        let p = selected.drop_last();
        law_merged_lore_ids_cover(request, p);
        let m = merged_lore_ids(request, p);
        let r = merged_lore_ids(request, selected);
        if !m.contains(selected.last()) {
            assert(r.take(request.len() as int) =~= m.take(request.len() as int));
            assert(r[r.len() - 1] == selected.last());
        }
        assert forall|k: int| 0 <= k < selected.len() implies r.contains(#[trigger] selected[k]) by {
            if k < p.len() {
                assert(p[k] == selected[k]);
                assert(m.contains(p[k]));
                if !m.contains(selected.last()) {
                    let j = choose|j: int| 0 <= j < m.len() && m[j] == p[k];
                    assert(r[j] == p[k]);
                }
            } else if !m.contains(selected.last()) {
                assert(r[r.len() - 1] == selected[k]);
            }
        }
    }
}

/// Adds the globally selected lorebooks to those a request names.
pub fn merge_global_lore_ids(global_lore_ids: &[String], global_select: &[String]) -> (r: Vec<String>)
    ensures
        views(r@) == merged_lore_ids(views(global_lore_ids@), views(global_select@)),
{
    let mut out: Vec<String> = Vec::new();
    let mut i: usize = 0;
    while i < global_lore_ids.len()
        invariant
            i <= global_lore_ids.len(),
            views(out@) == views(global_lore_ids@).take(i as int),
        decreases global_lore_ids.len() - i,
    {
        let ghost before = views(out@);
        out.push(global_lore_ids[i].clone());
        assert(views(out@) =~= before.push(global_lore_ids@[i as int]@));
        assert(views(out@) =~= views(global_lore_ids@).take(i + 1));
        i += 1;
    }
    assert(views(global_lore_ids@).take(i as int) =~= views(global_lore_ids@));
    let mut j: usize = 0;
    while j < global_select.len()
        invariant
            j <= global_select.len(),
            views(out@) == merged_lore_ids(views(global_lore_ids@), views(global_select@).take(j as int)),
        decreases global_select.len() - j,
    {
        assert(views(global_select@).take(j + 1).drop_last() =~= views(global_select@).take(j as int));
        assert(views(global_select@).take(j + 1).last() == global_select@[j as int]@);
        if !contains_string(out.as_slice(), &global_select[j]) {
            let ghost before = views(out@);
            out.push(global_select[j].clone());
            assert(views(out@) =~= before.push(global_select@[j as int]@));
        }
        j += 1;
    }
    assert(views(global_select@).take(j as int) =~= views(global_select@));
    out
}

/// The token limit of a request once the preset has its say: the preset's
/// `openai_max_tokens` where it is positive, else the request's own.
pub fn preset_max_tokens(request_max: Option<i64>, preset_max: Option<i64>) -> (r: Option<i64>)
    ensures
        r == if preset_max matches Some(m) && m > 0 {
            preset_max
        } else {
            request_max
        },
{
    match preset_max {
        Some(m) => if m > 0 {
            Some(m)
        } else {
            request_max
        },
        None => request_max,
    }
}

} // verus!
