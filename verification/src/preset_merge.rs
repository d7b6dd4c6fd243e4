//! Bringing a stored prompt preset up to date with the built-in one: the
//! built-in prompts and order entries it lacks are added, what it has is
//! kept, and blank texts take the built-in text.

use vstd::prelude::*;
use crate::json::{json_view, JsonValue, JsonView};
use crate::text::{is_blank, str_blank, str_eq};

verus! {

/// A prompt of a preset, by its identifier; the rest of it as stored.
#[derive(Debug)]
pub struct PromptItem {
    pub identifier: String,
    pub body: JsonValue,
}

/// One place in a prompt order: which prompt, and whether it is on.
#[derive(Debug, Clone)]
pub struct PromptOrderItem {
    pub identifier: String,
    pub enabled: bool,
}

/// The prompt order of one character.
#[derive(Debug, Clone)]
pub struct PromptOrder {
    pub character_id: i64,
    pub order: Vec<PromptOrderItem>,
}

/// The texts of a preset that fall back to the built-in ones when blank.
#[derive(Debug, Clone)]
pub struct PresetTexts {
    pub wi_format: String,
    pub scenario_format: String,
    pub personality_format: String,
    pub impersonation_prompt: String,
    pub new_chat_prompt: String,
    pub new_group_chat_prompt: String,
    pub new_example_chat_prompt: String,
    pub continue_nudge_prompt: String,
    pub group_nudge_prompt: String,
}

/// What merging reads and writes of a preset.
#[derive(Debug)]
pub struct PromptPreset {
    pub prompts: Vec<PromptItem>,
    pub prompt_order: Vec<PromptOrder>,
    pub texts: PresetTexts,
}

// ---------------------------------------------------------------------------
// Views
// ---------------------------------------------------------------------------

pub type ItemView = (Seq<char>, JsonView);

pub type OrderItemView = (Seq<char>, bool);

pub type OrderView = (i64, Seq<OrderItemView>);

pub type TextsView = Seq<Seq<char>>;

pub struct PresetView {
    pub prompts: Seq<ItemView>,
    pub prompt_order: Seq<OrderView>,
    pub texts: TextsView,
}

pub open spec fn item_view(p: PromptItem) -> ItemView {
    (p.identifier@, json_view(p.body))
}

pub open spec fn items_view(s: Seq<PromptItem>) -> Seq<ItemView> {
    s.map_values(|p: PromptItem| item_view(p))
}

pub open spec fn order_items_view(s: Seq<PromptOrderItem>) -> Seq<OrderItemView> {
    s.map_values(|o: PromptOrderItem| (o.identifier@, o.enabled))
}

pub open spec fn order_view(o: PromptOrder) -> OrderView {
    (o.character_id, order_items_view(o.order@))
}

pub open spec fn orders_view(s: Seq<PromptOrder>) -> Seq<OrderView> {
    s.map_values(|o: PromptOrder| order_view(o))
}

pub open spec fn texts_view(t: PresetTexts) -> TextsView {
    seq![
        t.wi_format@,
        t.scenario_format@,
        t.personality_format@,
        t.impersonation_prompt@,
        t.new_chat_prompt@,
        t.new_group_chat_prompt@,
        t.new_example_chat_prompt@,
        t.continue_nudge_prompt@,
        t.group_nudge_prompt@,
    ]
}

pub open spec fn preset_view(p: PromptPreset) -> PresetView {
    PresetView { prompts: items_view(p.prompts@), prompt_order: orders_view(p.prompt_order@), texts: texts_view(p.texts) }
}

// ---------------------------------------------------------------------------
// The merge, as values
// ---------------------------------------------------------------------------

pub open spec fn item_id_in(s: Seq<ItemView>, id: Seq<char>) -> bool {
    exists|i: int| 0 <= i < s.len() && (#[trigger] s[i]).0 == id
}

pub open spec fn order_id_in(s: Seq<OrderItemView>, id: Seq<char>) -> bool {
    exists|i: int| 0 <= i < s.len() && (#[trigger] s[i]).0 == id
}

/// The built-in prompts whose identifier the stored ones lack, in order.
pub open spec fn missing_items(existing: Seq<ItemView>, defaults: Seq<ItemView>) -> Seq<ItemView>
    decreases defaults.len(),
{
    if defaults.len() == 0 {
        Seq::empty()
    } else {
        missing_items(existing, defaults.drop_last()) + if item_id_in(existing, defaults.last().0) {
            Seq::empty()
        } else {
            seq![defaults.last()]
        }
    }
}

/// The built-in order items whose identifier an order lacks, in order.
pub open spec fn missing_order_items(existing: Seq<OrderItemView>, defaults: Seq<OrderItemView>) -> Seq<
    OrderItemView,
>
    decreases defaults.len(),
{
    if defaults.len() == 0 {
        Seq::empty()
    } else {
        missing_order_items(existing, defaults.drop_last()) + if order_id_in(existing, defaults.last().0) {
            Seq::empty()
        } else {
            seq![defaults.last()]
        }
    }
}

/// No prompts take the built-in ones; else the missing ones are added
/// after them.
pub open spec fn merged_items(existing: Seq<ItemView>, defaults: Seq<ItemView>) -> Seq<ItemView> {
    if existing.len() == 0 {
        defaults
    } else {
        existing + missing_items(existing, defaults)
    }
}

/// The built-in order of a character: the one with its id, else the first.
pub open spec fn default_order_for(defaults: Seq<OrderView>, character_id: i64) -> Option<OrderView> {
    if exists|k: int| 0 <= k < defaults.len() && (#[trigger] defaults[k]).0 == character_id {
        Some(
            defaults[choose|k: int|
                0 <= k < defaults.len() && defaults[k].0 == character_id && forall|j: int|
                    0 <= j < k ==> (#[trigger] defaults[j]).0 != character_id],
        )
    } else if defaults.len() > 0 {
        Some(defaults[0])
    } else {
        None
    }
}

pub open spec fn merged_order(o: OrderView, defaults: Seq<OrderView>) -> OrderView {
    match default_order_for(defaults, o.0) {
        Some(d) => (o.0, o.1 + missing_order_items(o.1, d.1)),
        None => o,
    }
}

/// No orders take the built-in ones; else each order gets the items of its
/// built-in order that it lacks.
pub open spec fn merged_orders(existing: Seq<OrderView>, defaults: Seq<OrderView>) -> Seq<OrderView> {
    if existing.len() == 0 {
        defaults
    } else {
        existing.map_values(|o: OrderView| merged_order(o, defaults))
    }
}

/// Each blank text takes the built-in one.
pub open spec fn merged_texts(t: TextsView, d: TextsView) -> TextsView {
    Seq::new(t.len(), |i: int| if is_blank(t[i]) { d[i] } else { t[i] })
}

pub open spec fn merged_preset(p: PresetView, d: PresetView) -> PresetView {
    PresetView {
        prompts: merged_items(p.prompts, d.prompts),
        prompt_order: merged_orders(p.prompt_order, d.prompt_order),
        texts: merged_texts(p.texts, d.texts),
    }
}

// ---------------------------------------------------------------------------
// The merge
// ---------------------------------------------------------------------------

fn copy_item(p: &PromptItem) -> (r: PromptItem)
    ensures
        item_view(r) == item_view(*p),
{
    PromptItem { identifier: p.identifier.clone(), body: p.body.deep_clone() }
}

fn copy_order_item(o: &PromptOrderItem) -> (r: PromptOrderItem)
    ensures
        (r.identifier@, r.enabled) == (o.identifier@, o.enabled),
{
    PromptOrderItem { identifier: o.identifier.clone(), enabled: o.enabled }
}

fn copy_order(o: &PromptOrder) -> (r: PromptOrder)
    ensures
        order_view(r) == order_view(*o),
{
    let mut items: Vec<PromptOrderItem> = Vec::new();
    let mut i: usize = 0;
    while i < o.order.len()
        invariant
            i <= o.order.len(),
            order_items_view(items@) == order_items_view(o.order@.take(i as int)),
        decreases o.order.len() - i,
    {
        let ghost before = items@;
        let c = copy_order_item(&o.order[i]);
        items.push(c);
        assert(order_items_view(items@) =~= order_items_view(before).push((c.identifier@, c.enabled)));
        assert(order_items_view(o.order@.take((i + 1) as int)) =~= order_items_view(o.order@.take(i as int)).push(
            (o.order@[i as int].identifier@, o.order@[i as int].enabled),
        ));
        i += 1;
    }
    assert(o.order@.take(o.order.len() as int) =~= o.order@);
    PromptOrder { character_id: o.character_id, order: items }
}

fn item_ids(s: &Vec<PromptItem>) -> (r: Vec<String>)
    ensures
        r.len() == s.len(),
        forall|i: int| 0 <= i < s.len() ==> (#[trigger] r@[i])@ == items_view(s@)[i].0,
{
    let mut r: Vec<String> = Vec::new();
    let mut i: usize = 0;
    while i < s.len()
        invariant
            i <= s.len(),
            r.len() == i,
            forall|k: int| 0 <= k < i ==> (#[trigger] r@[k])@ == items_view(s@)[k].0,
        decreases s.len() - i,
    {
        r.push(s[i].identifier.clone());
        i += 1;
    }
    r
}

fn order_ids(s: &Vec<PromptOrderItem>) -> (r: Vec<String>)
    ensures
        r.len() == s.len(),
        forall|i: int| 0 <= i < s.len() ==> (#[trigger] r@[i])@ == order_items_view(s@)[i].0,
{
    let mut r: Vec<String> = Vec::new();
    let mut i: usize = 0;
    while i < s.len()
        invariant
            i <= s.len(),
            r.len() == i,
            forall|k: int| 0 <= k < i ==> (#[trigger] r@[k])@ == order_items_view(s@)[k].0,
        decreases s.len() - i,
    {
        r.push(s[i].identifier.clone());
        i += 1;
    }
    r
}

fn contains_id(ids: &Vec<String>, id: &str) -> (r: bool)
    ensures
        r == exists|i: int| 0 <= i < ids.len() && (#[trigger] ids@[i])@ == id@,
{
    let mut i: usize = 0;
    while i < ids.len()
        invariant
            i <= ids.len(),
            forall|k: int| 0 <= k < i ==> (#[trigger] ids@[k])@ != id@,
        decreases ids.len() - i,
    {
        if str_eq(ids[i].as_str(), id) {
            return true;
        }
        i += 1;
    }
    false
}

/// Adds the built-in prompts the stored ones lack.
fn add_missing_items(prompts: &mut Vec<PromptItem>, defaults: &Vec<PromptItem>)
    ensures
        items_view(final(prompts)@) == items_view(old(prompts)@) + missing_items(
            items_view(old(prompts)@),
            items_view(defaults@),
        ),
{
    let ghost e = items_view(prompts@);
    let ids = item_ids(prompts);
    let mut k: usize = 0;
    while k < defaults.len()
        invariant
            k <= defaults.len(),
            e == items_view(old(prompts)@),
            ids.len() == e.len(),
            forall|i: int| 0 <= i < e.len() ==> (#[trigger] ids@[i])@ == e[i].0,
            items_view(prompts@) == e + missing_items(e, items_view(defaults@).take(k as int)),
        decreases defaults.len() - k,
    {
        let ghost before = items_view(prompts@);
        assert(items_view(defaults@).take((k + 1) as int).drop_last() =~= items_view(defaults@).take(k as int));
        let d = &defaults[k];
        assert(items_view(defaults@).take((k + 1) as int).last() == item_view(*d));
        let present = contains_id(&ids, d.identifier.as_str());
        if !present {
            assert(!item_id_in(e, d.identifier@)) by {
                if item_id_in(e, d.identifier@) {
                    let j = choose|j: int| 0 <= j < e.len() && (#[trigger] e[j]).0 == d.identifier@;
                    assert(ids@[j]@ == d.identifier@);
                }
            }
            let c = copy_item(d);
            prompts.push(c);
            assert(items_view(prompts@) =~= before.push(item_view(c)));
        } else {
            assert(item_id_in(e, d.identifier@)) by {
                let j = choose|j: int| 0 <= j < ids.len() && (#[trigger] ids@[j])@ == d.identifier@;
                assert(e[j].0 == d.identifier@);
            }
        }
        k += 1;
    }
    assert(items_view(defaults@).take(defaults.len() as int) =~= items_view(defaults@));
}

/// Adds the items of a built-in order that an order lacks.
fn add_missing_order_items(order: &mut Vec<PromptOrderItem>, defaults: &Vec<PromptOrderItem>)
    ensures
        order_items_view(final(order)@) == order_items_view(old(order)@) + missing_order_items(
            order_items_view(old(order)@),
            order_items_view(defaults@),
        ),
{
    let ghost e = order_items_view(order@);
    let ids = order_ids(order);
    let mut k: usize = 0;
    while k < defaults.len()
        invariant
            k <= defaults.len(),
            e == order_items_view(old(order)@),
            ids.len() == e.len(),
            forall|i: int| 0 <= i < e.len() ==> (#[trigger] ids@[i])@ == e[i].0,
            order_items_view(order@) == e + missing_order_items(e, order_items_view(defaults@).take(k as int)),
        decreases defaults.len() - k,
    {
        let ghost before = order_items_view(order@);
        assert(order_items_view(defaults@).take((k + 1) as int).drop_last() =~= order_items_view(defaults@).take(
            k as int,
        ));
        let d = &defaults[k];
        assert(order_items_view(defaults@).take((k + 1) as int).last() == (d.identifier@, d.enabled));
        let present = contains_id(&ids, d.identifier.as_str());
        if !present {
            assert(!order_id_in(e, d.identifier@)) by {
                if order_id_in(e, d.identifier@) {
                    let j = choose|j: int| 0 <= j < e.len() && (#[trigger] e[j]).0 == d.identifier@;
                    assert(ids@[j]@ == d.identifier@);
                }
            }
            let c = copy_order_item(d);
            order.push(c);
            assert(order_items_view(order@) =~= before.push((c.identifier@, c.enabled)));
        } else {
            assert(order_id_in(e, d.identifier@)) by {
                let j = choose|j: int| 0 <= j < ids.len() && (#[trigger] ids@[j])@ == d.identifier@;
                assert(e[j].0 == d.identifier@);
            }
        }
        k += 1;
    }
    assert(order_items_view(defaults@).take(defaults.len() as int) =~= order_items_view(defaults@));
}

fn find_default_order(defaults: &Vec<PromptOrder>, character_id: i64) -> (r: Option<usize>)
    ensures
        match r {
            Some(k) => k < defaults.len() && default_order_for(orders_view(defaults@), character_id) == Some(
                order_view(defaults@[k as int]),
            ),
            None => default_order_for(orders_view(defaults@), character_id) is None,
        },
{
    let ghost dv = orders_view(defaults@);
    let mut k: usize = 0;
    while k < defaults.len()
        invariant
            k <= defaults.len(),
            dv == orders_view(defaults@),
            forall|j: int| 0 <= j < k ==> (#[trigger] dv[j]).0 != character_id,
        decreases defaults.len() - k,
    {
        if defaults[k].character_id == character_id {
            proof {
                assert(dv[k as int].0 == character_id);
                let c = choose|x: int|
                    0 <= x < dv.len() && dv[x].0 == character_id && forall|j: int|
                        0 <= j < x ==> (#[trigger] dv[j]).0 != character_id;
                assert(0 <= k < dv.len() && dv[k as int].0 == character_id && forall|j: int|
                    0 <= j < k ==> (#[trigger] dv[j]).0 != character_id);
                if c < k {
                    assert(dv[c].0 != character_id);
                } else if c > k {
                    assert(dv[k as int].0 != character_id);
                }
            }
            return Some(k);
        }
        k += 1;
    }
    assert(!(exists|x: int| 0 <= x < dv.len() && (#[trigger] dv[x]).0 == character_id));
    if defaults.len() > 0 {
        Some(0)
    } else {
        None
    }
}

fn fill_text(t: &mut String, d: &String)
    ensures
        final(t)@ == if is_blank(old(t)@) {
            d@
        } else {
            old(t)@
        },
{
    if str_blank(t.as_str()) {
        *t = d.clone();
    }
}

/// Brings a stored preset up to date with the built-in one: stored prompts
/// and orders are kept as they are, in place (with each order item's
/// `enabled`); the built-in prompts and order items they lack are added
/// after them; a preset with no prompts or no orders takes the built-in
/// ones; each blank text takes the built-in text.
pub fn merge_builtin_prompt_items(preset: &mut PromptPreset, defaults: &PromptPreset)
    ensures
        preset_view(*final(preset)) == merged_preset(preset_view(*old(preset)), preset_view(*defaults)),
{
    let ghost p0 = preset_view(*preset);
    let ghost d = preset_view(*defaults);
    if preset.prompts.len() == 0 {
        let mut items: Vec<PromptItem> = Vec::new();
        let mut i: usize = 0;
        while i < defaults.prompts.len()
            invariant
                i <= defaults.prompts.len(),
                items_view(items@) == items_view(defaults.prompts@).take(i as int),
            decreases defaults.prompts.len() - i,
        {
            let ghost before = items@;
            let c = copy_item(&defaults.prompts[i]);
            items.push(c);
            assert(items_view(items@) =~= items_view(before).push(item_view(c)));
            assert(items_view(defaults.prompts@).take((i + 1) as int) =~= items_view(defaults.prompts@).take(
                i as int,
            ).push(item_view(defaults.prompts@[i as int])));
            i += 1;
        }
        assert(items_view(defaults.prompts@).take(defaults.prompts.len() as int) =~= items_view(defaults.prompts@));
        preset.prompts = items;
    } else {
        add_missing_items(&mut preset.prompts, &defaults.prompts);
    }
    assert(items_view(preset.prompts@) == merged_items(p0.prompts, d.prompts));
    if preset.prompt_order.len() == 0 {
        let mut orders: Vec<PromptOrder> = Vec::new();
        let mut i: usize = 0;
        while i < defaults.prompt_order.len()
            invariant
                i <= defaults.prompt_order.len(),
                orders_view(orders@) == orders_view(defaults.prompt_order@).take(i as int),
            decreases defaults.prompt_order.len() - i,
        {
            let ghost before = orders@;
            let c = copy_order(&defaults.prompt_order[i]);
            orders.push(c);
            assert(orders_view(orders@) =~= orders_view(before).push(order_view(c)));
            assert(orders_view(defaults.prompt_order@).take((i + 1) as int) =~= orders_view(
                defaults.prompt_order@,
            ).take(i as int).push(order_view(defaults.prompt_order@[i as int])));
            i += 1;
        }
        assert(orders_view(defaults.prompt_order@).take(defaults.prompt_order.len() as int) =~= orders_view(
            defaults.prompt_order@,
        ));
        preset.prompt_order = orders;
        assert(orders_view(preset.prompt_order@) == merged_orders(p0.prompt_order, d.prompt_order));
    } else {
        let mut old_orders: Vec<PromptOrder> = Vec::new();
        std::mem::swap(&mut old_orders, &mut preset.prompt_order);
        let ghost ov = orders_view(old_orders@);
        assert(ov == p0.prompt_order);
        let mut orders: Vec<PromptOrder> = Vec::new();
        let mut i: usize = 0;
        while i < old_orders.len()
            invariant
                i <= old_orders.len(),
                ov == orders_view(old_orders@),
                d == preset_view(*defaults),
                orders.len() == i,
                forall|j: int|
                    0 <= j < i ==> #[trigger] order_view(orders@[j]) == merged_order(ov[j], d.prompt_order),
            decreases old_orders.len() - i,
        {
            let mut entry = copy_order(&old_orders[i]);
            match find_default_order(&defaults.prompt_order, entry.character_id) {
                Some(k) => {
                    add_missing_order_items(&mut entry.order, &defaults.prompt_order[k].order);
                },
                None => {},
            }
            orders.push(entry);
            i += 1;
        }
        preset.prompt_order = orders;
        assert(orders_view(preset.prompt_order@) =~= merged_orders(p0.prompt_order, d.prompt_order));
    }
    fill_text(&mut preset.texts.wi_format, &defaults.texts.wi_format);
    fill_text(&mut preset.texts.scenario_format, &defaults.texts.scenario_format);
    fill_text(&mut preset.texts.personality_format, &defaults.texts.personality_format);
    fill_text(&mut preset.texts.impersonation_prompt, &defaults.texts.impersonation_prompt);
    fill_text(&mut preset.texts.new_chat_prompt, &defaults.texts.new_chat_prompt);
    fill_text(&mut preset.texts.new_group_chat_prompt, &defaults.texts.new_group_chat_prompt);
    fill_text(&mut preset.texts.new_example_chat_prompt, &defaults.texts.new_example_chat_prompt);
    fill_text(&mut preset.texts.continue_nudge_prompt, &defaults.texts.continue_nudge_prompt);
    fill_text(&mut preset.texts.group_nudge_prompt, &defaults.texts.group_nudge_prompt);
    assert(texts_view(preset.texts) =~= merged_texts(p0.texts, d.texts));
}

// ---------------------------------------------------------------------------
// Laws
// ---------------------------------------------------------------------------

proof fn lemma_missing_items_none(e: Seq<ItemView>, ds: Seq<ItemView>)
    requires
        forall|k: int| 0 <= k < ds.len() ==> item_id_in(e, (#[trigger] ds[k]).0),
    ensures
        missing_items(e, ds) == Seq::<ItemView>::empty(),
    decreases ds.len(),
{
    if ds.len() > 0 {
        let d = ds.drop_last();
        assert forall|k: int| 0 <= k < d.len() implies item_id_in(e, (#[trigger] d[k]).0) by {
            assert(d[k] == ds[k]);
        }
        lemma_missing_items_none(e, d);
        assert(item_id_in(e, ds[ds.len() - 1].0));
        assert(missing_items(e, ds) =~= Seq::<ItemView>::empty());
    }
}

proof fn lemma_missing_items_cover(e: Seq<ItemView>, ds: Seq<ItemView>)
    ensures
        forall|k: int| 0 <= k < ds.len() ==> item_id_in(e + missing_items(e, ds), (#[trigger] ds[k]).0),
    decreases ds.len(),
{
    if ds.len() > 0 {
        let d = ds.drop_last();
        lemma_missing_items_cover(e, d);
        let small = e + missing_items(e, d);
        let big = e + missing_items(e, ds);
        assert(big.take(small.len() as int) =~= small);
        assert forall|k: int| 0 <= k < ds.len() implies item_id_in(big, (#[trigger] ds[k]).0) by {
            if k < ds.len() - 1 {
                assert(ds[k] == d[k]);
                assert(item_id_in(small, d[k].0));
                let j = choose|j: int| 0 <= j < small.len() && (#[trigger] small[j]).0 == d[k].0;
                assert(big[j] == small[j]);
            } else if item_id_in(e, ds.last().0) {
                let j = choose|j: int| 0 <= j < e.len() && (#[trigger] e[j]).0 == ds.last().0;
                assert(big[j] == e[j]);
            } else {
                assert(big[big.len() - 1] == ds.last());
            }
        }
    }
}

proof fn lemma_missing_order_items_none(e: Seq<OrderItemView>, ds: Seq<OrderItemView>)
    requires
        forall|k: int| 0 <= k < ds.len() ==> order_id_in(e, (#[trigger] ds[k]).0),
    ensures
        missing_order_items(e, ds) == Seq::<OrderItemView>::empty(),
    decreases ds.len(),
{
    if ds.len() > 0 {
        let d = ds.drop_last();
        assert forall|k: int| 0 <= k < d.len() implies order_id_in(e, (#[trigger] d[k]).0) by {
            assert(d[k] == ds[k]);
        }
        lemma_missing_order_items_none(e, d);
        assert(order_id_in(e, ds[ds.len() - 1].0));
        assert(missing_order_items(e, ds) =~= Seq::<OrderItemView>::empty());
    }
}

proof fn lemma_missing_order_items_cover(e: Seq<OrderItemView>, ds: Seq<OrderItemView>)
    ensures
        forall|k: int|
            0 <= k < ds.len() ==> order_id_in(e + missing_order_items(e, ds), (#[trigger] ds[k]).0),
    decreases ds.len(),
{
    if ds.len() > 0 {
        let d = ds.drop_last();
        lemma_missing_order_items_cover(e, d);
        let small = e + missing_order_items(e, d);
        let big = e + missing_order_items(e, ds);
        assert(big.take(small.len() as int) =~= small);
        assert forall|k: int| 0 <= k < ds.len() implies order_id_in(big, (#[trigger] ds[k]).0) by {
            if k < ds.len() - 1 {
                assert(ds[k] == d[k]);
                assert(order_id_in(small, d[k].0));
                let j = choose|j: int| 0 <= j < small.len() && (#[trigger] small[j]).0 == d[k].0;
                assert(big[j] == small[j]);
            } else if order_id_in(e, ds.last().0) {
                let j = choose|j: int| 0 <= j < e.len() && (#[trigger] e[j]).0 == ds.last().0;
                assert(big[j] == e[j]);
            } else {
                assert(big[big.len() - 1] == ds.last());
            }
        }
    }
}

/// Each character has one built-in order.
pub open spec fn character_ids_unique(d: Seq<OrderView>) -> bool {
    forall|i: int, j: int| 0 <= i < j < d.len() ==> #[trigger] d[i].0 != #[trigger] d[j].0
}

proof fn lemma_default_order_of_own(d: Seq<OrderView>, i: int)
    requires
        character_ids_unique(d),
        0 <= i < d.len(),
    ensures
        default_order_for(d, d[i].0) == Some(d[i]),
{
    let cid = d[i].0;
    assert(0 <= i < d.len() && d[i].0 == cid && forall|j: int| 0 <= j < i ==> (#[trigger] d[j]).0 != cid);
    let c = choose|x: int| 0 <= x < d.len() && d[x].0 == cid && forall|j: int| 0 <= j < x ==> (#[trigger] d[j]).0 != cid;
    if c != i {
        if c < i {
            assert(d[c].0 != d[i].0);
        } else {
            assert(d[i].0 != cid);
        }
    }
}

proof fn lemma_order_merge_stable(o: OrderView, defaults: Seq<OrderView>)
    ensures
        merged_order(merged_order(o, defaults), defaults) == merged_order(o, defaults),
{
    match default_order_for(defaults, o.0) {
        Some(d) => {
            lemma_missing_order_items_cover(o.1, d.1);
            lemma_missing_order_items_none(o.1 + missing_order_items(o.1, d.1), d.1);
            assert(o.1 + missing_order_items(o.1, d.1) + Seq::<OrderItemView>::empty() =~= o.1 + missing_order_items(o.1, d.1));
        },
        None => {},
    }
}

/// Merging is idempotent: bringing a merged preset up to date with the
/// same built-in preset changes nothing (where each character has one
/// built-in order).
pub proof fn law_merge_is_idempotent(p: PresetView, d: PresetView)
    requires
        p.texts.len() == d.texts.len(),
        character_ids_unique(d.prompt_order),
    ensures
        merged_preset(merged_preset(p, d), d) == merged_preset(p, d),
{
    let m = merged_preset(p, d);
    // prompts
    if p.prompts.len() == 0 {
        if d.prompts.len() > 0 {
            assert forall|k: int| 0 <= k < d.prompts.len() implies item_id_in(d.prompts, (#[trigger] d.prompts[k]).0) by {
            }
            lemma_missing_items_none(d.prompts, d.prompts);
            assert(merged_items(d.prompts, d.prompts) =~= d.prompts);
        }
    } else {
        lemma_missing_items_cover(p.prompts, d.prompts);
        lemma_missing_items_none(m.prompts, d.prompts);
        assert(merged_items(m.prompts, d.prompts) =~= m.prompts);
    }
    // orders
    if p.prompt_order.len() == 0 {
        if d.prompt_order.len() > 0 {
            assert forall|i: int| 0 <= i < d.prompt_order.len() implies merged_order(
                #[trigger] d.prompt_order[i],
                d.prompt_order,
            ) == d.prompt_order[i] by {
                lemma_default_order_of_own(d.prompt_order, i);
                let o = d.prompt_order[i];
                assert forall|k: int| 0 <= k < o.1.len() implies order_id_in(o.1, (#[trigger] o.1[k]).0) by {}
                lemma_missing_order_items_none(o.1, o.1);
                assert(o.1 + missing_order_items(o.1, o.1) =~= o.1);
            }
            assert(merged_orders(d.prompt_order, d.prompt_order) =~= d.prompt_order);
        }
    } else {
        assert forall|i: int| 0 <= i < m.prompt_order.len() implies merged_order(
            #[trigger] m.prompt_order[i],
            d.prompt_order,
        ) == m.prompt_order[i] by {
            lemma_order_merge_stable(p.prompt_order[i], d.prompt_order);
        }
        assert(merged_orders(m.prompt_order, d.prompt_order) =~= m.prompt_order);
    }
    // texts
    assert(merged_texts(m.texts, d.texts) =~= m.texts);
}

/// Merging keeps what the preset has: its prompts come first, unchanged
/// and in order, and every built-in prompt's identifier is then present;
/// each stored order keeps its items (and whether each is on) first.
pub proof fn law_merge_keeps_stored_entries(p: PresetView, d: PresetView)
    ensures
        p.prompts.len() > 0 ==> merged_preset(p, d).prompts.take(p.prompts.len() as int) == p.prompts,
        forall|k: int|
            0 <= k < d.prompts.len() ==> item_id_in(merged_preset(p, d).prompts, (#[trigger] d.prompts[k]).0),
        p.prompt_order.len() > 0 ==> merged_preset(p, d).prompt_order.len() == p.prompt_order.len(),
        p.prompt_order.len() > 0 ==> forall|i: int|
            0 <= i < p.prompt_order.len() ==> (#[trigger] merged_preset(p, d).prompt_order[i]).1.take(
                p.prompt_order[i].1.len() as int,
            ) == p.prompt_order[i].1 && merged_preset(p, d).prompt_order[i].0 == p.prompt_order[i].0,
{
    let m = merged_preset(p, d);
    if p.prompts.len() > 0 {
        assert(m.prompts.take(p.prompts.len() as int) =~= p.prompts);
        lemma_missing_items_cover(p.prompts, d.prompts);
    } else {
        assert forall|k: int| 0 <= k < d.prompts.len() implies item_id_in(m.prompts, (#[trigger] d.prompts[k]).0) by {
        }
    }
    if p.prompt_order.len() > 0 {
        assert forall|i: int| 0 <= i < p.prompt_order.len() implies (#[trigger] m.prompt_order[i]).1.take(
            p.prompt_order[i].1.len() as int,
        ) == p.prompt_order[i].1 && m.prompt_order[i].0 == p.prompt_order[i].0 by {
            let o = p.prompt_order[i];
            match default_order_for(d.prompt_order, o.0) {
                Some(x) => {
                    assert((o.1 + missing_order_items(o.1, x.1)).take(o.1.len() as int) =~= o.1);
                },
                None => {
                    assert(o.1.take(o.1.len() as int) =~= o.1);
                },
            }
        }
    }
}

/// Merging keeps every text the user has set: a stored text that is not
/// blank is the merged text, and only a blank one takes the built-in text.
pub proof fn law_merge_keeps_set_texts(p: PresetView, d: PresetView)
    requires
        p.texts.len() == d.texts.len(),
    ensures
        merged_preset(p, d).texts.len() == p.texts.len(),
        forall|i: int|
            0 <= i < p.texts.len() && !is_blank(#[trigger] p.texts[i]) ==> merged_preset(p, d).texts[i]
                == p.texts[i],
        forall|i: int|
            0 <= i < p.texts.len() && is_blank(#[trigger] p.texts[i]) ==> merged_preset(p, d).texts[i]
                == d.texts[i],
{
}

// ---------------------------------------------------------------------------
// The built-in preset
// ---------------------------------------------------------------------------

/// A built-in prompt: a system prompt, its name and content, whether it
/// marks where generated content goes; not flagged built-in, and editable.
/// The body holds the fields that are set; those left unset are absent.
pub open spec fn builtin_prompt_view(id: Seq<char>, name: Seq<char>, content: Seq<char>, marker: bool) -> ItemView {
    (
        id,
        JsonView::Object(
            seq![
                ("name"@, JsonView::Str(name)),
                ("role"@, JsonView::Str("system"@)),
                ("content"@, JsonView::Str(content)),
                ("system_prompt"@, JsonView::Bool(true)),
                ("marker"@, JsonView::Bool(marker)),
                ("builtin"@, JsonView::Bool(false)),
                ("editable"@, JsonView::Bool(true)),
                ("description"@, JsonView::Str(""@)),
            ],
        ),
    )
}

/// The order of the built-in prompts for a character: persona description
/// included or not, the definitions enhancement off, all else on.
pub open spec fn builtin_order_items(with_persona: bool) -> Seq<OrderItemView> {
    if with_persona {
        seq![
            ("main"@, true),
            ("worldInfoBefore"@, true),
            ("personaDescription"@, true),
            ("charDescription"@, true),
            ("charPersonality"@, true),
            ("scenario"@, true),
            ("enhanceDefinitions"@, false),
            ("nsfw"@, true),
            ("worldInfoAfter"@, true),
            ("dialogueExamples"@, true),
            ("chatHistory"@, true),
            ("jailbreak"@, true),
        ]
    } else {
        seq![
            ("main"@, true),
            ("worldInfoBefore"@, true),
            ("charDescription"@, true),
            ("charPersonality"@, true),
            ("scenario"@, true),
            ("enhanceDefinitions"@, false),
            ("nsfw"@, true),
            ("worldInfoAfter"@, true),
            ("dialogueExamples"@, true),
            ("chatHistory"@, true),
            ("jailbreak"@, true),
        ]
    }
}

/// The built-in preset: its prompts, the orders of the two default
/// characters, and its texts.
pub open spec fn builtin_preset_view() -> PresetView {
    PresetView {
        prompts: seq![
            builtin_prompt_view("main"@, "Main Prompt"@, "Write {{char}}'s next reply in a fictional chat between {{char}} and {{user}}."@, false),
            builtin_prompt_view("nsfw"@, "Auxiliary Prompt"@, ""@, false),
            builtin_prompt_view("dialogueExamples"@, "Chat Examples"@, ""@, true),
            builtin_prompt_view("jailbreak"@, "Post-History Instructions"@, ""@, false),
            builtin_prompt_view("chatHistory"@, "Chat History"@, ""@, true),
            builtin_prompt_view("worldInfoAfter"@, "World Info (after)"@, ""@, true),
            builtin_prompt_view("worldInfoBefore"@, "World Info (before)"@, ""@, true),
            builtin_prompt_view("enhanceDefinitions"@, "Enhance Definitions"@, "If you have more knowledge of {{char}}, add to the character's lore and personality to enhance them but keep the Character Sheet's definitions absolute."@, false),
            builtin_prompt_view("charDescription"@, "Char Description"@, ""@, true),
            builtin_prompt_view("charPersonality"@, "Char Personality"@, ""@, true),
            builtin_prompt_view("scenario"@, "Scenario"@, ""@, true),
            builtin_prompt_view("personaDescription"@, "Persona Description"@, ""@, true),
        ],
        prompt_order: seq![(100000i64, builtin_order_items(true)), (100001i64, builtin_order_items(false))],
        texts: seq![
            "{0}"@,
            "{{scenario}}"@,
            "{{personality}}"@,
            "[Write your next reply from the point of view of {{user}}, using the chat history so far as a guideline for the writing style of {{user}}. Don't write as {{char}} or system. Don't describe actions of {{char}}.]"@,
            "[Start a new Chat]"@,
            "[Start a new group chat. Group members: {{group}}]"@,
            "[Example Chat]"@,
            "[Continue your last message without repeating its original content.]"@,
            "[Write the next reply only as {{char}}.]"@,
        ],
    }
}

fn owned(s: &str) -> (r: String)
    ensures
        r@ == s@,
{
    s.to_owned()
}

fn builtin_prompt(id: &str, name: &str, content: &str, marker: bool) -> (r: PromptItem)
    ensures
        item_view(r) == builtin_prompt_view(id@, name@, content@, marker),
{
    let members = vec![
        (owned("name"), JsonValue::String(owned(name))),
        (owned("role"), JsonValue::String(owned("system"))),
        (owned("content"), JsonValue::String(owned(content))),
        (owned("system_prompt"), JsonValue::Bool(true)),
        (owned("marker"), JsonValue::Bool(marker)),
        (owned("builtin"), JsonValue::Bool(false)),
        (owned("editable"), JsonValue::Bool(true)),
        (owned("description"), JsonValue::String(owned(""))),
    ];
    assert(members@.len() == 8);
    assert forall|k: int| 0 <= k < 8 implies (#[trigger] members@[k]).0@ == builtin_prompt_view(
        id@,
        name@,
        content@,
        marker,
    ).1->Object_0[k].0 && json_view(members@[k].1) == builtin_prompt_view(
        id@,
        name@,
        content@,
        marker,
    ).1->Object_0[k].1 by {}
    let body = JsonValue::Object(members);
    assert(json_view(body)->Object_0 =~= builtin_prompt_view(id@, name@, content@, marker).1->Object_0);
    PromptItem { identifier: owned(id), body }
}

fn order_item(id: &str, enabled: bool) -> (r: PromptOrderItem)
    ensures
        r.identifier@ == id@,
        r.enabled == enabled,
{
    PromptOrderItem { identifier: owned(id), enabled }
}

fn builtin_order(with_persona: bool) -> (r: Vec<PromptOrderItem>)
    ensures
        order_items_view(r@) == builtin_order_items(with_persona),
{
    if with_persona {
        let v = vec![
            order_item("main", true),
            order_item("worldInfoBefore", true),
            order_item("personaDescription", true),
            order_item("charDescription", true),
            order_item("charPersonality", true),
            order_item("scenario", true),
            order_item("enhanceDefinitions", false),
            order_item("nsfw", true),
            order_item("worldInfoAfter", true),
            order_item("dialogueExamples", true),
            order_item("chatHistory", true),
            order_item("jailbreak", true),
        ];
        assert(order_items_view(v@) =~= builtin_order_items(true));
        v
    } else {
        let v = vec![
            order_item("main", true),
            order_item("worldInfoBefore", true),
            order_item("charDescription", true),
            order_item("charPersonality", true),
            order_item("scenario", true),
            order_item("enhanceDefinitions", false),
            order_item("nsfw", true),
            order_item("worldInfoAfter", true),
            order_item("dialogueExamples", true),
            order_item("chatHistory", true),
            order_item("jailbreak", true),
        ];
        assert(order_items_view(v@) =~= builtin_order_items(false));
        v
    }
}

/// The built-in preset that stored presets are brought up to date with.
pub fn builtin_prompt_preset() -> (r: PromptPreset)
    ensures
        preset_view(r) == builtin_preset_view(),
{
    let prompts = vec![
        builtin_prompt("main", "Main Prompt", "Write {{char}}'s next reply in a fictional chat between {{char}} and {{user}}.", false),
        builtin_prompt("nsfw", "Auxiliary Prompt", "", false),
        builtin_prompt("dialogueExamples", "Chat Examples", "", true),
        builtin_prompt("jailbreak", "Post-History Instructions", "", false),
        builtin_prompt("chatHistory", "Chat History", "", true),
        builtin_prompt("worldInfoAfter", "World Info (after)", "", true),
        builtin_prompt("worldInfoBefore", "World Info (before)", "", true),
        builtin_prompt("enhanceDefinitions", "Enhance Definitions", "If you have more knowledge of {{char}}, add to the character's lore and personality to enhance them but keep the Character Sheet's definitions absolute.", false),
        builtin_prompt("charDescription", "Char Description", "", true),
        builtin_prompt("charPersonality", "Char Personality", "", true),
        builtin_prompt("scenario", "Scenario", "", true),
        builtin_prompt("personaDescription", "Persona Description", "", true),
    ];
    assert(items_view(prompts@) =~= builtin_preset_view().prompts);
    let prompt_order = vec![
        PromptOrder { character_id: 100000, order: builtin_order(true) },
        PromptOrder { character_id: 100001, order: builtin_order(false) },
    ];
    assert(orders_view(prompt_order@) =~= builtin_preset_view().prompt_order);
    let texts = PresetTexts {
        wi_format: owned("{0}"),
        scenario_format: owned("{{scenario}}"),
        personality_format: owned("{{personality}}"),
        impersonation_prompt: owned("[Write your next reply from the point of view of {{user}}, using the chat history so far as a guideline for the writing style of {{user}}. Don't write as {{char}} or system. Don't describe actions of {{char}}.]"),
        new_chat_prompt: owned("[Start a new Chat]"),
        new_group_chat_prompt: owned("[Start a new group chat. Group members: {{group}}]"),
        new_example_chat_prompt: owned("[Example Chat]"),
        continue_nudge_prompt: owned("[Continue your last message without repeating its original content.]"),
        group_nudge_prompt: owned("[Write the next reply only as {{char}}.]"),
    };
    assert(texts_view(texts) =~= builtin_preset_view().texts);
    PromptPreset { prompts, prompt_order, texts }
}

/// Brings a stored preset up to date with the built-in preset.
pub fn merge_with_builtin_preset(preset: &mut PromptPreset)
    ensures
        preset_view(*final(preset)) == merged_preset(preset_view(*old(preset)), builtin_preset_view()),
{
    let defaults = builtin_prompt_preset();
    merge_builtin_prompt_items(preset, &defaults);
}

/// The identifiers of the built-in prompts.
pub open spec fn builtin_prompt_ids() -> Seq<Seq<char>> {
    builtin_preset_view().prompts.map_values(|p: ItemView| p.0)
}

/// The user's own prompts among `s`: those whose identifier is not that of
/// a built-in prompt, in order.
pub open spec fn user_prompts(s: Seq<ItemView>) -> Seq<ItemView>
    decreases s.len(),
{
    if s.len() == 0 {
        Seq::empty()
    } else if builtin_prompt_ids().contains(s.last().0) {
        user_prompts(s.drop_last())
    } else {
        user_prompts(s.drop_last()).push(s.last())
    }
}

/// Whether an identifier is that of a built-in prompt.
pub fn is_builtin_prompt_id(id: &str) -> (r: bool)
    ensures
        r == builtin_prompt_ids().contains(id@),
{
    let ids: Vec<&str> = vec![
        "main",
        "nsfw",
        "dialogueExamples",
        "jailbreak",
        "chatHistory",
        "worldInfoAfter",
        "worldInfoBefore",
        "enhanceDefinitions",
        "charDescription",
        "charPersonality",
        "scenario",
        "personaDescription",
    ];
    let ghost want = builtin_prompt_ids();
    assert(ids@.map_values(|x: &str| x@) =~= want);
    let mut i: usize = 0;
    while i < ids.len()
        invariant
            i <= ids.len(),
            ids@.map_values(|x: &str| x@) == want,
            want == builtin_prompt_ids(),
            forall|k: int| 0 <= k < i ==> want[k] != id@,
        decreases ids.len() - i,
    {
        if crate::text::str_eq(ids[i], id) {
            assert(ids@.map_values(|x: &str| x@)[i as int] == ids@[i as int]@);
            assert(want[i as int] == id@);
            assert(want.contains(id@));
            return true;
        }
        i += 1;
    }
    assert forall|k: int| 0 <= k < want.len() implies want[k] != id@ by {}
    false
}

/// A saved preset holds no built-in prompt, and keeps every prompt of the
/// user's own.
pub proof fn law_saved_prompts_are_the_users_own(s: Seq<ItemView>)
    ensures
        forall|k: int|
            0 <= k < user_prompts(s).len() ==> !builtin_prompt_ids().contains(#[trigger] user_prompts(s)[k].0),
        forall|k: int|
            0 <= k < s.len() && !builtin_prompt_ids().contains(#[trigger] s[k].0) ==> user_prompts(s).contains(s[k]),
    decreases s.len(),
{
    if s.len() > 0 {
        let p = s.drop_last();
        law_saved_prompts_are_the_users_own(p);
        let u = user_prompts(p);
        assert forall|k: int| 0 <= k < s.len() && !builtin_prompt_ids().contains(#[trigger] s[k].0) implies user_prompts(
            s,
        ).contains(s[k]) by {
            if k < p.len() {
                assert(p[k] == s[k]);
                let j = choose|j: int| 0 <= j < u.len() && u[j] == p[k];
                assert(user_prompts(s)[j] == s[k]);
            } else {
                assert(user_prompts(s)[user_prompts(s).len() - 1] == s[k]);
            }
        }
        assert forall|k: int| 0 <= k < user_prompts(s).len() implies !builtin_prompt_ids().contains(
            #[trigger] user_prompts(s)[k].0,
        ) by {
            if k < u.len() {
                assert(user_prompts(s)[k] == u[k]);
            }
        }
    }
}

/// What is written when a preset is saved: only the user's own prompts;
/// the built-in prompts are left out, as the built-in preset supplies
/// them again on load. The prompt orders, which hold the built-in entries'
/// enabled state and position, and the texts are kept as they are.
pub fn filter_builtin_items_for_save(preset: PromptPreset) -> (r: PromptPreset)
    ensures
        items_view(r.prompts@) == user_prompts(items_view(preset.prompts@)),
        r.prompt_order == preset.prompt_order,
        r.texts == preset.texts,
{
    let ghost all = items_view(preset.prompts@);
    let mut kept: Vec<PromptItem> = Vec::new();
    let mut i: usize = 0;
    while i < preset.prompts.len()
        invariant
            i <= preset.prompts.len(),
            all == items_view(preset.prompts@),
            items_view(kept@) == user_prompts(all.take(i as int)),
        decreases preset.prompts.len() - i,
    {
        assert(all.take(i + 1).drop_last() =~= all.take(i as int));
        assert(all.take(i + 1).last() == item_view(preset.prompts@[i as int]));
        let item = &preset.prompts[i];
        if !is_builtin_prompt_id(item.identifier.as_str()) {
            let ghost before = items_view(kept@);
            kept.push(PromptItem { identifier: item.identifier.clone(), body: item.body.deep_clone() });
            assert(items_view(kept@) =~= before.push(item_view(preset.prompts@[i as int])));
        }
        i += 1;
    }
    assert(all.take(i as int) =~= all);
    PromptPreset { prompts: kept, prompt_order: preset.prompt_order, texts: preset.texts }
}


} // verus!
