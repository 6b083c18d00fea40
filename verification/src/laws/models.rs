//! Laws of the lists of models.

use crate::catalog;
use crate::catalog::EntryView;
use crate::config::BackendView;
use crate::fetch;
use crate::fetch::{FetchActionView, FetchEventView, FetchPhase, FetchView};
use crate::json;
use crate::json::JsonView;
use crate::server;
use vstd::prelude::*;

verus! {

/// The first occurrences are distinct and leave no text out.
pub proof fn firsts_are_the_distinct_texts(s: Seq<Seq<char>>)
    ensures
        catalog::firsts(s).no_duplicates(),
        forall|t: Seq<char>| #[trigger] catalog::firsts(s).contains(t) <==> s.contains(t),
    decreases s.len(),
{
    if s.len() > 0 {
        let rest = s.drop_last();
        firsts_are_the_distinct_texts(rest);
        let before = catalog::firsts(rest);
        assert forall|t: Seq<char>| #[trigger] catalog::firsts(s).contains(t) <==> s.contains(
            t,
        ) by {
            assert(s.contains(t) <==> rest.contains(t) || t == s.last()) by {
                if rest.contains(t) {
                    let i = choose|i: int| 0 <= i < rest.len() && rest[i] == t;
                    assert(s[i] == t);
                }
                if t == s.last() {
                    assert(s[s.len() - 1] == t);
                }
                if s.contains(t) && t != s.last() {
                    let i = choose|i: int| 0 <= i < s.len() && s[i] == t;
                    assert(rest[i] == t);
                }
            }
            let pushed = before.push(s.last());
            assert(pushed.contains(t) <==> before.contains(t) || t == s.last()) by {
                if before.contains(t) {
                    let i = choose|i: int| 0 <= i < before.len() && before[i] == t;
                    assert(pushed[i] == t);
                }
                assert(pushed[before.len() as int] == s.last());
            }
        }
    }
}

/// Texts that come later do not change the order of those that came before.
pub proof fn firsts_keep_their_order(s: Seq<Seq<char>>, later: Seq<Seq<char>>)
    ensures
        catalog::firsts(s).is_prefix_of(catalog::firsts(s + later)),
    decreases later.len(),
{
    if later.len() == 0 {
        assert(s + later =~= s);
    } else {
        firsts_keep_their_order(s, later.drop_last());
        assert((s + later).drop_last() =~= s + later.drop_last());
    }
}

/// The ids come from the entries, and none of them is empty.
proof fn entry_ids_are_the_ids(entries: Seq<JsonView>)
    ensures
        forall|id: Seq<char>| #[trigger]
            catalog::entry_ids(entries).contains(id) <==> id.len() > 0 && exists|i: int|
                0 <= i < entries.len() && json::text_member(#[trigger] entries[i], "id"@) == Some(
                    id,
                ),
    decreases entries.len(),
{
    if entries.len() > 0 {
        let rest = entries.drop_last();
        entry_ids_are_the_ids(rest);
        let before = catalog::entry_ids(rest);
        assert forall|id: Seq<char>| #[trigger]
            catalog::entry_ids(entries).contains(id) <==> id.len() > 0 && exists|i: int|
                0 <= i < entries.len() && json::text_member(#[trigger] entries[i], "id"@) == Some(
                    id,
                ) by {
            let last = entries.last();
            if before.contains(id) {
                let k = choose|k: int| 0 <= k < before.len() && before[k] == id;
                assert(catalog::entry_ids(entries)[k] == id);
                let i = choose|i: int|
                    0 <= i < rest.len() && json::text_member(#[trigger] rest[i], "id"@) == Some(
                        id,
                    );
                assert(json::text_member(entries[i], "id"@) == Some(id));
            }
            if catalog::entry_id(last) == Some(id) {
                assert(catalog::entry_ids(entries)[before.len() as int] == id);
                assert(json::text_member(entries[entries.len() - 1], "id"@) == Some(id));
            }
            if id.len() > 0 && exists|i: int|
                0 <= i < entries.len() && json::text_member(#[trigger] entries[i], "id"@) == Some(
                    id,
                ) {
                let i = choose|i: int|
                    0 <= i < entries.len() && json::text_member(#[trigger] entries[i], "id"@)
                        == Some(id);
                if i < entries.len() - 1 {
                    assert(json::text_member(rest[i], "id"@) == Some(id));
                    assert(before.contains(id));
                } else {
                    assert(catalog::entry_id(last) == Some(id));
                }
            }
        }
    }
}

/// The ids that a document lists are distinct and not empty, and each is the id
/// of one of its entries. No id that is not empty is left out.
pub proof fn listed_ids_are_the_ids_of_the_entries(document: JsonView, entries: Seq<JsonView>)
    requires
        json::member(document, "data"@) == Some(JsonView::Array(entries)),
    ensures
        catalog::model_ids(document).no_duplicates(),
        forall|id: Seq<char>| #[trigger]
            catalog::model_ids(document).contains(id) <==> id.len() > 0 && exists|i: int|
                0 <= i < entries.len() && json::text_member(#[trigger] entries[i], "id"@) == Some(
                    id,
                ),
{
    firsts_are_the_distinct_texts(catalog::entry_ids(entries));
    entry_ids_are_the_ids(entries);
}

/// The entries at first occurrences have distinct ids, and leave no id out.
proof fn first_entries_are_distinct(entries: Seq<EntryView>)
    ensures
        ({
            let r = catalog::first_entries(entries);
            &&& forall|i: int, j: int|
                0 <= i < j < r.len() ==> (#[trigger] r[i]).id != (#[trigger] r[j]).id
            &&& forall|id: Seq<char>| #[trigger]
                catalog::lists(r, id) <==> catalog::lists(entries, id)
        }),
    decreases entries.len(),
{
    if entries.len() > 0 {
        let rest = entries.drop_last();
        first_entries_are_distinct(rest);
        let before = catalog::first_entries(rest);
        let r = catalog::first_entries(entries);
        assert forall|id: Seq<char>| #[trigger]
            catalog::lists(r, id) <==> catalog::lists(entries, id) by {
            if catalog::lists(entries, id) {
                let i = choose|i: int|
                    0 <= i < entries.len() && (#[trigger] entries[i]).id == id;
                if i < entries.len() - 1 {
                    assert(rest[i].id == id);
                    assert(catalog::lists(rest, id));
                    assert(catalog::lists(before, id));
                    let k = choose|k: int| 0 <= k < before.len() && (#[trigger] before[k]).id == id;
                    assert(r[k].id == id);
                } else if !catalog::lists(before, id) {
                    assert(r[before.len() as int].id == id);
                }
            }
            if catalog::lists(r, id) {
                let k = choose|k: int| 0 <= k < r.len() && (#[trigger] r[k]).id == id;
                if k < before.len() {
                    assert(before[k].id == id);
                    assert(catalog::lists(before, id));
                    assert(catalog::lists(rest, id));
                    let i = choose|i: int| 0 <= i < rest.len() && (#[trigger] rest[i]).id == id;
                    assert(entries[i].id == id);
                } else {
                    assert(entries[entries.len() - 1].id == id);
                }
            }
        }
        assert forall|i: int, j: int| 0 <= i < j < r.len() implies (#[trigger] r[i]).id != (
        #[trigger] r[j]).id by {
            if j == before.len() {
                assert(before[i].id == r[i].id);
            }
        }
    }
}

/// Whether the backend at `b` is the first that serves the model `id`.
pub open spec fn first_server(config: Seq<BackendView>, b: int, id: Seq<char>) -> bool {
    &&& 0 <= b < config.len()
    &&& config[b].models.contains(id)
    &&& forall|a: int| 0 <= a < b ==> !(#[trigger] config[a]).models.contains(id)
}

/// The model `id` is among the entries of some backend.
proof fn all_entries_are_served(config: Seq<BackendView>)
    ensures
        forall|id: Seq<char>| #[trigger]
            catalog::lists(catalog::all_entries(config), id) <==> exists|b: int|
                0 <= b < config.len() && (#[trigger] config[b]).models.contains(id),
    decreases config.len(),
{
    if config.len() > 0 {
        let rest = config.drop_last();
        all_entries_are_served(rest);
        let before = catalog::all_entries(rest);
        let own = catalog::entries_of(config.last());
        let all = catalog::all_entries(config);
        assert(all == before + own);
        assert forall|id: Seq<char>| #[trigger] catalog::lists(all, id) <==> exists|b: int|
            0 <= b < config.len() && (#[trigger] config[b]).models.contains(id) by {
            if catalog::lists(all, id) {
                let i = choose|i: int| 0 <= i < all.len() && (#[trigger] all[i]).id == id;
                if i < before.len() {
                    assert(before[i].id == id);
                    assert(catalog::lists(before, id));
                    let b = choose|b: int|
                        0 <= b < rest.len() && (#[trigger] rest[b]).models.contains(id);
                    assert(config[b].models.contains(id));
                } else {
                    let k = i - before.len();
                    assert(own[k].id == id);
                    assert(config.last().models[k] == id);
                    assert(config[config.len() - 1].models.contains(id));
                }
            }
            if exists|b: int| 0 <= b < config.len() && (#[trigger] config[b]).models.contains(id) {
                let b = choose|b: int|
                    0 <= b < config.len() && (#[trigger] config[b]).models.contains(id);
                if b < config.len() - 1 {
                    assert(rest[b].models.contains(id));
                    assert(catalog::lists(before, id));
                    let i = choose|i: int| 0 <= i < before.len() && (#[trigger] before[i]).id == id;
                    assert(all[i].id == id);
                } else {
                    let k = choose|k: int|
                        0 <= k < config.last().models.len() && config.last().models[k] == id;
                    assert(own[k].id == id);
                    assert(all[before.len() + k].id == id);
                }
            }
        }
    }
}

/// Whether an entry is under the name of the first backend that serves it.
pub open spec fn owned(config: Seq<BackendView>, e: EntryView) -> bool {
    exists|b: int| #[trigger] first_server(config, b, e.id) && config[b].name == e.owned_by
}

/// Whether each entry is under the name of the first backend that serves it.
pub open spec fn owned_by_the_first(config: Seq<BackendView>, entries: Seq<EntryView>) -> bool {
    forall|i: int| 0 <= i < entries.len() ==> owned(config, #[trigger] entries[i])
}

/// A backend that comes last takes no model from those before it.
proof fn last_backend_takes_none(config: Seq<BackendView>, entries: Seq<EntryView>)
    requires
        config.len() > 0,
        owned_by_the_first(config.drop_last(), entries),
    ensures
        owned_by_the_first(config, entries),
{
    let front = config.drop_last();
    assert forall|i: int| 0 <= i < entries.len() implies owned(config, #[trigger] entries[i]) by {
        assert(owned(front, entries[i]));
        let b = choose|b: int| #[trigger]
            first_server(front, b, entries[i].id) && front[b].name == entries[i].owned_by;
        assert(config[b] == front[b]);
        assert forall|a: int| 0 <= a < b implies !(#[trigger] config[a]).models.contains(
            entries[i].id,
        ) by {
            assert(config[a] == front[a]);
        }
        assert(first_server(config, b, entries[i].id));
    }
}

/// The first `n` models of the last backend, after those of all others.
proof fn last_backend_owns_the_rest(config: Seq<BackendView>, n: int)
    requires
        config.len() > 0,
        0 <= n <= catalog::entries_of(config.last()).len(),
        owned_by_the_first(
            config.drop_last(),
            catalog::first_entries(catalog::all_entries(config.drop_last())),
        ),
    ensures
        owned_by_the_first(
            config,
            catalog::first_entries(
                catalog::all_entries(config.drop_last()) + catalog::entries_of(config.last()).take(n),
            ),
        ),
    decreases n,
{
    let front = config.drop_last();
    let before = catalog::all_entries(front);
    let own = catalog::entries_of(config.last());
    let rest = before + own.take(n);
    if n == 0 {
        assert(rest =~= before);
        last_backend_takes_none(config, catalog::first_entries(before));
    } else {
        last_backend_owns_the_rest(config, n - 1);
        let shorter = before + own.take(n - 1);
        assert(rest.drop_last() =~= shorter);
        let e = own[n - 1];
        assert(rest.last() == e);
        let kept = catalog::first_entries(shorter);
        let r = catalog::first_entries(rest);
        first_entries_are_distinct(shorter);
        assert forall|i: int| 0 <= i < r.len() implies owned(config, #[trigger] r[i]) by {
            if i < kept.len() {
                assert(r[i] == kept[i]);
            } else {
                let b = config.len() - 1;
                assert(config[b].models[n - 1] == e.id);
                assert(!catalog::lists(kept, e.id));
                assert(!catalog::lists(shorter, e.id));
                assert(!catalog::lists(before, e.id)) by {
                    if catalog::lists(before, e.id) {
                        let k = choose|k: int|
                            0 <= k < before.len() && (#[trigger] before[k]).id == e.id;
                        assert(shorter[k].id == e.id);
                    }
                }
                all_entries_are_served(front);
                assert forall|a: int| 0 <= a < b implies !(#[trigger] config[a]).models.contains(
                    e.id,
                ) by {
                    assert(config[a] == front[a]);
                }
                assert(first_server(config, b, e.id));
            }
        }
    }
}

/// Each listed model is under the name of the first backend that serves it.
proof fn owners_are_first(config: Seq<BackendView>)
    ensures
        owned_by_the_first(config, catalog::offered_models(config)),
    decreases config.len(),
{
    if config.len() > 0 {
        owners_are_first(config.drop_last());
        let own = catalog::entries_of(config.last());
        last_backend_owns_the_rest(config, own.len() as int);
        assert(own.take(own.len() as int) =~= own);
    }
}

/// The models on offer are the union of those of all backends, each one once,
/// under the name of the first backend that serves it.
pub proof fn models_on_offer_are_the_union(config: Seq<BackendView>)
    ensures
        ({
            let r = catalog::offered_models(config);
            &&& forall|i: int, j: int|
                0 <= i < j < r.len() ==> (#[trigger] r[i]).id != (#[trigger] r[j]).id
            &&& forall|id: Seq<char>| #[trigger]
                catalog::lists(r, id) <==> exists|b: int|
                    0 <= b < config.len() && (#[trigger] config[b]).models.contains(id)
            &&& owned_by_the_first(config, r)
        }),
{
    first_entries_are_distinct(catalog::all_entries(config));
    all_entries_are_served(config);
    owners_are_first(config);
}

/// Texts that are distinct already are their own first occurrences.
proof fn distinct_texts_are_their_firsts(s: Seq<Seq<char>>)
    requires
        s.no_duplicates(),
    ensures
        catalog::firsts(s) == s,
    decreases s.len(),
{
    if s.len() == 0 {
        assert(s =~= Seq::empty());
    } else {
        let rest = s.drop_last();
        distinct_texts_are_their_firsts(rest);
        assert(!rest.contains(s.last())) by {
            if rest.contains(s.last()) {
                let i = choose|i: int| 0 <= i < rest.len() && rest[i] == s.last();
                assert(s[i] == s[s.len() - 1]);
            }
        }
        assert(rest.push(s.last()) =~= s);
    }
}

/// The ids of the JSON forms of entries are the ids of the entries.
proof fn entry_ids_of_entries(entries: Seq<EntryView>)
    requires
        forall|i: int| 0 <= i < entries.len() ==> (#[trigger] entries[i]).id.len() > 0,
    ensures
        catalog::entry_ids(entries.map_values(|e: EntryView| server::entry_json(e)))
            == entries.map_values(|e: EntryView| e.id),
    decreases entries.len(),
{
    let forms = entries.map_values(|e: EntryView| server::entry_json(e));
    let ids = entries.map_values(|e: EntryView| e.id);
    if entries.len() == 0 {
        assert(ids =~= Seq::empty());
    } else {
        let rest = entries.drop_last();
        entry_ids_of_entries(rest);
        assert(forms.drop_last() =~= rest.map_values(|e: EntryView| server::entry_json(e)));
        assert(forms.last() == server::entry_json(entries.last()));
        assert(entries.last().id.len() > 0);
        assert(catalog::entry_id(forms.last()) == Some(entries.last().id));
        assert(rest.map_values(|e: EntryView| e.id).push(entries.last().id) =~= ids);
    }
}

/// Whoever fetches the model list of the gateway reads from it the models on
/// offer, in the same order. A model without a name is left out of account.
pub proof fn model_list_can_be_read_back(config: Seq<BackendView>)
    requires
        forall|b: int, i: int|
            0 <= b < config.len() && 0 <= i < config[b].models.len() ==> (
            #[trigger] config[b].models[i]).len() > 0,
    ensures
        catalog::model_ids(server::models_json(config)) == catalog::offered_models(
            config,
        ).map_values(|e: EntryView| e.id),
{
    let entries = catalog::offered_models(config);
    let ids = entries.map_values(|e: EntryView| e.id);
    let forms = entries.map_values(|e: EntryView| server::entry_json(e));
    models_on_offer_are_the_union(config);
    assert forall|i: int| 0 <= i < entries.len() implies (#[trigger] entries[i]).id.len() > 0 by {
        assert(catalog::lists(entries, entries[i].id));
        let b = choose|b: int|
            0 <= b < config.len() && (#[trigger] config[b]).models.contains(entries[i].id);
        let k = choose|k: int|
            0 <= k < config[b].models.len() && config[b].models[k] == entries[i].id;
        assert(config[b].models[k].len() > 0);
    }
    entry_ids_of_entries(entries);
    assert(ids.no_duplicates()) by {
        assert forall|i: int, j: int| 0 <= i < ids.len() && 0 <= j < ids.len() && i != j implies
            ids[i] != ids[j] by {
            assert(ids[i] == entries[i].id);
            assert(ids[j] == entries[j].id);
        }
    }
    distinct_texts_are_their_firsts(ids);
    let fields = server::models_json(config)->Object_0;
    assert(json::lookup(fields, "data"@) == Some(JsonView::Array(forms))) by {
        reveal_strlit("data");
        reveal_strlit("object");
        assert("object"@.len() != "data"@.len());
        assert(fields.skip(1)[0] == fields[1]);
        reveal_with_fuel(json::lookup, 2);
    }
}

/// A first address that fails, in whatever way, is followed by the second one.
pub proof fn second_address_is_the_fallback(v: FetchView, reason: Seq<char>, code: u16)
    requires
        v.phase == FetchPhase::Asking,
        !v.fallback,
        !fetch::success(code),
    ensures
        ({
            let second = FetchView { fallback: true, ..v };
            let url = v.base + "/models"@;
            &&& second.request() == FetchActionView::Get { url, key: v.key }
            &&& v.after(FetchEventView::Failed(reason)) == (second, second.request())
            &&& v.after(FetchEventView::Status(code)) == (second, second.request())
            &&& FetchView { phase: FetchPhase::Reading, ..v }.after(
                FetchEventView::Unreadable(reason),
            ) == (second, second.request())
        }),
{
}

/// When the second address fails too, its reason is the outcome.
pub proof fn last_reason_is_reported(v: FetchView, reason: Seq<char>, code: u16)
    requires
        v.phase == FetchPhase::Asking,
        v.fallback,
        !fetch::success(code),
    ensures
        v.after(FetchEventView::Failed(reason)).1 == FetchActionView::Finish(Err(reason)),
        v.after(FetchEventView::Status(code)).1 == FetchActionView::Finish(
            Err(fetch::status_reason(code)),
        ),
        (FetchView { phase: FetchPhase::Reading, ..v }).after(
            FetchEventView::Unreadable(reason),
        ).1 == FetchActionView::Finish(Err(reason)),
{
}

/// The first success whose body can be read decides, even when it lists nothing.
pub proof fn first_success_decides(v: FetchView, code: u16, body: Seq<char>)
    requires
        v.phase == FetchPhase::Asking,
        fetch::success(code),
    ensures
        ({
            let one = v.after(FetchEventView::Status(code));
            let two = one.0.after(FetchEventView::Text(body));
            &&& one.1 == FetchActionView::ReadText
            &&& two.1 == FetchActionView::Finish(Ok(catalog::ids_in(body)))
        }),
{
}

} // verus!
