//! Lists of models: those that an upstream reports, and those that the
//! configuration offers.

use crate::config::{BackendView, Config};
use crate::json;
use crate::json::{parse_text, Json, JsonView};
use crate::text;
use crate::text::has_text;
use vstd::prelude::*;

verus! {

/// The distinct texts of `s`, each at its first occurrence.
pub open spec fn firsts(s: Seq<Seq<char>>) -> Seq<Seq<char>>
    decreases s.len(),
{
    if s.len() == 0 {
        Seq::empty()
    } else {
        let before = firsts(s.drop_last());
        if before.contains(s.last()) {
            before
        } else {
            before.push(s.last())
        }
    }
}

/// The id of an entry of a model list, where it has one that is not empty.
pub open spec fn entry_id(entry: JsonView) -> Option<Seq<char>> {
    match json::text_member(entry, "id"@) {
        Some(id) => if id.len() > 0 {
            Some(id)
        } else {
            None
        },
        None => None,
    }
}

/// The ids of the entries that have one, in order.
pub open spec fn entry_ids(entries: Seq<JsonView>) -> Seq<Seq<char>>
    decreases entries.len(),
{
    if entries.len() == 0 {
        Seq::empty()
    } else {
        let before = entry_ids(entries.drop_last());
        match entry_id(entries.last()) {
            Some(id) => before.push(id),
            None => before,
        }
    }
}

/// The model ids that a document of the shape `{"data": [{"id": ..}, ..]}`
/// lists, each once. A document of another shape lists none.
pub open spec fn model_ids(document: JsonView) -> Seq<Seq<char>> {
    match json::member(document, "data"@) {
        Some(JsonView::Array(entries)) => firsts(entry_ids(entries)),
        _ => Seq::empty(),
    }
}

/// The model ids that a document lists.
pub fn listed_ids(document: &Json) -> (r: Vec<String>)
    ensures
        text::views(r@) == model_ids(document@),
{
    let mut out: Vec<String> = Vec::new();
    assert(text::views(out@) =~= Seq::empty());
    let data = match document.get("data") {
        Some(data) => data,
        None => {
            return out;
        },
    };
    let entries = match data.as_array() {
        Some(entries) => entries,
        None => {
            return out;
        },
    };
    let ghost shown = entries@.map_values(|j: Json| j@);
    let mut i: usize = 0;
    while i < entries.len()
        invariant
            i <= entries@.len(),
            shown == entries@.map_values(|j: Json| j@),
            text::views(out@) == firsts(entry_ids(shown.take(i as int))),
        decreases entries@.len() - i,
    {
        proof {
            assert(shown.take(i + 1).drop_last() =~= shown.take(i as int));
            assert(shown.take(i + 1).last() == entries@[i as int]@);
        }
        let ghost before = entry_ids(shown.take(i as int));
        if let Some(id) = entries[i].text_at("id") {
            if !id.as_str().is_empty() {
                assert(before.push(id@).drop_last() =~= before);
                if !has_text(&out, id.as_str()) {
                    let ghost kept = out@;
                    out.push(id.clone());
                    assert(text::views(out@) =~= text::views(kept).push(id@));
                }
            }
        }
        i += 1;
    }
    assert(shown.take(entries@.len() as int) =~= shown);
    out
}

/// The model ids in a response body. A body that is not JSON, or not of the
/// expected shape, lists none.
pub open spec fn ids_in(body: Seq<char>) -> Seq<Seq<char>> {
    match json::json_of_text(body) {
        Ok(document) => model_ids(document),
        Err(_) => Seq::empty(),
    }
}

/// The model ids in a response body.
pub fn parse_model_ids(body: &str) -> (r: Vec<String>)
    ensures
        text::views(r@) == ids_in(body@),
{
    match parse_text(body) {
        Ok(document) => listed_ids(&document),
        Err(_) => {
            let out: Vec<String> = Vec::new();
            assert(text::views(out@) =~= Seq::empty());
            out
        },
    }
}

/// A model that the gateway offers, and the backend that it is listed under.
pub struct ModelEntry {
    pub id: String,
    pub owned_by: String,
}

/// What a [`ModelEntry`] holds.
#[verifier::ext_equal]
pub struct EntryView {
    pub id: Seq<char>,
    pub owned_by: Seq<char>,
}

impl View for ModelEntry {
    type V = EntryView;

    open spec fn view(&self) -> EntryView {
        EntryView { id: self.id@, owned_by: self.owned_by@ }
    }
}

/// The models of one backend, each under its name.
pub open spec fn entries_of(b: BackendView) -> Seq<EntryView> {
    b.models.map_values(|m: Seq<char>| EntryView { id: m, owned_by: b.name })
}

/// The models of all backends, in the order of the configuration.
pub open spec fn all_entries(config: Seq<BackendView>) -> Seq<EntryView>
    decreases config.len(),
{
    if config.len() == 0 {
        Seq::empty()
    } else {
        all_entries(config.drop_last()) + entries_of(config.last())
    }
}

/// Whether one of the entries has the id `id`.
pub open spec fn lists(entries: Seq<EntryView>, id: Seq<char>) -> bool {
    exists|i: int| 0 <= i < entries.len() && (#[trigger] entries[i]).id == id
}

/// The entries with distinct ids, each at the first occurrence of its id.
pub open spec fn first_entries(entries: Seq<EntryView>) -> Seq<EntryView>
    decreases entries.len(),
{
    if entries.len() == 0 {
        Seq::empty()
    } else {
        let before = first_entries(entries.drop_last());
        if lists(before, entries.last().id) {
            before
        } else {
            before.push(entries.last())
        }
    }
}

/// The models that a configuration offers: each one once, under the first
/// backend that serves it.
pub open spec fn offered_models(config: Seq<BackendView>) -> Seq<EntryView> {
    first_entries(all_entries(config))
}

/// Whether one of the entries has the id `id`.
fn has_entry(entries: &Vec<ModelEntry>, id: &String) -> (r: bool)
    ensures
        r == lists(entries@.map_values(|e: ModelEntry| e@), id@),
{
    let ghost shown = entries@.map_values(|e: ModelEntry| e@);
    let mut i: usize = 0;
    while i < entries.len()
        invariant
            i <= entries@.len(),
            shown == entries@.map_values(|e: ModelEntry| e@),
            forall|j: int| 0 <= j < i ==> (#[trigger] shown[j]).id != id@,
        decreases entries@.len() - i,
    {
        assert(shown[i as int] == entries@[i as int]@);
        if entries[i].id == *id {
            return true;
        }
        i += 1;
    }
    false
}

/// The models that a configuration offers.
pub fn offered(config: &Config) -> (r: Vec<ModelEntry>)
    ensures
        r@.map_values(|e: ModelEntry| e@) == offered_models(config@),
{
    let mut out: Vec<ModelEntry> = Vec::new();
    let mut i: usize = 0;
    assert(config@.take(0) =~= Seq::empty());
    assert(out@.map_values(|e: ModelEntry| e@) =~= first_entries(all_entries(config@.take(0))));
    while i < config.backends.len()
        invariant
            i <= config.backends@.len(),
            out@.map_values(|e: ModelEntry| e@) == first_entries(
                all_entries(config@.take(i as int)),
            ),
        decreases config.backends@.len() - i,
    {
        let b = &config.backends[i];
        let ghost before = all_entries(config@.take(i as int));
        let ghost own = entries_of(b@);
        let mut j: usize = 0;
        assert(before + own.take(0) =~= before);
        while j < b.models.len()
            invariant
                j <= b.models@.len() == own.len(),
                own == entries_of(b@),
                out@.map_values(|e: ModelEntry| e@) == first_entries(before + own.take(j as int)),
            decreases b.models@.len() - j,
        {
            let ghost next = EntryView { id: b.models@[j as int]@, owned_by: b.name@ };
            proof {
                assert(own[j as int] == next);
                assert((before + own.take(j + 1)).drop_last() =~= before + own.take(j as int));
                assert((before + own.take(j + 1)).last() == next);
            }
            if !has_entry(&out, &b.models[j]) {
                let ghost kept = out@;
                out.push(ModelEntry { id: b.models[j].clone(), owned_by: b.name.clone() });
                assert(out@.map_values(|e: ModelEntry| e@) =~= kept.map_values(
                    |e: ModelEntry| e@,
                ).push(next));
            }
            j += 1;
        }
        proof {
            assert(own.take(b.models@.len() as int) =~= own);
            assert(config@.take(i + 1).drop_last() =~= config@.take(i as int));
            assert(config@.take(i + 1).last() == b@);
        }
        i += 1;
    }
    assert(config@.take(config.backends@.len() as int) =~= config@);
    out
}

} // verus!
