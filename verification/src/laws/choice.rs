//! What the choice of backends and keys comes to, told on the configuration and
//! on the recorded times alone.

use crate::config::BackendView;
use crate::laws::routing;
use crate::resolver;
use crate::resolver::{KeyHealth, ResolverView};
use crate::seqs;
use crate::text;
use vstd::prelude::*;

verus! {

/// Whether the time `until` is still to come at the time `now`.
pub open spec fn ahead(until: Option<u128>, now: u128) -> bool {
    until is Some && until->0 > now
}

/// Whether every backend whose models hold `model` is set aside at `now`.
pub open spec fn none_left(v: ResolverView, model: Seq<char>, now: u128) -> bool {
    forall|i: int|
        0 <= i < v.config.len() && (#[trigger] v.config[i]).models.contains(model) ==> ahead(
            v.health[i].unreachable_until,
            now,
        )
}

/// Whether `t` is `s` without the slashes at its end.
pub open spec fn stripped(s: Seq<char>, t: Seq<char>) -> bool {
    &&& t.len() <= s.len()
    &&& t == s.take(t.len() as int)
    &&& forall|i: int| t.len() <= i < s.len() ==> #[trigger] s[i] == '/'
    &&& t.len() > 0 ==> t[t.len() - 1] != '/'
}

/// How many steps lead from the key `from` to the key `to`, forward and around
/// the end of a list of `n` keys.
pub open spec fn steps(from: int, to: int, n: int) -> int {
    if to >= from {
        to - from
    } else {
        to - from + n
    }
}

/// Only the slashes at the end are taken off an address.
pub proof fn addresses_lose_their_slashes(s: Seq<char>)
    ensures
        stripped(s, text::without_slashes(s)),
    decreases s.len(),
{
    let t = text::without_slashes(s);
    if s.len() > 0 && s.last() == '/' {
        addresses_lose_their_slashes(s.drop_last());
        assert(t =~= s.take(t.len() as int));
        assert forall|i: int| t.len() <= i < s.len() implies #[trigger] s[i] == '/' by {
            if i < s.len() - 1 {
                assert(s.drop_last()[i] == s[i]);
            }
        }
    } else {
        assert(s =~= s.take(s.len() as int));
    }
}

/// The last resort is called for exactly when every backend for the model is set
/// aside; backends for other models have no say.
proof fn last_resort_is_decided_by_the_model(v: ResolverView, model: Seq<char>, now: u128)
    requires
        v.wf(),
    ensures
        v.all_parked(model, now) <==> none_left(v, model, now),
{
    if v.all_parked(model, now) {
        assert forall|i: int|
            0 <= i < v.config.len() && (#[trigger] v.config[i]).models.contains(
                model,
            ) implies ahead(v.health[i].unreachable_until, now) by {
            assert(v.serves(i, model));
        }
    }
}

/// The keys that are picked, in what order, told by how far each is from the
/// preferred one.
proof fn picked_keys_are_in_order(h: resolver::BackendHealth, every: bool, now: u128)
    requires
        routing::sound(h),
    ensures
        ({
            let p = h.picked(every, now);
            &&& forall|k: int| #[trigger]
                p.contains(k) <==> 0 <= k < h.keys.len() && (every || !ahead(
                    h.keys[k].exhausted_until,
                    now,
                ))
            &&& forall|i: int, j: int|
                0 <= i < j < p.len() ==> steps(h.sticky, #[trigger] p[i], h.keys.len() as int)
                    < steps(h.sticky, #[trigger] p[j], h.keys.len() as int)
        }),
{
    routing::picked_keys_are_the_usable_ones(h, every, now);
    let n = h.keys.len() as int;
    let r = h.rotation();
    assert forall|j: int| 0 <= j < n implies steps(h.sticky, #[trigger] r[j], n) == j by {
        if h.sticky + j < n {
            vstd::arithmetic::div_mod::lemma_small_mod((h.sticky + j) as nat, n as nat);
        } else {
            vstd::arithmetic::div_mod::lemma_mod_sub_multiples_vanish(h.sticky + j, n);
            vstd::arithmetic::div_mod::lemma_small_mod((h.sticky + j - n) as nat, n as nat);
        }
    }
    let ok = |k: int| every || h.healthy(k, now);
    kept_in_order(r, ok, h.sticky, n);
}

/// A filter keeps the order of the distances.
proof fn kept_in_order(s: Seq<int>, ok: spec_fn(int) -> bool, from: int, n: int)
    requires
        forall|j: int| 0 <= j < s.len() ==> steps(from, #[trigger] s[j], n) == j,
    ensures
        forall|i: int, j: int|
            0 <= i < j < s.filter(ok).len() ==> steps(from, #[trigger] s.filter(ok)[i], n) < steps(
                from,
                #[trigger] s.filter(ok)[j],
                n,
            ),
    decreases s.len(),
{
    reveal(Seq::filter);
    if s.len() > 0 {
        let rest = s.drop_last();
        assert forall|j: int| 0 <= j < rest.len() implies steps(from, #[trigger] rest[j], n)
            == j by {
            assert(rest[j] == s[j]);
        }
        kept_in_order(rest, ok, from, n);
        seqs::filter_members(rest, ok);
        let kept = rest.filter(ok);
        assert forall|i: int| 0 <= i < kept.len() implies steps(from, #[trigger] kept[i], n)
            < s.len() - 1 by {
            assert(kept.contains(kept[i]));
            let j = choose|j: int| 0 <= j < rest.len() && rest[j] == kept[i];
            assert(steps(from, rest[j], n) == j);
        }
        assert(steps(from, s[s.len() - 1], n) == s.len() - 1);
    }
}

/// A backend is tried for a model exactly when the configuration lists the model
/// for it, it is not set aside or all backends for the model are, and it has a
/// key that is not set aside or may be tried as a last resort.
pub proof fn backends_for_a_model_are_tried(
    v: ResolverView,
    model: Seq<char>,
    now: u128,
    b: int,
)
    requires
        v.wf(),
        0 <= b < v.config.len(),
    ensures
        routing::tries(v.resolved(model, now), b) <==> {
            &&& v.config[b].models.contains(model)
            &&& !ahead(v.health[b].unreachable_until, now) || none_left(v, model, now)
            &&& exists|k: int|
                0 <= k < v.health[b].keys.len() && (!ahead(
                    (#[trigger] v.health[b].keys[k]).exhausted_until,
                    now,
                ) || none_left(v, model, now))
        },
{
    routing::resolved_is_what_is_offered(v, model, now);
    last_resort_is_decided_by_the_model(v, model, now);
    let h = v.health[b];
    assert(routing::sound(h));
    let every = v.all_parked(model, now);
    picked_keys_are_in_order(h, every, now);
    let p = h.picked(every, now);
    if p.len() > 0 {
        assert(p.contains(p[0]));
        assert(0 <= p[0] < h.keys.len());
        assert(h.keys[p[0]] == v.health[b].keys[p[0]]);
    }
    if exists|k: int|
        0 <= k < v.health[b].keys.len() && (!ahead(
            (#[trigger] v.health[b].keys[k]).exhausted_until,
            now,
        ) || none_left(v, model, now)) {
        let k = choose|k: int|
            0 <= k < v.health[b].keys.len() && (!ahead(
                (#[trigger] v.health[b].keys[k]).exhausted_until,
                now,
            ) || none_left(v, model, now));
        assert(p.contains(k));
    }
    assert(v.serves(b, model) == v.config[b].models.contains(model));
}

/// When every backend for a model is set aside, each of them that has a key is
/// tried after all, with all of its keys.
pub proof fn set_aside_backends_are_the_last_resort(
    v: ResolverView,
    model: Seq<char>,
    now: u128,
    b: int,
)
    requires
        v.wf(),
        0 <= b < v.config.len(),
        v.config[b].models.contains(model),
        v.health[b].keys.len() > 0,
        forall|i: int|
            0 <= i < v.config.len() && (#[trigger] v.config[i]).models.contains(model) ==> {
                &&& v.health[i].unreachable_until is Some
                &&& v.health[i].unreachable_until->0 > now
            },
    ensures
        exists|i: int|
            {
                &&& 0 <= i < v.resolved(model, now).len()
                &&& (#[trigger] v.resolved(model, now)[i]).backend_index == b
                &&& v.resolved(model, now)[i].keys.len() == v.health[b].keys.len()
            },
{
    assert(none_left(v, model, now));
    assert(v.health[b].keys[0] == v.health[b].keys[0]);
    backends_for_a_model_are_tried(v, model, now, b);
    let r = v.resolved(model, now);
    assert(routing::tries(r, b));
    let i = choose|i: int| 0 <= i < r.len() && (#[trigger] r[i]).backend_index == b;
    routing::resolved_is_what_is_offered(v, model, now);
    last_resort_is_decided_by_the_model(v, model, now);
    assert(r[i] == v.group(b, model, now));
    let h = v.health[b];
    seqs::filter_all(h.rotation(), |k: int| v.all_parked(model, now) || h.healthy(k, now));
    assert(r[i].keys.len() == h.keys.len());
}

/// The backends to try come in the order of the configuration. Each has the name
/// from the configuration, its address without the slashes at the end, and
/// exactly those of its keys that are not set aside (all of them as a last
/// resort), beginning with the preferred one and on around the end of the list.
pub proof fn backends_are_handed_out_in_order(
    v: ResolverView,
    model: Seq<char>,
    now: u128,
    i: int,
)
    requires
        v.wf(),
        0 <= i < v.resolved(model, now).len(),
    ensures
        ({
            let g = v.resolved(model, now)[i];
            let b = g.backend_index;
            let h = v.health[b];
            let n = h.keys.len() as int;
            &&& 0 <= b < v.config.len()
            &&& forall|j: int|
                0 <= j < i ==> (#[trigger] v.resolved(model, now)[j]).backend_index < b
            &&& g.backend_name == v.config[b].name
            &&& stripped(v.config[b].base_url, g.base_url)
            &&& forall|j: int|
                0 <= j < g.keys.len() ==> {
                    &&& 0 <= (#[trigger] g.keys[j]).key_index < n
                    &&& g.keys[j].key == h.keys[g.keys[j].key_index].key
                    &&& !ahead(h.keys[g.keys[j].key_index].exhausted_until, now) || none_left(
                        v,
                        model,
                        now,
                    )
                }
            &&& forall|k: int|
                0 <= k < n && (!ahead((#[trigger] h.keys[k]).exhausted_until, now) || none_left(
                    v,
                    model,
                    now,
                )) ==> exists|j: int| 0 <= j < g.keys.len() && (#[trigger] g.keys[j]).key_index == k
            &&& forall|j: int, l: int|
                0 <= j < l < g.keys.len() ==> steps(h.sticky, (#[trigger] g.keys[j]).key_index, n)
                    < steps(h.sticky, (#[trigger] g.keys[l]).key_index, n)
        }),
{
    routing::resolved_is_what_is_offered(v, model, now);
    last_resort_is_decided_by_the_model(v, model, now);
    let g = v.resolved(model, now)[i];
    let b = g.backend_index;
    let h = v.health[b];
    let every = v.all_parked(model, now);
    assert(routing::sound(h));
    picked_keys_are_in_order(h, every, now);
    addresses_lose_their_slashes(v.config[b].base_url);
    let p = h.picked(every, now);
    assert forall|j: int| 0 <= j < g.keys.len() implies {
        &&& (#[trigger] g.keys[j]).key_index == p[j]
        &&& 0 <= g.keys[j].key_index < h.keys.len()
        &&& g.keys[j].key == h.keys[g.keys[j].key_index].key
        &&& !ahead(h.keys[g.keys[j].key_index].exhausted_until, now) || none_left(v, model, now)
    } by {
        assert(p.contains(p[j]));
    }
    assert forall|k: int|
        0 <= k < h.keys.len() && (!ahead((#[trigger] h.keys[k]).exhausted_until, now)
            || none_left(v, model, now)) implies exists|j: int|
        0 <= j < g.keys.len() && (#[trigger] g.keys[j]).key_index == k by {
        assert(p.contains(k));
        let j = choose|j: int| 0 <= j < p.len() && p[j] == k;
        assert(g.keys[j].key_index == k);
    }
}

/// The keys of a new resolver, backend by backend: the keys of the configuration
/// that are not white space throughout, in order. Nothing is set aside, and the
/// first key is preferred.
pub proof fn new_resolver_takes_the_keys_of_the_configuration(
    config: Seq<BackendView>,
    key_cooldown: u128,
    backend_cooldown: u128,
    b: int,
    before: Seq<Seq<char>>,
    key: Seq<char>,
)
    requires
        0 <= b < config.len(),
        config[b].keys == before.push(key),
    ensures
        ({
            let v = resolver::fresh_resolver(config, key_cooldown, backend_cooldown);
            let shorter = config.update(b, BackendView { keys: before, ..config[b] });
            let w = resolver::fresh_resolver(shorter, key_cooldown, backend_cooldown);
            let inked = exists|i: int| 0 <= i < key.len() && !text::white(#[trigger] key[i]);
            &&& v.config == config
            &&& v.health.len() == config.len()
            &&& v.key_cooldown == key_cooldown
            &&& v.backend_cooldown == backend_cooldown
            &&& v.health[b].sticky == 0
            &&& v.health[b].unreachable_until is None
            &&& inked ==> v.health[b].keys == w.health[b].keys.push(
                KeyHealth { key, exhausted_until: None },
            )
            &&& !inked ==> v.health[b].keys == w.health[b].keys
        }),
{
    reveal(Seq::filter);
    blank_texts_are_white(key);
    let v = resolver::fresh_resolver(config, key_cooldown, backend_cooldown);
    let shorter = config.update(b, BackendView { keys: before, ..config[b] });
    let w = resolver::fresh_resolver(shorter, key_cooldown, backend_cooldown);
    assert(before.push(key).drop_last() =~= before);
    if text::blank(key) {
        assert(v.health[b].keys =~= w.health[b].keys);
    } else {
        assert(v.health[b].keys =~= w.health[b].keys.push(
            KeyHealth { key, exhausted_until: None },
        ));
    }
}

/// A new resolver has no keys for a backend without keys.
pub proof fn new_resolver_makes_up_no_keys(
    config: Seq<BackendView>,
    key_cooldown: u128,
    backend_cooldown: u128,
    b: int,
)
    requires
        0 <= b < config.len(),
        config[b].keys.len() == 0,
    ensures
        ({
            let v = resolver::fresh_resolver(config, key_cooldown, backend_cooldown);
            &&& v.health[b].keys.len() == 0
            &&& v.health[b].sticky == 0
            &&& v.health[b].unreachable_until is None
        }),
{
    reveal(Seq::filter);
}

/// A text counts as blank exactly when each of its characters is white space.
pub proof fn blank_texts_are_white(s: Seq<char>)
    ensures
        text::blank(s) <==> forall|i: int| 0 <= i < s.len() ==> text::white(#[trigger] s[i]),
{
    white_start_is_cut(s);
    let t = text::trim_start(s);
    white_end_is_cut(t);
    if forall|i: int| 0 <= i < s.len() ==> text::white(#[trigger] s[i]) {
        if t.len() > 0 {
            assert(t[0] == s[s.len() - t.len()]);
        }
    }
    if text::blank(s) {
        if t.len() > 0 {
            assert(text::white(t[0]));
        }
    }
}

/// What is cut off the start is white space, and what is left starts otherwise.
pub proof fn white_start_is_cut(s: Seq<char>)
    ensures
        ({
            let t = text::trim_start(s);
            let n = s.len() - t.len();
            &&& 0 <= n
            &&& t == s.skip(n)
            &&& forall|i: int| 0 <= i < n ==> text::white(#[trigger] s[i])
            &&& t.len() > 0 ==> !text::white(t[0])
        }),
    decreases s.len(),
{
    if s.len() > 0 && text::white(s[0]) {
        let rest = s.subrange(1, s.len() as int);
        white_start_is_cut(rest);
        let t = text::trim_start(s);
        let n = s.len() - t.len();
        assert(t =~= s.skip(n));
        assert forall|i: int| 0 <= i < n implies text::white(#[trigger] s[i]) by {
            if i > 0 {
                assert(rest[i - 1] == s[i]);
            }
        }
    } else {
        assert(s =~= s.skip(0));
    }
}

/// What is cut off the end is white space, and what is left ends otherwise.
pub proof fn white_end_is_cut(s: Seq<char>)
    ensures
        ({
            let t = text::trim_end(s);
            &&& t.len() <= s.len()
            &&& t == s.take(t.len() as int)
            &&& forall|i: int| t.len() <= i < s.len() ==> text::white(#[trigger] s[i])
            &&& t.len() > 0 ==> !text::white(t[t.len() - 1])
        }),
    decreases s.len(),
{
    if s.len() > 0 && text::white(s.last()) {
        let rest = s.drop_last();
        white_end_is_cut(rest);
        let t = text::trim_end(s);
        assert(t =~= s.take(t.len() as int));
        assert forall|i: int| t.len() <= i < s.len() implies text::white(#[trigger] s[i]) by {
            if i < rest.len() {
                assert(rest[i] == s[i]);
            }
        }
    } else {
        assert(s =~= s.take(s.len() as int));
    }
}

/// A key that signals exhaustion is set aside for the key cooldown, and the key
/// after it, around the end of the list, is preferred. Nothing else changes.
pub proof fn exhaustion_is_recorded(v: ResolverView, b: int, k: int, now: u128)
    requires
        v.wf(),
        0 <= b < v.config.len(),
        0 <= k < v.health[b].keys.len(),
        now + v.key_cooldown <= u128::MAX,
    ensures
        ({
            let w = v.key_exhausted(b, k, now);
            let n = v.health[b].keys.len() as int;
            &&& w.config == v.config
            &&& w.key_cooldown == v.key_cooldown
            &&& w.backend_cooldown == v.backend_cooldown
            &&& w.health.len() == v.health.len()
            &&& forall|i: int|
                0 <= i < v.health.len() && i != b ==> #[trigger] w.health[i] == v.health[i]
            &&& w.health[b].keys.len() == n
            &&& w.health[b].keys[k].key == v.health[b].keys[k].key
            &&& w.health[b].keys[k].exhausted_until is Some
            &&& w.health[b].keys[k].exhausted_until->0 == now + v.key_cooldown
            &&& forall|j: int|
                0 <= j < n && j != k ==> #[trigger] w.health[b].keys[j] == v.health[b].keys[j]
            &&& w.health[b].sticky == if k + 1 < n {
                k + 1
            } else {
                0
            }
            &&& w.health[b].unreachable_until == v.health[b].unreachable_until
        }),
{
    let n = v.health[b].keys.len() as int;
    if k + 1 < n {
        vstd::arithmetic::div_mod::lemma_small_mod((k + 1) as nat, n as nat);
    } else {
        vstd::arithmetic::div_mod::lemma_mod_self_0(n);
    }
}

/// A backend that could not be reached is set aside for the backend cooldown.
/// Nothing else changes.
pub proof fn unreachability_is_recorded(v: ResolverView, b: int, now: u128)
    requires
        v.wf(),
        0 <= b < v.config.len(),
        now + v.backend_cooldown <= u128::MAX,
    ensures
        ({
            let w = v.backend_unreachable(b, now);
            &&& w.config == v.config
            &&& w.key_cooldown == v.key_cooldown
            &&& w.backend_cooldown == v.backend_cooldown
            &&& w.health.len() == v.health.len()
            &&& forall|i: int|
                0 <= i < v.health.len() && i != b ==> #[trigger] w.health[i] == v.health[i]
            &&& w.health[b].keys == v.health[b].keys
            &&& w.health[b].sticky == v.health[b].sticky
            &&& w.health[b].unreachable_until is Some
            &&& w.health[b].unreachable_until->0 == now + v.backend_cooldown
        }),
{
}

/// A success brings its key and its backend back. Nothing else changes; in
/// particular the preference stays.
pub proof fn success_is_recorded(v: ResolverView, b: int, k: int)
    requires
        v.wf(),
        0 <= b < v.config.len(),
        0 <= k < v.health[b].keys.len(),
    ensures
        ({
            let w = v.key_ok(b, k);
            let n = v.health[b].keys.len() as int;
            &&& w.config == v.config
            &&& w.key_cooldown == v.key_cooldown
            &&& w.backend_cooldown == v.backend_cooldown
            &&& w.health.len() == v.health.len()
            &&& forall|i: int|
                0 <= i < v.health.len() && i != b ==> #[trigger] w.health[i] == v.health[i]
            &&& w.health[b].keys.len() == n
            &&& w.health[b].keys[k].key == v.health[b].keys[k].key
            &&& w.health[b].keys[k].exhausted_until is None
            &&& forall|j: int|
                0 <= j < n && j != k ==> #[trigger] w.health[b].keys[j] == v.health[b].keys[j]
            &&& w.health[b].sticky == v.health[b].sticky
            &&& w.health[b].unreachable_until is None
        }),
{
}

/// A new preference changes the preferred key of its backend and nothing else.
pub proof fn preference_is_recorded(v: ResolverView, b: int, k: int)
    requires
        v.wf(),
        0 <= b < v.config.len(),
        0 <= k < v.health[b].keys.len(),
    ensures
        ({
            let w = v.preferred(b, k);
            &&& w.config == v.config
            &&& w.key_cooldown == v.key_cooldown
            &&& w.backend_cooldown == v.backend_cooldown
            &&& w.health.len() == v.health.len()
            &&& forall|i: int|
                0 <= i < v.health.len() && i != b ==> #[trigger] w.health[i] == v.health[i]
            &&& w.health[b].keys == v.health[b].keys
            &&& w.health[b].sticky == k
            &&& w.health[b].unreachable_until == v.health[b].unreachable_until
        }),
{
}

/// Records about a key that its backend does not have: a success still brings
/// the backend back, exhaustion only moves the preference on, and a preference
/// changes nothing.
pub proof fn unknown_keys_are_not_recorded(v: ResolverView, b: int, k: int, now: u128)
    requires
        v.wf(),
        0 <= b < v.config.len(),
        v.health[b].keys.len() <= k,
    ensures
        ({
            let n = v.health[b].keys.len() as int;
            let ok = v.key_ok(b, k);
            let spent = v.key_exhausted(b, k, now);
            &&& ok.health[b].keys == v.health[b].keys
            &&& ok.health[b].sticky == v.health[b].sticky
            &&& ok.health[b].unreachable_until is None
            &&& spent.health[b].keys == v.health[b].keys
            &&& spent.health[b].unreachable_until == v.health[b].unreachable_until
            &&& n == 0 ==> spent.health[b].sticky == v.health[b].sticky
            &&& n > 0 ==> spent.health[b].sticky == (k + 1) % n
            &&& v.preferred(b, k) == v
            &&& forall|i: int|
                0 <= i < v.health.len() && i != b ==> {
                    &&& #[trigger] ok.health[i] == v.health[i]
                    &&& spent.health[i] == v.health[i]
                }
        }),
{
}

} // verus!
