//! Laws of the choice of backends and keys.

use crate::config::BackendView;
use crate::proxy;
use crate::proxy::{ActionView, Mark};
use crate::resolver;
use crate::resolver::{BackendHealth, ResolvedBackendView, ResolverView};
use crate::seqs;
use crate::text;
use crate::worker::ProxyJobView;
use vstd::prelude::*;

verus! {

/// A usable position among the keys of `h`.
pub open spec fn sound(h: BackendHealth) -> bool {
    &&& 0 <= h.sticky
    &&& h.sticky < h.keys.len() || h.sticky == 0
}

/// A remainder may be taken before an addition.
proof fn mod_absorbs(a: int, b: int, n: int)
    requires
        n > 0,
    ensures
        (a % n + b) % n == (a + b) % n,
{
    vstd::arithmetic::div_mod::lemma_add_mod_noop(a, b, n);
    vstd::arithmetic::div_mod::lemma_add_mod_noop(a % n, b, n);
    vstd::arithmetic::div_mod::lemma_mod_twice(a, n);
}

/// The rotation visits every key exactly once.
proof fn rotation_visits_each(h: BackendHealth)
    requires
        sound(h),
    ensures
        h.rotation().no_duplicates(),
        forall|k: int| #[trigger] h.rotation().contains(k) <==> 0 <= k < h.keys.len(),
        h.keys.len() > 0 ==> h.rotation()[0] == h.sticky,
{
    let n = h.keys.len() as int;
    let r = h.rotation();
    assert forall|j: int| 0 <= j < n implies #[trigger] r[j] == (if h.sticky + j < n {
        h.sticky + j
    } else {
        h.sticky + j - n
    }) by {
        if h.sticky + j < n {
            vstd::arithmetic::div_mod::lemma_small_mod((h.sticky + j) as nat, n as nat);
        } else {
            vstd::arithmetic::div_mod::lemma_mod_sub_multiples_vanish(h.sticky + j, n);
            vstd::arithmetic::div_mod::lemma_small_mod((h.sticky + j - n) as nat, n as nat);
        }
    }
    assert forall|k: int| #[trigger] r.contains(k) <==> 0 <= k < n by {
        if 0 <= k < n {
            let j = if k >= h.sticky {
                k - h.sticky
            } else {
                k - h.sticky + n
            };
            assert(r[j] == k);
        }
    }
}

/// The keys to try are distinct, exist, and are exactly those that may be used.
pub proof fn picked_keys_are_the_usable_ones(h: BackendHealth, every: bool, now: u128)
    requires
        sound(h),
    ensures
        h.picked(every, now).no_duplicates(),
        forall|k: int| #[trigger]
            h.picked(every, now).contains(k) <==> 0 <= k < h.keys.len() && (every || h.healthy(
                k,
                now,
            )),
{
    rotation_visits_each(h);
    let p = |k: int| every || h.healthy(k, now);
    seqs::filter_members(h.rotation(), p);
    seqs::filter_no_duplicates(h.rotation(), p);
}

/// While the preferred key may be used, it is the first to be tried.
pub proof fn preferred_key_comes_first(h: BackendHealth, every: bool, now: u128)
    requires
        sound(h),
        h.keys.len() > 0,
        every || h.healthy(h.sticky, now),
    ensures
        h.picked(every, now).len() > 0,
        h.picked(every, now)[0] == h.sticky,
{
    rotation_visits_each(h);
    seqs::filter_first(h.rotation(), |k: int| every || h.healthy(k, now), 0);
}

/// The keys of a backend of which nothing bad is known are tried in the order
/// of the configuration.
pub proof fn fresh_keys_are_tried_in_order(b: BackendView, every: bool, now: u128)
    ensures
        resolver::fresh(b).picked(every, now) == Seq::new(resolver::usable_keys(b.keys).len(), |j: int| j),
{
    let h = resolver::fresh(b);
    let n = h.keys.len();
    assert(h.rotation() =~= Seq::new(n, |j: int| j)) by {
        assert forall|j: int| 0 <= j < n implies #[trigger] h.rotation()[j] == j by {
            vstd::arithmetic::div_mod::lemma_small_mod(j as nat, n);
        }
    }
    rotation_visits_each(h);
    assert forall|i: int| 0 <= i < h.rotation().len() implies h.healthy(
        #[trigger] h.rotation()[i],
        now,
    ) by {
        assert(h.rotation().contains(h.rotation()[i]));
    }
    seqs::filter_all(h.rotation(), |k: int| every || h.healthy(k, now));
}

/// A key that signals exhaustion is not tried again before its cooldown is
/// over, and may be tried again from then on without any further event. The key
/// after it becomes the preferred one.
pub proof fn exhausted_key_rests_for_its_cooldown(
    v: ResolverView,
    b: int,
    k: int,
    t: u128,
    now: u128,
)
    requires
        v.wf(),
        0 <= b < v.health.len(),
        0 <= k < v.health[b].keys.len(),
        t + v.key_cooldown <= u128::MAX,
    ensures
        ({
            let h = v.key_exhausted(b, k, t).health[b];
            &&& h.picked(false, now).contains(k) <==> t + v.key_cooldown <= now
            &&& h.sticky == (k + 1) % v.health[b].keys.len() as int
        }),
{
    resolver::marks_keep_wf(v, b, k, t);
    let w = v.key_exhausted(b, k, t);
    assert(w.health[b].keys.len() == v.health[b].keys.len());
    assert(sound(w.health[b]));
    picked_keys_are_the_usable_ones(w.health[b], false, now);
}

/// When the first key to try signals exhaustion, the other keys are tried from
/// then on, in the order in which they would have followed it.
pub proof fn exhausting_the_first_key_leaves_the_rest(v: ResolverView, b: int, t: u128, now: u128)
    requires
        v.wf(),
        0 <= b < v.health.len(),
        v.health[b].picked(false, now).len() > 0,
        now < t + v.key_cooldown <= u128::MAX,
    ensures
        ({
            let first = v.health[b].picked(false, now)[0];
            v.key_exhausted(b, first, t).health[b].picked(false, now) == v.health[b].picked(
                false,
                now,
            ).skip(1)
        }),
{
    let h = v.health[b];
    assert(sound(h));
    let n = h.keys.len() as int;
    let r = h.rotation();
    let every = false;
    let ok = |k: int| every || h.healthy(k, now);
    rotation_visits_each(h);
    let p = seqs::first_passing(r, ok);
    seqs::filter_first(r, ok, p);
    let first = h.picked(false, now)[0];
    assert(first == r[p]);
    assert(r.contains(first));
    let w = v.key_exhausted(b, first, t).health[b];
    let r2 = w.rotation();
    let tail = r.skip(p + 1);
    let head = r.take(p + 1);
    assert(r2 =~= tail + head) by {
        assert forall|j: int| 0 <= j < n implies #[trigger] r2[j] == (tail + head)[j] by {
            mod_absorbs(first + 1, j, n);
            mod_absorbs(h.sticky + p, j + 1, n);
            assert(r2[j] == ((first + 1) % n + j) % n);
            assert(first + 1 + j == (h.sticky + p) % n + (j + 1));
            assert(r2[j] == (h.sticky + p + j + 1) % n);
            if j >= n - p - 1 {
                vstd::arithmetic::div_mod::lemma_mod_sub_multiples_vanish(
                    h.sticky + p + j + 1,
                    n,
                );
            }
        }
    }
    let ok2 = |k: int| every || w.healthy(k, now);
    Seq::filter_distributes_over_add(tail, head, ok2);
    assert forall|i: int| 0 <= i < head.len() implies !ok2(#[trigger] head[i]) by {
        assert(head[i] == r[i]);
        assert(r.contains(r[i]));
        if i != p {
            assert(!ok(r[i]));
        }
    }
    seqs::filter_none(head, ok2);
    assert forall|i: int| 0 <= i < tail.len() implies ok(#[trigger] tail[i]) == ok2(tail[i]) by {
        assert(tail[i] == r[p + 1 + i]);
        assert(r.contains(r[p + 1 + i]));
        assert(r[p + 1 + i] != r[p]);
    }
    seqs::filter_agrees(tail, ok, ok2);
    assert(w.picked(false, now) =~= tail.filter(ok));
    assert(h.picked(false, now).skip(1) =~= tail.filter(ok));
}

/// The record of a success makes the key and its backend usable at once. By
/// itself it leaves the preference alone, and it leaves every other key alone.
pub proof fn success_clears_and_stays(v: ResolverView, b: int, k: int, now: u128)
    requires
        v.wf(),
        0 <= b < v.health.len(),
        0 <= k < v.health[b].keys.len(),
    ensures
        ({
            let h = v.key_ok(b, k).health[b];
            &&& h.healthy(k, now)
            &&& !h.parked(now)
            &&& h.sticky == v.health[b].sticky
            &&& h.picked(false, now).contains(k)
            &&& forall|j: int|
                0 <= j < h.keys.len() && j != k ==> #[trigger] h.keys[j] == v.health[b].keys[j]
        }),
{
    resolver::marks_keep_wf(v, b, k, now);
    let w = v.key_ok(b, k);
    assert(w.health[b].keys.len() == v.health[b].keys.len());
    assert(sound(w.health[b]));
    picked_keys_are_the_usable_ones(w.health[b], false, now);
}

/// After the record of a success of the preferred key it is the first to be
/// tried, at whatever time.
pub proof fn preferred_key_is_reused(v: ResolverView, b: int, every: bool, now: u128)
    requires
        v.wf(),
        0 <= b < v.health.len(),
        v.health[b].keys.len() > 0,
    ensures
        ({
            let sticky = v.health[b].sticky;
            let h = v.key_ok(b, sticky).health[b];
            &&& h.picked(every, now).len() > 0
            &&& h.picked(every, now)[0] == sticky
        }),
{
    let sticky = v.health[b].sticky;
    success_clears_and_stays(v, b, sticky, now);
    let h = v.key_ok(b, sticky).health[b];
    assert(h.keys.len() == v.health[b].keys.len());
    preferred_key_comes_first(h, every, now);
}

/// The resolver after a sequence of marks, each at its own time.
pub open spec fn after_marks(v: ResolverView, marks: Seq<Mark>, times: Seq<u128>) -> ResolverView
    decreases marks.len(),
{
    if marks.len() == 0 {
        v
    } else {
        proxy::marked(
            after_marks(v, marks.drop_last(), times.drop_last()),
            marks.last(),
            times.last(),
        )
    }
}

/// Whether a mark leaves the key `k` of the backend at `b` in use: it says of
/// that backend at most that it cannot be reached, or that `k` succeeded.
pub open spec fn keeps_in_use(mark: Mark, b: int, k: int) -> bool {
    match mark {
        Mark::Nothing => true,
        Mark::Healthy { backend, key } => backend != b || key == k,
        Mark::Exhausted { backend, .. } => backend != b,
        Mark::Unreachable { .. } => true,
    }
}

/// Such marks leave the preference and the keys of the backend alone, except
/// that a key may become usable earlier.
proof fn marks_keep_the_preference(v: ResolverView, b: int, marks: Seq<Mark>, times: Seq<u128>)
    requires
        0 <= b < v.health.len(),
        0 <= v.health[b].sticky,
        marks.len() == times.len(),
        forall|i: int|
            0 <= i < marks.len() ==> keeps_in_use(#[trigger] marks[i], b, v.health[b].sticky),
    ensures
        ({
            let w = after_marks(v, marks, times);
            &&& w.config == v.config
            &&& w.health.len() == v.health.len()
            &&& w.health[b].sticky == v.health[b].sticky
            &&& w.health[b].keys.len() == v.health[b].keys.len()
            &&& forall|k: int|
                0 <= k < v.health[b].keys.len() ==> {
                    &&& (#[trigger] w.health[b].keys[k]).key == v.health[b].keys[k].key
                    &&& w.health[b].keys[k] == v.health[b].keys[k]
                        || w.health[b].keys[k].exhausted_until is None
                }
        }),
    decreases marks.len(),
{
    if marks.len() > 0 {
        let rest = marks.drop_last();
        assert forall|i: int| 0 <= i < rest.len() implies keeps_in_use(
            #[trigger] rest[i],
            b,
            v.health[b].sticky,
        ) by {
            assert(rest[i] == marks[i]);
        }
        marks_keep_the_preference(v, b, rest, times.drop_last());
        assert(keeps_in_use(marks[marks.len() - 1], b, v.health[b].sticky));
    }
}

/// The preferred key is the first to be tried across any number of requests,
/// until some key of its backend signals exhaustion or another one succeeds.
pub proof fn preferred_key_is_kept_until_exhaustion(
    v: ResolverView,
    b: int,
    marks: Seq<Mark>,
    times: Seq<u128>,
    now: u128,
)
    requires
        v.wf(),
        0 <= b < v.health.len(),
        v.health[b].keys.len() > 0,
        v.health[b].healthy(v.health[b].sticky, now),
        marks.len() == times.len(),
        forall|i: int|
            0 <= i < marks.len() ==> keeps_in_use(#[trigger] marks[i], b, v.health[b].sticky),
    ensures
        ({
            let h = after_marks(v, marks, times).health[b];
            &&& h.picked(false, now).len() > 0
            &&& h.picked(false, now)[0] == v.health[b].sticky
            &&& h.picked(true, now).len() > 0
            &&& h.picked(true, now)[0] == v.health[b].sticky
        }),
{
    marks_keep_the_preference(v, b, marks, times);
    let h = after_marks(v, marks, times).health[b];
    let sticky = v.health[b].sticky;
    assert(h.keys[sticky] == v.health[b].keys[sticky] || h.keys[sticky].exhausted_until is None);
    preferred_key_comes_first(h, false, now);
    preferred_key_comes_first(h, true, now);
}

/// A success sticks to its key: whichever key was preferred before, the key that
/// succeeded is the first to be tried at every later time, across any number of
/// requests, until some key of its backend signals exhaustion or another one
/// succeeds.
pub proof fn success_sticks_to_its_key(
    v: ResolverView,
    b: int,
    k: int,
    t: u128,
    marks: Seq<Mark>,
    times: Seq<u128>,
    now: u128,
)
    requires
        v.wf(),
        0 <= b < v.health.len(),
        0 <= k < v.health[b].keys.len(),
        marks.len() == times.len(),
        forall|i: int| 0 <= i < marks.len() ==> keeps_in_use(#[trigger] marks[i], b, k),
    ensures
        ({
            let w = proxy::marked(v, Mark::Healthy { backend: b, key: k }, t);
            let h = after_marks(w, marks, times).health[b];
            &&& h.picked(false, now).len() > 0
            &&& h.picked(false, now)[0] == k
            &&& h.picked(true, now).len() > 0
            &&& h.picked(true, now)[0] == k
        }),
{
    resolver::marks_keep_wf(v, b, k, t);
    resolver::marks_keep_wf(v.key_ok(b, k), b, k, t);
    let w = proxy::marked(v, Mark::Healthy { backend: b, key: k }, t);
    assert(w.health[b].keys.len() == v.health[b].keys.len());
    preferred_key_is_kept_until_exhaustion(w, b, marks, times, now);
}

/// The next job for whose model the same backend comes first is forwarded with
/// the key that succeeded, at every later time and under the same conditions.
pub proof fn next_job_reuses_the_key(
    v: ResolverView,
    b: int,
    k: int,
    t: u128,
    marks: Seq<Mark>,
    times: Seq<u128>,
    job: ProxyJobView,
    now: u128,
)
    requires
        v.wf(),
        0 <= b < v.health.len(),
        0 <= k < v.health[b].keys.len(),
        marks.len() == times.len(),
        forall|i: int| 0 <= i < marks.len() ==> keeps_in_use(#[trigger] marks[i], b, k),
        ({
            let w = proxy::marked(v, Mark::Healthy { backend: b, key: k }, t);
            let r = after_marks(w, marks, times).resolved(job.model, now);
            r.len() > 0 && r[0].backend_index == b
        }),
    ensures
        ({
            let w = proxy::marked(v, Mark::Healthy { backend: b, key: k }, t);
            let r = after_marks(w, marks, times).resolved(job.model, now);
            proxy::started(job, r).1 == ActionView::Post(
                proxy::forwarded(
                    job,
                    text::without_slashes(v.config[b].base_url),
                    resolver::usable_keys(v.config[b].keys)[k],
                ),
            )
        }),
{
    success_sticks_to_its_key(v, b, k, t, marks, times, now);
    let w = proxy::marked(v, Mark::Healthy { backend: b, key: k }, t);
    marks_keep_the_preference(w, b, marks, times);
    let x = after_marks(w, marks, times);
    resolved_is_what_is_offered(x, job.model, now);
    let g = x.resolved(job.model, now)[0];
    assert(g == x.group(b, job.model, now));
    assert(x.keys_to_try(b, job.model, now)[0] == k);
    assert(g.keys[0].key == x.health[b].keys[k].key);
    assert(x.health[b].keys[k].key == v.health[b].keys[k].key);
    assert(resolver::key_texts(v.health[b])[k] == v.health[b].keys[k].key);
}

/// A success undoes what the exhaustion of the same key did to it, except for
/// the preference, which has moved on to the next key.
pub proof fn success_undoes_exhaustion(v: ResolverView, b: int, k: int, t: u128)
    requires
        v.wf(),
        0 <= b < v.health.len(),
        0 <= k < v.health[b].keys.len(),
    ensures
        v.key_exhausted(b, k, t).key_ok(b, k).health[b] == (BackendHealth {
            sticky: (k + 1) % v.health[b].keys.len() as int,
            ..v.key_ok(b, k).health[b]
        }),
{
    let x = v.key_exhausted(b, k, t).key_ok(b, k).health[b];
    assert(x.keys =~= v.key_ok(b, k).health[b].keys);
}

/// A mark on one backend changes nothing about the others, nor about the
/// configuration and the cooldowns.
pub proof fn marks_leave_other_backends_alone(
    v: ResolverView,
    b: int,
    k: int,
    t: u128,
    other: int,
)
    requires
        0 <= other < v.health.len(),
        other != b,
    ensures
        v.key_ok(b, k).health[other] == v.health[other],
        v.preferred(b, k).health[other] == v.health[other],
        v.key_exhausted(b, k, t).health[other] == v.health[other],
        v.backend_unreachable(b, t).health[other] == v.health[other],
        v.key_ok(b, k).config == v.config,
        v.preferred(b, k).config == v.config,
        v.key_exhausted(b, k, t).config == v.config,
        v.backend_unreachable(b, t).config == v.config,
        v.key_ok(b, k).key_cooldown == v.key_cooldown,
        v.preferred(b, k).key_cooldown == v.key_cooldown,
        v.key_exhausted(b, k, t).key_cooldown == v.key_cooldown,
        v.backend_unreachable(b, t).key_cooldown == v.key_cooldown,
        v.key_ok(b, k).backend_cooldown == v.backend_cooldown,
        v.preferred(b, k).backend_cooldown == v.backend_cooldown,
        v.key_exhausted(b, k, t).backend_cooldown == v.backend_cooldown,
        v.backend_unreachable(b, t).backend_cooldown == v.backend_cooldown,
{
}

/// A mark that names no backend of the configuration changes nothing.
pub proof fn marks_outside_the_configuration_do_nothing(v: ResolverView, b: int, k: int, t: u128)
    requires
        b >= v.health.len(),
    ensures
        v.key_ok(b, k) == v,
        v.preferred(b, k) == v,
        v.key_exhausted(b, k, t) == v,
        v.backend_unreachable(b, t) == v,
{
}

/// Whether the backend at `b` is among those to try.
pub open spec fn tries(groups: Seq<ResolvedBackendView>, b: int) -> bool {
    exists|i: int| 0 <= i < groups.len() && (#[trigger] groups[i]).backend_index == b
}

/// The backends to try are exactly the ones on offer, in the order of the
/// configuration.
pub proof fn resolved_is_what_is_offered(v: ResolverView, model: Seq<char>, now: u128)
    ensures
        ({
            let r = v.resolved(model, now);
            &&& forall|i: int|
                0 <= i < r.len() ==> {
                    let b = (#[trigger] r[i]).backend_index;
                    &&& 0 <= b < v.config.len()
                    &&& v.offered(b, model, now)
                    &&& r[i] == v.group(b, model, now)
                }
            &&& forall|i: int, j: int|
                0 <= i < j < r.len() ==> r[i].backend_index < r[j].backend_index
            &&& forall|b: int| #[trigger]
                tries(r, b) <==> 0 <= b < v.config.len() && v.offered(b, model, now)
        }),
{
    let ids = Seq::new(v.config.len(), |i: int| i);
    let ok = |i: int| v.offered(i, model, now);
    let r = v.resolved(model, now);
    let kept = ids.filter(ok);
    seqs::filter_members(ids, ok);
    seqs::filter_increasing(ids, ok);
    assert forall|i: int| 0 <= i < r.len() implies {
        let b = (#[trigger] r[i]).backend_index;
        &&& b == kept[i]
        &&& 0 <= b < v.config.len()
        &&& v.offered(b, model, now)
        &&& r[i] == v.group(b, model, now)
    } by {
        assert(kept.contains(kept[i]));
        let j = choose|j: int| 0 <= j < ids.len() && ids[j] == kept[i];
        assert(ids[j] == j);
    }
    assert forall|b: int| #[trigger]
        tries(r, b) <==> 0 <= b < v.config.len() && v.offered(b, model, now) by {
        if 0 <= b < v.config.len() && v.offered(b, model, now) {
            assert(ids[b] == b);
            assert(ids.contains(b));
            assert(kept.contains(b));
            let i = choose|i: int| 0 <= i < kept.len() && kept[i] == b;
            assert(r[i].backend_index == b);
        }
    }
}

/// What is handed out for a model comes from the configuration: the backend
/// serves the model, its name is kept, its address has no trailing slash, and
/// each of its keys is one of its configured keys, not blank and given once.
pub proof fn resolved_comes_from_the_configuration(
    v: ResolverView,
    model: Seq<char>,
    now: u128,
    i: int,
)
    requires
        v.wf(),
        0 <= i < v.resolved(model, now).len(),
    ensures
        ({
            let g = v.resolved(model, now)[i];
            let c = v.config[g.backend_index];
            &&& 0 <= g.backend_index < v.config.len()
            &&& c.models.contains(model)
            &&& g.backend_name == c.name
            &&& g.base_url == text::without_slashes(c.base_url)
            &&& g.base_url.len() == 0 || g.base_url.last() != '/'
            &&& g.keys.len() > 0
            &&& forall|j: int|
                0 <= j < g.keys.len() ==> {
                    let k = #[trigger] g.keys[j];
                    &&& 0 <= k.key_index < resolver::usable_keys(c.keys).len()
                    &&& k.key == resolver::usable_keys(c.keys)[k.key_index]
                    &&& c.keys.contains(k.key)
                    &&& !text::blank(k.key)
                }
            &&& forall|j: int, l: int|
                0 <= j < l < g.keys.len() ==> g.keys[j].key_index != g.keys[l].key_index
        }),
{
    resolved_is_what_is_offered(v, model, now);
    let g = v.resolved(model, now)[i];
    let b = g.backend_index;
    let c = v.config[b];
    let h = v.health[b];
    let every = v.all_parked(model, now);
    assert(sound(h));
    picked_keys_are_the_usable_ones(h, every, now);
    no_slash_is_left(c.base_url);
    let picked = h.picked(every, now);
    let usable = resolver::usable_keys(c.keys);
    seqs::filter_members(c.keys, |k: Seq<char>| !text::blank(k));
    assert(resolver::key_texts(h) == usable);
    assert forall|j: int| 0 <= j < g.keys.len() implies {
        let k = #[trigger] g.keys[j];
        &&& k.key_index == picked[j]
        &&& 0 <= k.key_index < usable.len()
        &&& k.key == usable[k.key_index]
        &&& c.keys.contains(k.key)
        &&& !text::blank(k.key)
    } by {
        assert(picked.contains(picked[j]));
        assert(h.keys[picked[j]].key == resolver::key_texts(h)[picked[j]]);
        assert(usable.contains(usable[picked[j]]));
    }
}

/// Nothing is left to strip once the trailing slashes are gone.
proof fn no_slash_is_left(s: Seq<char>)
    ensures
        text::without_slashes(s).len() == 0 || text::without_slashes(s).last() != '/',
    decreases s.len(),
{
    if s.len() > 0 && s.last() == '/' {
        no_slash_is_left(s.drop_last());
    }
}

/// A model that no backend serves has no backend to try.
pub proof fn unserved_model_has_no_backend(v: ResolverView, model: Seq<char>, now: u128)
    requires
        forall|i: int| 0 <= i < v.config.len() ==> !#[trigger] v.serves(i, model),
    ensures
        v.resolved(model, now).len() == 0,
{
    resolved_is_what_is_offered(v, model, now);
    if v.resolved(model, now).len() > 0 {
        let b = v.resolved(model, now)[0].backend_index;
        assert(v.offered(b, model, now));
        assert(!v.serves(b, model));
    }
}

/// A backend that could not be reached is left out until its cooldown is over,
/// as long as some other backend for the model is up. From then on it is not
/// set aside any longer.
pub proof fn unreachable_backend_rests_for_its_cooldown(
    v: ResolverView,
    b: int,
    other: int,
    model: Seq<char>,
    t: u128,
    now: u128,
)
    requires
        v.wf(),
        0 <= b < v.config.len(),
        0 <= other < v.config.len(),
        other != b,
        v.serves(other, model),
        !v.health[other].parked(now),
        t + v.backend_cooldown <= u128::MAX,
    ensures
        now < t + v.backend_cooldown ==> !tries(
            v.backend_unreachable(b, t).resolved(model, now),
            b,
        ),
        now >= t + v.backend_cooldown ==> !v.backend_unreachable(b, t).health[b].parked(now),
{
    let w = v.backend_unreachable(b, t);
    resolved_is_what_is_offered(w, model, now);
    assert(w.serves(other, model));
    assert(w.health[other] == v.health[other]);
    assert(!w.all_parked(model, now));
}

/// When every backend for the model is set aside, all of them are tried after
/// all, each with all of its keys, the preferred one first.
pub proof fn last_resort_tries_everything(v: ResolverView, model: Seq<char>, now: u128, b: int)
    requires
        v.wf(),
        v.all_parked(model, now),
        0 <= b < v.config.len(),
        v.serves(b, model),
        resolver::usable_keys(v.config[b].keys).len() > 0,
    ensures
        tries(v.resolved(model, now), b),
        v.keys_to_try(b, model, now) == v.health[b].rotation(),
{
    resolved_is_what_is_offered(v, model, now);
    let h = v.health[b];
    assert(resolver::key_texts(h).len() == h.keys.len());
    seqs::filter_all(h.rotation(), |k: int| true || h.healthy(k, now));
    seqs::filter_agrees(
        h.rotation(),
        |k: int| true || h.healthy(k, now),
        |k: int| v.all_parked(model, now) || h.healthy(k, now),
    );
}

/// Whether no key and no backend is set aside at the time `now`.
pub open spec fn all_recovered(v: ResolverView, now: u128) -> bool {
    forall|b: int|
        0 <= b < v.health.len() ==> {
            &&& !(#[trigger] v.health[b]).parked(now)
            &&& forall|k: int|
                0 <= k < v.health[b].keys.len() ==> #[trigger] v.health[b].healthy(k, now)
        }
}

/// Once every cooldown is over, each backend that serves the model and has a
/// usable key is tried again, with all of its keys.
pub proof fn everything_comes_back(v: ResolverView, model: Seq<char>, now: u128, b: int)
    requires
        v.wf(),
        all_recovered(v, now),
        0 <= b < v.config.len(),
    ensures
        tries(v.resolved(model, now), b) <==> v.serves(b, model) && resolver::usable_keys(
            v.config[b].keys,
        ).len() > 0,
        v.keys_to_try(b, model, now) == v.health[b].rotation(),
{
    resolved_is_what_is_offered(v, model, now);
    let h = v.health[b];
    assert(sound(h));
    assert(resolver::key_texts(h).len() == h.keys.len());
    rotation_visits_each(h);
    let every = v.all_parked(model, now);
    assert forall|i: int| 0 <= i < h.rotation().len() implies h.healthy(
        #[trigger] h.rotation()[i],
        now,
    ) by {
        assert(h.rotation().contains(h.rotation()[i]));
    }
    seqs::filter_all(h.rotation(), |k: int| every || h.healthy(k, now));
    assert(h.rotation().len() == h.keys.len());
}

/// Whatever was recorded, nothing is set aside any longer once the cooldowns
/// have passed since the last record.
pub proof fn everything_recovers_in_time(
    v: ResolverView,
    marks: Seq<Mark>,
    times: Seq<u128>,
    now: u128,
)
    requires
        all_recovered(v, now),
        marks.len() == times.len(),
        forall|i: int|
            0 <= i < times.len() ==> {
                &&& #[trigger] times[i] + v.key_cooldown <= now
                &&& times[i] + v.backend_cooldown <= now
            },
    ensures
        all_recovered(after_marks(v, marks, times), now),
        after_marks(v, marks, times).config == v.config,
        after_marks(v, marks, times).key_cooldown == v.key_cooldown,
        after_marks(v, marks, times).backend_cooldown == v.backend_cooldown,
    decreases marks.len(),
{
    if marks.len() > 0 {
        let before = times.drop_last();
        assert forall|i: int| 0 <= i < before.len() implies {
            &&& #[trigger] before[i] + v.key_cooldown <= now
            &&& before[i] + v.backend_cooldown <= now
        } by {
            assert(before[i] == times[i]);
        }
        everything_recovers_in_time(v, marks.drop_last(), before, now);
        assert(times[times.len() - 1] + v.key_cooldown <= now);
        let u = after_marks(v, marks.drop_last(), before);
        let w = after_marks(v, marks, times);
        assert forall|b: int| 0 <= b < w.health.len() implies {
            &&& !(#[trigger] w.health[b]).parked(now)
            &&& forall|k: int|
                0 <= k < w.health[b].keys.len() ==> #[trigger] w.health[b].healthy(k, now)
        } by {
            assert(!u.health[b].parked(now));
            assert forall|k: int| 0 <= k < w.health[b].keys.len() implies #[trigger] w.health[b].healthy(
                k,
                now,
            ) by {
                assert(u.health[b].healthy(k, now));
            }
        }
    }
}

/// A resolver that has seen no attempt has nothing set aside.
pub proof fn fresh_resolver_is_recovered(
    config: Seq<BackendView>,
    key_cooldown: u128,
    backend_cooldown: u128,
    now: u128,
)
    ensures
        all_recovered(resolver::fresh_resolver(config, key_cooldown, backend_cooldown), now),
{
}

} // verus!
