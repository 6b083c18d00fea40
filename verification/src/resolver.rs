//! The choice of backends and keys for a model, and the health of each.
//!
//! One key of a backend is preferred until it signals exhaustion; then the next
//! key takes its place. A key that is exhausted, or a backend that cannot be
//! reached, is set aside for a while and comes back by itself.

use crate::clock;
use crate::clock::LONGEST;
use crate::config::{Backend, BackendView, Config};
use crate::text;
use crate::text::{has_text, is_blank, trim_slashes};
use std::sync::Arc;
use std::time::Instant;
use vstd::prelude::*;

verus! {

/// One key to try.
#[derive(Debug, Clone)]
pub struct ResolvedKey {
    /// The position of the key among the usable keys of its backend.
    pub key_index: usize,
    /// The API key.
    pub key: String,
}

/// One backend to try, with its keys in the order in which to try them.
#[derive(Debug, Clone)]
pub struct ResolvedBackend {
    /// The position of the backend in the configuration.
    pub backend_index: usize,
    /// The name of the backend.
    pub backend_name: String,
    /// The base address, without trailing slashes.
    pub base_url: String,
    /// The keys to try, the preferred one first.
    pub keys: Vec<ResolvedKey>,
}

/// What a [`ResolvedKey`] holds.
#[verifier::ext_equal]
pub struct ResolvedKeyView {
    pub key_index: int,
    pub key: Seq<char>,
}

/// What a [`ResolvedBackend`] holds.
#[verifier::ext_equal]
pub struct ResolvedBackendView {
    pub backend_index: int,
    pub backend_name: Seq<char>,
    pub base_url: Seq<char>,
    pub keys: Seq<ResolvedKeyView>,
}

impl View for ResolvedKey {
    type V = ResolvedKeyView;

    open spec fn view(&self) -> ResolvedKeyView {
        ResolvedKeyView { key_index: self.key_index as int, key: self.key@ }
    }
}

impl View for ResolvedBackend {
    type V = ResolvedBackendView;

    open spec fn view(&self) -> ResolvedBackendView {
        ResolvedBackendView {
            backend_index: self.backend_index as int,
            backend_name: self.backend_name@,
            base_url: self.base_url@,
            keys: self.keys@.map_values(|k: ResolvedKey| k@),
        }
    }
}

/// The views of a list of resolved backends.
pub open spec fn group_views(groups: Seq<ResolvedBackend>) -> Seq<ResolvedBackendView> {
    groups.map_values(|g: ResolvedBackend| g@)
}

/// The health of one key.
struct KeyState {
    key: String,
    /// When the key comes back, or `None` while it is healthy.
    exhausted_until: Option<u128>,
}

/// The health of one backend.
struct BackendState {
    /// The usable keys.
    keys: Vec<KeyState>,
    /// The position of the preferred key.
    sticky: usize,
    /// When the backend comes back, or `None` while it is up.
    unreachable_until: Option<u128>,
}

/// What is known of one key: its text, and until when it is set aside.
#[verifier::ext_equal]
pub struct KeyHealth {
    pub key: Seq<char>,
    pub exhausted_until: Option<u128>,
}

/// What is known of one backend: its usable keys, which of them is preferred,
/// and until when the backend as a whole is set aside.
#[verifier::ext_equal]
pub struct BackendHealth {
    pub keys: Seq<KeyHealth>,
    pub sticky: int,
    pub unreachable_until: Option<u128>,
}

/// What a [`Resolver`] holds. All times are in nanoseconds.
#[verifier::ext_equal]
pub struct ResolverView {
    pub config: Seq<BackendView>,
    pub health: Seq<BackendHealth>,
    pub key_cooldown: u128,
    pub backend_cooldown: u128,
}

impl KeyState {
    spec fn view(&self) -> KeyHealth {
        KeyHealth { key: self.key@, exhausted_until: self.exhausted_until }
    }
}

impl BackendState {
    spec fn view(&self) -> BackendHealth {
        BackendHealth {
            keys: self.keys@.map_values(|k: KeyState| k.view()),
            sticky: self.sticky as int,
            unreachable_until: self.unreachable_until,
        }
    }
}

/// The keys that are not blank, in order.
pub open spec fn usable_keys(keys: Seq<Seq<char>>) -> Seq<Seq<char>> {
    keys.filter(|k: Seq<char>| !text::blank(k))
}

/// The texts of the keys of a backend.
pub open spec fn key_texts(h: BackendHealth) -> Seq<Seq<char>> {
    h.keys.map_values(|k: KeyHealth| k.key)
}

/// The health of a backend of which nothing bad is known: its first usable key
/// is preferred and nothing is set aside.
pub open spec fn fresh(b: BackendView) -> BackendHealth {
    BackendHealth {
        keys: usable_keys(b.keys).map_values(
            |k: Seq<char>| KeyHealth { key: k, exhausted_until: None },
        ),
        sticky: 0,
        unreachable_until: None,
    }
}

/// A resolver that has seen no attempt yet.
pub open spec fn fresh_resolver(
    config: Seq<BackendView>,
    key_cooldown: u128,
    backend_cooldown: u128,
) -> ResolverView {
    ResolverView {
        config,
        health: config.map_values(|b: BackendView| fresh(b)),
        key_cooldown,
        backend_cooldown,
    }
}

impl BackendHealth {
    /// Whether the backend as a whole is set aside at the time `now`.
    pub open spec fn parked(self, now: u128) -> bool {
        self.unreachable_until is Some && self.unreachable_until->0 > now
    }

    /// Whether the key at `k` may be used at the time `now`.
    pub open spec fn healthy(self, k: int, now: u128) -> bool {
        self.keys[k].exhausted_until is None || self.keys[k].exhausted_until->0 <= now
    }

    /// The positions of all keys, the preferred one first and then on around
    /// the end of the list.
    pub open spec fn rotation(self) -> Seq<int> {
        Seq::new(self.keys.len(), |j: int| (self.sticky + j) % self.keys.len() as int)
    }

    /// The positions of the keys to try, in order. With `every`, no key is left
    /// out for being exhausted.
    pub open spec fn picked(self, every: bool, now: u128) -> Seq<int> {
        self.rotation().filter(|k: int| every || self.healthy(k, now))
    }
}

impl ResolverView {
    /// The health list fits the configuration, and every preferred key exists.
    pub open spec fn wf(self) -> bool {
        &&& self.health.len() == self.config.len()
        &&& self.key_cooldown <= LONGEST
        &&& self.backend_cooldown <= LONGEST
        &&& forall|i: int|
            0 <= i < self.health.len() ==> {
                &&& key_texts(#[trigger] self.health[i]) == usable_keys(self.config[i].keys)
                &&& self.health[i].keys.len() <= usize::MAX
                &&& 0 <= self.health[i].sticky
                &&& self.health[i].sticky < self.health[i].keys.len() || self.health[i].sticky == 0
            }
    }

    /// Whether the backend at `i` serves `model`.
    pub open spec fn serves(self, i: int, model: Seq<char>) -> bool {
        self.config[i].models.contains(model)
    }

    /// Whether every backend that serves `model` is set aside at the time `now`.
    pub open spec fn all_parked(self, model: Seq<char>, now: u128) -> bool {
        forall|i: int|
            0 <= i < self.config.len() && #[trigger] self.serves(i, model) ==> self.health[i].parked(
                now,
            )
    }

    /// The keys of the backend at `i` to try for `model`.
    pub open spec fn keys_to_try(self, i: int, model: Seq<char>, now: u128) -> Seq<int> {
        self.health[i].picked(self.all_parked(model, now), now)
    }

    /// Whether the backend at `i` is to be tried for `model`: it serves the
    /// model, it is not set aside (unless all are), and it has a key to try.
    pub open spec fn offered(self, i: int, model: Seq<char>, now: u128) -> bool {
        &&& self.serves(i, model)
        &&& !self.health[i].parked(now) || self.all_parked(model, now)
        &&& self.keys_to_try(i, model, now).len() > 0
    }

    /// The backend at `i` as it is handed out for `model`.
    pub open spec fn group(self, i: int, model: Seq<char>, now: u128) -> ResolvedBackendView {
        ResolvedBackendView {
            backend_index: i,
            backend_name: self.config[i].name,
            base_url: text::without_slashes(self.config[i].base_url),
            keys: self.keys_to_try(i, model, now).map_values(
                |k: int| ResolvedKeyView { key_index: k, key: self.health[i].keys[k].key },
            ),
        }
    }

    /// The backends to try for `model` at the time `now`, in the order of the
    /// configuration.
    pub open spec fn resolved(self, model: Seq<char>, now: u128) -> Seq<ResolvedBackendView> {
        Seq::new(self.config.len(), |i: int| i).filter(
            |i: int| self.offered(i, model, now),
        ).map_values(|i: int| self.group(i, model, now))
    }

    /// After a successful attempt: neither the key nor its backend is set aside.
    pub open spec fn key_ok(self, backend: int, key: int) -> ResolverView {
        if 0 <= backend < self.health.len() {
            let h = self.health[backend];
            let keys = if 0 <= key < h.keys.len() {
                h.keys.update(key, KeyHealth { exhausted_until: None, ..h.keys[key] })
            } else {
                h.keys
            };
            ResolverView {
                health: self.health.update(
                    backend,
                    BackendHealth { keys, unreachable_until: None, ..h },
                ),
                ..self
            }
        } else {
            self
        }
    }

    /// With the key as the preferred one of its backend, where both exist.
    pub open spec fn preferred(self, backend: int, key: int) -> ResolverView {
        if 0 <= backend < self.health.len() && 0 <= key < self.health[backend].keys.len() {
            ResolverView {
                health: self.health.update(
                    backend,
                    BackendHealth { sticky: key, ..self.health[backend] },
                ),
                ..self
            }
        } else {
            self
        }
    }

    /// After the key signalled exhaustion at the time `now`: it is set aside,
    /// and the next key is preferred.
    pub open spec fn key_exhausted(self, backend: int, key: int, now: u128) -> ResolverView {
        if 0 <= backend < self.health.len() {
            let h = self.health[backend];
            let keys = if 0 <= key < h.keys.len() {
                h.keys.update(
                    key,
                    KeyHealth {
                        exhausted_until: Some((now + self.key_cooldown) as u128),
                        ..h.keys[key]
                    },
                )
            } else {
                h.keys
            };
            let sticky = if h.keys.len() > 0 {
                (key + 1) % h.keys.len() as int
            } else {
                h.sticky
            };
            ResolverView {
                health: self.health.update(backend, BackendHealth { keys, sticky, ..h }),
                ..self
            }
        } else {
            self
        }
    }

    /// After the backend could not be reached at the time `now`: it is set aside
    /// as a whole.
    pub open spec fn backend_unreachable(self, backend: int, now: u128) -> ResolverView {
        if 0 <= backend < self.health.len() {
            let h = self.health[backend];
            ResolverView {
                health: self.health.update(
                    backend,
                    BackendHealth {
                        unreachable_until: Some((now + self.backend_cooldown) as u128),
                        ..h
                    },
                ),
                ..self
            }
        } else {
            self
        }
    }
}

/// Chooses the backends and keys for a model and keeps track of their health.
pub struct Resolver {
    config: Arc<Config>,
    backends: Vec<BackendState>,
    key_cooldown: u128,
    backend_cooldown: u128,
    epoch: Instant,
}

impl View for Resolver {
    type V = ResolverView;

    closed spec fn view(&self) -> ResolverView {
        ResolverView {
            config: self.config@,
            health: self.backends@.map_values(|b: BackendState| b.view()),
            key_cooldown: self.key_cooldown,
            backend_cooldown: self.backend_cooldown,
        }
    }
}

/// The usable keys of `b`, all healthy.
fn fresh_state(b: &Backend) -> (r: BackendState)
    ensures
        r.view() == fresh(b@),
{
    let ghost usable = |k: Seq<char>| !text::blank(k);
    let ghost texts = text::views(b.keys@);
    let ghost mark = |k: Seq<char>| KeyHealth { key: k, exhausted_until: None };
    let mut keys: Vec<KeyState> = Vec::new();
    let mut i: usize = 0;
    proof {
        reveal(Seq::filter);
    }
    assert(keys@.map_values(|k: KeyState| k.view()) =~= texts.take(0).filter(usable).map_values(
        mark,
    ));
    while i < b.keys.len()
        invariant
            i <= b.keys@.len(),
            texts == text::views(b.keys@),
            usable == (|k: Seq<char>| !text::blank(k)),
            mark == (|k: Seq<char>| KeyHealth { key: k, exhausted_until: None }),
            keys@.map_values(|k: KeyState| k.view()) == texts.take(i as int).filter(
                usable,
            ).map_values(mark),
        decreases b.keys@.len() - i,
    {
        proof {
            reveal(Seq::filter);
            assert(texts.take(i + 1).drop_last() =~= texts.take(i as int));
            assert(texts.take(i + 1).last() == b.keys@[i as int]@);
        }
        let ghost before = keys@;
        if !is_blank(b.keys[i].as_str()) {
            keys.push(KeyState { key: b.keys[i].clone(), exhausted_until: None });
            assert(keys@.map_values(|k: KeyState| k.view()) =~= before.map_values(
                |k: KeyState| k.view(),
            ).push(mark(b.keys@[i as int]@)));
            assert(texts.take(i + 1).filter(usable).map_values(mark) =~= texts.take(
                i as int,
            ).filter(usable).map_values(mark).push(mark(b.keys@[i as int]@)));
        }
        i += 1;
    }
    assert(texts.take(b.keys@.len() as int) =~= texts);
    BackendState { keys, sticky: 0, unreachable_until: None }
}

/// The keys of `b` to try, as they are handed out.
pub open spec fn handed_out(h: BackendHealth, every: bool, now: u128) -> Seq<ResolvedKeyView> {
    h.picked(every, now).map_values(
        |k: int| ResolvedKeyView { key_index: k, key: h.keys[k].key },
    )
}

/// The keys of `b` to try, in order.
fn pick_keys(b: &BackendState, every: bool, now: u128) -> (r: Vec<ResolvedKey>)
    requires
        b.sticky < b.keys@.len() || b.sticky == 0,
    ensures
        r@.map_values(|k: ResolvedKey| k@) == handed_out(b.view(), every, now),
{
    let ghost h = b.view();
    let ghost ok = |k: int| every || h.healthy(k, now);
    let ghost hand = |k: int| ResolvedKeyView { key_index: k, key: h.keys[k].key };
    let n: usize = b.keys.len();
    let mut out: Vec<ResolvedKey> = Vec::new();
    let mut j: usize = 0;
    proof {
        reveal(Seq::filter);
    }
    assert(out@.map_values(|k: ResolvedKey| k@) =~= h.rotation().take(0).filter(ok).map_values(
        hand,
    ));
    while j < n
        invariant
            j <= n == b.keys@.len(),
            b.sticky < n || b.sticky == 0,
            h == b.view(),
            ok == (|k: int| every || h.healthy(k, now)),
            hand == (|k: int| ResolvedKeyView { key_index: k, key: h.keys[k].key }),
            out@.map_values(|k: ResolvedKey| k@) == h.rotation().take(j as int).filter(
                ok,
            ).map_values(hand),
        decreases n - j,
    {
        let k: usize = if j < n - b.sticky {
            b.sticky + j
        } else {
            j - (n - b.sticky)
        };
        proof {
            reveal(Seq::filter);
            assert(k == (h.sticky + j) % n as int) by {
                if j < n - b.sticky {
                    vstd::arithmetic::div_mod::lemma_small_mod((b.sticky + j) as nat, n as nat);
                } else {
                    vstd::arithmetic::div_mod::lemma_mod_sub_multiples_vanish(
                        b.sticky + j,
                        n as int,
                    );
                    vstd::arithmetic::div_mod::lemma_small_mod((b.sticky + j - n) as nat, n as nat);
                }
            }
            assert(h.rotation().take(j + 1).drop_last() =~= h.rotation().take(j as int));
            assert(h.rotation().take(j + 1).last() == k);
            assert(h.keys[k as int] == b.keys@[k as int].view());
        }
        let free = match b.keys[k].exhausted_until {
            Some(t) => t <= now,
            None => true,
        };
        let ghost before = out@;
        if every || free {
            out.push(ResolvedKey { key_index: k, key: b.keys[k].key.clone() });
            assert(out@.map_values(|k: ResolvedKey| k@) =~= before.map_values(
                |k: ResolvedKey| k@,
            ).push(hand(k as int)));
            assert(h.rotation().take(j + 1).filter(ok).map_values(hand) =~= h.rotation().take(
                j as int,
            ).filter(ok).map_values(hand).push(hand(k as int)));
        }
        j += 1;
    }
    assert(h.rotation().take(n as int) =~= h.rotation());
    out
}

/// The marks keep the resolver well formed, whatever they are given.
pub proof fn marks_keep_wf(v: ResolverView, backend: int, key: int, now: u128)
    requires
        v.wf(),
        0 <= key,
    ensures
        v.key_ok(backend, key).wf(),
        v.preferred(backend, key).wf(),
        v.key_exhausted(backend, key, now).wf(),
        v.backend_unreachable(backend, now).wf(),
{
    if 0 <= backend < v.health.len() {
        let h = v.health[backend];
        let a = v.key_ok(backend, key);
        let b = v.key_exhausted(backend, key, now);
        let c = v.backend_unreachable(backend, now);
        let d = v.preferred(backend, key);
        assert(key_texts(d.health[backend]) =~= key_texts(h));
        assert(key_texts(a.health[backend]) =~= key_texts(h));
        assert(key_texts(b.health[backend]) =~= key_texts(h));
        assert(key_texts(c.health[backend]) =~= key_texts(h));
        assert forall|i: int| 0 <= i < v.health.len() && i != backend implies {
            &&& #[trigger] a.health[i] == v.health[i]
            &&& b.health[i] == v.health[i]
            &&& c.health[i] == v.health[i]
            &&& d.health[i] == v.health[i]
        } by {}
    }
}

impl Resolver {
    /// The start of this resolver's own clock, on which all its times rest.
    pub closed spec fn origin(&self) -> Instant {
        self.epoch
    }

    /// A resolver that sets an exhausted key aside for 60 seconds and an
    /// unreachable backend for 10.
    pub fn new(config: Arc<Config>) -> (r: Self)
        ensures
            r@.wf(),
            r@ == fresh_resolver(config@, 60_000_000_000, 10_000_000_000),
    {
        Self::new_with_cooldowns(config, 60_000_000_000, 10_000_000_000)
    }

    /// A resolver with the given cooldowns, in nanoseconds.
    pub fn new_with_cooldowns(
        config: Arc<Config>,
        key_cooldown: u128,
        backend_cooldown: u128,
    ) -> (r: Self)
        requires
            key_cooldown <= LONGEST,
            backend_cooldown <= LONGEST,
        ensures
            r@.wf(),
            r@ == fresh_resolver(config@, key_cooldown, backend_cooldown),
    {
        let mut backends: Vec<BackendState> = Vec::new();
        let mut i: usize = 0;
        while i < config.backends.len()
            invariant
                i <= config.backends@.len(),
                backends@.len() == i,
                forall|j: int|
                    0 <= j < i ==> (#[trigger] backends@[j]).view() == fresh(config@[j]),
                forall|j: int|
                    0 <= j < i ==> (#[trigger] backends@[j]).view().keys.len() <= usize::MAX,
            decreases config.backends@.len() - i,
        {
            let b = fresh_state(&config.backends[i]);
            assert(b.keys.len() <= usize::MAX);
            backends.push(b);
            i += 1;
        }
        let r = Resolver { config, backends, key_cooldown, backend_cooldown, epoch: Instant::now() };
        assert(r@ =~= fresh_resolver(r.config@, key_cooldown, backend_cooldown));
        proof {
            assert forall|i: int| 0 <= i < r@.health.len() implies key_texts(
                #[trigger] r@.health[i],
            ) == usable_keys(r@.config[i].keys) by {
                assert(r@.health[i] == backends@[i].view());
                assert(key_texts(fresh(r@.config[i])) =~= usable_keys(r@.config[i].keys));
            }
            assert forall|i: int| 0 <= i < r@.health.len() implies (#[trigger] r@.health[i]).keys.len()
                <= usize::MAX by {
                assert(r@.health[i] == backends@[i].view());
            }
        }
        r
    }

    /// The configuration.
    pub fn config(&self) -> (r: &Config)
        ensures
            r@ == self@.config,
    {
        &self.config
    }

    /// The time on this resolver's own clock.
    pub fn now(&self) -> (r: u128)
        ensures
            clock::reading(self.origin(), r),
            r <= LONGEST,
    {
        clock::read(&self.epoch)
    }

    /// The backends to try for `model` now, in the order of the configuration,
    /// each with its keys in the order in which to try them.
    pub fn resolve(&self, model: &str) -> (r: Vec<ResolvedBackend>)
        requires
            self@.wf(),
        ensures
            exists|now: u128| #[trigger]
                self@.resolved(model@, now) == group_views(r@) && now <= LONGEST
                    && clock::reading(self.origin(), now),
    {
        let now = self.now();
        self.resolve_at(model, now)
    }

    /// Whether the backend at `i` serves `model`.
    fn serves(&self, i: usize, model: &str) -> (r: bool)
        requires
            i < self@.config.len(),
        ensures
            r == self@.serves(i as int, model@),
    {
        has_text(&self.config.backends[i].models, model)
    }

    /// Whether the backend at `i` is set aside at the time `now`.
    fn parked(&self, i: usize, now: u128) -> (r: bool)
        requires
            i < self@.health.len(),
        ensures
            r == self@.health[i as int].parked(now),
    {
        match self.backends[i].unreachable_until {
            Some(t) => t > now,
            None => false,
        }
    }

    /// Whether every backend that serves `model` is set aside.
    fn all_parked(&self, model: &str, now: u128) -> (r: bool)
        requires
            self@.wf(),
        ensures
            r == self@.all_parked(model@, now),
    {
        let n: usize = self.config.backends.len();
        let mut i: usize = 0;
        while i < n
            invariant
                i <= n == self@.config.len(),
                self@.wf(),
                forall|j: int|
                    0 <= j < i && #[trigger] self@.serves(j, model@) ==> self@.health[j].parked(now),
            decreases n - i,
        {
            if self.serves(i, model) && !self.parked(i, now) {
                return false;
            }
            i += 1;
        }
        true
    }

    /// The backends to try for `model` at the time `now`.
    pub fn resolve_at(&self, model: &str, now: u128) -> (r: Vec<ResolvedBackend>)
        requires
            self@.wf(),
        ensures
            group_views(r@) == self@.resolved(model@, now),
    {
        let ghost v = self@;
        let ghost ids = Seq::new(v.config.len(), |i: int| i);
        let ghost ok = |i: int| v.offered(i, model@, now);
        let ghost hand = |i: int| v.group(i, model@, now);
        let n: usize = self.config.backends.len();
        let every = self.all_parked(model, now);
        let mut out: Vec<ResolvedBackend> = Vec::new();
        let mut i: usize = 0;
        proof {
            reveal(Seq::filter);
        }
        assert(group_views(out@) =~= ids.take(0).filter(ok).map_values(hand));
        while i < n
            invariant
                i <= n == v.config.len(),
                v == self@,
                v.wf(),
                every == v.all_parked(model@, now),
                ids == Seq::new(v.config.len(), |i: int| i),
                ok == (|i: int| v.offered(i, model@, now)),
                hand == (|i: int| v.group(i, model@, now)),
                group_views(out@) == ids.take(i as int).filter(ok).map_values(hand),
            decreases n - i,
        {
            proof {
                reveal(Seq::filter);
                assert(ids.take(i + 1).drop_last() =~= ids.take(i as int));
                assert(ids.take(i + 1).last() == i);
                assert(v.health[i as int] == self.backends@[i as int].view());
                assert(v.config[i as int] == self.config.backends@[i as int]@);
            }
            if self.serves(i, model) && (every || !self.parked(i, now)) {
                let keys = pick_keys(&self.backends[i], every, now);
                let ghost shown = keys@.map_values(|k: ResolvedKey| k@);
                assert(shown.len() == v.keys_to_try(i as int, model@, now).len());
                if keys.len() > 0 {
                    let ghost before = out@;
                    let g = ResolvedBackend {
                        backend_index: i,
                        backend_name: self.config.backends[i].name.clone(),
                        base_url: trim_slashes(self.config.backends[i].base_url.as_str()),
                        keys,
                    };
                    assert(g@ =~= v.group(i as int, model@, now));
                    out.push(g);
                    assert(group_views(out@) =~= group_views(before).push(hand(i as int)));
                    assert(ids.take(i + 1).filter(ok).map_values(hand) =~= ids.take(
                        i as int,
                    ).filter(ok).map_values(hand).push(hand(i as int)));
                }
            }
            i += 1;
        }
        assert(ids.take(n as int) =~= ids);
        out
    }

    /// Records a successful attempt with a key: neither the key nor its backend
    /// is set aside any longer.
    pub fn mark_key_ok(&mut self, backend_index: usize, key_index: usize)
        requires
            old(self)@.wf(),
        ensures
            final(self)@.wf(),
            final(self)@ == old(self)@.key_ok(backend_index as int, key_index as int),
            final(self).origin() == old(self).origin(),
    {
        if backend_index < self.backends.len() {
            if key_index < self.backends[backend_index].keys.len() {
                self.backends[backend_index].keys[key_index].exhausted_until = None;
            }
            self.backends[backend_index].unreachable_until = None;
        }
        proof {
            marks_keep_wf(old(self)@, backend_index as int, key_index as int, 0);
            let v = old(self)@.key_ok(backend_index as int, key_index as int);
            if backend_index < old(self).backends@.len() {
                assert(self@.health[backend_index as int].keys
                    =~= v.health[backend_index as int].keys);
            }
            assert(self@.health =~= v.health);
        }
    }

    /// Makes a key the preferred one of its backend, where both exist.
    pub fn prefer_key(&mut self, backend_index: usize, key_index: usize)
        requires
            old(self)@.wf(),
        ensures
            final(self)@.wf(),
            final(self)@ == old(self)@.preferred(backend_index as int, key_index as int),
            final(self).origin() == old(self).origin(),
    {
        if backend_index < self.backends.len() && key_index
            < self.backends[backend_index].keys.len() {
            self.backends[backend_index].sticky = key_index;
        }
        proof {
            marks_keep_wf(old(self)@, backend_index as int, key_index as int, 0);
            assert(self@.health =~= old(self)@.preferred(
                backend_index as int,
                key_index as int,
            ).health);
        }
    }

    /// Records that a key signalled exhaustion now.
    pub fn mark_key_exhausted(&mut self, backend_index: usize, key_index: usize)
        requires
            old(self)@.wf(),
            backend_index < old(self)@.health.len() && old(
                self,
            )@.health[backend_index as int].keys.len() > 0 ==> key_index < usize::MAX,
        ensures
            final(self)@.wf(),
            exists|now: u128|
                final(self)@ == #[trigger] old(self)@.key_exhausted(
                    backend_index as int,
                    key_index as int,
                    now,
                ) && now <= LONGEST && clock::reading(old(self).origin(), now),
            final(self).origin() == old(self).origin(),
    {
        let now = self.now();
        self.mark_key_exhausted_at(backend_index, key_index, now);
    }

    /// Records that a key signalled exhaustion at the time `now`: it is set
    /// aside for the key cooldown, and the next key is preferred.
    pub fn mark_key_exhausted_at(&mut self, backend_index: usize, key_index: usize, now: u128)
        requires
            old(self)@.wf(),
            now + old(self)@.key_cooldown <= u128::MAX,
            backend_index < old(self)@.health.len() && old(
                self,
            )@.health[backend_index as int].keys.len() > 0 ==> key_index < usize::MAX,
        ensures
            final(self)@.wf(),
            final(self)@ == old(self)@.key_exhausted(backend_index as int, key_index as int, now),
            final(self).origin() == old(self).origin(),
    {
        if backend_index < self.backends.len() {
            let n: usize = self.backends[backend_index].keys.len();
            if key_index < n {
                self.backends[backend_index].keys[key_index].exhausted_until = Some(
                    now + self.key_cooldown,
                );
            }
            if n > 0 {
                self.backends[backend_index].sticky = (key_index + 1) % n;
            }
        }
        proof {
            marks_keep_wf(old(self)@, backend_index as int, key_index as int, now);
            let v = old(self)@.key_exhausted(backend_index as int, key_index as int, now);
            if backend_index < old(self).backends@.len() {
                assert(self@.health[backend_index as int].keys
                    =~= v.health[backend_index as int].keys);
            }
            assert(self@.health =~= v.health);
        }
    }

    /// Records that a backend could not be reached now.
    pub fn mark_backend_unreachable(&mut self, backend_index: usize)
        requires
            old(self)@.wf(),
        ensures
            final(self)@.wf(),
            exists|now: u128|
                final(self)@ == #[trigger] old(self)@.backend_unreachable(
                    backend_index as int,
                    now,
                ) && now <= LONGEST && clock::reading(old(self).origin(), now),
            final(self).origin() == old(self).origin(),
    {
        let now = self.now();
        self.mark_backend_unreachable_at(backend_index, now);
    }

    /// Records that a backend could not be reached at the time `now`: it is set
    /// aside for the backend cooldown.
    pub fn mark_backend_unreachable_at(&mut self, backend_index: usize, now: u128)
        requires
            old(self)@.wf(),
            now + old(self)@.backend_cooldown <= u128::MAX,
        ensures
            final(self)@.wf(),
            final(self)@ == old(self)@.backend_unreachable(backend_index as int, now),
            final(self).origin() == old(self).origin(),
    {
        if backend_index < self.backends.len() {
            self.backends[backend_index].unreachable_until = Some(now + self.backend_cooldown);
        }
        proof {
            marks_keep_wf(old(self)@, backend_index as int, 0, now);
            assert(self@.health =~= old(self)@.backend_unreachable(
                backend_index as int,
                now,
            ).health);
        }
    }
}

} // verus!
