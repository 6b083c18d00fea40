//! The choice of backends and keys.

use llm_hub::clock::LONGEST;
use llm_hub::config::{Backend, Config, ResolvedBackend, Resolver};
use std::sync::Arc;

const SECOND: u128 = 1_000_000_000;

fn backend(name: &str, url: &str, keys: &[&str], models: &[&str]) -> Backend {
    Backend {
        name: name.into(),
        base_url: url.into(),
        keys: keys.iter().map(|s| (*s).into()).collect(),
        models: models.iter().map(|s| (*s).into()).collect(),
    }
}

fn key_indices(b: &ResolvedBackend) -> Vec<usize> {
    b.keys.iter().map(|k| k.key_index).collect()
}

fn names(groups: &[ResolvedBackend]) -> Vec<String> {
    groups.iter().map(|g| g.backend_name.clone()).collect()
}

fn three_keys() -> Resolver {
    Resolver::new(Arc::new(Config {
        backends: vec![backend("b0", "https://x", &["k0", "k1", "k2"], &["m"])],
    }))
}

fn two_backends() -> Resolver {
    Resolver::new(Arc::new(Config {
        backends: vec![
            backend("a", "https://a", &["ak"], &["m"]),
            backend("b", "https://b", &["bk"], &["m"]),
        ],
    }))
}

#[test]
fn resolve_initial_order_is_identity() {
    let cfg = Arc::new(Config {
        backends: vec![backend("b0", "https://x", &["k0", "k1", "k2"], &["m"])],
    });
    let r = Resolver::new(cfg);
    let groups = r.resolve("m");
    assert_eq!(groups.len(), 1);
    // The first key is preferred at the start, so the keys are in natural order.
    assert_eq!(key_indices(&groups[0]), vec![0, 1, 2]);
}

#[test]
fn resolve_rotates_sticky_first_and_parks_exhausted_key() {
    let cfg = Arc::new(Config {
        backends: vec![backend("b0", "https://x", &["k0", "k1", "k2"], &["m"])],
    });
    let mut r = Resolver::new(cfg);

    // Exhaust key 0: it is set aside for a minute and key 1 is preferred.
    r.mark_key_exhausted(0, 0);
    let groups = r.resolve("m");
    assert_eq!(groups.len(), 1);
    assert_eq!(key_indices(&groups[0]), vec![1, 2]);
}

#[test]
fn mark_key_ok_clears_exhaustion() {
    let cfg = Arc::new(Config {
        backends: vec![backend("b0", "https://x", &["k0", "k1", "k2"], &["m"])],
    });
    let mut r = Resolver::new(cfg);
    r.mark_key_exhausted(0, 0);
    // Key 0 is back once it is cleared, but key 1 stays preferred.
    r.mark_key_ok(0, 0);
    let groups = r.resolve("m");
    assert_eq!(key_indices(&groups[0]), vec![1, 2, 0]);
}

#[test]
fn resolve_omits_unreachable_backend() {
    let cfg = Arc::new(Config {
        backends: vec![
            backend("a", "https://a", &["ak"], &["m"]),
            backend("b", "https://b", &["bk"], &["m"]),
        ],
    });
    let mut r = Resolver::new(cfg);
    assert_eq!(r.resolve("m").len(), 2);

    // Set backend "a" aside: it is left out while "b" is still up.
    r.mark_backend_unreachable(0);
    let groups = r.resolve("m");
    assert_eq!(groups.len(), 1);
    assert_eq!(groups[0].backend_name, "b");
}

#[test]
fn resolve_fallback_returns_all_when_every_backend_parked() {
    let cfg = Arc::new(Config {
        backends: vec![backend("solo", "https://x", &["k0"], &["m"])],
    });
    let mut r = Resolver::new(cfg);
    r.mark_backend_unreachable(0);
    // The only backend that serves the model is set aside, so it is still tried.
    let groups = r.resolve("m");
    assert_eq!(groups.len(), 1);
    assert_eq!(groups[0].backend_name, "solo");
}

#[test]
fn resolve_skips_non_serving_and_empty_key_backends() {
    let cfg = Arc::new(Config {
        backends: vec![
            backend("noserve", "https://x", &["k"], &["other"]),
            backend("emptykeys", "https://y", &["", "  "], &["m"]),
            backend("good", "https://z", &["g0"], &["m"]),
        ],
    });
    let r = Resolver::new(cfg);
    let groups = r.resolve("m");
    assert_eq!(groups.len(), 1);
    assert_eq!(groups[0].backend_name, "good");
}

#[test]
fn resolved_backend_carries_its_configuration() {
    let r = Resolver::new(Arc::new(Config {
        backends: vec![
            backend("other", "https://o", &["ok"], &["n"]),
            backend("b1", "https://x/api///", &["", "k0", "\t", "k1"], &["n", "m"]),
        ],
    }));
    let groups = r.resolve_at("m", 0);
    assert_eq!(groups.len(), 1);
    assert_eq!(groups[0].backend_index, 1);
    assert_eq!(groups[0].backend_name, "b1");
    assert_eq!(groups[0].base_url, "https://x/api");
    let keys: Vec<&str> = groups[0].keys.iter().map(|k| k.key.as_str()).collect();
    assert_eq!(keys, vec!["k0", "k1"]);
    assert_eq!(key_indices(&groups[0]), vec![0, 1]);
    assert_eq!(r.config().backends.len(), 2);
    assert_eq!(r.config().backends[1].base_url, "https://x/api///");
}

#[test]
fn unserved_model_has_no_backend() {
    let r = two_backends();
    assert!(r.resolve_at("unknown", 0).is_empty());
    assert!(Resolver::new(Arc::new(Config::default())).resolve("m").is_empty());
}

#[test]
fn exhausted_key_comes_back_after_its_cooldown() {
    let mut r = three_keys();
    r.mark_key_exhausted_at(0, 0, 5 * SECOND);
    assert_eq!(key_indices(&r.resolve_at("m", 5 * SECOND)[0]), vec![1, 2]);
    assert_eq!(key_indices(&r.resolve_at("m", 65 * SECOND - 1)[0]), vec![1, 2]);
    assert_eq!(key_indices(&r.resolve_at("m", 65 * SECOND)[0]), vec![1, 2, 0]);
}

#[test]
fn unreachable_backend_comes_back_after_its_cooldown() {
    let mut r = two_backends();
    r.mark_backend_unreachable_at(0, SECOND);
    assert_eq!(names(&r.resolve_at("m", 11 * SECOND - 1)), vec!["b"]);
    assert_eq!(names(&r.resolve_at("m", 11 * SECOND)), vec!["a", "b"]);
}

#[test]
fn cooldowns_can_be_chosen() {
    let config = Arc::new(Config {
        backends: vec![
            backend("a", "https://a", &["k0", "k1"], &["m"]),
            backend("b", "https://b", &["bk"], &["m"]),
        ],
    });
    let mut r = Resolver::new_with_cooldowns(config.clone(), 7, 3);
    r.mark_key_exhausted_at(0, 0, 10);
    assert_eq!(key_indices(&r.resolve_at("m", 16)[0]), vec![1]);
    assert_eq!(key_indices(&r.resolve_at("m", 17)[0]), vec![1, 0]);
    r.mark_backend_unreachable_at(1, 10);
    assert_eq!(names(&r.resolve_at("m", 12)), vec!["a"]);
    assert_eq!(names(&r.resolve_at("m", 13)), vec!["a", "b"]);

    let mut patient = Resolver::new_with_cooldowns(config, LONGEST, LONGEST);
    patient.mark_key_exhausted(0, 0);
    assert_eq!(key_indices(&patient.resolve("m")[0]), vec![1]);
}

#[test]
fn backend_with_all_keys_exhausted_is_left_out() {
    let mut r = two_backends();
    r.mark_key_exhausted_at(0, 0, 0);
    assert_eq!(names(&r.resolve_at("m", SECOND)), vec!["b"]);
    r.mark_key_exhausted_at(1, 0, 0);
    // Exhausted keys alone do not call for the last resort.
    assert!(r.resolve_at("m", SECOND).is_empty());
}

#[test]
fn last_resort_tries_exhausted_keys_too() {
    let mut r = three_keys();
    r.mark_key_exhausted_at(0, 1, 0);
    r.mark_backend_unreachable_at(0, 0);
    assert_eq!(key_indices(&r.resolve_at("m", SECOND)[0]), vec![2, 0, 1]);
}

#[test]
fn success_brings_the_backend_back() {
    let mut r = two_backends();
    r.mark_backend_unreachable_at(0, 0);
    r.mark_key_exhausted_at(0, 0, 0);
    r.mark_key_ok(0, 0);
    assert_eq!(names(&r.resolve_at("m", 1)), vec!["a", "b"]);
}

#[test]
fn success_with_an_unknown_key_still_brings_the_backend_back() {
    let mut r = two_backends();
    r.mark_backend_unreachable_at(0, 0);
    r.mark_key_ok(0, 17);
    assert_eq!(names(&r.resolve_at("m", 1)), vec!["a", "b"]);
}

#[test]
fn preferred_key_is_reused() {
    let mut r = three_keys();
    r.mark_key_exhausted_at(0, 0, 0);
    for t in 1..5u128 {
        let groups = r.resolve_at("m", t);
        assert_eq!(groups[0].keys[0].key, "k1");
        r.mark_key_ok(0, groups[0].keys[0].key_index);
    }
}

#[test]
fn preference_wraps_around() {
    let mut r = three_keys();
    r.mark_key_exhausted_at(0, 2, 0);
    assert_eq!(key_indices(&r.resolve_at("m", 60 * SECOND)[0]), vec![0, 1, 2]);
    // A position beyond the list only moves the preference.
    r.mark_key_exhausted_at(0, 4, 0);
    assert_eq!(key_indices(&r.resolve_at("m", 60 * SECOND)[0]), vec![2, 0, 1]);
}

#[test]
fn marks_leave_other_backends_alone() {
    let mut r = two_backends();
    r.mark_key_exhausted_at(1, 0, 0);
    assert_eq!(names(&r.resolve_at("m", 1)), vec!["a"]);
    r.mark_key_ok(0, 0);
    assert_eq!(names(&r.resolve_at("m", 1)), vec!["a"]);
}

#[test]
fn marks_outside_the_configuration_do_nothing() {
    let mut r = two_backends();
    r.mark_key_ok(2, 0);
    r.mark_key_exhausted(2, usize::MAX);
    r.mark_backend_unreachable(2);
    assert_eq!(names(&r.resolve_at("m", 0)), vec!["a", "b"]);
    assert_eq!(key_indices(&r.resolve_at("m", 0)[0]), vec![0]);
}

#[test]
fn everything_comes_back_in_time() {
    let mut r = three_keys();
    for k in 0..3 {
        r.mark_key_exhausted_at(0, k, SECOND);
    }
    r.mark_backend_unreachable_at(0, SECOND);
    assert_eq!(key_indices(&r.resolve_at("m", 61 * SECOND)[0]), vec![0, 1, 2]);
}

#[test]
fn own_clock_goes_forward() {
    let r = three_keys();
    let a = r.now();
    let b = r.now();
    assert!(a <= b);
    assert!(b <= LONGEST);
}

#[test]
fn preferred_key_is_kept_until_exhaustion() {
    let mut r = Resolver::new(Arc::new(Config {
        backends: vec![
            backend("a", "https://a", &["a0", "a1"], &["m"]),
            backend("b", "https://b", &["b0"], &["m"]),
        ],
    }));
    r.mark_key_ok(0, 1);
    r.mark_backend_unreachable_at(0, SECOND);
    r.mark_key_exhausted_at(1, 0, SECOND);
    r.mark_backend_unreachable_at(1, SECOND);
    for now in [SECOND, 30 * SECOND, 90 * SECOND] {
        assert_eq!(r.resolve_at("m", now)[0].keys[0].key, "a0");
    }
    r.mark_key_exhausted_at(0, 0, 90 * SECOND);
    assert_eq!(r.resolve_at("m", 91 * SECOND)[0].keys[0].key, "a1");
}

#[test]
fn preference_can_be_moved() {
    let mut r = three_keys();
    r.prefer_key(0, 2);
    assert_eq!(key_indices(&r.resolve_at("m", 0)[0]), vec![2, 0, 1]);
    r.prefer_key(0, 3);
    r.prefer_key(1, 0);
    assert_eq!(key_indices(&r.resolve_at("m", 0)[0]), vec![2, 0, 1]);
}

#[test]
fn resolved_backends_can_be_copied() {
    let groups = three_keys().resolve_at("m", 0);
    let copy = groups.clone();
    assert_eq!(copy[0].base_url, groups[0].base_url);
    assert_eq!(copy[0].keys[2].clone().key, "k2");
}
