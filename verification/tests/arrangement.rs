use lofi::music::arrangement::{
    pick, selector_for, Arrangement, Codename, Params, Role, RolePlan, CATALOG, ROLES,
};

#[test]
fn roles_spread_across_devices() {
    assert_eq!(RolePlan::for_module(0, 1).mask().count_ones(), 5);

    for size in 2..=10 {
        let mut covered = 0;
        for index in 0..size {
            let plan = RolePlan::for_module(index, size);
            let count = plan.mask().count_ones();
            assert!(
                (2..=3).contains(&count),
                "{size} boxes, module {index}: {count} roles"
            );
            assert!(plan.contains(Role::Pulse) || plan.contains(Role::Pocket));
            assert!(
                plan.contains(Role::Low) || plan.contains(Role::Color) || plan.contains(Role::Motif)
            );
            assert_ne!(count, ROLES.len() as u32);
            assert!((10..=70).contains(&plan.output_trim_tenths()));
            covered |= plan.mask();
        }
        assert_eq!(
            covered.count_ones(),
            5,
            "{size} boxes did not cover every role"
        );
    }

    assert_eq!(RolePlan::for_module(0, 2).mask().count_ones(), 3);
    assert_eq!(RolePlan::for_module(1, 2).mask().count_ones(), 2);
}

#[test]
fn arrangement_is_deterministic_and_evolves() {
    let roster = [1u64, 2, 3];
    let a = Arrangement::at(99, &roster, 4);
    let b = Arrangement::at(99, &roster, 4);
    assert_eq!(a.params, b.params);
    assert_eq!(a.spotlight, b.spotlight);
    // A later phrase generally differs.
    let c = Arrangement::at(99, &roster, 9);
    assert_ne!(a.codename(), c.codename());
}

#[test]
fn exactly_one_lane_owns_each_phrase_spotlight() {
    let roster = [1u64, 2, 3];
    for seed in 0..64 {
        for phrase in 0..64 {
            let arrangement = Arrangement::at(seed, &roster, phrase);
            let selector = selector_for(&roster, phrase);
            assert_eq!(arrangement.spotlight, pick(seed, phrase, selector).role());
        }
    }
}

#[test]
fn selector_vectors_are_architecture_width_independent() {
    let roster = [1u64, 2, 3];
    let walk = Arrangement::at(0, &roster, 4);
    assert_eq!(walk.selector, 2);
    assert_eq!(walk.spotlight, Role::Low);
    assert!(walk.params.bass_walk);

    let sparse = Arrangement::at(2, &roster, 18);
    assert_eq!(sparse.spotlight, Role::Pocket);
    assert_eq!(sparse.params.hat_density, 0);
}

#[test]
fn listening_profiles_resolve_to_their_named_spotlights() {
    let roster = [1u64, 2, 3];
    for (seed, phrase) in [(0, 10), (1, 12), (2, 21)] {
        let value = Arrangement::at(seed, &roster, phrase);
        assert_eq!(value.spotlight, Role::Pulse);
        assert!(value.params.half_time);
    }
    for (seed, phrase) in [(3, 8), (4, 58), (5, 6)] {
        let value = Arrangement::at(seed, &roster, phrase);
        assert_eq!(value.spotlight, Role::Pocket);
        assert_eq!(value.params.hat_density, 2);
    }
    for (seed, phrase) in [(6, 13), (7, 24), (8, 13)] {
        let value = Arrangement::at(seed, &roster, phrase);
        assert_eq!(value.spotlight, Role::Low);
        assert!(value.params.bass_walk);
    }
    for (seed, phrase) in [(12, 17), (10, 14), (11, 14)] {
        let value = Arrangement::at(seed, &roster, phrase);
        assert_eq!(value.spotlight, Role::Pocket);
        assert_eq!(value.params.hat_density, 0);
    }
}

#[test]
fn arrangement_has_a_bounded_variation_budget() {
    let roster = [1u64, 2, 3, 4];
    for seed in 0..64 {
        for phrase in 0..64 {
            let actual = Arrangement::at(seed, &roster, phrase).params;
            let mut candidates = [Params::base(seed); CATALOG.len() * CATALOG.len()];
            let mut len = 0;
            for first in CATALOG {
                for second in CATALOG {
                    let mut params = Params::base(seed);
                    first.apply(&mut params);
                    second.apply(&mut params);
                    candidates[len] = params;
                    len += 1;
                }
            }
            assert!(
                phrase == 0 || candidates[..len].contains(&actual),
                "phrase {phrase} exceeded two active feature cards"
            );
        }
    }
}

#[test]
fn every_selectable_feature_changes_rendered_parameters() {
    for feature in CATALOG {
        let before = Params::base(2);
        let mut after = before;
        feature.apply(&mut after);
        assert_ne!(before, after, "{feature:?} is not an audible variation");
    }
}

#[test]
fn codename_is_pronounceable_and_stable() {
    let n = Codename::coin(12345);
    assert_eq!(n, Codename::coin(12345));
    let s = n.as_str();
    assert!(s.len() >= 4 && s.is_ascii());
}

#[test]
fn codenames_alternate_consonants_and_vowels() {
    for hash in [0u32, 1, 7, 12345, 99_999, u32::MAX] {
        let name = Codename::coin(hash);
        let text = name.as_str().as_bytes().to_vec();
        assert!(text.len() == 4 || text.len() == 6);
        assert!(text[0].is_ascii_uppercase());
        for (i, c) in text.iter().enumerate() {
            let lower = c.to_ascii_lowercase();
            if i % 2 == 0 {
                assert!(b"bdfgklmnprstvzjh".contains(&lower));
            } else {
                assert!(b"aeiouy".contains(&lower));
            }
        }
    }
    assert_eq!(Codename::default(), Codename::coin(0));
}

#[test]
fn roles_have_labels_and_features_have_codes() {
    assert_eq!(Role::Pulse.label(), "PULSE");
    assert_eq!(Role::Pocket.label(), "POCKET");
    assert_eq!(Role::Motif.label(), "MOTIF");
    assert_eq!(CATALOG[0].code(), 1);
    assert_eq!(CATALOG[16].code(), 21);
    assert_eq!(CATALOG[9].role(), Role::Low);
    assert!(Role::Low.assigned_to(0, 3));
    assert_eq!(Role::primary(1, 3), Role::Pocket);
}

#[test]
fn next_codename_previews_the_next_phrase() {
    let roster = [4u64, 9];
    for phrase in 0..20 {
        assert_eq!(
            Arrangement::next_codename(5, &roster, phrase),
            Arrangement::at(5, &roster, phrase + 1).codename()
        );
    }
}

#[test]
fn empty_roster_selects_node_zero() {
    assert_eq!(selector_for(&[], 7), 0);
    assert_eq!(selector_for(&[4, 5, 6], -1), 6);
}

#[test]
fn plans_wrap_round_the_roster() {
    for size in 0..=9usize {
        for index in 0..40usize {
            let wrapped = index % size.max(1);
            assert_eq!(RolePlan::for_module(index, size), RolePlan::for_module(wrapped, size));
        }
    }
    assert_eq!(RolePlan::for_module(5, 0), RolePlan::for_module(0, 1));
    assert_eq!(RolePlan::for_module(7, 1).primary(), Role::Pulse);
}
