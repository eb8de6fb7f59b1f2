use displayconfig::listing::{categorize_modes, ModeListing};
use displayconfig::mode::{
    matches_cg_geometry, CgGeometry, CurrentModeContext, ModeDescriptor, Tolerances,
};

fn mode(number: i32, hidpi: bool, visible: bool) -> ModeDescriptor {
    ModeDescriptor {
        mode_number: number,
        width: 1024,
        height: 768,
        pixels_wide: if hidpi { 2048 } else { 1024 },
        pixels_high: if hidpi { 1536 } else { 768 },
        refresh_rate: 60,
        scale_milli: if hidpi { 2000 } else { 1000 },
        is_hidpi: hidpi,
        is_retina: false,
        is_native: false,
        is_default: false,
        is_user_visible: visible,
    }
}

fn numbers(entries: &[displayconfig::listing::ModeEntry]) -> Vec<i32> {
    entries.iter().map(|e| e.mode.mode_number).collect()
}

fn current_numbers(listing: &ModeListing) -> Vec<i32> {
    let mut out = Vec::new();
    for e in listing.hidpi.iter().chain(listing.standard.iter()) {
        if e.is_current {
            out.push(e.mode.mode_number);
        }
    }
    out
}

fn no_signal() -> CurrentModeContext {
    CurrentModeContext { authoritative: None, geometry: None }
}

#[test]
fn listing_filters_groups_and_sorts() {
    let modes = vec![
        mode(5, false, true),
        mode(3, true, true),
        mode(1, true, true),
        mode(2, false, false), // hidden: never presented
        mode(4, false, true),
    ];
    let listing = categorize_modes(&modes, &no_signal(), &Tolerances::default());
    assert_eq!(numbers(&listing.hidpi), vec![1, 3]);
    assert_eq!(numbers(&listing.standard), vec![4, 5]);
    assert_eq!(current_numbers(&listing), Vec::<i32>::new());
}

#[test]
fn retina_flag_alone_selects_the_hidpi_group() {
    let mut retina = mode(8, false, true);
    retina.is_retina = true;
    let modes = vec![retina, mode(6, false, true)];
    let listing = categorize_modes(&modes, &no_signal(), &Tolerances::default());
    assert_eq!(numbers(&listing.hidpi), vec![8]);
    assert_eq!(numbers(&listing.standard), vec![6]);
}

#[test]
fn grouping_is_deterministic() {
    // Re-running the procedure on the same input yields the identical
    // ordered, categorized listing.
    let modes = vec![
        mode(5, false, true),
        mode(3, true, true),
        mode(1, true, true),
        mode(4, false, true),
    ];
    let ctx = CurrentModeContext {
        authoritative: Some(3),
        geometry: None,
    };
    let first = categorize_modes(&modes, &ctx, &Tolerances::default());
    let second = categorize_modes(&modes, &ctx, &Tolerances::default());
    assert_eq!(first, second);
}

#[test]
fn authoritative_signal_marks_exactly_one_mode() {
    let modes = vec![
        mode(5, false, true),
        mode(3, true, true),
        mode(1, true, true),
        mode(4, false, true),
    ];
    let ctx = CurrentModeContext {
        authoritative: Some(4),
        geometry: None,
    };
    let listing = categorize_modes(&modes, &ctx, &Tolerances::default());
    assert_eq!(current_numbers(&listing), vec![4]);
}

#[test]
fn heuristic_marks_only_the_scale_correct_variant() {
    // Two HiDPI variants of the same logical size and refresh rate, with the
    // same reported scale: only the one whose pixel size the scale actually
    // predicts is marked current.
    let scale_correct = ModeDescriptor {
        mode_number: 11,
        width: 1680,
        height: 1050,
        pixels_wide: 3360,
        pixels_high: 2100,
        refresh_rate: 60,
        scale_milli: 2000,
        is_hidpi: true,
        is_retina: true,
        is_native: false,
        is_default: false,
        is_user_visible: true,
    };
    let scale_incorrect = ModeDescriptor {
        pixels_wide: 1680,
        pixels_high: 1050,
        mode_number: 12,
        ..scale_correct
    };
    let modes = vec![scale_incorrect, scale_correct];
    let ctx = CurrentModeContext {
        authoritative: None,
        geometry: Some(CgGeometry {
            width: 1680,
            height: 1050,
            refresh_milli: 60_000,
        }),
    };
    let listing = categorize_modes(&modes, &ctx, &Tolerances::default());
    assert_eq!(numbers(&listing.hidpi), vec![11, 12]);
    assert_eq!(current_numbers(&listing), vec![11]);
}

#[test]
fn geometry_match_tolerates_a_close_refresh_rate() {
    let m = mode(7, true, true);
    let tol = Tolerances::default();
    let near = CgGeometry {
        width: 1024,
        height: 768,
        refresh_milli: 59_940,
    };
    assert!(matches_cg_geometry(&near, &m, &tol));
    let far = CgGeometry {
        width: 1024,
        height: 768,
        refresh_milli: 58_900,
    };
    assert!(!matches_cg_geometry(&far, &m, &tol));
}

#[test]
fn geometry_match_requires_the_logical_size() {
    let m = mode(7, false, true);
    let tol = Tolerances::default();
    let wrong_size = CgGeometry {
        width: 800,
        height: 600,
        refresh_milli: 60_000,
    };
    assert!(!matches_cg_geometry(&wrong_size, &m, &tol));
}

#[test]
fn equal_mode_numbers_keep_their_input_order() {
    // The sort is stable, so the whole procedure stays deterministic even
    // when the manager hands out duplicate mode numbers.
    let mut a = mode(5, false, true);
    a.refresh_rate = 60;
    let mut b = mode(5, false, true);
    b.refresh_rate = 75;
    let modes = vec![mode(9, false, true), a, b];
    let listing = categorize_modes(&modes, &no_signal(), &Tolerances::default());
    assert_eq!(numbers(&listing.standard), vec![5, 5, 9]);
    assert_eq!(listing.standard[0].mode.refresh_rate, 60);
    assert_eq!(listing.standard[1].mode.refresh_rate, 75);
}

#[test]
fn default_tolerances_are_the_historic_ones() {
    let tol = Tolerances::default();
    assert_eq!(tol.logical_milli, 100);
    assert_eq!(tol.refresh_milli, 1000);
    assert_eq!(tol.pixel_milli, 1000);
}
