use displayconfig::commands::{
    classify_set_result, mode_exists, mode_listing_for_display, plan_set_mode,
    resolve_current_mode, ModeListingOutcome,
};
use displayconfig::display::{DisplayRecord, ManagerState};
use displayconfig::error::CommandError;
use displayconfig::mode::{CgGeometry, ModeDescriptor, Tolerances};
use displayconfig::watch::{watch_step, WatchAction, WatchEvent, WatcherState};

fn mode(number: i32, hidpi: bool, visible: bool) -> ModeDescriptor {
    ModeDescriptor {
        mode_number: number,
        width: 1024,
        height: 768,
        pixels_wide: if hidpi { 2048 } else { 1024 },
        pixels_high: if hidpi { 1536 } else { 768 },
        refresh_rate: 60,
        scale_milli: if hidpi { 2000 } else { 1000 },
        is_hidpi: hidpi,
        is_retina: false,
        is_native: false,
        is_default: false,
        is_user_visible: visible,
    }
}

fn sample_state() -> ManagerState {
    ManagerState::Ready(vec![
        DisplayRecord {
            id: 1,
            uuid: Some(b"AAAA-0001".to_vec()),
            current_mode_number: Some(3),
            modes: Some(vec![mode(3, true, true), mode(4, false, true)]),
        },
        DisplayRecord {
            id: 2,
            uuid: Some(b"BBBB-0002".to_vec()),
            current_mode_number: None,
            modes: None,
        },
    ])
}

#[test]
fn resolve_reports_the_authoritative_mode_number() {
    let state = sample_state();
    assert_eq!(resolve_current_mode(&state, &b"AAAA-0001".to_vec()), Ok(3));
    // Case-insensitive: the same display under a differently cased UUID.
    assert_eq!(resolve_current_mode(&state, &b"aaaa-0001".to_vec()), Ok(3));
}

#[test]
fn resolve_distinguishes_each_failure() {
    let state = sample_state();
    assert_eq!(
        resolve_current_mode(&state, &b"CCCC-0003".to_vec()),
        Err(CommandError::PersistentDisplayNotFound)
    );
    assert_eq!(
        resolve_current_mode(&state, &b"bbbb-0002".to_vec()),
        Err(CommandError::ModesUnavailableForDisplay)
    );
    assert_eq!(
        resolve_current_mode(&ManagerState::Unavailable, &b"AAAA-0001".to_vec()),
        Err(CommandError::ManagerUnavailable)
    );
}

#[test]
fn every_listed_mode_number_is_accepted() {
    // No false negatives: each number taken from the display's own full mode
    // list passes the existence check.
    let modes = vec![mode(3, true, true), mode(4, false, true), mode(9, false, false)];
    for m in modes.iter() {
        assert!(mode_exists(&modes, m.mode_number));
    }
}

#[test]
fn unlisted_mode_numbers_are_rejected_before_any_set_call() {
    // A number not in the display's list never reaches the set operation:
    // the plan is an error, so the caller makes no framework call.
    let state = sample_state();
    assert_eq!(
        plan_set_mode(&state, &b"aaaa-0001".to_vec(), 5),
        Err(CommandError::ModeNotFoundForDisplay)
    );
    let modes = vec![mode(3, true, true), mode(4, false, true)];
    assert!(!mode_exists(&modes, 5));
    assert!(!mode_exists(&modes, -3));
}

#[test]
fn valid_set_requests_name_the_display() {
    let state = sample_state();
    assert_eq!(plan_set_mode(&state, &b"AAAA-0001".to_vec(), 4), Ok(0));
    assert_eq!(plan_set_mode(&state, &b"aAaA-0001".to_vec(), 3), Ok(0));
}

#[test]
fn set_requests_fail_without_displays_or_modes() {
    let state = sample_state();
    assert_eq!(
        plan_set_mode(&state, &b"CCCC-0003".to_vec(), 3),
        Err(CommandError::PersistentDisplayNotFound)
    );
    assert_eq!(
        plan_set_mode(&state, &b"BBBB-0002".to_vec(), 3),
        Err(CommandError::ModesUnavailableForDisplay)
    );
    assert_eq!(
        plan_set_mode(&ManagerState::Unavailable, &b"AAAA-0001".to_vec(), 3),
        Err(CommandError::ManagerUnavailable)
    );
}

#[test]
fn only_a_zero_result_code_is_success() {
    assert_eq!(classify_set_result(0), Ok(()));
    assert_eq!(
        classify_set_result(7),
        Err(CommandError::SetOperationFailed(7))
    );
    assert_eq!(
        classify_set_result(-1),
        Err(CommandError::SetOperationFailed(-1))
    );
}

#[test]
fn listing_outcome_degrades_step_by_step() {
    let tol = Tolerances::default();
    assert_eq!(
        mode_listing_for_display(&ManagerState::Unavailable, 1, None, &tol),
        ModeListingOutcome::ManagerUnavailable
    );
    let state = sample_state();
    assert_eq!(
        mode_listing_for_display(&state, 9, None, &tol),
        ModeListingOutcome::DisplayNotFound
    );
    assert_eq!(
        mode_listing_for_display(&state, 2, None, &tol),
        ModeListingOutcome::ModesUnavailable
    );
}

#[test]
fn listing_outcome_categorizes_and_marks_the_current_mode() {
    let state = sample_state();
    let tol = Tolerances::default();
    let geometry = Some(CgGeometry {
        width: 1024,
        height: 768,
        refresh_milli: 60_000,
    });
    match mode_listing_for_display(&state, 1, geometry, &tol) {
        ModeListingOutcome::Categorized(listing) => {
            assert_eq!(listing.hidpi.len(), 1);
            assert_eq!(listing.standard.len(), 1);
            assert_eq!(listing.hidpi[0].mode.mode_number, 3);
            assert_eq!(listing.standard[0].mode.mode_number, 4);
            // The record's authoritative number (3) wins over geometry.
            assert!(listing.hidpi[0].is_current);
            assert!(!listing.standard[0].is_current);
        }
        other => panic!("expected a categorized listing, got {:?}", other),
    }
}

#[test]
fn listing_outcome_falls_back_to_geometry_without_a_signal() {
    let state = ManagerState::Ready(vec![DisplayRecord {
        id: 1,
        uuid: Some(b"AAAA-0001".to_vec()),
        current_mode_number: None,
        modes: Some(vec![mode(3, true, true), mode(4, false, true)]),
    }]);
    let tol = Tolerances::default();
    let geometry = Some(CgGeometry {
        width: 1024,
        height: 768,
        refresh_milli: 60_000,
    });
    match mode_listing_for_display(&state, 1, geometry, &tol) {
        ModeListingOutcome::Categorized(listing) => {
            // Without an authoritative number the geometry fallback decides.
            // Both modes share the public logical size and refresh rate, and
            // each one's pixel size is what its own scale predicts (2048x1536
            // at scale 2, 1024x768 at scale 1), so the fallback marks both:
            // two scale-consistent variants of one logical size are genuinely
            // ambiguous to it.
            assert!(listing.hidpi[0].is_current);
            assert!(listing.standard[0].is_current);
        }
        other => panic!("expected a categorized listing, got {:?}", other),
    }
}

#[test]
fn watcher_reports_only_while_armed() {
    let event = WatchEvent::Reconfiguration {
        display_id: 42,
        flags: 0x10,
    };
    assert_eq!(
        watch_step(WatcherState::Idle, WatchEvent::Registered),
        (WatcherState::Armed, WatchAction::Silent)
    );
    assert_eq!(
        watch_step(WatcherState::Armed, event),
        (
            WatcherState::Armed,
            WatchAction::Report {
                display_id: 42,
                flags: 0x10
            }
        )
    );
    assert_eq!(
        watch_step(WatcherState::Idle, event),
        (WatcherState::Idle, WatchAction::Silent)
    );
    assert_eq!(
        watch_step(WatcherState::Armed, WatchEvent::Terminated),
        (WatcherState::Idle, WatchAction::Silent)
    );
}
