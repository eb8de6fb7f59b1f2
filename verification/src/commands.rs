//! What each command decides, as functions from queried state to a result.
//!
//! Every command queries the platform afresh, hands the plain values to one
//! of these functions, and then only performs what the returned value says:
//! print a listing, invoke the mode-set call on one display, or fail with an
//! error. The contracts pin the decision for every input, in particular that
//! a mode-set request is rejected before any framework call when the mode
//! number is not in the display's own list.

use vstd::prelude::*;

use crate::display::{
    find_display_by_id, find_display_by_uuid, is_first_id_match, is_first_uuid_match,
    uuid_matches, DisplayRecord, ManagerState,
};
use crate::error::CommandError;
use crate::listing::{categorize_modes, categorized_group, ModeListing};
use crate::mode::{CgGeometry, CurrentModeContext, ModeDescriptor, Tolerances};

verus! {

/// Whether a mode list holds a mode with the given number.
pub open spec fn mode_list_contains(s: Seq<ModeDescriptor>, n: i32) -> bool {
    exists|i: int| 0 <= i < s.len() && s[i].mode_number == n
}

/// Decides whether a mode number appears in a display's mode list: the
/// existence check a mode-set request must pass before any framework call.
pub fn mode_exists(modes: &Vec<ModeDescriptor>, n: i32) -> (r: bool)
    ensures
        r == mode_list_contains(modes@, n),
{
    let len = modes.len();
    let mut i: usize = 0;
    while i < len
        invariant
            len == modes@.len(),
            i <= len,
            forall|j: int| 0 <= j < i ==> modes@[j].mode_number != n,
        decreases len - i,
    {
        if modes[i].mode_number == n {
            assert(modes@[i as int].mode_number == n);
            return true;
        }
        i = i + 1;
    }
    false
}

/// Every mode number taken from a display's own full mode list passes the
/// existence check: the validation never falsely rejects a listed mode.
pub proof fn lemma_listed_mode_accepted(s: Seq<ModeDescriptor>, i: int)
    requires
        0 <= i < s.len(),
    ensures
        mode_list_contains(s, s[i].mode_number),
{
    assert(0 <= i < s.len() && s[i].mode_number == s[i].mode_number);
}

/// The current mode number a persistent UUID resolves to: the first display
/// whose UUID matches, case-insensitively, queried for its authoritative
/// current mode. Fails exactly when the manager is unavailable, the UUID
/// matches no display, or the matched display reports no current mode.
pub fn resolve_current_mode(state: &ManagerState, query: &Vec<u8>) -> (r: Result<
    i32,
    CommandError,
>)
    ensures
        state is Unavailable ==> r == Err::<i32, CommandError>(CommandError::ManagerUnavailable),
        state matches ManagerState::Ready(records) ==> {
            &&& (forall|j: int| 0 <= j < records@.len() ==> !uuid_matches(records@[j], query@))
                ==> r == Err::<i32, CommandError>(CommandError::PersistentDisplayNotFound)
            &&& forall|i: int| is_first_uuid_match(records@, query@, Some(i)) ==> (
            match records@[i].current_mode_number {
                Some(n) => r == Ok::<i32, CommandError>(n),
                None => r == Err::<i32, CommandError>(CommandError::ModesUnavailableForDisplay),
            })
        },
{
    match state {
        ManagerState::Unavailable => Err(CommandError::ManagerUnavailable),
        ManagerState::Ready(records) => match find_display_by_uuid(records, query) {
            None => Err(CommandError::PersistentDisplayNotFound),
            Some(i) => {
                let rec = &records[i];
                match rec.current_mode_number {
                    Some(n) => Ok(n),
                    None => Err(CommandError::ModesUnavailableForDisplay),
                }
            },
        },
    }
}

/// A validated mode-set request: the index of the display the set call must
/// go to. Produced only after the mode number was found in that display's
/// own list; every failure is decided before any framework call, so a number
/// not in the list causes no side effect at all.
pub fn plan_set_mode(state: &ManagerState, query: &Vec<u8>, mode_number: i32) -> (r: Result<
    usize,
    CommandError,
>)
    ensures
        state is Unavailable ==> r == Err::<usize, CommandError>(CommandError::ManagerUnavailable),
        state matches ManagerState::Ready(records) ==> {
            &&& (forall|j: int| 0 <= j < records@.len() ==> !uuid_matches(records@[j], query@))
                ==> r == Err::<usize, CommandError>(CommandError::PersistentDisplayNotFound)
            &&& forall|i: int| is_first_uuid_match(records@, query@, Some(i)) ==> (
            match records@[i].modes {
                Some(modes) => if mode_list_contains(modes@, mode_number) {
                    r matches Ok(k) && k as int == i
                } else {
                    r == Err::<usize, CommandError>(CommandError::ModeNotFoundForDisplay)
                },
                None => r == Err::<usize, CommandError>(CommandError::ModesUnavailableForDisplay),
            })
        },
{
    match state {
        ManagerState::Unavailable => Err(CommandError::ManagerUnavailable),
        ManagerState::Ready(records) => match find_display_by_uuid(records, query) {
            None => Err(CommandError::PersistentDisplayNotFound),
            Some(i) => {
                let rec = &records[i];
                match &rec.modes {
                    Some(modes) => if mode_exists(modes, mode_number) {
                        Ok(i)
                    } else {
                        Err(CommandError::ModeNotFoundForDisplay)
                    },
                    None => Err(CommandError::ModesUnavailableForDisplay),
                }
            },
        },
    }
}

/// Classifies the mode-set call's result code: zero is the only success,
/// any other code is surfaced as a failure carrying that code.
pub fn classify_set_result(code: i32) -> (r: Result<(), CommandError>)
    ensures
        code == 0 ==> r is Ok,
        code != 0 ==> r == Err::<(), CommandError>(CommandError::SetOperationFailed(code)),
{
    if code == 0 {
        Ok(())
    } else {
        Err(CommandError::SetOperationFailed(code))
    }
}

/// What listing the modes of one display comes to.
#[derive(Clone, Debug, PartialEq, Eq)]
pub enum ModeListingOutcome {
    /// The mode manager could not be reached: the caller prints a
    /// placeholder and carries on, exiting 0.
    ManagerUnavailable,
    /// The manager knows no display with the requested numeric ID.
    DisplayNotFound,
    /// The display is known but yielded no mode list.
    ModesUnavailable,
    /// The categorized listing to present.
    Categorized(ModeListing),
}

/// The current-mode signals a record and the public API provide.
pub open spec fn context_of(rec: DisplayRecord, geometry: Option<CgGeometry>) -> CurrentModeContext {
    CurrentModeContext { authoritative: rec.current_mode_number, geometry }
}

/// Resolves one display's categorized mode listing from the queried manager
/// state: finds the record by numeric ID, then groups, marks, and sorts its
/// modes against the display's own current-mode signal and the public API's
/// reported geometry. Degrades to an explicit placeholder outcome, never an
/// error, when the manager, the display, or its modes are missing.
pub fn mode_listing_for_display(
    state: &ManagerState,
    cg_id: u32,
    cg_current: Option<CgGeometry>,
    tol: &Tolerances,
) -> (r: ModeListingOutcome)
    ensures
        state is Unavailable ==> r == ModeListingOutcome::ManagerUnavailable,
        state matches ManagerState::Ready(records) ==> {
            &&& (forall|j: int| 0 <= j < records@.len() ==> records@[j].id != cg_id as i32) ==> r
                == ModeListingOutcome::DisplayNotFound
            &&& forall|i: int| is_first_id_match(records@, cg_id, Some(i)) ==> (
            match records@[i].modes {
                Some(modes) => (r matches ModeListingOutcome::Categorized(l) && l.hidpi@
                    == categorized_group(
                    modes@,
                    true,
                    context_of(records@[i], cg_current),
                    *tol,
                ) && l.standard@ == categorized_group(
                    modes@,
                    false,
                    context_of(records@[i], cg_current),
                    *tol,
                )),
                None => r == ModeListingOutcome::ModesUnavailable,
            })
        },
{
    match state {
        ManagerState::Unavailable => ModeListingOutcome::ManagerUnavailable,
        ManagerState::Ready(records) => match find_display_by_id(records, cg_id) {
            None => ModeListingOutcome::DisplayNotFound,
            Some(i) => {
                let rec = &records[i];
                match &rec.modes {
                    None => ModeListingOutcome::ModesUnavailable,
                    Some(modes) => {
                        let ctx = CurrentModeContext {
                            authoritative: rec.current_mode_number,
                            geometry: cg_current,
                        };
                        let l = categorize_modes(modes, &ctx, tol);
                        ModeListingOutcome::Categorized(l)
                    },
                }
            },
        },
    }
}

} // verus!
