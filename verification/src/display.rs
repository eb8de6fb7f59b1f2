//! Display identity and lookup.
//!
//! A display is known under two schemes: a session-scoped numeric ID handed
//! out by the public graphics API, and a persistent UUID owned by the mode
//! manager. The pairing is valid only for the current session, so every
//! command re-resolves it from a freshly queried list of records. Lookups are
//! linear scans where the first match wins; UUID comparison ignores ASCII
//! letter case.

use vstd::prelude::*;

use crate::error::CommandError;
use crate::mode::ModeDescriptor;

verus! {

/// One display as the mode manager reports it, flattened to plain values.
/// Fields the manager could not produce are `None`; a missing UUID merely
/// makes the record unmatchable by UUID, never an error.
#[derive(Clone, Debug, PartialEq, Eq)]
pub struct DisplayRecord {
    /// The session-scoped numeric ID, as the manager reports it.
    pub id: i32,
    /// The persistent UUID as ASCII bytes, if the manager yielded one.
    pub uuid: Option<Vec<u8>>,
    /// The authoritative current mode number, if the manager reports one.
    pub current_mode_number: Option<i32>,
    /// The display's full mode list, if the manager yielded one.
    pub modes: Option<Vec<ModeDescriptor>>,
}

/// Whether the mode manager could be reached, and what it reported.
/// Both a missing manager object and a manager without a display list
/// count as unavailable.
#[derive(Clone, Debug, PartialEq, Eq)]
pub enum ManagerState {
    /// No manager instance, or no display list, could be obtained.
    Unavailable,
    /// The manager answered with this display list.
    Ready(Vec<DisplayRecord>),
}

/// An ASCII byte folded to lower case; anything else unchanged.
pub open spec fn lower_byte(b: u8) -> u8 {
    if 65 <= b <= 90 {
        (b + 32) as u8
    } else {
        b
    }
}

/// A byte string folded to ASCII lower case.
pub open spec fn lower_bytes(s: Seq<u8>) -> Seq<u8> {
    s.map_values(|b: u8| lower_byte(b))
}

/// Whether a record's UUID equals the queried one, ignoring ASCII case.
/// A record without a UUID matches nothing.
pub open spec fn uuid_matches(r: DisplayRecord, query: Seq<u8>) -> bool {
    r.uuid matches Some(u) && lower_bytes(u@) == lower_bytes(query)
}

/// What a first-match scan by UUID must return: the index of the earliest
/// matching record, or nothing when no record matches.
pub open spec fn is_first_uuid_match(
    records: Seq<DisplayRecord>,
    query: Seq<u8>,
    r: Option<int>,
) -> bool {
    match r {
        Some(i) => 0 <= i < records.len() && uuid_matches(records[i], query) && (forall|j: int|
            0 <= j < i ==> !uuid_matches(records[j], query)),
        None => forall|j: int| 0 <= j < records.len() ==> !uuid_matches(records[j], query),
    }
}

fn byte_to_lower(b: u8) -> (r: u8)
    ensures
        r == lower_byte(b),
{
    if 65 <= b && b <= 90 {
        b + 32
    } else {
        b
    }
}

/// Compares two byte strings for equality up to ASCII letter case.
pub fn bytes_eq_ignore_case(a: &Vec<u8>, b: &Vec<u8>) -> (r: bool)
    ensures
        r == (lower_bytes(a@) == lower_bytes(b@)),
{
    if a.len() != b.len() {
        assert(lower_bytes(a@).len() != lower_bytes(b@).len());
        return false;
    }
    let n = a.len();
    let mut i: usize = 0;
    while i < n
        invariant
            n == a@.len() == b@.len(),
            i <= n,
            forall|j: int| 0 <= j < i ==> lower_byte(a@[j]) == lower_byte(b@[j]),
        decreases n - i,
    {
        if byte_to_lower(a[i]) != byte_to_lower(b[i]) {
            assert(lower_bytes(a@)[i as int] != lower_bytes(b@)[i as int]);
            return false;
        }
        i = i + 1;
    }
    assert(lower_bytes(a@) =~= lower_bytes(b@));
    true
}

/// Finds the first record whose UUID equals the query up to ASCII case.
pub fn find_display_by_uuid(records: &Vec<DisplayRecord>, query: &Vec<u8>) -> (r: Option<usize>)
    ensures
        match r {
            Some(i) => is_first_uuid_match(records@, query@, Some(i as int)),
            None => is_first_uuid_match(records@, query@, None::<int>),
        },
{
    let n = records.len();
    let mut i: usize = 0;
    while i < n
        invariant
            n == records@.len(),
            i <= n,
            forall|j: int| 0 <= j < i ==> !uuid_matches(records@[j], query@),
        decreases n - i,
    {
        let rec = &records[i];
        match &rec.uuid {
            Some(u) => {
                if bytes_eq_ignore_case(u, query) {
                    return Some(i);
                }
            },
            None => {},
        }
        assert(!uuid_matches(records@[i as int], query@));
        i = i + 1;
    }
    None
}

/// UUID matching is case-insensitive: two queries that agree up to ASCII
/// case make a first-match scan return the same result, so a UUID supplied
/// in a different letter case than stored resolves to the same display.
pub proof fn lemma_uuid_lookup_case_insensitive(
    records: Seq<DisplayRecord>,
    q1: Seq<u8>,
    q2: Seq<u8>,
    r1: Option<int>,
    r2: Option<int>,
)
    requires
        lower_bytes(q1) == lower_bytes(q2),
        is_first_uuid_match(records, q1, r1),
        is_first_uuid_match(records, q2, r2),
    ensures
        r1 == r2,
{
    assert(forall|r: DisplayRecord| uuid_matches(r, q1) == uuid_matches(r, q2));
    match (r1, r2) {
        (Some(i1), Some(i2)) => {
            if i1 < i2 {
                assert(!uuid_matches(records[i1], q2));
            } else if i2 < i1 {
                assert(!uuid_matches(records[i2], q1));
            }
        },
        (Some(i1), None) => {
            assert(!uuid_matches(records[i1], q2));
        },
        (None, Some(i2)) => {
            assert(!uuid_matches(records[i2], q1));
        },
        (None, None) => {},
    }
}

/// What a first-match scan by numeric ID must return: the index of the
/// earliest record with that ID, or nothing when no record carries it.
pub open spec fn is_first_id_match(records: Seq<DisplayRecord>, cg_id: u32, r: Option<int>) -> bool {
    match r {
        Some(i) => 0 <= i < records.len() && records[i].id == cg_id as i32 && (forall|j: int|
            0 <= j < i ==> records[j].id != cg_id as i32),
        None => forall|j: int| 0 <= j < records.len() ==> records[j].id != cg_id as i32,
    }
}

/// Finds the first record whose numeric ID equals the given public-API ID.
/// The public API hands out unsigned IDs while the manager reports signed
/// ones; they are compared after the same narrowing the platform uses.
pub fn find_display_by_id(records: &Vec<DisplayRecord>, cg_id: u32) -> (r: Option<usize>)
    ensures
        match r {
            Some(i) => is_first_id_match(records@, cg_id, Some(i as int)),
            None => is_first_id_match(records@, cg_id, None::<int>),
        },
{
    let wanted: i32 = cg_id as i32;
    let n = records.len();
    let mut i: usize = 0;
    while i < n
        invariant
            n == records@.len(),
            i <= n,
            wanted == cg_id as i32,
            forall|j: int| 0 <= j < i ==> records@[j].id != cg_id as i32,
        decreases n - i,
    {
        if records[i].id == wanted {
            return Some(i);
        }
        i = i + 1;
    }
    None
}

/// Narrows an active-display list to the one requested, or keeps it whole.
/// A filter naming an ID that is not active is a hard error and yields no
/// display data at all.
pub fn filter_displays(active: &Vec<u32>, filter: Option<u32>) -> (r: Result<
    Vec<u32>,
    CommandError,
>)
    ensures
        filter is None ==> (r matches Ok(v) && v@ == active@),
        filter matches Some(id) ==> {
            &&& active@.contains(id) ==> (r matches Ok(v) && v@ == seq![id])
            &&& !active@.contains(id) ==> r == Err::<Vec<u32>, CommandError>(
                CommandError::RequestedDisplayNotFound,
            )
        },
{
    match filter {
        None => {
            let mut copy: Vec<u32> = Vec::new();
            let n = active.len();
            let mut i: usize = 0;
            while i < n
                invariant
                    filter is None,
                    n == active@.len(),
                    i <= n,
                    copy@ == active@.take(i as int),
                decreases n - i,
            {
                copy.push(active[i]);
                assert(copy@ =~= active@.take(i + 1));
                i = i + 1;
            }
            assert(copy@ =~= active@);
            Ok(copy)
        },
        Some(id) => {
            let n = active.len();
            let mut i: usize = 0;
            while i < n
                invariant
                    filter == Some(id),
                    n == active@.len(),
                    i <= n,
                    forall|j: int| 0 <= j < i ==> active@[j] != id,
                decreases n - i,
            {
                if active[i] == id {
                    assert(active@[i as int] == id);
                    assert(active@.contains(id));
                    let mut one: Vec<u32> = Vec::new();
                    one.push(id);
                    assert(one@ =~= seq![id]);
                    return Ok(one);
                }
                i = i + 1;
            }
            assert(!active@.contains(id));
            Err(CommandError::RequestedDisplayNotFound)
        },
    }
}

} // verus!
