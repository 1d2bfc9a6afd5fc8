//! The interception layer: the decision and install step the two host hooks
//! run when an asset is about to enter the host's resource table.
//!
//! The host owns the table entry and its mutex; the boundary code hands this
//! module the entry's current fields under that mutex, and this module decides
//! whether a replacement may be installed and, if so, installs the replacement
//! bytes, the `Loaded` state and the call site's flag value in one step. An
//! entry the host has already finished loading is never touched.

use vstd::prelude::*;

verus! {

/// The host's per-entry load state. Only `Unloaded -> Loaded` is ever driven
/// from here; every other transition belongs to the host.
#[derive(Clone, Copy, Debug, PartialEq, Eq, Structural)]
pub enum FileState {
    Unloaded,
    Loading,
    Loaded,
}

/// The fields of a host table entry that the interception layer reads and
/// writes. `data` stands for the host's byte pointer: `None` is a null
/// pointer, `Some` holds the bytes the pointer leads to. Once installed, the
/// bytes belong to the host for the rest of the process.
pub struct Table2Entry {
    pub data: Option<Vec<u8>>,
    pub state: FileState,
    pub flags: u32,
    pub ref_count: u32,
}

/// The two places in the host's loading pipeline that consult the index:
/// after the host resolved a table index for an asset, and when the host
/// first registers an asset into its table.
#[derive(Clone, Copy, Debug, PartialEq, Eq, Structural)]
pub enum InterceptionPoint {
    PostResolve,
    TableInsert,
}

/// The flag value recording that the post-resolve site supplied the bytes.
pub const FLAG_POST_RESOLVE: u32 = 45;

/// The flag value recording that the table-insert site supplied the bytes.
pub const FLAG_TABLE_INSERT: u32 = 43;

/// The "externally supplied" flag each call site installs.
pub open spec fn point_flag(point: InterceptionPoint) -> u32 {
    match point {
        InterceptionPoint::PostResolve => FLAG_POST_RESOLVE as u32,
        InterceptionPoint::TableInsert => FLAG_TABLE_INSERT as u32,
    }
}

/// Whether a call site may substitute an entry in the given state. Neither
/// site touches an entry already `Loaded`; the table-insert site additionally
/// leaves an `Unloaded` entry alone when its data pointer is already set,
/// because the host itself populated it between registration and this check.
pub open spec fn replacement_allowed(
    point: InterceptionPoint,
    state: FileState,
    data_present: bool,
) -> bool {
    match point {
        InterceptionPoint::PostResolve => state != FileState::Loaded,
        InterceptionPoint::TableInsert => state != FileState::Loaded && !(state
            == FileState::Unloaded && data_present),
    }
}

/// The precondition check of one call site against one entry.
pub fn wants_replacement(point: InterceptionPoint, entry: &Table2Entry) -> (allowed: bool)
    ensures
        allowed == replacement_allowed(point, entry.state, entry.data is Some),
{
    match point {
        InterceptionPoint::PostResolve => entry.state != FileState::Loaded,
        InterceptionPoint::TableInsert => entry.state != FileState::Loaded && !(entry.state
            == FileState::Unloaded && entry.data.is_some()),
    }
}

/// The shared install step of both call sites. If the call site's
/// precondition holds of the entry, the replacement bytes, the `Loaded` state
/// and the site's flag value are installed together — the caller runs this
/// inside the host's table mutex, so no reader sees a half-updated entry. If
/// it does not hold, the entry is left exactly as it was. The reference count
/// is never touched.
pub fn try_install(point: InterceptionPoint, entry: &mut Table2Entry, contents: Vec<u8>) -> (installed: bool)
    ensures
        installed == replacement_allowed(point, old(entry).state, old(entry).data is Some),
        installed ==> final(entry).data == Some(contents) && final(entry).state
            == FileState::Loaded && final(entry).flags == point_flag(point)
            && final(entry).ref_count == old(entry).ref_count,
        !installed ==> *final(entry) == *old(entry),
{
    if wants_replacement(point, entry) {
        entry.data = Some(contents);
        entry.state = FileState::Loaded;
        entry.flags = match point {
            InterceptionPoint::PostResolve => FLAG_POST_RESOLVE,
            InterceptionPoint::TableInsert => FLAG_TABLE_INSERT,
        };
        true
    } else {
        false
    }
}

/// Law: an entry already `Loaded` is never replaced — neither call site's
/// precondition admits it, whatever the data pointer holds, so `try_install`
/// leaves `data`, `state` and `flags` of such an entry unchanged.
pub proof fn lemma_loaded_entry_untouched(point: InterceptionPoint, data_present: bool)
    ensures
        !replacement_allowed(point, FileState::Loaded, data_present),
{
}

/// Law: an `Unloaded` entry with a null data pointer and an override present
/// is replaced at either call site — `try_install` then installs the override
/// bytes verbatim, the `Loaded` state and the site's "externally supplied"
/// flag value.
pub proof fn lemma_unloaded_entry_replaced(point: InterceptionPoint)
    ensures
        replacement_allowed(point, FileState::Unloaded, false),
{
}

} // verus!
