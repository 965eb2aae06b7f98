//! Pinning the hot thread to an isolated core: the last core the OS lets
//! this thread run on, away from core 0.
use vstd::prelude::*;

verus! {

/// Outcome of an attempt to pin the current thread to an isolated core.
#[derive(Debug, Clone, Copy)]
pub struct CoreIsolation {
    pub pinned: bool,
    pub core: Option<usize>,
    pub total_cores: usize,
}

/// The ids of the cores the current thread may run on
/// (`core_affinity::get_core_ids`), or `None` when the OS does not say. On
/// Linux every id is below `CPU_SETSIZE` (1024), the size of the mask it is
/// read from; which cores are listed depends on the machine.
#[verifier::external_body]
fn core_ids() -> (r: Option<Vec<usize>>)
    ensures
        r matches Some(v) ==> forall|i: int| 0 <= i < v@.len() ==> #[trigger] v@[i] < 1024,
{
    match core_affinity::get_core_ids() {
        Some(ids) => Some(ids.iter().map(|c| c.id).collect()),
        None => None,
    }
}

/// Pins the current thread to core `id` (`core_affinity::set_for_current`);
/// whether the OS accepts is up to the machine. On Linux the id indexes a
/// mask of 1024 bits, so a larger id would panic.
#[verifier::external_body]
fn set_for_current(id: usize) -> bool
    requires
        id < 1024,
{
    core_affinity::set_for_current(core_affinity::CoreId { id })
}

/// The core to pin to and the number of cores: the last listed core, when
/// any is listed.
pub fn last_core(ids: &Option<Vec<usize>>) -> (r: Option<(usize, usize)>)
    ensures
        match ids {
            Some(v) => if v@.len() > 0 {
                r == Some((v@[v@.len() - 1], v@.len() as usize))
            } else {
                r is None
            },
            None => r is None,
        },
{
    match ids {
        Some(v) => {
            if v.len() > 0 {
                Some((v[v.len() - 1], v.len()))
            } else {
                None
            }
        },
        None => None,
    }
}

/// The outcome of pinning, given the listed core ids and whether the OS
/// accepted the pin: the last listed core and the number of listed cores, or
/// nothing pinned when no core is listed.
pub open spec fn spec_isolation(ids: Option<Vec<usize>>, pinned: bool) -> CoreIsolation {
    match ids {
        Some(v) => if v@.len() > 0 {
            CoreIsolation { pinned, core: Some(v@[v@.len() - 1]), total_cores: v@.len() as usize }
        } else {
            CoreIsolation { pinned: false, core: None, total_cores: 0 }
        },
        None => CoreIsolation { pinned: false, core: None, total_cores: 0 },
    }
}

/// Builds the outcome of pinning from the core listing and the OS's answer
/// to the pin request.
pub fn core_isolation(ids: &Option<Vec<usize>>, pinned: bool) -> (iso: CoreIsolation)
    ensures
        iso == spec_isolation(*ids, pinned),
{
    match last_core(ids) {
        Some((id, total)) => CoreIsolation { pinned, core: Some(id), total_cores: total },
        None => CoreIsolation { pinned: false, core: None, total_cores: 0 },
    }
}

/// Pin the current thread to the last available core. Never panics: when the
/// OS cannot list cores, or rejects the pin, the thread keeps its normal
/// scheduling and the outcome says so.
pub fn pin_to_last_core() -> (iso: CoreIsolation)
    ensures
        iso.pinned ==> iso.core is Some,
        iso.core is Some ==> iso.total_cores >= 1 && iso.core->0 < 1024,
        iso.core is None ==> !iso.pinned && iso.total_cores == 0,
{
    let ids = core_ids();
    let pinned = match last_core(&ids) {
        Some((id, _)) => {
            proof {
                let v = ids->0;
                assert(v@[v@.len() - 1] < 1024);
            }
            set_for_current(id)
        },
        None => false,
    };
    let iso = core_isolation(&ids, pinned);
    proof {
        if iso.core is Some {
            let v = ids->0;
            assert(v@[v@.len() - 1] < 1024);
        }
    }
    iso
}

} // verus!
