//! Deferred propagation of synthesiser parameters to the voices.
//!
//! Parameter setters only record which group of parameters changed; at the
//! start of each audio block the engine takes the set of changed groups and
//! applies exactly those groups to every voice.

use vstd::prelude::*;
use crate::waveform::Waveform;

verus! {

/// The parameter groups that changed since they were last applied.
#[derive(Debug, Clone, Copy, PartialEq, Eq, Structural)]
pub struct DirtyGroups {
    pub waveform: bool,
    pub filter: bool,
    pub filter_envelope: bool,
    pub amp_envelope: bool,
    pub gain: bool,
    pub pan: bool,
}

/// No group is pending.
pub open spec fn no_groups() -> DirtyGroups {
    DirtyGroups {
        waveform: false,
        filter: false,
        filter_envelope: false,
        amp_envelope: false,
        gain: false,
        pan: false,
    }
}

/// Some group is pending.
pub open spec fn any_group(groups: DirtyGroups) -> bool {
    groups.waveform || groups.filter || groups.filter_envelope || groups.amp_envelope
        || groups.gain || groups.pan
}

impl DirtyGroups {
    /// Nothing has changed.
    pub fn clean() -> (groups: Self)
        ensures
            groups == no_groups(),
    {
        DirtyGroups {
            waveform: false,
            filter: false,
            filter_envelope: false,
            amp_envelope: false,
            gain: false,
            pan: false,
        }
    }

    /// Whether any group has to be applied to the voices.
    pub fn any(&self) -> (pending: bool)
        ensures
            pending == any_group(*self),
    {
        self.waveform || self.filter || self.filter_envelope || self.amp_envelope || self.gain
            || self.pan
    }

    /// Reads and clears the pending groups: the caller applies the
    /// returned groups, and each change is applied exactly once.
    pub fn take(&mut self) -> (pending: DirtyGroups)
        ensures
            pending == *old(self),
            *final(self) == no_groups(),
    {
        let pending = *self;
        *self = DirtyGroups::clean();
        pending
    }
}

/// Selecting an oscillator waveform marks the waveform group only when it
/// differs from the current one.
pub fn waveform_changed(current: Waveform, requested: Waveform) -> (changed: bool)
    ensures
        changed == (current != requested),
{
    current != requested
}

} // verus!
