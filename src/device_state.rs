//! Toggle state of a capture device or an encoder. Each value is owned by
//! one context, so the flags are plain booleans.
use vstd::prelude::*;

verus! {

/// A device or encoder's flags, as plain values.
pub struct ToggleView {
    pub destroy: bool,
    pub enabled: bool,
    pub selected: Option<Seq<char>>,
    pub switching: bool,
}

pub open spec fn option_view(o: Option<String>) -> Option<Seq<char>> {
    match o {
        Some(s) => Some(s@),
        None => None,
    }
}

fn same_selection(a: &Option<String>, b: &Option<String>) -> (r: bool)
    ensures
        r == (option_view(*a) == option_view(*b)),
{
    match (a, b) {
        (Some(x), Some(y)) => *x == *y,
        (None, None) => true,
        _ => false,
    }
}

/// State of a capture device: whether it is on, which device is chosen,
/// and whether a switch to another device is under way.
#[derive(Clone)]
pub struct DeviceState {
    destroy: bool,
    enabled: bool,
    selected: Option<String>,
    switching: bool,
}

impl View for DeviceState {
    type V = ToggleView;

    closed spec fn view(&self) -> ToggleView {
        ToggleView {
            destroy: self.destroy,
            enabled: self.enabled,
            selected: option_view(self.selected),
            switching: self.switching,
        }
    }
}

impl PartialEq for DeviceState {
    fn eq(&self, other: &DeviceState) -> (r: bool) {
        self.destroy == other.destroy && self.enabled == other.enabled && same_selection(
            &self.selected,
            &other.selected,
        ) && self.switching == other.switching
    }
}

impl vstd::std_specs::cmp::PartialEqSpecImpl for DeviceState {
    open spec fn obeys_eq_spec() -> bool {
        true
    }

    open spec fn eq_spec(&self, other: &DeviceState) -> bool {
        self@ == other@
    }
}

impl DeviceState {
    /// Enabled, with nothing selected.
    pub fn new() -> (r: Self)
        ensures
            r@ == (ToggleView { destroy: false, enabled: true, selected: None, switching: false }),
    {
        DeviceState { destroy: false, enabled: true, selected: None, switching: false }
    }

    /// Sets the enabled flag; true when that was a change.
    pub fn set_enabled(&mut self, value: bool) -> (changed: bool)
        ensures
            changed == (value != old(self)@.enabled),
            final(self)@ == (ToggleView { enabled: value, ..old(self)@ }),
    {
        if value != self.enabled {
            self.enabled = value;
            true
        } else {
            false
        }
    }

    pub fn is_enabled(&self) -> (r: bool)
        ensures
            r == self@.enabled,
    {
        self.enabled
    }

    /// Chooses `device`. Choosing the device already chosen does nothing;
    /// otherwise, on an enabled device a switch begins and true is returned.
    pub fn select(&mut self, device: String) -> (r: bool)
        ensures
            old(self)@.selected == Some(device@) ==> !r && final(self)@ == old(self)@,
            old(self)@.selected != Some(device@) ==> r == old(self)@.enabled && final(self)@ == (
            ToggleView {
                selected: Some(device@),
                switching: old(self)@.switching || old(self)@.enabled,
                ..old(self)@
            }),
    {
        let same = match &self.selected {
            Some(current) => *current == device,
            None => false,
        };
        if same {
            false
        } else {
            self.selected = Some(device);
            if self.enabled {
                self.switching = true;
                true
            } else {
                false
            }
        }
    }

    pub fn is_switching(&self) -> (r: bool)
        ensures
            r == self@.switching,
    {
        self.switching
    }
}

/// State shared by the encoders: whether encoding is on, which device
/// feeds it, whether a switch is under way and whether it was stopped.
#[derive(Clone)]
pub struct EncoderState {
    destroy: bool,
    enabled: bool,
    selected: Option<String>,
    switching: bool,
}

impl View for EncoderState {
    type V = ToggleView;

    closed spec fn view(&self) -> ToggleView {
        ToggleView {
            destroy: self.destroy,
            enabled: self.enabled,
            selected: option_view(self.selected),
            switching: self.switching,
        }
    }
}

impl PartialEq for EncoderState {
    fn eq(&self, other: &EncoderState) -> (r: bool) {
        self.destroy == other.destroy && self.enabled == other.enabled && same_selection(
            &self.selected,
            &other.selected,
        ) && self.switching == other.switching
    }
}

impl vstd::std_specs::cmp::PartialEqSpecImpl for EncoderState {
    open spec fn obeys_eq_spec() -> bool {
        true
    }

    open spec fn eq_spec(&self, other: &EncoderState) -> bool {
        self@ == other@
    }
}

impl EncoderState {
    /// Enabled, with nothing selected.
    pub fn new() -> (r: Self)
        ensures
            r@ == (ToggleView { destroy: false, enabled: true, selected: None, switching: false }),
    {
        EncoderState { destroy: false, enabled: true, selected: None, switching: false }
    }

    /// Sets the enabled flag; true when that was a change.
    pub fn set_enabled(&mut self, value: bool) -> (changed: bool)
        ensures
            changed == (value != old(self)@.enabled),
            final(self)@ == (ToggleView { enabled: value, ..old(self)@ }),
    {
        if value != self.enabled {
            self.enabled = value;
            true
        } else {
            false
        }
    }

    pub fn is_enabled(&self) -> (r: bool)
        ensures
            r == self@.enabled,
    {
        self.enabled
    }

    /// Chooses `device`; on an enabled encoder a switch begins and true is
    /// returned.
    pub fn select(&mut self, device: String) -> (r: bool)
        ensures
            r == old(self)@.enabled,
            final(self)@ == (ToggleView {
                selected: Some(device@),
                switching: old(self)@.switching || old(self)@.enabled,
                ..old(self)@
            }),
    {
        self.selected = Some(device);
        if self.enabled {
            self.switching = true;
            true
        } else {
            false
        }
    }

    /// Marks the encoder for teardown.
    pub fn stop(&mut self)
        ensures
            final(self)@ == (ToggleView { destroy: true, ..old(self)@ }),
    {
        self.destroy = true;
    }

    pub fn is_switching(&self) -> (r: bool)
        ensures
            r == self@.switching,
    {
        self.switching
    }

    pub fn is_destroyed(&self) -> (r: bool)
        ensures
            r == self@.destroy,
    {
        self.destroy
    }
}

} // verus!
