//! The decisions of the brightness window: which display is selected, when a
//! brightness is read, and when and where a new brightness is written.
//!
//! The window forwards each widget signal and each worker result to a
//! `Controller`, and carries out what it answers. Setting a widget's value
//! from code makes the toolkit emit that widget's signal again, at once; the
//! `finish_*` methods close the windows during which such echoes are ignored.
//!
//! A change of the brightness is not written at once: it becomes the pending
//! write, which the window's timer takes with `timer_fired` once the changes
//! have stopped for a while.
use vstd::prelude::*;

use crate::monitor::{Monitor, MonitorView, monitors_view};
use crate::text::strings_view;

verus! {

/// What to do with the timer of the pending, debounced brightness write.
pub enum Debounce {
    /// Leave it as it is.
    Keep,
    /// Stop it: nothing is pending.
    Cancel,
    /// Stop it and start it again: the pending write is now `value` to
    /// display `display`.
    Restart { display: u8, value: u8 },
}

/// What to show once detection has finished, for the first monitor.
pub enum FirstBrightness {
    /// No monitor was found.
    Nothing,
    /// Show this current and maximum brightness, the slider being set from
    /// code until `finish_setting`, so that showing it writes nothing; the
    /// controls are enabled.
    Show { current: u8, max: u8 },
    /// Read the brightness of this display first; the controls are disabled
    /// until the read ends.
    Read(u8),
}

/// What to do when detection has finished.
pub struct DetectedPlan {
    /// The names to append to the monitor list, in order.
    pub names: Vec<String>,
    /// Whether to select the first row; `finish_initializing` follows.
    pub select_first: bool,
    /// What to show for the first monitor.
    pub brightness: FirstBrightness,
}

/// What to do when the slider's value changed.
pub struct SliderPlan {
    /// The value to give the spin button; `finish_syncing` follows.
    pub spin_value: u8,
    /// What to do with the pending write.
    pub debounce: Debounce,
}

/// What to do when the spin button's value changed.
pub struct SpinPlan {
    /// The value to give the slider; `finish_setting` follows.
    pub slider_value: u8,
    /// What to do with the pending write.
    pub debounce: Debounce,
}

/// What to do when Enter was pressed.
pub enum EnterPlan {
    /// Let the key go on to other handlers.
    Propagate,
    /// Cancel the pending write, stop the key, and write at once where a
    /// display is selected.
    Handled(Option<(u8, u8)>),
}

/// The state of the window's logic.
pub struct Controller {
    monitors: Vec<Monitor>,
    selected_display: Option<u8>,
    is_setting_value: bool,
    is_initializing: bool,
    is_syncing: bool,
    pending_write: Option<(u8, u8)>,
    is_loading: bool,
}

/// The contents of a `Controller`.
pub struct ControllerView {
    /// The monitors found, in the order of the list.
    pub monitors: Seq<MonitorView>,
    /// The display whose brightness is shown.
    pub selected: Option<u8>,
    /// Whether the slider is being set from code (its changes write nothing).
    pub setting: bool,
    /// Whether the monitor list is being filled (selection changes are ignored).
    pub initializing: bool,
    /// Whether the spin button is being set from the slider (its changes are
    /// ignored).
    pub syncing: bool,
    /// The debounced write that the timer will make: a display and a value.
    pub pending: Option<(u8, u8)>,
    /// Whether a detection or a read is under way (the controls are disabled
    /// and the spinner turns).
    pub loading: bool,
}

impl View for Controller {
    type V = ControllerView;

    closed spec fn view(&self) -> ControllerView {
        ControllerView {
            monitors: monitors_view(self.monitors@),
            selected: self.selected_display,
            setting: self.is_setting_value,
            initializing: self.is_initializing,
            syncing: self.is_syncing,
            pending: self.pending_write,
            loading: self.is_loading,
        }
    }
}

/// The write that a change of the brightness to `value` makes pending, given
/// the selected display.
pub open spec fn write_for(selected: Option<u8>, value: u8) -> Option<(u8, u8)> {
    match selected {
        Some(d) => Some((d, value)),
        None => None,
    }
}

/// What the timer is told when the pending write becomes `pending`.
pub open spec fn debounce_for(selected: Option<u8>, value: u8) -> Debounce {
    match selected {
        Some(d) => Debounce::Restart { display: d, value },
        None => Debounce::Cancel,
    }
}

/// The state once the slider's value changed to `value`.
pub open spec fn slider_step(c: ControllerView, value: u8) -> ControllerView {
    ControllerView {
        syncing: true,
        pending: if c.setting {
            c.pending
        } else {
            write_for(c.selected, value)
        },
        ..c
    }
}

/// The state once the spin button's value changed to `value`.
pub open spec fn spin_step(c: ControllerView, value: u8) -> ControllerView {
    if c.syncing {
        c
    } else {
        ControllerView { setting: true, pending: write_for(c.selected, value), ..c }
    }
}

/// The state once the spin button follows the slider again.
pub open spec fn sync_done(c: ControllerView) -> ControllerView {
    ControllerView { syncing: false, ..c }
}

/// The state once the slider is no longer set from code.
pub open spec fn setting_done(c: ControllerView) -> ControllerView {
    ControllerView { setting: false, ..c }
}

/// The state, and the write to make, when the debounce timer fires.
pub open spec fn timer_step(c: ControllerView) -> (ControllerView, Option<(u8, u8)>) {
    (ControllerView { pending: None, ..c }, c.pending)
}

/// The state once a read brightness is about to be shown.
pub open spec fn read_step(c: ControllerView) -> ControllerView {
    ControllerView { setting: true, loading: false, ..c }
}

/// The state once the user moved the slider to `value`: the slider's signal,
/// the spin button following it, the end of that sync.
pub open spec fn user_slider_change(c: ControllerView, value: u8) -> ControllerView {
    sync_done(slider_step(c, value))
}

/// The state once the user set the spin button to `value`: its signal, the
/// slider following it from code, the end of that update.
pub open spec fn user_spin_change(c: ControllerView, value: u8) -> ControllerView {
    setting_done(spin_step(c, value))
}

/// The state after a burst of user changes, each the spin button (`true`) or
/// the slider (`false`) set to a value.
pub open spec fn after_changes(c: ControllerView, changes: Seq<(bool, u8)>) -> ControllerView
    decreases changes.len(),
{
    if changes.len() == 0 {
        c
    } else {
        let before = after_changes(c, changes.drop_last());
        let (spin, value) = changes.last();
        if spin {
            user_spin_change(before, value)
        } else {
            user_slider_change(before, value)
        }
    }
}

/// Law: a burst of changes by the user, to a selected display, leaves one
/// write pending, of the last value chosen; the timer makes that write once,
/// and a second firing writes nothing. The slider echoing a spin button
/// change makes no difference.
pub proof fn law_burst_writes_last_value_once(c: ControllerView, changes: Seq<(bool, u8)>, d: u8)
    requires
        !c.setting,
        !c.syncing,
        c.selected == Some(d),
        changes.len() > 0,
    ensures
        after_changes(c, changes).pending == Some((d, changes.last().1)),
        timer_step(after_changes(c, changes)).1 == Some((d, changes.last().1)),
        timer_step(timer_step(after_changes(c, changes)).0).1 is None,
        forall|v: u8|
            #![trigger spin_step(c, v)]
            setting_done(sync_done(slider_step(spin_step(c, v), v))) == user_spin_change(c, v),
{
    lemma_changes_keep_guards(c, changes);
}

/// A burst of user changes leaves the guards off and the selection as it
/// was, and the pending write is that of the last change.
proof fn lemma_changes_keep_guards(c: ControllerView, changes: Seq<(bool, u8)>)
    requires
        !c.setting,
        !c.syncing,
    ensures
        !after_changes(c, changes).setting,
        !after_changes(c, changes).syncing,
        after_changes(c, changes).selected == c.selected,
        changes.len() > 0 ==> after_changes(c, changes).pending == write_for(
            c.selected,
            changes.last().1,
        ),
    decreases changes.len(),
{
    if changes.len() > 0 {
        lemma_changes_keep_guards(c, changes.drop_last());
    }
}

/// Law: while the slider is set from code, as it is when a brightness that
/// was read is shown, its changes and the spin button's echoes leave the
/// pending write as it was: showing a value writes nothing.
pub proof fn law_set_from_code_writes_nothing(c: ControllerView, value: u8)
    requires
        c.setting,
    ensures
        slider_step(c, value).pending == c.pending,
        spin_step(slider_step(c, value), value).pending == c.pending,
        read_step(c).setting,
{
}

/// Law: a change of the slider by the user, with the spin button's echo and
/// the end of the sync, touches only the pending write, which becomes the
/// new value for the selected display; the guards are as they were, so the
/// next change by the user is written too.
pub proof fn law_slider_change_with_echo(c: ControllerView, v: u8, w: u8)
    requires
        !c.setting,
        !c.syncing,
    ensures
        ({
            let after = sync_done(spin_step(slider_step(c, v), v));
            &&& !after.setting
            &&& !after.syncing
            &&& after.selected == c.selected
            &&& after.monitors == c.monitors
            &&& after.initializing == c.initializing
            &&& after.loading == c.loading
            &&& after.pending == match c.selected {
                Some(d) => Some((d, v)),
                None => None::<(u8, u8)>,
            }
            &&& sync_done(spin_step(slider_step(after, w), w)).pending == match c.selected {
                Some(d) => Some((d, w)),
                None => None::<(u8, u8)>,
            }
        }),
{
}

/// Law: the spin button's echo of a value that the slider gave it changes
/// nothing at all.
pub proof fn law_spin_echo_changes_nothing(c: ControllerView, v: u8)
    requires
        c.syncing,
    ensures
        spin_step(c, v) == c,
{
}

/// Law: a change of the spin button by the user, with the slider following
/// it from code, makes the new value for the selected display pending and
/// leaves everything else, the guards included, as it was.
pub proof fn law_spin_change(c: ControllerView, v: u8)
    requires
        !c.setting,
        !c.syncing,
    ensures
        ({
            let after = setting_done(sync_done(slider_step(spin_step(c, v), v)));
            &&& !after.setting
            &&& !after.syncing
            &&& after.selected == c.selected
            &&& after.monitors == c.monitors
            &&& after.initializing == c.initializing
            &&& after.loading == c.loading
            &&& after.pending == match c.selected {
                Some(d) => Some((d, v)),
                None => None::<(u8, u8)>,
            }
        }),
{
}

/// Law: showing a brightness that was read changes only the guard and the
/// loading state: the selected display, the monitors and the pending write
/// stay; once shown, a move of the slider by the user makes a write to the
/// selected display pending.
pub proof fn law_read_keeps_selection(c: ControllerView, v: u8)
    ensures
        read_step(c).selected == c.selected,
        read_step(c).monitors == c.monitors,
        read_step(c).pending == c.pending,
        read_step(c).syncing == c.syncing,
        read_step(c).initializing == c.initializing,
        read_step(c).setting,
        !read_step(c).loading,
        !c.syncing ==> slider_step(setting_done(read_step(c)), v).pending == match c.selected {
            Some(d) => Some((d, v)),
            None => None::<(u8, u8)>,
        },
{
}

/// Law: the timer hands over exactly the pending write and changes nothing
/// else but clearing it; a burst of user changes after a firing makes its
/// last value pending again for the selected display.
pub proof fn law_timer_changes_only_pending(c: ControllerView, changes: Seq<(bool, u8)>, d: u8)
    ensures
        timer_step(c).1 == c.pending,
        timer_step(c).0.pending is None,
        timer_step(c).0.selected == c.selected,
        timer_step(c).0.monitors == c.monitors,
        timer_step(c).0.setting == c.setting,
        timer_step(c).0.syncing == c.syncing,
        timer_step(c).0.initializing == c.initializing,
        timer_step(c).0.loading == c.loading,
        !c.setting && !c.syncing && c.selected == Some(d) && changes.len() > 0 ==> after_changes(
            timer_step(c).0,
            changes,
        ).pending == Some((d, changes.last().1)),
{
    if !c.setting && !c.syncing && c.selected == Some(d) && changes.len() > 0 {
        law_burst_writes_last_value_once(timer_step(c).0, changes, d);
    }
}

impl Controller {
    /// The state before detection: nothing found, nothing selected, nothing
    /// pending, the list being filled and the detection under way.
    pub fn new() -> (c: Controller)
        ensures
            c@ == (ControllerView {
                monitors: Seq::empty(),
                selected: None,
                setting: false,
                initializing: true,
                syncing: false,
                pending: None,
                loading: true,
            }),
    {
        let c = Controller {
            monitors: Vec::new(),
            selected_display: None,
            is_setting_value: false,
            is_initializing: true,
            is_syncing: false,
            pending_write: None,
            is_loading: true,
        };
        assert(monitors_view(c.monitors@) =~= Seq::<MonitorView>::empty());
        c
    }

    /// The display whose brightness is shown.
    pub fn selected_display(&self) -> (d: Option<u8>)
        ensures
            d == self@.selected,
    {
        self.selected_display
    }

    /// Whether the controls are enabled: no detection or read is under way.
    pub fn controls_enabled(&self) -> (b: bool)
        ensures
            b == !self@.loading,
    {
        !self.is_loading
    }

    /// Detection found `list`, and, where it could read it, the brightness
    /// of the first monitor. The list's names are appended; the first
    /// monitor is selected, its selection ignored, and its brightness shown
    /// or read. Showing a brightness that was read is no change by the user:
    /// the slider counts as set from code until `finish_setting`, so its
    /// echo arms no write. The controls stay disabled while the first
    /// brightness is still to be read, and where nothing was found.
    pub fn monitors_detected(&mut self, list: Vec<Monitor>, brightness: Option<(u8, u8)>) -> (plan:
        DetectedPlan)
        ensures
            final(self)@.monitors == monitors_view(list@),
            strings_view(plan.names@) == monitors_view(list@).map_values(|m: MonitorView| m.name),
            final(self)@.setting == (old(self)@.setting || (list@.len() > 0 && brightness is Some)),
            final(self)@.syncing == old(self)@.syncing,
            final(self)@.pending == old(self)@.pending,
            list@.len() == 0 ==> {
                &&& !plan.select_first
                &&& plan.brightness is Nothing
                &&& final(self)@.selected == old(self)@.selected
                &&& final(self)@.initializing == old(self)@.initializing
                &&& final(self)@.loading == old(self)@.loading
            },
            list@.len() > 0 ==> {
                &&& plan.select_first
                &&& final(self)@.initializing
                &&& final(self)@.selected == Some(list@[0].display_number)
                &&& final(self)@.loading == brightness is None
                &&& match brightness {
                    Some((c, m)) => plan.brightness == (FirstBrightness::Show {
                        current: c,
                        max: m,
                    }),
                    None => plan.brightness == FirstBrightness::Read(list@[0].display_number),
                }
            },
    {
        let mut names: Vec<String> = Vec::new();
        let mut i: usize = 0;
        while i < list.len()
            invariant
                i <= list@.len(),
                names@.len() == i,
                forall|j: int| 0 <= j < i ==> #[trigger] names@[j]@ == list@[j].name@,
            decreases list@.len() - i,
        {
            let n = list[i].name.clone();
            names.push(n);
            i = i + 1;
        }
        assert(strings_view(names@) =~= monitors_view(list@).map_values(|m: MonitorView| m.name));
        if list.len() == 0 {
            self.monitors = list;
            return DetectedPlan { names, select_first: false, brightness: FirstBrightness::Nothing };
        }
        let display = list[0].display_number;
        self.monitors = list;
        self.is_initializing = true;
        self.selected_display = Some(display);
        let brightness = match brightness {
            Some((current, max)) => {
                self.is_setting_value = true;
                self.is_loading = false;
                FirstBrightness::Show { current, max }
            },
            None => {
                self.is_loading = true;
                FirstBrightness::Read(display)
            },
        };
        DetectedPlan { names, select_first: true, brightness }
    }

    /// The list is filled: selection changes count from now on.
    pub fn finish_initializing(&mut self)
        ensures
            final(self)@ == (ControllerView { initializing: false, ..old(self)@ }),
    {
        self.is_initializing = false;
    }

    /// The row `index` of the monitor list was selected. Where the list is
    /// not being filled and the row exists, its display becomes the selected
    /// one and is returned, to have its brightness read; the controls are
    /// disabled until the read ends.
    pub fn selection_changed(&mut self, index: u32) -> (read: Option<u8>)
        ensures
            old(self)@.initializing || index as int >= old(self)@.monitors.len() ==> {
                &&& read is None
                &&& final(self)@ == old(self)@
            },
            !old(self)@.initializing && (index as int) < old(self)@.monitors.len() ==> {
                let d = old(self)@.monitors[index as int].display_number;
                &&& read == Some(d)
                &&& final(self)@ == (ControllerView {
                    selected: Some(d),
                    loading: true,
                    ..old(self)@
                })
            },
    {
        if self.is_initializing {
            return None;
        }
        let idx = index as usize;
        if idx >= self.monitors.len() {
            return None;
        }
        let display = self.monitors[idx].display_number;
        self.selected_display = Some(display);
        self.is_loading = true;
        Some(display)
    }

    /// A brightness was read and is about to be shown: the read is over, so
    /// the controls are enabled, and the slider is being set from code until
    /// `finish_setting`, so its changes write nothing.
    pub fn brightness_read(&mut self)
        ensures
            final(self)@ == read_step(old(self)@),
    {
        self.is_setting_value = true;
        self.is_loading = false;
    }

    /// A detection or a read failed: it is over, and the controls are
    /// enabled.
    pub fn error_received(&mut self)
        ensures
            final(self)@ == (ControllerView { loading: false, ..old(self)@ }),
    {
        self.is_loading = false;
    }

    /// The slider is no longer being set from code.
    pub fn finish_setting(&mut self)
        ensures
            final(self)@ == setting_done(old(self)@),
    {
        self.is_setting_value = false;
    }

    /// The slider's value changed to `value`. The spin button follows it,
    /// being set from code until `finish_syncing`; unless the slider itself
    /// is being set from code, the pending write becomes one of `value` to
    /// the selected display.
    pub fn slider_changed(&mut self, value: u8) -> (plan: SliderPlan)
        ensures
            final(self)@ == slider_step(old(self)@, value),
            plan.spin_value == value,
            plan.debounce == if old(self)@.setting {
                Debounce::Keep
            } else {
                debounce_for(old(self)@.selected, value)
            },
    {
        self.is_syncing = true;
        let debounce = if self.is_setting_value {
            Debounce::Keep
        } else {
            match self.selected_display {
                Some(display) => {
                    self.pending_write = Some((display, value));
                    Debounce::Restart { display, value }
                },
                None => {
                    self.pending_write = None;
                    Debounce::Cancel
                },
            }
        };
        SliderPlan { spin_value: value, debounce }
    }

    /// The spin button is no longer being set from the slider.
    pub fn finish_syncing(&mut self)
        ensures
            final(self)@ == sync_done(old(self)@),
    {
        self.is_syncing = false;
    }

    /// The spin button's value changed to `value`. Where the slider set it,
    /// nothing follows; else the slider follows it, being set from code
    /// until `finish_setting`, and the pending write becomes one of `value`
    /// to the selected display.
    pub fn spin_changed(&mut self, value: u8) -> (plan: Option<SpinPlan>)
        ensures
            final(self)@ == spin_step(old(self)@, value),
            old(self)@.syncing ==> plan is None,
            !old(self)@.syncing ==> (plan matches Some(p) && p.slider_value == value && p.debounce
                == debounce_for(old(self)@.selected, value)),
    {
        if self.is_syncing {
            return None;
        }
        self.is_setting_value = true;
        let debounce = match self.selected_display {
            Some(display) => {
                self.pending_write = Some((display, value));
                Debounce::Restart { display, value }
            },
            None => {
                self.pending_write = None;
                Debounce::Cancel
            },
        };
        Some(SpinPlan { slider_value: value, debounce })
    }

    /// The debounce timer fired: the pending write, if any, is to be made
    /// now, and nothing is pending any more.
    pub fn timer_fired(&mut self) -> (write: Option<(u8, u8)>)
        ensures
            (final(self)@, write) == timer_step(old(self)@),
    {
        let write = self.pending_write;
        self.pending_write = None;
        write
    }

    /// Enter was pressed, the spin button showing `spin_value`. Where the
    /// spin button has the focus, the pending write is cancelled and
    /// `spin_value` is written at once to the selected display.
    pub fn enter_pressed(&mut self, spin_focused: bool, spin_value: u8) -> (plan: EnterPlan)
        ensures
            !spin_focused ==> plan is Propagate && final(self)@ == old(self)@,
            spin_focused ==> {
                &&& plan == EnterPlan::Handled(write_for(old(self)@.selected, spin_value))
                &&& final(self)@ == (ControllerView { pending: None, ..old(self)@ })
            },
    {
        if !spin_focused {
            return EnterPlan::Propagate;
        }
        self.pending_write = None;
        match self.selected_display {
            Some(d) => EnterPlan::Handled(Some((d, spin_value))),
            None => EnterPlan::Handled(None),
        }
    }
}

} // verus!
