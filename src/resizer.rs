use vstd::prelude::*;
use dashmap::DashMap;
use crate::config::{ZoomConfig, ZoomType, active_type_of};
use crate::focus::NiriEvent;
use crate::zoom::{FontAdjustment, WindowState, focus_plan, blur_plan, initial_state, plan_focus, plan_blur};

verus! {

/// The believed font state of each terminal process.
pub type WindowStates = DashMap<i32, WindowState>;

/// What a window-state map holds.
pub uninterp spec fn window_states_contents(m: WindowStates) -> Map<i32, WindowState>;

/// Relies on `DashMap::new`: a new map holds nothing.
#[verifier::external_body]
fn new_window_states() -> (r: WindowStates)
    ensures
        window_states_contents(r) =~= Map::empty(),
{
    DashMap::new()
}

/// Relies on `DashMap::get`: a copy of the value stored under the key, if any.
#[verifier::external_body]
fn window_state_get(m: &WindowStates, key: i32) -> (r: Option<WindowState>)
    ensures
        window_states_contents(*m).contains_key(key) ==> r == Some(window_states_contents(*m)[key]),
        !window_states_contents(*m).contains_key(key) ==> r is None,
{
    m.get(&key).map(|v| *v)
}

/// Relies on `DashMap::insert`: the key maps to the value afterwards, and
/// nothing else changes.
#[verifier::external_body]
fn window_state_insert(m: &mut WindowStates, key: i32, value: WindowState)
    ensures
        window_states_contents(*final(m)) == window_states_contents(*old(m)).insert(key, value),
{
    m.insert(key, value);
}

/// The state of `pid`, or the initial one if it was never seen.
pub open spec fn state_or_initial(m: Map<i32, WindowState>, pid: i32, baseline: u32) -> WindowState {
    if m.contains_key(pid) {
        m[pid]
    } else {
        initial_state(baseline)
    }
}

/// The process an event is about and the plan for it: focus gains and
/// losses of a window with a known process, under a configured policy. A
/// loss for a process never seen is ignored where the policy says so.
pub open spec fn event_plan(
    e: NiriEvent,
    m: Map<i32, WindowState>,
    c: ZoomConfig,
    baseline: u32,
) -> Option<(i32, (WindowState, Seq<FontAdjustment>))> {
    match e {
        NiriEvent::Focus { window, .. } => match window.pid {
            Some(p) => if active_type_of(c) is Some {
                Some((p, focus_plan(state_or_initial(m, p, baseline), c, baseline)))
            } else {
                None
            },
            None => None,
        },
        NiriEvent::Blur { window, .. } => match window.pid {
            Some(p) => if active_type_of(c) is Some && (m.contains_key(p) || !c.blur_requires_focus) {
                Some((p, blur_plan(state_or_initial(m, p, baseline), c, baseline)))
            } else {
                None
            },
            None => None,
        },
        _ => None,
    }
}

/// The states after an event, as `handle_event` leaves them.
pub open spec fn states_after(e: NiriEvent, m: Map<i32, WindowState>, c: ZoomConfig, baseline: u32) -> Map<
    i32,
    WindowState,
> {
    match event_plan(e, m, c, baseline) {
        Some((p, (s, _))) => m.insert(p, s),
        None => m,
    }
}

pub open spec fn is_focus_of(e: NiriEvent, pid: i32) -> bool {
    match e {
        NiriEvent::Focus { window, .. } => window.pid == Some(pid),
        _ => false,
    }
}

pub open spec fn is_blur_of(e: NiriEvent, pid: i32) -> bool {
    match e {
        NiriEvent::Blur { window, .. } => window.pid == Some(pid),
        _ => false,
    }
}

/// Under an absolute policy, once a process's font is believed to be at
/// the target, every event but a focus loss of that process leaves its
/// state as it is, and a focus gain for it issues no command: however many
/// events come between two focus gains with no focus loss, the second
/// issues nothing.
pub proof fn lemma_absolute_focus_stays(
    e: NiriEvent,
    m: Map<i32, WindowState>,
    c: ZoomConfig,
    baseline: u32,
    pid: i32,
)
    requires
        active_type_of(c) == Some(ZoomType::Absolute),
        m.contains_key(pid),
        m[pid].current_font_size == Some(c.absolute.unwrap() as i64),
        !is_blur_of(e, pid),
    ensures
        states_after(e, m, c, baseline).contains_key(pid),
        states_after(e, m, c, baseline)[pid] == m[pid],
        is_focus_of(e, pid) ==> event_plan(e, m, c, baseline) is Some && event_plan(
            e,
            m,
            c,
            baseline,
        ).unwrap().1.1.len() == 0,
{
}

/// Turns focus gains and losses into font commands under a zoom policy,
/// keeping the believed font state of each terminal process.
pub struct KittyResizer {
    zoom_config: ZoomConfig,
    baseline: u32,
    window_states: WindowStates,
}

impl KittyResizer {
    pub closed spec fn config_spec(&self) -> ZoomConfig {
        self.zoom_config
    }

    /// The baseline font size, in hundredths of a point.
    pub closed spec fn baseline_spec(&self) -> u32 {
        self.baseline
    }

    pub closed spec fn states_spec(&self) -> Map<i32, WindowState> {
        window_states_contents(self.window_states)
    }

    pub open spec fn well_formed(&self) -> bool {
        self.config_spec().step_size >= 1
    }

    /// A resizer with no zoom type configured: it issues no command.
    pub fn new(baseline: u32) -> (r: Self)
        ensures
            r.well_formed(),
            active_type_of(r.config_spec()) is None,
            r.baseline_spec() == baseline,
            r.states_spec() == Map::<i32, WindowState>::empty(),
    {
        KittyResizer { zoom_config: ZoomConfig::default(), baseline, window_states: new_window_states() }
    }

    pub fn with_zoom_config(zoom_config: ZoomConfig, baseline: u32) -> (r: Self)
        requires
            zoom_config.step_size >= 1,
        ensures
            r.well_formed(),
            r.config_spec() == zoom_config,
            r.baseline_spec() == baseline,
            r.states_spec() == Map::<i32, WindowState>::empty(),
    {
        KittyResizer { zoom_config, baseline, window_states: new_window_states() }
    }

    pub fn zoom_config(&self) -> (r: ZoomConfig)
        ensures
            r == self.config_spec(),
    {
        self.zoom_config
    }

    /// The believed state of a process, if it was seen.
    pub fn window_state(&self, pid: i32) -> (r: Option<WindowState>)
        ensures
            self.states_spec().contains_key(pid) ==> r == Some(self.states_spec()[pid]),
            !self.states_spec().contains_key(pid) ==> r is None,
    {
        window_state_get(&self.window_states, pid)
    }

    /// Handles one event: for a focus gain or loss of a window with a known
    /// process, under a configured policy, updates that process's state
    /// and returns it with the commands to issue. Other events change
    /// nothing.
    pub fn handle_event(&mut self, event: &NiriEvent) -> (r: Option<(i32, Vec<FontAdjustment>)>)
        requires
            old(self).well_formed(),
        ensures
            final(self).well_formed(),
            final(self).config_spec() == old(self).config_spec(),
            final(self).baseline_spec() == old(self).baseline_spec(),
            match event_plan(*event, old(self).states_spec(), old(self).config_spec(), old(self).baseline_spec()) {
                Some((p, (s, cmds))) => r matches Some((q, v)) && q == p && v@ == cmds
                    && final(self).states_spec() == old(self).states_spec().insert(p, s),
                None => r is None && final(self).states_spec() == old(self).states_spec(),
            },
    {
        let (pid, focus) = match event {
            NiriEvent::Focus { window, .. } => match window.pid {
                Some(p) => (p, true),
                None => return None,
            },
            NiriEvent::Blur { window, .. } => match window.pid {
                Some(p) => (p, false),
                None => return None,
            },
            _ => return None,
        };
        if !self.zoom_config.is_configured() {
            return None;
        }
        let current = match window_state_get(&self.window_states, pid) {
            Some(s) => s,
            None => {
                if !focus && self.zoom_config.blur_requires_focus {
                    return None;
                }
                WindowState::with_baseline(self.baseline)
            },
        };
        let (next, commands) = if focus {
            plan_focus(current, &self.zoom_config, self.baseline)
        } else {
            plan_blur(current, &self.zoom_config, self.baseline)
        };
        window_state_insert(&mut self.window_states, pid, next);
        Some((pid, commands))
    }
}

} // verus!
