//! Which report tool is switched on, and the animation cycles it runs on.
//!
//! Times are milliseconds on the caller's clock.
use vstd::prelude::*;
use crate::report_templates::ReportTypes;

verus! {

/// Length of one animation cycle of a tool, in milliseconds.
pub const TOOL_TOGGLE_RATE: u32 = 500;

/// Milliseconds from `t` until one past the next cycle boundary.
pub open spec fn epoch_wait(t: int) -> int {
    (t / 500 + 1) * 500 + 1 - t
}

pub struct ToolSelection {
    tool_selected_at: u64,
    tool_selected_for: Option<ReportTypes>,
}

impl ToolSelection {
    /// The tool switched on, if any.
    pub closed spec fn selected(&self) -> Option<ReportTypes> {
        self.tool_selected_for
    }

    /// When the tool was switched on.
    pub closed spec fn selected_at(&self) -> u64 {
        self.tool_selected_at
    }

    /// The clock reading `now` is not before the selection and within a
    /// `u32` of milliseconds after it.
    pub open spec fn time_ok(&self, now: u64) -> bool {
        self.selected_at() <= now && now - self.selected_at() <= u32::MAX
    }

    /// Whether the clock reading `now` can be used to time the tool,
    /// including the wait for its next cycle.
    pub fn accepts_time(&self, now: u64) -> (ok: bool)
        ensures
            ok == (self.time_ok(now) && ((now - self.selected_at()) / 500 + 1) * 500 + 1
                <= u32::MAX),
    {
        if self.tool_selected_at <= now && now - self.tool_selected_at <= u32::MAX as u64 {
            let t: u64 = now - self.tool_selected_at;
            (t / 500 + 1) * 500 + 1 <= u32::MAX as u64
        } else {
            false
        }
    }

    /// No tool switched on; the selection time is `now`.
    pub fn new(now: u64) -> (t: ToolSelection)
        ensures
            t.selected() is None,
            t.selected_at() == now,
    {
        ToolSelection { tool_selected_for: None, tool_selected_at: now }
    }

    /// Milliseconds since the tool was selected.
    pub fn time_since_selection(&self, now: u64) -> (ms: u32)
        requires
            self.time_ok(now),
        ensures
            ms == now - self.selected_at(),
    {
        (now - self.tool_selected_at) as u32
    }

    /// Switches the tool off.
    pub fn reset(&mut self)
        ensures
            final(self).selected() is None,
            final(self).selected_at() == old(self).selected_at(),
    {
        self.tool_selected_for = None;
    }

    /// Switches `tool` on at time `now`, or switches every tool off.
    pub fn set(&mut self, tool: ReportTypes, active: bool, now: u64)
        ensures
            active ==> final(self).selected() == Some(tool) && final(self).selected_at() == now,
            !active ==> final(self).selected() is None && final(self).selected_at() == old(
                self,
            ).selected_at(),
    {
        if active {
            self.tool_selected_for = Some(tool);
            self.tool_selected_at = now;
        } else {
            self.reset();
        }
    }

    /// Number of whole animation cycles since the tool was selected.
    pub fn get_cycles(&self, now: u64) -> (cycles: u32)
        requires
            self.time_ok(now),
        ensures
            cycles == (now - self.selected_at()) / 500,
    {
        self.time_since_selection(now) / TOOL_TOGGLE_RATE
    }

    /// Whether the tool for `report_type` is switched on.
    pub fn is_active(&self, report_type: ReportTypes) -> (active: bool)
        ensures
            active == (self.selected() == Some(report_type)),
    {
        match self.tool_selected_for {
            Some(t) => t == report_type,
            None => false,
        }
    }

    /// Milliseconds until just after the next cycle boundary.
    pub fn time_to_next_epoch(&self, now: u64) -> (wait: u32)
        requires
            self.time_ok(now),
            ((now - self.selected_at()) / 500 + 1) * 500 + 1 <= u32::MAX,
        ensures
            wait == epoch_wait(now - self.selected_at()),
            1 <= wait <= 501,
    {
        let time_in_ms: u32 = self.time_since_selection(now);
        let next_epoch: u32 = (time_in_ms / TOOL_TOGGLE_RATE + 1) * TOOL_TOGGLE_RATE + 1;
        next_epoch - time_in_ms
    }
}

/// Waiting `epoch_wait(t)` milliseconds from `t` moves the cycle count on by one.
pub proof fn lemma_epoch_wait_advances_cycle(t: int)
    requires
        t >= 0,
    ensures
        1 <= epoch_wait(t) <= 501,
        (t + epoch_wait(t)) / 500 == t / 500 + 1,
{
    let q = t / 500;
    vstd::arithmetic::div_mod::lemma_fundamental_div_mod(t, 500);
    vstd::arithmetic::div_mod::lemma_fundamental_div_mod_converse(
        t + epoch_wait(t),
        500,
        q + 1,
        1,
    );
}

} // verus!
