//! The notification line at the bottom of the app.
//!
//! Notices are shown one at a time, oldest first. Each is shown for
//! `NOTICE_TIME` milliseconds: it fades in over the first `FADE_TIME`
//! milliseconds and fades out over the last `FADE_TIME`. The panel is driven
//! by the clock readings its caller passes in.
use vstd::prelude::*;
use vstd::string::StringExecFns;
use crate::text::{decimal, decimal_string};

verus! {

pub const NOTICE_TIME: u32 = 10000;
pub const FADE_TIME: u32 = 1024;
pub const FADE_AT: u32 = NOTICE_TIME - FADE_TIME;

/// Whether `now - reset` is a time the panel can measure: not before the
/// reset and within a `u32` of milliseconds after it.
pub open spec fn elapsed_fits(reset: u64, now: u64) -> bool {
    reset <= now && now - reset <= u32::MAX
}

/// Alpha of a notice shown for `t` milliseconds.
pub open spec fn fade_alpha(t: int) -> int {
    let since_start = if t < 10000 {
        t
    } else {
        10000
    };
    let to_end = 10000 - since_start;
    if since_start < 1024 {
        since_start * 255 / 1024
    } else if to_end < 1024 {
        to_end * 255 / 1024
    } else {
        255
    }
}

/// The text written to the log for one repaint of the panel.
pub open spec fn log_line(displaying: bool, notice: Seq<char>, alpha: int) -> Seq<char> {
    if displaying {
        seq!['(', 'N', 'P', ' '] + notice + seq![' '] + decimal(alpha as nat) + seq![')']
    } else {
        seq!['(', 'N', 'P', ')']
    }
}

pub struct NoticePanel {
    notifications: Vec<String>,
    recent_state_change: bool,
    currently_displaying: bool,
    reset_time: u64,
}

impl NoticePanel {
    /// The notices waiting to be shown, the one on display first.
    pub closed spec fn notices(&self) -> Seq<Seq<char>> {
        self.notifications@.map_values(|s: String| s@)
    }

    /// Whether the last update started or ended the display of a notice.
    pub closed spec fn recent(&self) -> bool {
        self.recent_state_change
    }

    /// Whether a notice is on display.
    pub closed spec fn displaying(&self) -> bool {
        self.currently_displaying
    }

    /// When the notice on display was first shown.
    pub closed spec fn reset_at(&self) -> u64 {
        self.reset_time
    }

    /// A notice is on display only when there is one.
    pub open spec fn wf(&self) -> bool {
        self.displaying() ==> self.notices().len() > 0
    }

    /// Alpha the panel paints with at time `now`.
    pub open spec fn alpha_at(&self, now: u64) -> int {
        if !self.displaying() {
            255
        } else {
            fade_alpha(now - self.reset_at())
        }
    }

    /// The clock reading `now` can be used with this panel: when a notice is
    /// on display, its elapsed time must be measurable.
    pub open spec fn time_ok(&self, now: u64) -> bool {
        self.displaying() ==> elapsed_fits(self.reset_at(), now)
    }

    /// Whether the clock reading `now` can be used with this panel.
    pub fn accepts_time(&self, now: u64) -> (ok: bool)
        ensures
            ok == self.time_ok(now),
    {
        !self.currently_displaying || (self.reset_time <= now && now - self.reset_time
            <= u32::MAX as u64)
    }

    /// An empty panel, with its timer reset at `now`.
    pub fn new(now: u64) -> (p: NoticePanel)
        ensures
            p.wf(),
            p.notices() == Seq::<Seq<char>>::empty(),
            !p.displaying(),
            !p.recent(),
            p.reset_at() == now,
    {
        let p = NoticePanel {
            notifications: Vec::new(),
            recent_state_change: false,
            currently_displaying: false,
            reset_time: now,
        };
        assert(p.notices() =~= Seq::<Seq<char>>::empty());
        p
    }

    /// Queues a notice behind those already waiting.
    pub fn add_notice(&mut self, notice: &str)
        requires
            old(self).wf(),
        ensures
            final(self).wf(),
            final(self).notices() == old(self).notices().push(notice@),
            final(self).displaying() == old(self).displaying(),
            final(self).recent() == old(self).recent(),
            final(self).reset_at() == old(self).reset_at(),
    {
        self.notifications.push(String::from_str(notice));
        assert(self.notices() =~= old(self).notices().push(notice@));
    }

    /// Milliseconds since the timer was reset.
    pub fn time_since_reset(&self, now: u64) -> (t: u32)
        requires
            elapsed_fits(self.reset_at(), now),
        ensures
            t == now - self.reset_at(),
    {
        (now - self.reset_time) as u32
    }

    /// Restarts the timer at `now`; nothing else changes.
    pub fn reset_timer(&mut self, now: u64)
        ensures
            final(self).reset_at() == now,
            final(self).notices() == old(self).notices(),
            final(self).recent() == old(self).recent(),
            final(self).displaying() == old(self).displaying(),
    {
        self.reset_time = now;
    }

    /// The alpha to paint the notice with at time `now`: it rises from 0 to 255
    /// over the first second, falls back to 0 over the last, and is 255 when
    /// nothing is shown.
    fn compute_alpha(&self, now: u64) -> (alpha: u8)
        requires
            self.time_ok(now),
        ensures
            alpha == self.alpha_at(now),
    {
        if !self.currently_displaying {
            255
        } else {
            let t: u32 = self.time_since_reset(now);
            let time_since_start: u32 = if t < NOTICE_TIME {
                t
            } else {
                NOTICE_TIME
            };
            let time_to_end: u32 = NOTICE_TIME - time_since_start;
            if time_since_start < FADE_TIME {
                assert(time_since_start * 255 / 1024 <= 255) by (nonlinear_arith)
                    requires
                        time_since_start < 1024,
                ;
                (time_since_start * 255 / FADE_TIME) as u8
            } else if time_to_end < FADE_TIME {
                assert(time_to_end * 255 / 1024 <= 255) by (nonlinear_arith)
                    requires
                        time_to_end < 1024,
                ;
                (time_to_end * 255 / FADE_TIME) as u8
            } else {
                255
            }
        }
    }

    /// Milliseconds until the panel next needs a repaint: soon after a change
    /// or while fading, never when idle, and otherwise when the fade-out starts.
    pub fn time_to_update(&self, now: u64) -> (wait: u32)
        requires
            self.time_ok(now),
        ensures
            wait == (if self.recent() {
                100
            } else if !self.displaying() {
                u32::MAX as int
            } else if self.alpha_at(now) != 255 {
                100
            } else if now - self.reset_at() < FADE_AT {
                FADE_AT - (now - self.reset_at())
            } else {
                0
            }),
    {
        if self.recent_state_change {
            100
        } else if !self.currently_displaying {
            u32::MAX
        } else {
            let alpha = self.compute_alpha(now);
            if alpha != 255 {
                100
            } else {
                let t: u32 = self.time_since_reset(now);
                let clamped_time_since_start: u32 = if t < FADE_AT {
                    t
                } else {
                    FADE_AT
                };
                FADE_AT - clamped_time_since_start
            }
        }
    }

    /// Advances the panel to time `now`: starts showing the oldest notice if
    /// none is shown, and drops the shown notice once its time is over.
    pub fn update(&mut self, now: u64)
        requires
            old(self).wf(),
            old(self).time_ok(now),
        ensures
            final(self).wf(),
            ({
                let started = !old(self).displaying() && old(self).notices().len() > 0;
                let reset = if started {
                    now
                } else {
                    old(self).reset_at()
                };
                let shown = old(self).displaying() || started;
                let expired = shown && now - reset > NOTICE_TIME;
                &&& final(self).reset_at() == reset
                &&& final(self).notices() == (if expired {
                    old(self).notices().drop_first()
                } else {
                    old(self).notices()
                })
                &&& final(self).displaying() == (shown && !expired)
                &&& final(self).recent() == (started || expired)
            }),
    {
        self.recent_state_change = false;
        if !self.notifications.is_empty() && !self.currently_displaying {
            self.reset_timer(now);
            self.recent_state_change = true;
            self.currently_displaying = true;
        }
        if self.currently_displaying && self.time_since_reset(now) > NOTICE_TIME {
            self.notifications.remove(0);
            assert(self.notices() =~= old(self).notices().drop_first());
            self.recent_state_change = true;
            self.currently_displaying = false;
        }
    }

    /// What the panel paints at time `now`: the notice on display and its
    /// alpha, or nothing.
    pub fn display(&self, now: u64) -> (shown: Option<(String, u8)>)
        requires
            self.wf(),
            self.time_ok(now),
        ensures
            shown is Some == self.displaying(),
            shown matches Some((label, alpha)) ==> label@ == self.notices()[0] && alpha
                == self.alpha_at(now),
    {
        if self.currently_displaying {
            let label_text = self.notifications[0].clone();
            let alpha = self.compute_alpha(now);
            Some((label_text, alpha))
        } else {
            None
        }
    }

    /// The log line for a repaint at time `now`: "(NP notice alpha)" while a
    /// notice is shown, "(NP)" otherwise.
    pub fn display_log_message(&self, now: u64) -> (line: String)
        requires
            self.wf(),
            self.time_ok(now),
        ensures
            line@ == log_line(
                self.displaying(),
                if self.displaying() {
                    self.notices()[0]
                } else {
                    Seq::empty()
                },
                self.alpha_at(now),
            ),
    {
        proof {
            reveal_strlit("(NP ");
            reveal_strlit(" ");
            reveal_strlit(")");
            reveal_strlit("(NP)");
        }
        if self.currently_displaying {
            let alpha = self.compute_alpha(now);
            let mut line = String::from_str("(NP ");
            line.append(self.notifications[0].as_str());
            line.append(" ");
            let digits = decimal_string(alpha as u32);
            line.append(digits.as_str());
            line.append(")");
            line
        } else {
            String::from_str("(NP)")
        }
    }
}

} // verus!

verus! {

/// A timer reset at `t` and read `d <= u32::MAX` milliseconds later reads
/// exactly `d` (0 right after the reset).
pub proof fn lemma_elapsed_after_reset(p: NoticePanel, t: u64, d: u64)
    requires
        p.reset_at() == t,
        t + d <= u64::MAX,
        d <= u32::MAX,
    ensures
        elapsed_fits(p.reset_at(), (t + d) as u64),
        ((t + d) as u64) - p.reset_at() == d,
{
}

/// The fade: a notice starts and ends invisible, is fully visible in between
/// the fades, never exceeds full alpha, and fades out exactly as it faded in.
pub proof fn lemma_fade_shape(t: int)
    requires
        t >= 0,
    ensures
        0 <= fade_alpha(t) <= 255,
        fade_alpha(0) == 0,
        t >= 10000 ==> fade_alpha(t) == 0,
        1024 <= t <= 8976 ==> fade_alpha(t) == 255,
        t <= 10000 ==> fade_alpha(t) == fade_alpha(10000 - t),
{
    if t < 1024 {
        assert(t * 255 / 1024 <= 255) by (nonlinear_arith)
            requires
                0 <= t < 1024,
        ;
    } else if t < 10000 && 10000 - t < 1024 {
        let e = 10000 - t;
        assert(e * 255 / 1024 <= 255) by (nonlinear_arith)
            requires
                0 <= e < 1024,
        ;
    }
}

} // verus!
