//! The app's icons and the loading animation, generic over the image type.
use vstd::prelude::*;
use crate::report_templates::ReportStatus;

verus! {

/// Frame time of the loading animation, in milliseconds.
pub const ICON_LOAD_ANIMATION_IN_MILLIS: u64 = 200;

#[derive(Debug, Clone, Copy, PartialEq, Eq, Structural)]
pub enum Icon {
    Pass,
    Warn,
    Fail,
    Tool,
    Import,
    FixPT,
}

pub struct IconStorage<I> {
    pass: I,
    warn: I,
    fail: I,
    loading: [I; 12],
    tool: I,
    import: I,
    partial_transparency_fix: I,
    icon_last_cycle: u64,
    cycle: usize,
}

impl<I> IconStorage<I> {
    /// The image of an icon.
    pub closed spec fn icon(&self, icon: Icon) -> I {
        match icon {
            Icon::Pass => self.pass,
            Icon::Warn => self.warn,
            Icon::Fail => self.fail,
            Icon::Tool => self.tool,
            Icon::Import => self.import,
            Icon::FixPT => self.partial_transparency_fix,
        }
    }

    /// The frames of the loading animation.
    pub closed spec fn frames(&self) -> Seq<I> {
        self.loading@
    }

    /// How many frames the animation has advanced.
    pub closed spec fn cycle(&self) -> usize {
        self.cycle
    }

    /// When the animation last advanced.
    pub closed spec fn last_cycle_at(&self) -> u64 {
        self.icon_last_cycle
    }

    /// Icon storage whose animation starts at frame 0 at time `now`.
    pub fn new(
        pass: I,
        warn: I,
        fail: I,
        loading: [I; 12],
        tool: I,
        import: I,
        partial_transparency_fix: I,
        now: u64,
    ) -> (s: Self)
        ensures
            s.icon(Icon::Pass) == pass,
            s.icon(Icon::Warn) == warn,
            s.icon(Icon::Fail) == fail,
            s.icon(Icon::Tool) == tool,
            s.icon(Icon::Import) == import,
            s.icon(Icon::FixPT) == partial_transparency_fix,
            s.frames() == loading@,
            s.cycle() == 0,
            s.last_cycle_at() == now,
    {
        IconStorage {
            pass,
            warn,
            fail,
            loading,
            tool,
            import,
            partial_transparency_fix,
            icon_last_cycle: now,
            cycle: 0,
        }
    }

    pub fn get_loaded_image(&self, icon: Icon) -> (img: &I)
        ensures
            *img == self.icon(icon),
    {
        match icon {
            Icon::Pass => &self.pass,
            Icon::Warn => &self.warn,
            Icon::Fail => &self.fail,
            Icon::Tool => &self.tool,
            Icon::Import => &self.import,
            Icon::FixPT => &self.partial_transparency_fix,
        }
    }

    /// The current frame of the loading animation.
    pub fn load_animation(&self) -> (img: &I)
        ensures
            *img == self.frames()[(self.cycle() % 12) as int],
    {
        &self.loading[self.cycle % 12]
    }

    /// The image for a report status: the loading animation while unknown.
    pub fn status_icon(&self, status: ReportStatus) -> (img: &I)
        ensures
            *img == match status {
                ReportStatus::Unknown => self.frames()[(self.cycle() % 12) as int],
                ReportStatus::Fail => self.icon(Icon::Fail),
                ReportStatus::Warn => self.icon(Icon::Warn),
                ReportStatus::Pass => self.icon(Icon::Pass),
            },
    {
        match status {
            ReportStatus::Unknown => self.load_animation(),
            ReportStatus::Fail => self.get_loaded_image(Icon::Fail),
            ReportStatus::Warn => self.get_loaded_image(Icon::Warn),
            ReportStatus::Pass => self.get_loaded_image(Icon::Pass),
        }
    }

    /// Whether `advance_cycle` can take the clock reading `now`: not before
    /// the last advance, and with room to count one more frame if one is due.
    pub fn accepts_time(&self, now: u64) -> (ok: bool)
        ensures
            ok == (self.last_cycle_at() <= now && (now - self.last_cycle_at()
                > ICON_LOAD_ANIMATION_IN_MILLIS - 20 ==> self.cycle() < usize::MAX)),
    {
        self.icon_last_cycle <= now && (now - self.icon_last_cycle <= ICON_LOAD_ANIMATION_IN_MILLIS
            - 20 || self.cycle < usize::MAX)
    }

    /// Moves the animation to its next frame when more than 180 ms have
    /// passed since it last moved.
    pub fn advance_cycle(&mut self, now: u64)
        requires
            old(self).last_cycle_at() <= now,
            now - old(self).last_cycle_at() > ICON_LOAD_ANIMATION_IN_MILLIS - 20 ==> old(self).cycle()
                < usize::MAX,
        ensures
            final(self).frames() == old(self).frames(),
            forall|i: Icon| final(self).icon(i) == old(self).icon(i),
            if now - old(self).last_cycle_at() > ICON_LOAD_ANIMATION_IN_MILLIS - 20 {
                final(self).cycle() == old(self).cycle() + 1 && final(self).last_cycle_at() == now
            } else {
                final(self).cycle() == old(self).cycle() && final(self).last_cycle_at() == old(
                    self,
                ).last_cycle_at()
            },
    {
        let time_since_last_cycle: u64 = now - self.icon_last_cycle;
        if time_since_last_cycle > ICON_LOAD_ANIMATION_IN_MILLIS - 20 {
            self.cycle = self.cycle + 1;
            self.icon_last_cycle = now;
        }
    }
}

} // verus!
