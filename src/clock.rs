use vstd::prelude::*;

verus! {

/// The in-game clock: a twelve-hour day with an AM/PM flag, thirty-day
/// months numbered from one, and four months to a year.
#[derive(Clone, Copy, Debug, PartialEq, Eq)]
pub struct MiscTime {
    pub year: u16,
    pub month: u8,
    pub day: u8,
    pub hour: u8,
    pub mnt: u8,
    pub scnd: u8,
    pub am: bool,
}

impl MiscTime {
    /// Every field below the value at which it carries over.
    pub open spec fn wf(&self) -> bool {
        &&& self.scnd < 60
        &&& self.mnt < 60
        &&& self.hour < 12
        &&& self.day < 31
        &&& self.month < 255
    }
}

/// The clock one month on: past the fourth month a new year begins (the year
/// stays at `u16::MAX` once there).
pub open spec fn next_month(t: MiscTime) -> MiscTime {
    if t.month + 1 < 5 {
        MiscTime { month: (t.month + 1) as u8, ..t }
    } else {
        MiscTime { year: if t.year < u16::MAX { (t.year + 1) as u16 } else { t.year }, month: 1, ..t }
    }
}

/// The clock one day on: past day thirty the month turns, back to day one.
pub open spec fn next_day(t: MiscTime) -> MiscTime {
    if t.day + 1 < 31 {
        MiscTime { day: (t.day + 1) as u8, ..t }
    } else {
        next_month(MiscTime { day: 1, ..t })
    }
}

/// The clock one hour on: past hour eleven the half-day flips, and a new
/// day starts when it flips to AM.
pub open spec fn next_hour(t: MiscTime) -> MiscTime {
    if t.hour + 1 < 12 {
        MiscTime { hour: (t.hour + 1) as u8, ..t }
    } else {
        let flipped = MiscTime { hour: 0, am: !t.am, ..t };
        if flipped.am { next_day(flipped) } else { flipped }
    }
}

/// The clock one minute on.
pub open spec fn next_minute(t: MiscTime) -> MiscTime {
    if t.mnt + 1 < 60 {
        MiscTime { mnt: (t.mnt + 1) as u8, ..t }
    } else {
        next_hour(MiscTime { mnt: 0, ..t })
    }
}

/// The clock one second on.
pub open spec fn next_second(t: MiscTime) -> MiscTime {
    if t.scnd + 1 < 60 {
        MiscTime { scnd: (t.scnd + 1) as u8, ..t }
    } else {
        next_minute(MiscTime { scnd: 0, ..t })
    }
}

impl Default for MiscTime {
    /// Six o'clock in the morning of the first day of month nine, year zero.
    fn default() -> (r: MiscTime)
        ensures
            r == (MiscTime { year: 0, month: 9, day: 1, hour: 6, mnt: 0, scnd: 0, am: true }),
    {
        MiscTime { year: 0, month: 9, day: 1, hour: 6, mnt: 0, scnd: 0, am: true }
    }
}

impl MiscTime {
    /// Advances the clock by one second; returns whether a minute was
    /// completed, after which the displayed time changes.
    pub fn tick(&mut self) -> (r: bool)
        requires
            old(self).wf(),
        ensures
            *final(self) == next_second(*old(self)),
            final(self).wf(),
            r == (old(self).scnd + 1 >= 60),
    {
        self.scnd = self.scnd + 1;
        if self.scnd < 60 {
            return false;
        }
        self.scnd = 0;
        self.mnt = self.mnt + 1;
        if self.mnt >= 60 {
            self.mnt = 0;
            self.hour = self.hour + 1;
            if self.hour >= 12 {
                self.hour = 0;
                self.am = !self.am;
                if self.am {
                    self.day = self.day + 1;
                    if self.day >= 31 {
                        self.day = 1;
                        self.month = self.month + 1;
                        if self.month >= 5 {
                            if self.year < u16::MAX {
                                self.year = self.year + 1;
                            }
                            self.month = 1;
                        }
                    }
                }
            }
        }
        true
    }
}

} // verus!
