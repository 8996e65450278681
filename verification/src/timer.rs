//! One of the three 16-bit hardware timers: a wrapping counter, a mode word
//! and a target value.  A tick advances the counter by one and reports
//! whether that tick raised an interrupt request.

use vstd::prelude::*;

verus! {

/// Mathematical state of a timer.
#[verifier::ext_equal]
pub struct TimerView {
    pub counter: u16,
    pub mode: u16,
    pub target: u16,
    pub allow_irq: bool,
}

impl TimerView {
    /// Mode bit 3: reset the counter once it passes the target.
    pub open spec fn reset_after_target(self) -> bool {
        self.mode & 0x8 != 0
    }

    /// Mode bit 4: raise an IRQ when the counter reaches the target.
    pub open spec fn irq_when_at_target(self) -> bool {
        self.mode & 0x10 != 0
    }

    /// Mode bit 5: raise an IRQ when the counter reaches 0xFFFF.
    pub open spec fn irq_at_max(self) -> bool {
        self.mode & 0x20 != 0
    }

    /// Mode bit 6: repeated IRQs; when clear the timer is one-shot.
    pub open spec fn irq_repeat(self) -> bool {
        self.mode & 0x40 != 0
    }

    /// Mode bit 7: toggle the IRQ line (bit 10) instead of pulsing it.
    pub open spec fn is_toggle_mode(self) -> bool {
        self.mode & 0x80 != 0
    }

    /// The mode word after the IRQ line reacts to a raise: toggled in
    /// toggle mode, pulsed low (bit 10 cleared) otherwise.
    pub open spec fn irq_line_after_raise(self) -> u16 {
        if self.is_toggle_mode() {
            if self.mode & 0x400 != 0 {
                self.mode & 0xFBFF
            } else {
                self.mode | 0x400
            }
        } else {
            self.mode & 0xFBFF
        }
    }

    /// The counter value after one tick: increment, wrapping at 2^16, then
    /// reset to zero when it has just passed an enabled target.
    pub open spec fn counter_after_tick(self) -> u16 {
        let c = self.counter.wrapping_add(1);
        if self.reset_after_target() && c == self.target.wrapping_add(1) {
            0u16
        } else {
            c
        }
    }

    /// A tick raises because the counter sits at the maximum.
    pub open spec fn raises_at_max(self) -> bool {
        self.irq_at_max() && self.counter_after_tick() == 0xFFFF && self.allow_irq
    }

    /// A tick raises because the counter sits at the target (the at-max
    /// condition takes precedence when both hold).
    pub open spec fn raises_at_target(self) -> bool {
        !self.raises_at_max() && self.irq_when_at_target() && self.counter_after_tick()
            == self.target && self.allow_irq
    }

    /// State after one tick.
    pub open spec fn tick_spec(self) -> TimerView {
        let c = self.counter_after_tick();
        if self.raises_at_max() || self.raises_at_target() {
            TimerView {
                counter: c,
                mode: self.irq_line_after_raise(),
                target: self.target,
                allow_irq: self.irq_repeat(),
            }
        } else {
            TimerView {
                counter: c,
                mode: self.mode,
                target: self.target,
                allow_irq: if self.irq_repeat() {
                    true
                } else {
                    self.allow_irq
                },
            }
        }
    }

    /// Whether one tick raises an IRQ.
    pub open spec fn tick_raises(self) -> bool {
        self.raises_at_max() || self.raises_at_target()
    }

    /// State after an MMIO write of `val` to the mode register: the
    /// counter clears, the IRQ is re-armed and the low ten bits of `val`
    /// are stored with the IRQ line (bit 10) forced deasserted.
    pub open spec fn write_mode_spec(self, val: u16) -> TimerView {
        TimerView {
            counter: 0u16,
            mode: (val & 0x3FF) | 0x400,
            target: self.target,
            allow_irq: true,
        }
    }
}

/// A 16-bit counter/mode/target timer.
pub struct Timer {
    pub counter: u16,
    pub mode: u16,
    pub target_value: u16,
    pub allow_irq: bool,
}

impl View for Timer {
    type V = TimerView;

    open spec fn view(&self) -> TimerView {
        TimerView {
            counter: self.counter,
            mode: self.mode,
            target: self.target_value,
            allow_irq: self.allow_irq,
        }
    }
}

impl Timer {
    pub fn new() -> (t: Timer)
        ensures
            t@ == (TimerView { counter: 0u16, mode: 0u16, target: 0xFFu16, allow_irq: true }),
    {
        Timer { counter: 0, mode: 0, target_value: 0xFF, allow_irq: true }
    }

    pub fn reset_after_target(&self) -> (r: bool)
        ensures
            r == self@.reset_after_target(),
    {
        self.mode & 0x8 > 0
    }

    pub fn irq_when_at_target(&self) -> (r: bool)
        ensures
            r == self@.irq_when_at_target(),
    {
        self.mode & 0x10 > 0
    }

    pub fn irq_at_max(&self) -> (r: bool)
        ensures
            r == self@.irq_at_max(),
    {
        self.mode & 0x20 > 0
    }

    pub fn irq_repeat(&self) -> (r: bool)
        ensures
            r == self@.irq_repeat(),
    {
        self.mode & 0x40 > 0
    }

    pub fn is_toggle_mode(&self) -> (r: bool)
        ensures
            r == self@.is_toggle_mode(),
    {
        self.mode & 0x80 > 0
    }

    /// Flip the IRQ line bit (mode bit 10).
    pub fn toggle_int(&mut self)
        ensures
            final(self).counter == old(self).counter,
            final(self).target_value == old(self).target_value,
            final(self)@.allow_irq == old(self)@.allow_irq,
            final(self).mode == (if old(self).mode & 0x400 != 0 {
                old(self).mode & 0xFBFF
            } else {
                old(self).mode | 0x400
            }),
    {
        if self.mode & 0x400 > 0 {
            self.mode = self.mode & 0xFBFF;
        } else {
            self.mode = self.mode | 0x400;
        }
    }

    /// Advance the counter by one; the result reports whether this tick
    /// raised an IRQ.
    pub fn tick(&mut self) -> (raised: bool)
        ensures
            final(self)@ == old(self)@.tick_spec(),
            raised == old(self)@.tick_raises(),
    {
        self.counter = self.counter.wrapping_add(1);
        if self.reset_after_target() && self.counter == self.target_value.wrapping_add(1) {
            self.counter = 0;
        }

        if self.irq_at_max() && self.counter == 0xFFFF && self.allow_irq {
            if !self.irq_repeat() {
                self.allow_irq = false;
            }
            if self.is_toggle_mode() {
                self.toggle_int();
            } else {
                self.mode = self.mode & 0xFBFF;
            }
            return true;
        }

        if self.irq_when_at_target() && self.counter == self.target_value && self.allow_irq {
            if !self.irq_repeat() {
                self.allow_irq = false;
            }
            if self.is_toggle_mode() {
                self.toggle_int();
            } else {
                self.mode = self.mode & 0xFBFF;
            }
            return true;
        }

        if self.irq_repeat() {
            self.allow_irq = true;
        }

        false
    }

    /// MMIO write to the mode register: clears the counter, re-arms the IRQ
    /// and stores the low ten mode bits with the IRQ line (bit 10) forced
    /// deasserted.
    pub fn write_to_mode(&mut self, val: u16)
        ensures
            final(self)@ == old(self)@.write_mode_spec(val),
    {
        self.counter = 0;
        self.allow_irq = true;
        self.mode = (val & 0x3FF) | 0x400;
    }
}

/// A tick's IRQ signal fires exactly when one of the two raise conditions
/// holds with `allow_irq` set, and never both at once: either the counter
/// has reached the maximum with mode bit 5 set, or it has reached the
/// target with mode bit 4 set and the at-max condition absent.
pub proof fn lemma_tick_irq_exclusive(t: TimerView)
    ensures
        t.tick_raises() == (t.raises_at_max() || t.raises_at_target()),
        !(t.raises_at_max() && t.raises_at_target()),
{
}

} // verus!
