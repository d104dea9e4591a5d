//! LED synchronizer: inbound MIDI to LED slots, start-up lighting, the test
//! pattern, and the payload plan for the engine's current state.
use vstd::prelude::*;
use crate::engine::Engine;
use crate::leds::{
    led_cleared, led_write, LedConfig, LedPlan, LedView, holds, write_payloads, feature_fallbacks,
    BANK80_LEN, BANK81_LEN, BANK_80, BANK_81, LEGACY_LEN, LED_BRIGHT, LED_DIM,
};
use crate::midi::LED_CHANNEL;

verus! {

/// Test pattern: the lit slot moves on every this many ticks.
pub const TEST_PATTERN_PERIOD: u8 = 8;

/// Slots that inbound messages may address under `cfg`.
pub open spec fn addressable_slots(cfg: LedConfig) -> int {
    if cfg.bank == BANK_80 {
        BANK80_LEN as int
    } else if cfg.bank == BANK_81 || cfg.ext_enabled {
        BANK81_LEN as int
    } else {
        LEGACY_LEN as int
    }
}

/// High nibble of a status byte.
pub open spec fn status_kind(status: u8) -> u8 {
    (status / 16) as u8
}

/// The slot and level that an inbound message sets, if any. Messages shorter
/// than three bytes, and statuses other than note-off, note-on, control change
/// and the LED channel, set nothing. On the LED channel the second byte is the
/// slot and the value passes through; otherwise the second byte is an output
/// code mapped through `table` (falling back to the byte itself) and the value
/// becomes dim (0) or bright. The shift LED and slots past the addressable range
/// are never set.
pub open spec fn midi_led_target(
    cfg: LedConfig,
    table: Seq<Option<u8>>,
    shift_led: Option<u8>,
    msg: Seq<u8>,
) -> Option<(u8, u8)> {
    if msg.len() < 3 {
        None
    } else {
        let status = msg[0];
        let direct = status == LED_CHANNEL;
        let kind = status_kind(status);
        if !direct && kind != 0x8 && kind != 0x9 && kind != 0xB {
            None
        } else {
            let slot = if direct {
                msg[1]
            } else {
                match table[msg[1] as int] {
                    Some(m) => m,
                    None => msg[1],
                }
            };
            let level = if direct {
                msg[2]
            } else if msg[2] == 0 {
                LED_DIM
            } else {
                LED_BRIGHT
            };
            if shift_led == Some(slot) || slot as int >= addressable_slots(cfg) {
                None
            } else {
                Some((slot, level))
            }
        }
    }
}

/// LED state after the start-up step of `cfg`: cleared when clearing; cleared
/// with one slot lit for a single-index test; else unchanged.
pub open spec fn startup_leds_spec(v: LedView, cfg: LedConfig) -> LedView {
    if cfg.clear {
        led_cleared(v)
    } else {
        match cfg.single_index {
            Some(i) => led_write(led_cleared(v), cfg.bank, i as int, LED_BRIGHT),
            None => v,
        }
    }
}

/// Whether the session goes on to read frames after the start-up step.
pub open spec fn startup_continues(cfg: LedConfig) -> bool {
    !cfg.clear && !(cfg.single_index is Some && cfg.once)
}

/// Legacy array of the test pattern: slot `at` bright, the rest dim.
pub open spec fn test_frame(at: u8) -> Seq<u8> {
    Seq::new(LEGACY_LEN as nat, |i: int| if i == at { LED_BRIGHT } else { LED_DIM })
}

impl Engine {
    /// Applies one inbound MIDI message to the LED state (see `midi_led_target`);
    /// returns whether an LED was set.
    pub fn apply_midi(&mut self, msg: &[u8]) -> (r: bool)
        requires
            old(self).wf(),
        ensures
            final(self).wf(),
            final(self).same_setup(old(self)),
            final(self).model() == (crate::engine::EngineModel {
                leds: match midi_led_target(old(self).config, old(self).led_table@, old(self).shift_led, msg@) {
                    Some((i, v)) => led_write(old(self).leds@, old(self).config.bank, i as int, v),
                    None => old(self).leds@,
                },
                ..old(self).model()
            }),
            final(self).test_index == old(self).test_index,
            final(self).test_tick == old(self).test_tick,
            r == midi_led_target(old(self).config, old(self).led_table@, old(self).shift_led, msg@) is Some,
    {
        if msg.len() < 3 {
            return false;
        }
        let status = msg[0];
        let direct = status == LED_CHANNEL;
        let kind = status / 16;
        if !direct && kind != 0x8 && kind != 0x9 && kind != 0xB {
            return false;
        }
        let slot = if direct {
            msg[1]
        } else {
            match self.led_table[msg[1] as usize] {
                Some(m) => m,
                None => msg[1],
            }
        };
        let level = if direct {
            msg[2]
        } else if msg[2] == 0 {
            LED_DIM
        } else {
            LED_BRIGHT
        };
        if self.shift_led == Some(slot) {
            return false;
        }
        let max_slot: usize = if self.config.bank == BANK_80 {
            BANK80_LEN
        } else if self.config.bank == BANK_81 || self.config.ext_enabled {
            BANK81_LEN
        } else {
            LEGACY_LEN
        };
        if slot as usize >= max_slot {
            return false;
        }
        self.leds.set_led_idx(self.config.bank, slot as usize, level);
        true
    }

    /// The LED start-up step (see `startup_leds_spec`); returns whether the
    /// session goes on to read frames (see `startup_continues`).
    pub fn startup_leds(&mut self) -> (r: bool)
        requires
            old(self).wf(),
        ensures
            final(self).wf(),
            final(self).same_setup(old(self)),
            final(self).model() == (crate::engine::EngineModel {
                leds: startup_leds_spec(old(self).leds@, old(self).config),
                ..old(self).model()
            }),
            final(self).test_index == old(self).test_index,
            final(self).test_tick == old(self).test_tick,
            r == startup_continues(old(self).config),
    {
        if self.config.clear {
            self.leds.clear();
            return false;
        }
        match self.config.single_index {
            Some(i) => {
                self.leds.clear();
                self.leds.set_led_idx(self.config.bank, i, LED_BRIGHT);
                !self.config.once
            },
            None => true,
        }
    }

    /// One tick of the test pattern: every eighth tick lights the next legacy
    /// slot alone. Returns whether the legacy array was redrawn.
    pub fn test_pattern_tick(&mut self) -> (r: bool)
        requires
            old(self).wf(),
        ensures
            final(self).wf(),
            final(self).same_setup(old(self)),
            final(self).test_tick == (if old(self).config.test_pattern {
                (old(self).test_tick + 1) % 256
            } else {
                old(self).test_tick as int
            }),
            r == (old(self).config.test_pattern && final(self).test_tick % TEST_PATTERN_PERIOD == 0),
            r ==> final(self).leds@ == (LedView { legacy: test_frame(old(self).test_index), ..old(self).leds@ }),
            r ==> final(self).test_index == (old(self).test_index + 1) % 32,
            !r ==> final(self).leds == old(self).leds && final(self).test_index == old(self).test_index,
            final(self).states == old(self).states,
            final(self).shift_active == old(self).shift_active,
            final(self).hotcue_mode == old(self).hotcue_mode,
            final(self).fx_hold_mask == old(self).fx_hold_mask,
            final(self).initialized == old(self).initialized,
            final(self).encoder_quiet_count == old(self).encoder_quiet_count,
            final(self).previous_frame == old(self).previous_frame,
    {
        if !self.config.test_pattern {
            return false;
        }
        self.test_tick = self.test_tick.wrapping_add(1);
        if self.test_tick % TEST_PATTERN_PERIOD != 0 {
            return false;
        }
        let mut legacy: Vec<u8> = Vec::new();
        let mut i: usize = 0;
        while i < LEGACY_LEN
            invariant
                i <= LEGACY_LEN,
                self.test_index < 32,
                legacy@ == test_frame(self.test_index).take(i as int),
            decreases LEGACY_LEN - i,
        {
            legacy.push(if i == self.test_index as usize { LED_BRIGHT } else { LED_DIM });
            i = i + 1;
            assert(legacy@ =~= test_frame(self.test_index).take(i as int));
        }
        assert(test_frame(self.test_index).take(LEGACY_LEN as int) =~= test_frame(self.test_index));
        self.leds.legacy = legacy;
        self.test_index = (self.test_index + 1) % 32;
        true
    }

    /// The payloads that show the current LED state (see `LedState::plan`).
    pub fn led_plan(&self) -> (r: LedPlan)
        requires
            self.wf(),
        ensures
            holds(r.writes@, write_payloads(self.leds@, self.hotcue_mode, self.config)),
            holds(r.features@, write_payloads(self.leds@, self.hotcue_mode, self.config) + feature_fallbacks(self.config)),
    {
        self.leds.plan(self.hotcue_mode, self.config)
    }
}

} // verus!
