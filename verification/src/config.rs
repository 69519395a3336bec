//! Settings of the decoder.

use vstd::prelude::*;

verus! {

/// Carrier frequency of Mode S, in hertz.
pub const MODES_FREQ: u32 = 1_090_000_000;

/// The gain value that asks for the highest gain.
pub const MAX_GAIN: i32 = 999999;

/// What gets traced.
#[derive(Debug, Clone, Copy, PartialEq, Eq)]
pub struct DebugFlags {
    pub demod: bool,
    pub demod_err: bool,
    pub bad_crc: bool,
    pub good_crc: bool,
    pub no_preamble: bool,
    pub net: bool,
    pub js: bool,
}

/// The flags after one more letter: `D` traces demodulated frames, `d`
/// demodulation errors, `C` good checksums, `c` bad checksums, `p` missing
/// preambles, `n` the network, `j` the map. Any other letter changes nothing.
pub open spec fn spec_with_letter(flags: DebugFlags, letter: char) -> DebugFlags {
    if letter == 'D' {
        DebugFlags { demod: true, ..flags }
    } else if letter == 'd' {
        DebugFlags { demod_err: true, ..flags }
    } else if letter == 'C' {
        DebugFlags { good_crc: true, ..flags }
    } else if letter == 'c' {
        DebugFlags { bad_crc: true, ..flags }
    } else if letter == 'p' {
        DebugFlags { no_preamble: true, ..flags }
    } else if letter == 'n' {
        DebugFlags { net: true, ..flags }
    } else if letter == 'j' {
        DebugFlags { js: true, ..flags }
    } else {
        flags
    }
}

/// The flags after some letters, taken from the first to the last.
pub open spec fn spec_with_letters(flags: DebugFlags, letters: Seq<char>) -> DebugFlags
    decreases letters.len(),
{
    if letters.len() == 0 {
        flags
    } else {
        spec_with_letter(spec_with_letters(flags, letters.drop_last()), letters.last())
    }
}

impl DebugFlags {
    /// The flags with what one letter asks for switched on.
    pub fn with_letter(self, letter: char) -> (flags: Self)
        ensures
            flags == spec_with_letter(self, letter),
    {
        let mut flags = self;
        if letter == 'D' {
            flags.demod = true;
        } else if letter == 'd' {
            flags.demod_err = true;
        } else if letter == 'C' {
            flags.good_crc = true;
        } else if letter == 'c' {
            flags.bad_crc = true;
        } else if letter == 'p' {
            flags.no_preamble = true;
        } else if letter == 'n' {
            flags.net = true;
        } else if letter == 'j' {
            flags.js = true;
        }
        flags
    }

    /// The flags with what some letters ask for switched on.
    pub fn with_letters(self, letters: &str) -> (flags: Self)
        ensures
            flags == spec_with_letters(self, letters@),
    {
        let count: usize = letters.unicode_len();
        let mut flags = self;
        let mut k: usize = 0;
        while k < count
            invariant
                count == letters@.len(),
                k <= count,
                flags == spec_with_letters(self, letters@.take(k as int)),
            decreases count - k,
        {
            assert(letters@.take(k as int + 1).drop_last() =~= letters@.take(k as int));
            flags = flags.with_letter(letters.get_char(k));
            k += 1;
        }
        assert(letters@.take(count as int) =~= letters@);
        flags
    }
}

impl Default for DebugFlags {
    /// Nothing is traced.
    fn default() -> (flags: Self)
        ensures
            flags == (DebugFlags {
                demod: false,
                demod_err: false,
                bad_crc: false,
                good_crc: false,
                no_preamble: false,
                net: false,
                js: false,
            }),
    {
        DebugFlags {
            demod: false,
            demod_err: false,
            bad_crc: false,
            good_crc: false,
            no_preamble: false,
            net: false,
            js: false,
        }
    }
}

/// The settings.
#[derive(Debug, Clone)]
pub struct Config {
    /// Index of the receiver device.
    pub dev_index: u32,
    /// Gain in tenths of a decibel.
    pub gain: i32,
    /// Whether the receiver controls its gain itself.
    pub enable_agc: bool,
    /// Frequency in hertz.
    pub freq: u32,
    /// File to read samples from, in place of a receiver.
    pub filename: Option<String>,
    /// Whether to read the file again when it ends.
    pub loop_file: bool,
    /// Whether to repair single-bit errors.
    pub fix_errors: bool,
    /// Whether to track only frames that passed their check.
    pub check_crc: bool,
    /// Whether to repair two-bit errors as well.
    pub aggressive: bool,
    /// Whether to print frames in text form only.
    pub raw: bool,
    /// Whether to print addresses only.
    pub onlyaddr: bool,
    /// Whether to show metric units.
    pub metric: bool,
    /// Whether to show the live table.
    pub interactive: bool,
    /// Number of rows of the live table.
    pub interactive_rows: usize,
    /// After how many seconds without a message an aircraft is dropped.
    pub interactive_ttl: u64,
    /// From how many messages on an aircraft is shown.
    pub min_messages: u64,
    /// Whether to serve the network.
    pub net: bool,
    /// Whether to take frames from the network only.
    pub net_only: bool,
    /// Port of the raw output server.
    pub net_ro_port: u16,
    /// Port of the raw input server.
    pub net_ri_port: u16,
    /// Port of the map server.
    pub net_http_port: u16,
    /// Port of the BaseStation output server.
    pub net_sbs_port: u16,
    /// What gets traced.
    pub debug: DebugFlags,
    /// Whether to print statistics at the end of a file.
    pub stats: bool,
}

impl Config {
    /// The settings are the defaults.
    pub open spec fn is_default(&self) -> bool {
        &&& self.dev_index == 0
        &&& self.gain == MAX_GAIN
        &&& !self.enable_agc
        &&& self.freq == MODES_FREQ
        &&& self.filename is None
        &&& !self.loop_file
        &&& self.fix_errors
        &&& self.check_crc
        &&& !self.aggressive
        &&& !self.raw
        &&& !self.onlyaddr
        &&& self.metric
        &&& !self.interactive
        &&& self.interactive_rows == 15
        &&& self.interactive_ttl == 60
        &&& self.min_messages == 2
        &&& !self.net
        &&& !self.net_only
        &&& self.net_ro_port == 30002
        &&& self.net_ri_port == 30001
        &&& self.net_http_port == 8080
        &&& self.net_sbs_port == 30003
        &&& self.debug == (DebugFlags {
            demod: false,
            demod_err: false,
            bad_crc: false,
            good_crc: false,
            no_preamble: false,
            net: false,
            js: false,
        })
        &&& !self.stats
    }

    /// Whether a frame goes to the tracker: one that passed its check, or
    /// any frame when checks are switched off.
    pub fn tracks(&self, crc_ok: bool) -> (yes: bool)
        ensures
            yes == (crc_ok || !self.check_crc),
    {
        crc_ok || !self.check_crc
    }
}

impl Default for Config {
    /// The default settings: highest gain, 1090 MHz, repair and check on,
    /// metric units, 15 rows, 60 seconds to live, 2 messages to show, the
    /// usual ports.
    fn default() -> (config: Self)
        ensures
            config.is_default(),
    {
        Config {
            dev_index: 0,
            gain: MAX_GAIN,
            enable_agc: false,
            freq: MODES_FREQ,
            filename: None,
            loop_file: false,
            fix_errors: true,
            check_crc: true,
            aggressive: false,
            raw: false,
            onlyaddr: false,
            metric: true,
            interactive: false,
            interactive_rows: 15,
            interactive_ttl: 60,
            min_messages: 2,
            net: false,
            net_only: false,
            net_ro_port: 30002,
            net_ri_port: 30001,
            net_http_port: 8080,
            net_sbs_port: 30003,
            debug: DebugFlags::default(),
            stats: false,
        }
    }
}

} // verus!
