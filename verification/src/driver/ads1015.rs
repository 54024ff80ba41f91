//! ADS1015 12-bit ADC: single-shot conversions on channels 1 to 3 (RTD and
//! the two pressure transducers).

use vstd::prelude::*;

verus! {

/// Conversion result register.
pub const REG_CONVERSION: u8 = 0x00;
/// Configuration register.
pub const REG_CONFIG: u8 = 0x01;
/// OS bit: writing 1 starts a conversion; reading 1 means it is complete.
pub const CFG_OS: u16 = 0x8000;
/// Base configuration: start, ±4.096 V, single-shot, 1600 SPS, comparator off.
pub const CFG_BASE: u16 = 0x8383;
/// Milliseconds a conversion may take before it is given up.
pub const CONVERSION_TIMEOUT_MS: u64 = 10;

/// ADS1015 errors.
#[derive(Debug)]
pub enum Ads1015Error<E> {
    I2c(E),
    ConversionTimeout,
    InvalidChannel,
}

impl<E> From<E> for Ads1015Error<E> {
    fn from(error: E) -> (r: Self) {
        Ads1015Error::I2c(error)
    }
}

impl<E> vstd::std_specs::convert::FromSpecImpl<E> for Ads1015Error<E> {
    open spec fn obeys_from_spec() -> bool {
        true
    }

    open spec fn from_spec(error: E) -> Self {
        Ads1015Error::I2c(error)
    }
}

/// The MUX field that selects single-ended input `channel` (0 to 3).
pub open spec fn channel_mux(channel: u8) -> u16 {
    (0x4000 + 0x1000 * channel) as u16
}

/// The configuration word that starts a conversion on `channel`.
pub open spec fn channel_config_spec(channel: u8) -> u16 {
    (CFG_BASE + channel_mux(channel)) as u16
}

/// Each channel's configuration word selects its own single-ended input:
/// the multiplexer field (bits 12..14) reads AINc against ground (`4 + c`),
/// and every other bit is the base configuration's (single-shot start,
/// ±4.096 V range, single-shot mode, 1600 samples/s, comparator off). So the
/// four channels read four different inputs.
pub proof fn lemma_channel_config_selects_input(channel: u8)
    requires
        channel <= 3,
    ensures
        (channel_config_spec(channel) / 4096) % 8 == 4 + channel,
        channel_config_spec(channel) % 4096 == CFG_BASE % 4096,
        channel_config_spec(channel) / 32768 == CFG_BASE / 32768,
        (CFG_BASE / 4096) % 8 == 0,
{
}

/// ADS1015 driver state: whether the chip answered at start-up.
pub struct Ads1015Sensor {
    initialized: bool,
}

impl Ads1015Sensor {
    /// Whether the chip answered at start-up.
    pub closed spec fn ready(&self) -> bool {
        self.initialized
    }

    /// A sensor that is known to be absent: it never reads.
    pub fn unavailable() -> (r: Ads1015Sensor)
        ensures
            !r.ready(),
    {
        Ads1015Sensor { initialized: false }
    }

    /// The sensor after its start-up check, given what reading the config
    /// register returned: it is usable exactly when that read succeeded.
    pub fn new<E>(init: Result<u16, Ads1015Error<E>>) -> (r: Ads1015Sensor)
        ensures
            r.ready() == init.is_ok(),
    {
        Ads1015Sensor { initialized: init.is_ok() }
    }

    /// Whether the chip answered at start-up.
    pub fn is_initialized(&self) -> (r: bool)
        ensures
            r == self.ready(),
    {
        self.initialized
    }

    /// The configuration word that starts a single-shot conversion on
    /// `channel`; channels above 3 do not exist.
    pub fn channel_config<E>(channel: u8) -> (r: Result<u16, Ads1015Error<E>>)
        ensures
            channel <= 3 ==> r == Ok::<u16, Ads1015Error<E>>(channel_config_spec(channel)),
            channel <= 3 ==> (r matches Ok(w) && (w / 4096) % 8 == 4 + channel && w % 4096 == CFG_BASE % 4096
                && w / 32768 == CFG_BASE / 32768),
            channel > 3 ==> r is Err && r->Err_0 is InvalidChannel,
    {
        if channel > 3 {
            return Err(Ads1015Error::InvalidChannel);
        }
        proof {
            lemma_channel_config_selects_input(channel);
        }
        let mux: u16 = 0x4000 + 0x1000 * (channel as u16);
        Ok(CFG_BASE + mux)
    }

    /// The three-byte frame that writes a 16-bit register, most significant
    /// byte first.
    pub fn write_frame(register: u8, value: u16) -> (r: [u8; 3])
        ensures
            r@ == seq![register, (value / 256) as u8, (value % 256) as u8],
    {
        let r = [register, (value / 256) as u8, (value % 256) as u8];
        assert(r@ =~= seq![register, (value / 256) as u8, (value % 256) as u8]);
        r
    }

    /// The 16-bit register value read back, most significant byte first.
    pub fn register_value(buf: [u8; 2]) -> (r: u16)
        ensures
            r == 256 * buf@[0] + buf@[1],
    {
        (buf[0] as u16) * 256 + buf[1] as u16
    }

    /// Decides the conversion poll: `elapsed_ms` milliseconds have passed
    /// since the conversion was started and `status` is the config register
    /// just read. `Ok(true)`: the conversion is complete; `Ok(false)`: wait
    /// another millisecond and poll again; a conversion not complete after
    /// 10 ms has timed out.
    pub fn poll<E>(elapsed_ms: u64, status: u16) -> (r: Result<bool, Ads1015Error<E>>)
        ensures
            status & CFG_OS != 0 ==> r == Ok::<bool, Ads1015Error<E>>(true),
            status & CFG_OS == 0 && elapsed_ms >= CONVERSION_TIMEOUT_MS ==> r is Err && r->Err_0 is ConversionTimeout,
            status & CFG_OS == 0 && elapsed_ms < CONVERSION_TIMEOUT_MS ==> r == Ok::<bool, Ads1015Error<E>>(false),
    {
        if status & CFG_OS != 0 {
            Ok(true)
        } else if elapsed_ms >= CONVERSION_TIMEOUT_MS {
            Err(Ads1015Error::ConversionTimeout)
        } else {
            Ok(false)
        }
    }

    /// The signed 12-bit count held in bits 15..4 of the conversion register
    /// (an arithmetic shift keeps the sign).
    pub fn conversion_value(raw: u16) -> (r: i16)
        ensures
            r == (raw as i16) >> 4u16,
            -2048 <= r < 2048,
    {
        let v = raw as i16;
        assert((v >> 4u16) >= -2048 && (v >> 4u16) < 2048) by (bit_vector);
        v >> 4u16
    }

    /// The channels read into a packet, in the order they are read: RTD (1)
    /// and the transducers PT4 (2) and PT3 (3); none when the chip did not
    /// answer at start-up.
    pub fn packet_channels(&self) -> (r: Vec<u8>)
        ensures
            r@ == (if self.ready() { seq![1u8, 2u8, 3u8] } else { Seq::<u8>::empty() }),
    {
        if self.initialized {
            let r = vec![1u8, 2u8, 3u8];
            assert(r@ =~= seq![1u8, 2u8, 3u8]);
            r
        } else {
            let r: Vec<u8> = Vec::new();
            assert(r@ =~= Seq::<u8>::empty());
            r
        }
    }
}

} // verus!
