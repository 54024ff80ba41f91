//! BMP390 barometric altimeter on SPI: the disconnect check made before each
//! reading. The SPI transfers, the compensation and the altitude formula
//! (floating point) belong to the caller.

use vstd::prelude::*;

verus! {

/// The value a healthy chip reports in its CHIP_ID register; a floating bus
/// reads 0xFF or 0x00 instead.
pub const BMP390_CHIP_ID: u8 = 0x60;

/// Whether the CHIP_ID register shows the chip still attached; a reading
/// without it is refused as not connected.
pub fn chip_connected(chip_id: u8) -> (r: bool)
    ensures
        r == (chip_id == BMP390_CHIP_ID),
{
    chip_id == BMP390_CHIP_ID
}

/// BMP390 driver state: whether the chip was set up at start-up.
pub struct Bmp390Sensor {
    altimeter_init: bool,
}

impl Bmp390Sensor {
    /// Whether the chip was set up at start-up.
    pub closed spec fn ready(&self) -> bool {
        self.altimeter_init
    }

    /// The sensor after start-up: usable exactly when setting the chip up
    /// succeeded.
    pub fn new(init_ok: bool) -> (r: Bmp390Sensor)
        ensures
            r.ready() == init_ok,
    {
        Bmp390Sensor { altimeter_init: init_ok }
    }

    /// A sensor known to be absent: every reading is refused.
    pub fn unavailable() -> (r: Bmp390Sensor)
        ensures
            !r.ready(),
    {
        Bmp390Sensor { altimeter_init: false }
    }

    /// Whether the chip was set up at start-up.
    pub fn is_init(&self) -> (r: bool)
        ensures
            r == self.ready(),
    {
        self.altimeter_init
    }
}

} // verus!
