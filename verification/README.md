# fsw

Flight-software logic of a student sounding rocket, verified with Verus: the
telemetry packet and flash record layouts, the onboard-flash bookkeeping (data
log, crash-recovery snapshot ring), the USB umbilical link, decoding of a
flash dump, the sensor drivers' decodings and checks, the radio sync word, the
actuator timing, and the BLiMS parafoil guidance's phase decisions.

Floating-point values are carried as their IEEE-754 bit patterns, so every
contract is a statement about integers and byte sequences.

Layout:

- `src/` — the verified library (`bytes`, `packet`, `flash`, `dump`,
  `umbilical`, `driver`, `gps`, `radio`, `actuator`, `blims`, `airbrake`,
  `writer`).
- `tests/` — tests of the library on concrete values.
- `app/` — the host tool `dump_flash` (serial capture of a flash dump, CSV
  output), and the floating-point parts around the library: sensor scaling,
  telemetry text, the floating-point fields of a GPS fix, the air-brake
  deployment-to-pulse mapping, BLiMS heading control.
