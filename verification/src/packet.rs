//! The telemetry packet and the high-rate flash record, and their binary
//! layouts.
//!
//! Floating-point fields are held as their IEEE-754 bit patterns: the wire
//! format stores exactly those bits in little-endian order, so the layout, the
//! decoding and every law about them are statements about integers.

use vstd::prelude::*;
use crate::bytes::{
    le_u32, le_u64, u32_of, u64_of, push_u32, push_u64, read_u32, read_u64, to_array,
    lemma_u32_roundtrip, lemma_u64_roundtrip, lemma_i32_roundtrip, lemma_i8_roundtrip,
    lemma_u32_bytes_roundtrip, lemma_u64_bytes_roundtrip, lemma_u32_i32_roundtrip,
    lemma_u8_i8_roundtrip, lemma_prefix_split, lemma_range_join, lemma_byte_range,
    lemma_range_in_prefix, lemma_range_in_suffix,
};

verus! {

/// Ground commands carried to the payload.
#[derive(Clone, Copy, Debug, PartialEq, Eq, Structural)]
pub enum Command {
    Vent,
    N1,
    N2,
    N3,
    N4,
    A1,
    A2,
    A3,
    ForceMode(u32),
}

/// Serialised size of a [`Packet`].
pub const PACKET_SIZE: usize = 193;

/// Serialised size of a [`FastRecord`] payload (tag byte not included).
pub const FAST_RECORD_SIZE: usize = 92;

/// Tag byte written before each high-rate record in the data-log region.
pub const FAST_RECORD_TAG: u8 = 0xFA;

/// Tag byte written before each full-packet record in the data-log region.
pub const FULL_RECORD_TAG: u8 = 0xFB;

/// Number of comma-separated fields in a telemetry or CSV row.
pub const TELEM_FIELD_COUNT: usize = 54;

/// CSV header naming the columns of a packet row, in wire order.
pub const CSV_HEADER: &'static str = "flight_mode,pressure,temp,altitude,latitude,longitude,num_satellites,timestamp,mag_x,mag_y,mag_z,accel_x,accel_y,accel_z,gyro_x,gyro_y,gyro_z,pt3,pt4,rtd,sv_open,mav_open,ssa_drogue_deployed,ssa_main_deployed,cmd_n1,cmd_n2,cmd_n3,cmd_n4,cmd_a1,cmd_a2,cmd_a3,airbrake_deployment,predicted_apogee,h_acc,v_acc,vel_n,vel_e,vel_d,g_speed,s_acc,head_acc,fix_type,head_mot,blims_brakeline_diff,blims_phase_id,blims_pid_p,blims_pid_i,blims_bearing,blims_upwind_lat,blims_upwind_lon,blims_downwind_lat,blims_downwind_lon,blims_wind_from_deg,ms_since_boot_cfc\n";

/// The byte a flag is stored as.
pub open spec fn bool_byte(b: bool) -> u8 {
    if b { 1 } else { 0 }
}

/// One cycle of flight telemetry: sensors, actuator state, event flags,
/// air-brake and BLiMS outputs, and the CFC clock.
#[derive(Clone, Copy, Debug, PartialEq, Eq, Structural)]
pub struct Packet {
    pub flight_mode: u32,
    /// `f32` bit pattern (Pa).
    pub pressure: u32,
    /// `f32` bit pattern (degrees C).
    pub temp: u32,
    /// `f32` bit pattern (m).
    pub altitude: u32,
    /// `f32` bit pattern (degrees).
    pub latitude: u32,
    /// `f32` bit pattern (degrees).
    pub longitude: u32,
    pub num_satellites: u32,
    /// `f32` bit pattern (seconds of the GPS day).
    pub timestamp: u32,
    /// `f32` bit pattern (uT).
    pub mag_x: u32,
    /// `f32` bit pattern (uT).
    pub mag_y: u32,
    /// `f32` bit pattern (uT).
    pub mag_z: u32,
    /// `f32` bit pattern (m/s^2).
    pub accel_x: u32,
    /// `f32` bit pattern (m/s^2).
    pub accel_y: u32,
    /// `f32` bit pattern (m/s^2).
    pub accel_z: u32,
    /// `f32` bit pattern (deg/s).
    pub gyro_x: u32,
    /// `f32` bit pattern (deg/s).
    pub gyro_y: u32,
    /// `f32` bit pattern (deg/s).
    pub gyro_z: u32,
    /// `f32` bit pattern (ADC channel 3, scaled).
    pub pt3: u32,
    /// `f32` bit pattern (ADC channel 2, scaled).
    pub pt4: u32,
    /// `f32` bit pattern (ADC channel 1, scaled).
    pub rtd: u32,
    pub sv_open: bool,
    pub mav_open: bool,
    pub ssa_drogue_deployed: u8,
    pub ssa_main_deployed: u8,
    pub cmd_n1: u8,
    pub cmd_n2: u8,
    pub cmd_n3: u8,
    pub cmd_n4: u8,
    pub cmd_a1: u8,
    pub cmd_a2: u8,
    pub cmd_a3: u8,
    /// `f32` bit pattern (0.0 retracted .. 1.0 deployed).
    pub airbrake_deployment: u32,
    /// `f32` bit pattern (m).
    pub predicted_apogee: u32,
    pub h_acc: u32,
    pub v_acc: u32,
    /// `f64` bit pattern (m/s).
    pub vel_n: u64,
    /// `f64` bit pattern (m/s).
    pub vel_e: u64,
    /// `f64` bit pattern (m/s, positive descending).
    pub vel_d: u64,
    /// `f64` bit pattern (m/s).
    pub g_speed: u64,
    pub s_acc: u32,
    pub head_acc: u32,
    pub fix_type: u8,
    pub head_mot: i32,
    /// `f32` bit pattern (inches).
    pub blims_brakeline_diff: u32,
    pub blims_phase_id: i8,
    /// `f32` bit pattern (inches).
    pub blims_pid_p: u32,
    /// `f32` bit pattern (inches).
    pub blims_pid_i: u32,
    /// `f32` bit pattern (degrees).
    pub blims_bearing: u32,
    /// `f32` bit pattern (degrees).
    pub blims_upwind_lat: u32,
    /// `f32` bit pattern (degrees).
    pub blims_upwind_lon: u32,
    /// `f32` bit pattern (degrees).
    pub blims_downwind_lat: u32,
    /// `f32` bit pattern (degrees).
    pub blims_downwind_lon: u32,
    /// `f32` bit pattern (degrees).
    pub blims_wind_from_deg: u32,
    pub ms_since_boot_cfc: u32,
}

/// The all-zero packet.
pub open spec fn zero_packet() -> Packet {
    Packet {
        flight_mode: 0,
        pressure: 0,
        temp: 0,
        altitude: 0,
        latitude: 0,
        longitude: 0,
        num_satellites: 0,
        timestamp: 0,
        mag_x: 0,
        mag_y: 0,
        mag_z: 0,
        accel_x: 0,
        accel_y: 0,
        accel_z: 0,
        gyro_x: 0,
        gyro_y: 0,
        gyro_z: 0,
        pt3: 0,
        pt4: 0,
        rtd: 0,
        sv_open: false,
        mav_open: false,
        ssa_drogue_deployed: 0,
        ssa_main_deployed: 0,
        cmd_n1: 0,
        cmd_n2: 0,
        cmd_n3: 0,
        cmd_n4: 0,
        cmd_a1: 0,
        cmd_a2: 0,
        cmd_a3: 0,
        airbrake_deployment: 0,
        predicted_apogee: 0,
        h_acc: 0,
        v_acc: 0,
        vel_n: 0,
        vel_e: 0,
        vel_d: 0,
        g_speed: 0,
        s_acc: 0,
        head_acc: 0,
        fix_type: 0,
        head_mot: 0,
        blims_brakeline_diff: 0,
        blims_phase_id: 0,
        blims_pid_p: 0,
        blims_pid_i: 0,
        blims_bearing: 0,
        blims_upwind_lat: 0,
        blims_upwind_lon: 0,
        blims_downwind_lat: 0,
        blims_downwind_lon: 0,
        blims_wind_from_deg: 0,
        ms_since_boot_cfc: 0,
    }
}

impl Default for Packet {
    fn default() -> (p: Packet)
        ensures
            p == zero_packet(),
    {
        Packet {
            flight_mode: 0,
            pressure: 0,
            temp: 0,
            altitude: 0,
            latitude: 0,
            longitude: 0,
            num_satellites: 0,
            timestamp: 0,
            mag_x: 0,
            mag_y: 0,
            mag_z: 0,
            accel_x: 0,
            accel_y: 0,
            accel_z: 0,
            gyro_x: 0,
            gyro_y: 0,
            gyro_z: 0,
            pt3: 0,
            pt4: 0,
            rtd: 0,
            sv_open: false,
            mav_open: false,
            ssa_drogue_deployed: 0,
            ssa_main_deployed: 0,
            cmd_n1: 0,
            cmd_n2: 0,
            cmd_n3: 0,
            cmd_n4: 0,
            cmd_a1: 0,
            cmd_a2: 0,
            cmd_a3: 0,
            airbrake_deployment: 0,
            predicted_apogee: 0,
            h_acc: 0,
            v_acc: 0,
            vel_n: 0,
            vel_e: 0,
            vel_d: 0,
            g_speed: 0,
            s_acc: 0,
            head_acc: 0,
            fix_type: 0,
            head_mot: 0,
            blims_brakeline_diff: 0,
            blims_phase_id: 0,
            blims_pid_p: 0,
            blims_pid_i: 0,
            blims_bearing: 0,
            blims_upwind_lat: 0,
            blims_upwind_lon: 0,
            blims_downwind_lat: 0,
            blims_downwind_lon: 0,
            blims_wind_from_deg: 0,
            ms_since_boot_cfc: 0,
        }
    }
}

/// Bytes 0..80 of a packet's wire layout: flight mode, GPS position and time, magnetometer, IMU and ADC readings. Little-endian.
pub open spec fn packet_sensor_bytes(p: Packet) -> Seq<u8> {
    le_u32(p.flight_mode)
        + le_u32(p.pressure)
        + le_u32(p.temp)
        + le_u32(p.altitude)
        + le_u32(p.latitude)
        + le_u32(p.longitude)
        + le_u32(p.num_satellites)
        + le_u32(p.timestamp)
        + le_u32(p.mag_x)
        + le_u32(p.mag_y)
        + le_u32(p.mag_z)
        + le_u32(p.accel_x)
        + le_u32(p.accel_y)
        + le_u32(p.accel_z)
        + le_u32(p.gyro_x)
        + le_u32(p.gyro_y)
        + le_u32(p.gyro_z)
        + le_u32(p.pt3)
        + le_u32(p.pt4)
        + le_u32(p.rtd)
}

/// Bytes 80..99 of a packet's wire layout: valve states, event flags and air-brake outputs. Little-endian.
pub open spec fn packet_event_bytes(p: Packet) -> Seq<u8> {
    seq![bool_byte(p.sv_open)]
        + seq![bool_byte(p.mav_open)]
        + seq![p.ssa_drogue_deployed]
        + seq![p.ssa_main_deployed]
        + seq![p.cmd_n1]
        + seq![p.cmd_n2]
        + seq![p.cmd_n3]
        + seq![p.cmd_n4]
        + seq![p.cmd_a1]
        + seq![p.cmd_a2]
        + seq![p.cmd_a3]
        + le_u32(p.airbrake_deployment)
        + le_u32(p.predicted_apogee)
}

/// Bytes 99..152 of a packet's wire layout: GPS accuracy, velocity and heading. Little-endian.
pub open spec fn packet_gps_bytes(p: Packet) -> Seq<u8> {
    le_u32(p.h_acc)
        + le_u32(p.v_acc)
        + le_u64(p.vel_n)
        + le_u64(p.vel_e)
        + le_u64(p.vel_d)
        + le_u64(p.g_speed)
        + le_u32(p.s_acc)
        + le_u32(p.head_acc)
        + seq![p.fix_type]
        + le_u32(p.head_mot as u32)
}

/// Bytes 152..193 of a packet's wire layout: BLiMS outputs and configuration, and the CFC clock. Little-endian.
pub open spec fn packet_blims_bytes(p: Packet) -> Seq<u8> {
    le_u32(p.blims_brakeline_diff)
        + seq![p.blims_phase_id as u8]
        + le_u32(p.blims_pid_p)
        + le_u32(p.blims_pid_i)
        + le_u32(p.blims_bearing)
        + le_u32(p.blims_upwind_lat)
        + le_u32(p.blims_upwind_lon)
        + le_u32(p.blims_downwind_lat)
        + le_u32(p.blims_downwind_lon)
        + le_u32(p.blims_wind_from_deg)
        + le_u32(p.ms_since_boot_cfc)
}

/// The 193-byte wire layout of a packet: the fields in declaration order, little-endian.
pub open spec fn packet_bytes(p: Packet) -> Seq<u8> {
    packet_sensor_bytes(p) + packet_event_bytes(p) + packet_gps_bytes(p) + packet_blims_bytes(p)
}

/// The packet whose wire layout starts `b` (a flag byte reads as set when non-zero).
pub open spec fn packet_from_bytes(b: Seq<u8>) -> Packet {
    Packet {
        flight_mode: u32_of(b.subrange(0, 4)),
        pressure: u32_of(b.subrange(4, 8)),
        temp: u32_of(b.subrange(8, 12)),
        altitude: u32_of(b.subrange(12, 16)),
        latitude: u32_of(b.subrange(16, 20)),
        longitude: u32_of(b.subrange(20, 24)),
        num_satellites: u32_of(b.subrange(24, 28)),
        timestamp: u32_of(b.subrange(28, 32)),
        mag_x: u32_of(b.subrange(32, 36)),
        mag_y: u32_of(b.subrange(36, 40)),
        mag_z: u32_of(b.subrange(40, 44)),
        accel_x: u32_of(b.subrange(44, 48)),
        accel_y: u32_of(b.subrange(48, 52)),
        accel_z: u32_of(b.subrange(52, 56)),
        gyro_x: u32_of(b.subrange(56, 60)),
        gyro_y: u32_of(b.subrange(60, 64)),
        gyro_z: u32_of(b.subrange(64, 68)),
        pt3: u32_of(b.subrange(68, 72)),
        pt4: u32_of(b.subrange(72, 76)),
        rtd: u32_of(b.subrange(76, 80)),
        sv_open: b[80] != 0,
        mav_open: b[81] != 0,
        ssa_drogue_deployed: b[82],
        ssa_main_deployed: b[83],
        cmd_n1: b[84],
        cmd_n2: b[85],
        cmd_n3: b[86],
        cmd_n4: b[87],
        cmd_a1: b[88],
        cmd_a2: b[89],
        cmd_a3: b[90],
        airbrake_deployment: u32_of(b.subrange(91, 95)),
        predicted_apogee: u32_of(b.subrange(95, 99)),
        h_acc: u32_of(b.subrange(99, 103)),
        v_acc: u32_of(b.subrange(103, 107)),
        vel_n: u64_of(b.subrange(107, 115)),
        vel_e: u64_of(b.subrange(115, 123)),
        vel_d: u64_of(b.subrange(123, 131)),
        g_speed: u64_of(b.subrange(131, 139)),
        s_acc: u32_of(b.subrange(139, 143)),
        head_acc: u32_of(b.subrange(143, 147)),
        fix_type: b[147],
        head_mot: u32_of(b.subrange(148, 152)) as i32,
        blims_brakeline_diff: u32_of(b.subrange(152, 156)),
        blims_phase_id: b[156] as i8,
        blims_pid_p: u32_of(b.subrange(157, 161)),
        blims_pid_i: u32_of(b.subrange(161, 165)),
        blims_bearing: u32_of(b.subrange(165, 169)),
        blims_upwind_lat: u32_of(b.subrange(169, 173)),
        blims_upwind_lon: u32_of(b.subrange(173, 177)),
        blims_downwind_lat: u32_of(b.subrange(177, 181)),
        blims_downwind_lon: u32_of(b.subrange(181, 185)),
        blims_wind_from_deg: u32_of(b.subrange(185, 189)),
        ms_since_boot_cfc: u32_of(b.subrange(189, 193)),
    }
}

impl Packet {
    /// Serialises the packet into its 193-byte wire layout.
    pub fn to_bytes(&self) -> (r: [u8; 193])
        ensures
            r@ == packet_bytes(*self),
    {
        let mut out: Vec<u8> = Vec::new();
        push_u32(&mut out, self.flight_mode);
        assert(out@ =~= le_u32(self.flight_mode));
        push_u32(&mut out, self.pressure);
        push_u32(&mut out, self.temp);
        push_u32(&mut out, self.altitude);
        push_u32(&mut out, self.latitude);
        push_u32(&mut out, self.longitude);
        push_u32(&mut out, self.num_satellites);
        push_u32(&mut out, self.timestamp);
        push_u32(&mut out, self.mag_x);
        push_u32(&mut out, self.mag_y);
        push_u32(&mut out, self.mag_z);
        push_u32(&mut out, self.accel_x);
        push_u32(&mut out, self.accel_y);
        push_u32(&mut out, self.accel_z);
        push_u32(&mut out, self.gyro_x);
        push_u32(&mut out, self.gyro_y);
        push_u32(&mut out, self.gyro_z);
        push_u32(&mut out, self.pt3);
        push_u32(&mut out, self.pt4);
        push_u32(&mut out, self.rtd);
        let mut events: Vec<u8> = Vec::new();
        events.push(if self.sv_open { 1u8 } else { 0u8 });
        assert(events@ =~= seq![bool_byte(self.sv_open)]);
        events.push(if self.mav_open { 1u8 } else { 0u8 });
        events.push(self.ssa_drogue_deployed);
        events.push(self.ssa_main_deployed);
        events.push(self.cmd_n1);
        events.push(self.cmd_n2);
        events.push(self.cmd_n3);
        events.push(self.cmd_n4);
        events.push(self.cmd_a1);
        events.push(self.cmd_a2);
        events.push(self.cmd_a3);
        push_u32(&mut events, self.airbrake_deployment);
        push_u32(&mut events, self.predicted_apogee);
        let mut gps: Vec<u8> = Vec::new();
        push_u32(&mut gps, self.h_acc);
        assert(gps@ =~= le_u32(self.h_acc));
        push_u32(&mut gps, self.v_acc);
        push_u64(&mut gps, self.vel_n);
        push_u64(&mut gps, self.vel_e);
        push_u64(&mut gps, self.vel_d);
        push_u64(&mut gps, self.g_speed);
        push_u32(&mut gps, self.s_acc);
        push_u32(&mut gps, self.head_acc);
        gps.push(self.fix_type);
        push_u32(&mut gps, self.head_mot as u32);
        let mut blims: Vec<u8> = Vec::new();
        push_u32(&mut blims, self.blims_brakeline_diff);
        assert(blims@ =~= le_u32(self.blims_brakeline_diff));
        blims.push(self.blims_phase_id as u8);
        push_u32(&mut blims, self.blims_pid_p);
        push_u32(&mut blims, self.blims_pid_i);
        push_u32(&mut blims, self.blims_bearing);
        push_u32(&mut blims, self.blims_upwind_lat);
        push_u32(&mut blims, self.blims_upwind_lon);
        push_u32(&mut blims, self.blims_downwind_lat);
        push_u32(&mut blims, self.blims_downwind_lon);
        push_u32(&mut blims, self.blims_wind_from_deg);
        push_u32(&mut blims, self.ms_since_boot_cfc);
        out.append(&mut events);
        out.append(&mut gps);
        out.append(&mut blims);
        proof {
            lemma_packet_layout(*self);
        }
        to_array(&out)
    }

    /// Deserialises a packet; a buffer shorter than 193 bytes gives the
    /// all-zero packet.
    pub fn from_bytes(bytes: &[u8]) -> (p: Packet)
        ensures
            p == (if bytes@.len() < PACKET_SIZE { zero_packet() } else { packet_from_bytes(bytes@) }),
    {
        if bytes.len() < PACKET_SIZE {
            return Packet::default();
        }
        Packet {
            flight_mode: read_u32(bytes, 0),
            pressure: read_u32(bytes, 4),
            temp: read_u32(bytes, 8),
            altitude: read_u32(bytes, 12),
            latitude: read_u32(bytes, 16),
            longitude: read_u32(bytes, 20),
            num_satellites: read_u32(bytes, 24),
            timestamp: read_u32(bytes, 28),
            mag_x: read_u32(bytes, 32),
            mag_y: read_u32(bytes, 36),
            mag_z: read_u32(bytes, 40),
            accel_x: read_u32(bytes, 44),
            accel_y: read_u32(bytes, 48),
            accel_z: read_u32(bytes, 52),
            gyro_x: read_u32(bytes, 56),
            gyro_y: read_u32(bytes, 60),
            gyro_z: read_u32(bytes, 64),
            pt3: read_u32(bytes, 68),
            pt4: read_u32(bytes, 72),
            rtd: read_u32(bytes, 76),
            sv_open: bytes[80] != 0,
            mav_open: bytes[81] != 0,
            ssa_drogue_deployed: bytes[82],
            ssa_main_deployed: bytes[83],
            cmd_n1: bytes[84],
            cmd_n2: bytes[85],
            cmd_n3: bytes[86],
            cmd_n4: bytes[87],
            cmd_a1: bytes[88],
            cmd_a2: bytes[89],
            cmd_a3: bytes[90],
            airbrake_deployment: read_u32(bytes, 91),
            predicted_apogee: read_u32(bytes, 95),
            h_acc: read_u32(bytes, 99),
            v_acc: read_u32(bytes, 103),
            vel_n: read_u64(bytes, 107),
            vel_e: read_u64(bytes, 115),
            vel_d: read_u64(bytes, 123),
            g_speed: read_u64(bytes, 131),
            s_acc: read_u32(bytes, 139),
            head_acc: read_u32(bytes, 143),
            fix_type: bytes[147],
            head_mot: read_u32(bytes, 148) as i32,
            blims_brakeline_diff: read_u32(bytes, 152),
            blims_phase_id: bytes[156] as i8,
            blims_pid_p: read_u32(bytes, 157),
            blims_pid_i: read_u32(bytes, 161),
            blims_bearing: read_u32(bytes, 165),
            blims_upwind_lat: read_u32(bytes, 169),
            blims_upwind_lon: read_u32(bytes, 173),
            blims_downwind_lat: read_u32(bytes, 177),
            blims_downwind_lon: read_u32(bytes, 181),
            blims_wind_from_deg: read_u32(bytes, 185),
            ms_since_boot_cfc: read_u32(bytes, 189),
        }
    }
}

/// Each field of the block occupies its own byte range of it.
proof fn lemma_packet_sensor_layout(p: Packet)
    ensures
        packet_sensor_bytes(p).len() == 80,
        packet_sensor_bytes(p).subrange(0, 4) == le_u32(p.flight_mode),
        packet_sensor_bytes(p).subrange(4, 8) == le_u32(p.pressure),
        packet_sensor_bytes(p).subrange(8, 12) == le_u32(p.temp),
        packet_sensor_bytes(p).subrange(12, 16) == le_u32(p.altitude),
        packet_sensor_bytes(p).subrange(16, 20) == le_u32(p.latitude),
        packet_sensor_bytes(p).subrange(20, 24) == le_u32(p.longitude),
        packet_sensor_bytes(p).subrange(24, 28) == le_u32(p.num_satellites),
        packet_sensor_bytes(p).subrange(28, 32) == le_u32(p.timestamp),
        packet_sensor_bytes(p).subrange(32, 36) == le_u32(p.mag_x),
        packet_sensor_bytes(p).subrange(36, 40) == le_u32(p.mag_y),
        packet_sensor_bytes(p).subrange(40, 44) == le_u32(p.mag_z),
        packet_sensor_bytes(p).subrange(44, 48) == le_u32(p.accel_x),
        packet_sensor_bytes(p).subrange(48, 52) == le_u32(p.accel_y),
        packet_sensor_bytes(p).subrange(52, 56) == le_u32(p.accel_z),
        packet_sensor_bytes(p).subrange(56, 60) == le_u32(p.gyro_x),
        packet_sensor_bytes(p).subrange(60, 64) == le_u32(p.gyro_y),
        packet_sensor_bytes(p).subrange(64, 68) == le_u32(p.gyro_z),
        packet_sensor_bytes(p).subrange(68, 72) == le_u32(p.pt3),
        packet_sensor_bytes(p).subrange(72, 76) == le_u32(p.pt4),
        packet_sensor_bytes(p).subrange(76, 80) == le_u32(p.rtd),
{
    let b = packet_sensor_bytes(p);
    let e0 = le_u32(p.flight_mode);
    let e1 = le_u32(p.pressure);
    let e2 = le_u32(p.temp);
    let e3 = le_u32(p.altitude);
    let e4 = le_u32(p.latitude);
    let e5 = le_u32(p.longitude);
    let e6 = le_u32(p.num_satellites);
    let e7 = le_u32(p.timestamp);
    let e8 = le_u32(p.mag_x);
    let e9 = le_u32(p.mag_y);
    let e10 = le_u32(p.mag_z);
    let e11 = le_u32(p.accel_x);
    let e12 = le_u32(p.accel_y);
    let e13 = le_u32(p.accel_z);
    let e14 = le_u32(p.gyro_x);
    let e15 = le_u32(p.gyro_y);
    let e16 = le_u32(p.gyro_z);
    let e17 = le_u32(p.pt3);
    let e18 = le_u32(p.pt4);
    let e19 = le_u32(p.rtd);
    let s0 = e0;
    let s1 = s0 + e1;
    let s2 = s1 + e2;
    let s3 = s2 + e3;
    let s4 = s3 + e4;
    let s5 = s4 + e5;
    let s6 = s5 + e6;
    let s7 = s6 + e7;
    let s8 = s7 + e8;
    let s9 = s8 + e9;
    let s10 = s9 + e10;
    let s11 = s10 + e11;
    let s12 = s11 + e12;
    let s13 = s12 + e13;
    let s14 = s13 + e14;
    let s15 = s14 + e15;
    let s16 = s15 + e16;
    let s17 = s16 + e17;
    let s18 = s17 + e18;
    let s19 = s18 + e19;
    lemma_u32_roundtrip(p.flight_mode);
    lemma_u32_roundtrip(p.pressure);
    lemma_u32_roundtrip(p.temp);
    lemma_u32_roundtrip(p.altitude);
    lemma_u32_roundtrip(p.latitude);
    lemma_u32_roundtrip(p.longitude);
    lemma_u32_roundtrip(p.num_satellites);
    lemma_u32_roundtrip(p.timestamp);
    lemma_u32_roundtrip(p.mag_x);
    lemma_u32_roundtrip(p.mag_y);
    lemma_u32_roundtrip(p.mag_z);
    lemma_u32_roundtrip(p.accel_x);
    lemma_u32_roundtrip(p.accel_y);
    lemma_u32_roundtrip(p.accel_z);
    lemma_u32_roundtrip(p.gyro_x);
    lemma_u32_roundtrip(p.gyro_y);
    lemma_u32_roundtrip(p.gyro_z);
    lemma_u32_roundtrip(p.pt3);
    lemma_u32_roundtrip(p.pt4);
    lemma_u32_roundtrip(p.rtd);
    assert(b == s19);
    assert(b.subrange(0, 80) =~= b);
    lemma_prefix_split(b, s18, e19);
    lemma_prefix_split(b, s17, e18);
    lemma_prefix_split(b, s16, e17);
    lemma_prefix_split(b, s15, e16);
    lemma_prefix_split(b, s14, e15);
    lemma_prefix_split(b, s13, e14);
    lemma_prefix_split(b, s12, e13);
    lemma_prefix_split(b, s11, e12);
    lemma_prefix_split(b, s10, e11);
    lemma_prefix_split(b, s9, e10);
    lemma_prefix_split(b, s8, e9);
    lemma_prefix_split(b, s7, e8);
    lemma_prefix_split(b, s6, e7);
    lemma_prefix_split(b, s5, e6);
    lemma_prefix_split(b, s4, e5);
    lemma_prefix_split(b, s3, e4);
    lemma_prefix_split(b, s2, e3);
    lemma_prefix_split(b, s1, e2);
    lemma_prefix_split(b, s0, e1);
}

/// Each field of the block occupies its own byte range of it.
proof fn lemma_packet_event_layout(p: Packet)
    ensures
        packet_event_bytes(p).len() == 19,
        packet_event_bytes(p).subrange(0, 1) == seq![bool_byte(p.sv_open)],
        packet_event_bytes(p).subrange(1, 2) == seq![bool_byte(p.mav_open)],
        packet_event_bytes(p).subrange(2, 3) == seq![p.ssa_drogue_deployed],
        packet_event_bytes(p).subrange(3, 4) == seq![p.ssa_main_deployed],
        packet_event_bytes(p).subrange(4, 5) == seq![p.cmd_n1],
        packet_event_bytes(p).subrange(5, 6) == seq![p.cmd_n2],
        packet_event_bytes(p).subrange(6, 7) == seq![p.cmd_n3],
        packet_event_bytes(p).subrange(7, 8) == seq![p.cmd_n4],
        packet_event_bytes(p).subrange(8, 9) == seq![p.cmd_a1],
        packet_event_bytes(p).subrange(9, 10) == seq![p.cmd_a2],
        packet_event_bytes(p).subrange(10, 11) == seq![p.cmd_a3],
        packet_event_bytes(p).subrange(11, 15) == le_u32(p.airbrake_deployment),
        packet_event_bytes(p).subrange(15, 19) == le_u32(p.predicted_apogee),
{
    let b = packet_event_bytes(p);
    let e0 = seq![bool_byte(p.sv_open)];
    let e1 = seq![bool_byte(p.mav_open)];
    let e2 = seq![p.ssa_drogue_deployed];
    let e3 = seq![p.ssa_main_deployed];
    let e4 = seq![p.cmd_n1];
    let e5 = seq![p.cmd_n2];
    let e6 = seq![p.cmd_n3];
    let e7 = seq![p.cmd_n4];
    let e8 = seq![p.cmd_a1];
    let e9 = seq![p.cmd_a2];
    let e10 = seq![p.cmd_a3];
    let e11 = le_u32(p.airbrake_deployment);
    let e12 = le_u32(p.predicted_apogee);
    let s0 = e0;
    let s1 = s0 + e1;
    let s2 = s1 + e2;
    let s3 = s2 + e3;
    let s4 = s3 + e4;
    let s5 = s4 + e5;
    let s6 = s5 + e6;
    let s7 = s6 + e7;
    let s8 = s7 + e8;
    let s9 = s8 + e9;
    let s10 = s9 + e10;
    let s11 = s10 + e11;
    let s12 = s11 + e12;
    lemma_u32_roundtrip(p.airbrake_deployment);
    lemma_u32_roundtrip(p.predicted_apogee);
    assert(b == s12);
    assert(b.subrange(0, 19) =~= b);
    lemma_prefix_split(b, s11, e12);
    lemma_prefix_split(b, s10, e11);
    lemma_prefix_split(b, s9, e10);
    lemma_prefix_split(b, s8, e9);
    lemma_prefix_split(b, s7, e8);
    lemma_prefix_split(b, s6, e7);
    lemma_prefix_split(b, s5, e6);
    lemma_prefix_split(b, s4, e5);
    lemma_prefix_split(b, s3, e4);
    lemma_prefix_split(b, s2, e3);
    lemma_prefix_split(b, s1, e2);
    lemma_prefix_split(b, s0, e1);
}

/// Each field of the block occupies its own byte range of it.
proof fn lemma_packet_gps_layout(p: Packet)
    ensures
        packet_gps_bytes(p).len() == 53,
        packet_gps_bytes(p).subrange(0, 4) == le_u32(p.h_acc),
        packet_gps_bytes(p).subrange(4, 8) == le_u32(p.v_acc),
        packet_gps_bytes(p).subrange(8, 16) == le_u64(p.vel_n),
        packet_gps_bytes(p).subrange(16, 24) == le_u64(p.vel_e),
        packet_gps_bytes(p).subrange(24, 32) == le_u64(p.vel_d),
        packet_gps_bytes(p).subrange(32, 40) == le_u64(p.g_speed),
        packet_gps_bytes(p).subrange(40, 44) == le_u32(p.s_acc),
        packet_gps_bytes(p).subrange(44, 48) == le_u32(p.head_acc),
        packet_gps_bytes(p).subrange(48, 49) == seq![p.fix_type],
        packet_gps_bytes(p).subrange(49, 53) == le_u32(p.head_mot as u32),
{
    let b = packet_gps_bytes(p);
    let e0 = le_u32(p.h_acc);
    let e1 = le_u32(p.v_acc);
    let e2 = le_u64(p.vel_n);
    let e3 = le_u64(p.vel_e);
    let e4 = le_u64(p.vel_d);
    let e5 = le_u64(p.g_speed);
    let e6 = le_u32(p.s_acc);
    let e7 = le_u32(p.head_acc);
    let e8 = seq![p.fix_type];
    let e9 = le_u32(p.head_mot as u32);
    let s0 = e0;
    let s1 = s0 + e1;
    let s2 = s1 + e2;
    let s3 = s2 + e3;
    let s4 = s3 + e4;
    let s5 = s4 + e5;
    let s6 = s5 + e6;
    let s7 = s6 + e7;
    let s8 = s7 + e8;
    let s9 = s8 + e9;
    lemma_u32_roundtrip(p.h_acc);
    lemma_u32_roundtrip(p.v_acc);
    lemma_u64_roundtrip(p.vel_n);
    lemma_u64_roundtrip(p.vel_e);
    lemma_u64_roundtrip(p.vel_d);
    lemma_u64_roundtrip(p.g_speed);
    lemma_u32_roundtrip(p.s_acc);
    lemma_u32_roundtrip(p.head_acc);
    lemma_u32_roundtrip(p.head_mot as u32);
    lemma_i32_roundtrip(p.head_mot);
    assert(b == s9);
    assert(b.subrange(0, 53) =~= b);
    lemma_prefix_split(b, s8, e9);
    lemma_prefix_split(b, s7, e8);
    lemma_prefix_split(b, s6, e7);
    lemma_prefix_split(b, s5, e6);
    lemma_prefix_split(b, s4, e5);
    lemma_prefix_split(b, s3, e4);
    lemma_prefix_split(b, s2, e3);
    lemma_prefix_split(b, s1, e2);
    lemma_prefix_split(b, s0, e1);
}

/// Each field of the block occupies its own byte range of it.
proof fn lemma_packet_blims_layout(p: Packet)
    ensures
        packet_blims_bytes(p).len() == 41,
        packet_blims_bytes(p).subrange(0, 4) == le_u32(p.blims_brakeline_diff),
        packet_blims_bytes(p).subrange(4, 5) == seq![p.blims_phase_id as u8],
        packet_blims_bytes(p).subrange(5, 9) == le_u32(p.blims_pid_p),
        packet_blims_bytes(p).subrange(9, 13) == le_u32(p.blims_pid_i),
        packet_blims_bytes(p).subrange(13, 17) == le_u32(p.blims_bearing),
        packet_blims_bytes(p).subrange(17, 21) == le_u32(p.blims_upwind_lat),
        packet_blims_bytes(p).subrange(21, 25) == le_u32(p.blims_upwind_lon),
        packet_blims_bytes(p).subrange(25, 29) == le_u32(p.blims_downwind_lat),
        packet_blims_bytes(p).subrange(29, 33) == le_u32(p.blims_downwind_lon),
        packet_blims_bytes(p).subrange(33, 37) == le_u32(p.blims_wind_from_deg),
        packet_blims_bytes(p).subrange(37, 41) == le_u32(p.ms_since_boot_cfc),
{
    let b = packet_blims_bytes(p);
    let e0 = le_u32(p.blims_brakeline_diff);
    let e1 = seq![p.blims_phase_id as u8];
    let e2 = le_u32(p.blims_pid_p);
    let e3 = le_u32(p.blims_pid_i);
    let e4 = le_u32(p.blims_bearing);
    let e5 = le_u32(p.blims_upwind_lat);
    let e6 = le_u32(p.blims_upwind_lon);
    let e7 = le_u32(p.blims_downwind_lat);
    let e8 = le_u32(p.blims_downwind_lon);
    let e9 = le_u32(p.blims_wind_from_deg);
    let e10 = le_u32(p.ms_since_boot_cfc);
    let s0 = e0;
    let s1 = s0 + e1;
    let s2 = s1 + e2;
    let s3 = s2 + e3;
    let s4 = s3 + e4;
    let s5 = s4 + e5;
    let s6 = s5 + e6;
    let s7 = s6 + e7;
    let s8 = s7 + e8;
    let s9 = s8 + e9;
    let s10 = s9 + e10;
    lemma_u32_roundtrip(p.blims_brakeline_diff);
    lemma_i8_roundtrip(p.blims_phase_id);
    lemma_u32_roundtrip(p.blims_pid_p);
    lemma_u32_roundtrip(p.blims_pid_i);
    lemma_u32_roundtrip(p.blims_bearing);
    lemma_u32_roundtrip(p.blims_upwind_lat);
    lemma_u32_roundtrip(p.blims_upwind_lon);
    lemma_u32_roundtrip(p.blims_downwind_lat);
    lemma_u32_roundtrip(p.blims_downwind_lon);
    lemma_u32_roundtrip(p.blims_wind_from_deg);
    lemma_u32_roundtrip(p.ms_since_boot_cfc);
    assert(b == s10);
    assert(b.subrange(0, 41) =~= b);
    lemma_prefix_split(b, s9, e10);
    lemma_prefix_split(b, s8, e9);
    lemma_prefix_split(b, s7, e8);
    lemma_prefix_split(b, s6, e7);
    lemma_prefix_split(b, s5, e6);
    lemma_prefix_split(b, s4, e5);
    lemma_prefix_split(b, s3, e4);
    lemma_prefix_split(b, s2, e3);
    lemma_prefix_split(b, s1, e2);
    lemma_prefix_split(b, s0, e1);
}

/// Each field of a packet occupies its own byte range of the wire layout.
pub proof fn lemma_packet_layout(p: Packet)
    ensures
        packet_bytes(p).len() == 193,
        packet_bytes(p).subrange(0, 4) == le_u32(p.flight_mode),
        packet_bytes(p).subrange(4, 8) == le_u32(p.pressure),
        packet_bytes(p).subrange(8, 12) == le_u32(p.temp),
        packet_bytes(p).subrange(12, 16) == le_u32(p.altitude),
        packet_bytes(p).subrange(16, 20) == le_u32(p.latitude),
        packet_bytes(p).subrange(20, 24) == le_u32(p.longitude),
        packet_bytes(p).subrange(24, 28) == le_u32(p.num_satellites),
        packet_bytes(p).subrange(28, 32) == le_u32(p.timestamp),
        packet_bytes(p).subrange(32, 36) == le_u32(p.mag_x),
        packet_bytes(p).subrange(36, 40) == le_u32(p.mag_y),
        packet_bytes(p).subrange(40, 44) == le_u32(p.mag_z),
        packet_bytes(p).subrange(44, 48) == le_u32(p.accel_x),
        packet_bytes(p).subrange(48, 52) == le_u32(p.accel_y),
        packet_bytes(p).subrange(52, 56) == le_u32(p.accel_z),
        packet_bytes(p).subrange(56, 60) == le_u32(p.gyro_x),
        packet_bytes(p).subrange(60, 64) == le_u32(p.gyro_y),
        packet_bytes(p).subrange(64, 68) == le_u32(p.gyro_z),
        packet_bytes(p).subrange(68, 72) == le_u32(p.pt3),
        packet_bytes(p).subrange(72, 76) == le_u32(p.pt4),
        packet_bytes(p).subrange(76, 80) == le_u32(p.rtd),
        packet_bytes(p).subrange(80, 81) == seq![bool_byte(p.sv_open)],
        packet_bytes(p).subrange(81, 82) == seq![bool_byte(p.mav_open)],
        packet_bytes(p).subrange(82, 83) == seq![p.ssa_drogue_deployed],
        packet_bytes(p).subrange(83, 84) == seq![p.ssa_main_deployed],
        packet_bytes(p).subrange(84, 85) == seq![p.cmd_n1],
        packet_bytes(p).subrange(85, 86) == seq![p.cmd_n2],
        packet_bytes(p).subrange(86, 87) == seq![p.cmd_n3],
        packet_bytes(p).subrange(87, 88) == seq![p.cmd_n4],
        packet_bytes(p).subrange(88, 89) == seq![p.cmd_a1],
        packet_bytes(p).subrange(89, 90) == seq![p.cmd_a2],
        packet_bytes(p).subrange(90, 91) == seq![p.cmd_a3],
        packet_bytes(p).subrange(91, 95) == le_u32(p.airbrake_deployment),
        packet_bytes(p).subrange(95, 99) == le_u32(p.predicted_apogee),
        packet_bytes(p).subrange(99, 103) == le_u32(p.h_acc),
        packet_bytes(p).subrange(103, 107) == le_u32(p.v_acc),
        packet_bytes(p).subrange(107, 115) == le_u64(p.vel_n),
        packet_bytes(p).subrange(115, 123) == le_u64(p.vel_e),
        packet_bytes(p).subrange(123, 131) == le_u64(p.vel_d),
        packet_bytes(p).subrange(131, 139) == le_u64(p.g_speed),
        packet_bytes(p).subrange(139, 143) == le_u32(p.s_acc),
        packet_bytes(p).subrange(143, 147) == le_u32(p.head_acc),
        packet_bytes(p).subrange(147, 148) == seq![p.fix_type],
        packet_bytes(p).subrange(148, 152) == le_u32(p.head_mot as u32),
        packet_bytes(p).subrange(152, 156) == le_u32(p.blims_brakeline_diff),
        packet_bytes(p).subrange(156, 157) == seq![p.blims_phase_id as u8],
        packet_bytes(p).subrange(157, 161) == le_u32(p.blims_pid_p),
        packet_bytes(p).subrange(161, 165) == le_u32(p.blims_pid_i),
        packet_bytes(p).subrange(165, 169) == le_u32(p.blims_bearing),
        packet_bytes(p).subrange(169, 173) == le_u32(p.blims_upwind_lat),
        packet_bytes(p).subrange(173, 177) == le_u32(p.blims_upwind_lon),
        packet_bytes(p).subrange(177, 181) == le_u32(p.blims_downwind_lat),
        packet_bytes(p).subrange(181, 185) == le_u32(p.blims_downwind_lon),
        packet_bytes(p).subrange(185, 189) == le_u32(p.blims_wind_from_deg),
        packet_bytes(p).subrange(189, 193) == le_u32(p.ms_since_boot_cfc),
{
    lemma_packet_sensor_layout(p);
    lemma_packet_event_layout(p);
    lemma_packet_gps_layout(p);
    lemma_packet_blims_layout(p);
    let a0 = packet_sensor_bytes(p);
    let a1 = a0 + packet_event_bytes(p);
    let a2 = a1 + packet_gps_bytes(p);
    let a3 = a2 + packet_blims_bytes(p);
    assert(packet_bytes(p) == a3);
    lemma_range_in_prefix(a2, packet_blims_bytes(p), 0, 4);
    lemma_range_in_prefix(a1, packet_gps_bytes(p), 0, 4);
    lemma_range_in_prefix(a0, packet_event_bytes(p), 0, 4);
    lemma_range_in_prefix(a2, packet_blims_bytes(p), 4, 8);
    lemma_range_in_prefix(a1, packet_gps_bytes(p), 4, 8);
    lemma_range_in_prefix(a0, packet_event_bytes(p), 4, 8);
    lemma_range_in_prefix(a2, packet_blims_bytes(p), 8, 12);
    lemma_range_in_prefix(a1, packet_gps_bytes(p), 8, 12);
    lemma_range_in_prefix(a0, packet_event_bytes(p), 8, 12);
    lemma_range_in_prefix(a2, packet_blims_bytes(p), 12, 16);
    lemma_range_in_prefix(a1, packet_gps_bytes(p), 12, 16);
    lemma_range_in_prefix(a0, packet_event_bytes(p), 12, 16);
    lemma_range_in_prefix(a2, packet_blims_bytes(p), 16, 20);
    lemma_range_in_prefix(a1, packet_gps_bytes(p), 16, 20);
    lemma_range_in_prefix(a0, packet_event_bytes(p), 16, 20);
    lemma_range_in_prefix(a2, packet_blims_bytes(p), 20, 24);
    lemma_range_in_prefix(a1, packet_gps_bytes(p), 20, 24);
    lemma_range_in_prefix(a0, packet_event_bytes(p), 20, 24);
    lemma_range_in_prefix(a2, packet_blims_bytes(p), 24, 28);
    lemma_range_in_prefix(a1, packet_gps_bytes(p), 24, 28);
    lemma_range_in_prefix(a0, packet_event_bytes(p), 24, 28);
    lemma_range_in_prefix(a2, packet_blims_bytes(p), 28, 32);
    lemma_range_in_prefix(a1, packet_gps_bytes(p), 28, 32);
    lemma_range_in_prefix(a0, packet_event_bytes(p), 28, 32);
    lemma_range_in_prefix(a2, packet_blims_bytes(p), 32, 36);
    lemma_range_in_prefix(a1, packet_gps_bytes(p), 32, 36);
    lemma_range_in_prefix(a0, packet_event_bytes(p), 32, 36);
    lemma_range_in_prefix(a2, packet_blims_bytes(p), 36, 40);
    lemma_range_in_prefix(a1, packet_gps_bytes(p), 36, 40);
    lemma_range_in_prefix(a0, packet_event_bytes(p), 36, 40);
    lemma_range_in_prefix(a2, packet_blims_bytes(p), 40, 44);
    lemma_range_in_prefix(a1, packet_gps_bytes(p), 40, 44);
    lemma_range_in_prefix(a0, packet_event_bytes(p), 40, 44);
    lemma_range_in_prefix(a2, packet_blims_bytes(p), 44, 48);
    lemma_range_in_prefix(a1, packet_gps_bytes(p), 44, 48);
    lemma_range_in_prefix(a0, packet_event_bytes(p), 44, 48);
    lemma_range_in_prefix(a2, packet_blims_bytes(p), 48, 52);
    lemma_range_in_prefix(a1, packet_gps_bytes(p), 48, 52);
    lemma_range_in_prefix(a0, packet_event_bytes(p), 48, 52);
    lemma_range_in_prefix(a2, packet_blims_bytes(p), 52, 56);
    lemma_range_in_prefix(a1, packet_gps_bytes(p), 52, 56);
    lemma_range_in_prefix(a0, packet_event_bytes(p), 52, 56);
    lemma_range_in_prefix(a2, packet_blims_bytes(p), 56, 60);
    lemma_range_in_prefix(a1, packet_gps_bytes(p), 56, 60);
    lemma_range_in_prefix(a0, packet_event_bytes(p), 56, 60);
    lemma_range_in_prefix(a2, packet_blims_bytes(p), 60, 64);
    lemma_range_in_prefix(a1, packet_gps_bytes(p), 60, 64);
    lemma_range_in_prefix(a0, packet_event_bytes(p), 60, 64);
    lemma_range_in_prefix(a2, packet_blims_bytes(p), 64, 68);
    lemma_range_in_prefix(a1, packet_gps_bytes(p), 64, 68);
    lemma_range_in_prefix(a0, packet_event_bytes(p), 64, 68);
    lemma_range_in_prefix(a2, packet_blims_bytes(p), 68, 72);
    lemma_range_in_prefix(a1, packet_gps_bytes(p), 68, 72);
    lemma_range_in_prefix(a0, packet_event_bytes(p), 68, 72);
    lemma_range_in_prefix(a2, packet_blims_bytes(p), 72, 76);
    lemma_range_in_prefix(a1, packet_gps_bytes(p), 72, 76);
    lemma_range_in_prefix(a0, packet_event_bytes(p), 72, 76);
    lemma_range_in_prefix(a2, packet_blims_bytes(p), 76, 80);
    lemma_range_in_prefix(a1, packet_gps_bytes(p), 76, 80);
    lemma_range_in_prefix(a0, packet_event_bytes(p), 76, 80);
    lemma_range_in_prefix(a2, packet_blims_bytes(p), 80, 81);
    lemma_range_in_prefix(a1, packet_gps_bytes(p), 80, 81);
    lemma_range_in_suffix(a0, packet_event_bytes(p), 0, 1);
    lemma_range_in_prefix(a2, packet_blims_bytes(p), 81, 82);
    lemma_range_in_prefix(a1, packet_gps_bytes(p), 81, 82);
    lemma_range_in_suffix(a0, packet_event_bytes(p), 1, 2);
    lemma_range_in_prefix(a2, packet_blims_bytes(p), 82, 83);
    lemma_range_in_prefix(a1, packet_gps_bytes(p), 82, 83);
    lemma_range_in_suffix(a0, packet_event_bytes(p), 2, 3);
    lemma_range_in_prefix(a2, packet_blims_bytes(p), 83, 84);
    lemma_range_in_prefix(a1, packet_gps_bytes(p), 83, 84);
    lemma_range_in_suffix(a0, packet_event_bytes(p), 3, 4);
    lemma_range_in_prefix(a2, packet_blims_bytes(p), 84, 85);
    lemma_range_in_prefix(a1, packet_gps_bytes(p), 84, 85);
    lemma_range_in_suffix(a0, packet_event_bytes(p), 4, 5);
    lemma_range_in_prefix(a2, packet_blims_bytes(p), 85, 86);
    lemma_range_in_prefix(a1, packet_gps_bytes(p), 85, 86);
    lemma_range_in_suffix(a0, packet_event_bytes(p), 5, 6);
    lemma_range_in_prefix(a2, packet_blims_bytes(p), 86, 87);
    lemma_range_in_prefix(a1, packet_gps_bytes(p), 86, 87);
    lemma_range_in_suffix(a0, packet_event_bytes(p), 6, 7);
    lemma_range_in_prefix(a2, packet_blims_bytes(p), 87, 88);
    lemma_range_in_prefix(a1, packet_gps_bytes(p), 87, 88);
    lemma_range_in_suffix(a0, packet_event_bytes(p), 7, 8);
    lemma_range_in_prefix(a2, packet_blims_bytes(p), 88, 89);
    lemma_range_in_prefix(a1, packet_gps_bytes(p), 88, 89);
    lemma_range_in_suffix(a0, packet_event_bytes(p), 8, 9);
    lemma_range_in_prefix(a2, packet_blims_bytes(p), 89, 90);
    lemma_range_in_prefix(a1, packet_gps_bytes(p), 89, 90);
    lemma_range_in_suffix(a0, packet_event_bytes(p), 9, 10);
    lemma_range_in_prefix(a2, packet_blims_bytes(p), 90, 91);
    lemma_range_in_prefix(a1, packet_gps_bytes(p), 90, 91);
    lemma_range_in_suffix(a0, packet_event_bytes(p), 10, 11);
    lemma_range_in_prefix(a2, packet_blims_bytes(p), 91, 95);
    lemma_range_in_prefix(a1, packet_gps_bytes(p), 91, 95);
    lemma_range_in_suffix(a0, packet_event_bytes(p), 11, 15);
    lemma_range_in_prefix(a2, packet_blims_bytes(p), 95, 99);
    lemma_range_in_prefix(a1, packet_gps_bytes(p), 95, 99);
    lemma_range_in_suffix(a0, packet_event_bytes(p), 15, 19);
    lemma_range_in_prefix(a2, packet_blims_bytes(p), 99, 103);
    lemma_range_in_suffix(a1, packet_gps_bytes(p), 0, 4);
    lemma_range_in_prefix(a2, packet_blims_bytes(p), 103, 107);
    lemma_range_in_suffix(a1, packet_gps_bytes(p), 4, 8);
    lemma_range_in_prefix(a2, packet_blims_bytes(p), 107, 115);
    lemma_range_in_suffix(a1, packet_gps_bytes(p), 8, 16);
    lemma_range_in_prefix(a2, packet_blims_bytes(p), 115, 123);
    lemma_range_in_suffix(a1, packet_gps_bytes(p), 16, 24);
    lemma_range_in_prefix(a2, packet_blims_bytes(p), 123, 131);
    lemma_range_in_suffix(a1, packet_gps_bytes(p), 24, 32);
    lemma_range_in_prefix(a2, packet_blims_bytes(p), 131, 139);
    lemma_range_in_suffix(a1, packet_gps_bytes(p), 32, 40);
    lemma_range_in_prefix(a2, packet_blims_bytes(p), 139, 143);
    lemma_range_in_suffix(a1, packet_gps_bytes(p), 40, 44);
    lemma_range_in_prefix(a2, packet_blims_bytes(p), 143, 147);
    lemma_range_in_suffix(a1, packet_gps_bytes(p), 44, 48);
    lemma_range_in_prefix(a2, packet_blims_bytes(p), 147, 148);
    lemma_range_in_suffix(a1, packet_gps_bytes(p), 48, 49);
    lemma_range_in_prefix(a2, packet_blims_bytes(p), 148, 152);
    lemma_range_in_suffix(a1, packet_gps_bytes(p), 49, 53);
    lemma_range_in_suffix(a2, packet_blims_bytes(p), 0, 4);
    lemma_range_in_suffix(a2, packet_blims_bytes(p), 4, 5);
    lemma_range_in_suffix(a2, packet_blims_bytes(p), 5, 9);
    lemma_range_in_suffix(a2, packet_blims_bytes(p), 9, 13);
    lemma_range_in_suffix(a2, packet_blims_bytes(p), 13, 17);
    lemma_range_in_suffix(a2, packet_blims_bytes(p), 17, 21);
    lemma_range_in_suffix(a2, packet_blims_bytes(p), 21, 25);
    lemma_range_in_suffix(a2, packet_blims_bytes(p), 25, 29);
    lemma_range_in_suffix(a2, packet_blims_bytes(p), 29, 33);
    lemma_range_in_suffix(a2, packet_blims_bytes(p), 33, 37);
    lemma_range_in_suffix(a2, packet_blims_bytes(p), 37, 41);
}

/// Decoding the wire layout of a packet gives the packet back.
#[verifier::spinoff_prover]
#[verifier::rlimit(60)]
pub proof fn lemma_packet_roundtrip(p: Packet)
    ensures
        packet_from_bytes(packet_bytes(p)) == p,
{
    lemma_packet_layout(p);
    let b = packet_bytes(p);
    lemma_u32_roundtrip(p.flight_mode);
    assert(u32_of(b.subrange(0, 4)) == p.flight_mode);
    lemma_u32_roundtrip(p.pressure);
    assert(u32_of(b.subrange(4, 8)) == p.pressure);
    lemma_u32_roundtrip(p.temp);
    assert(u32_of(b.subrange(8, 12)) == p.temp);
    lemma_u32_roundtrip(p.altitude);
    assert(u32_of(b.subrange(12, 16)) == p.altitude);
    lemma_u32_roundtrip(p.latitude);
    assert(u32_of(b.subrange(16, 20)) == p.latitude);
    lemma_u32_roundtrip(p.longitude);
    assert(u32_of(b.subrange(20, 24)) == p.longitude);
    lemma_u32_roundtrip(p.num_satellites);
    assert(u32_of(b.subrange(24, 28)) == p.num_satellites);
    lemma_u32_roundtrip(p.timestamp);
    assert(u32_of(b.subrange(28, 32)) == p.timestamp);
    lemma_u32_roundtrip(p.mag_x);
    assert(u32_of(b.subrange(32, 36)) == p.mag_x);
    lemma_u32_roundtrip(p.mag_y);
    assert(u32_of(b.subrange(36, 40)) == p.mag_y);
    lemma_u32_roundtrip(p.mag_z);
    assert(u32_of(b.subrange(40, 44)) == p.mag_z);
    lemma_u32_roundtrip(p.accel_x);
    assert(u32_of(b.subrange(44, 48)) == p.accel_x);
    lemma_u32_roundtrip(p.accel_y);
    assert(u32_of(b.subrange(48, 52)) == p.accel_y);
    lemma_u32_roundtrip(p.accel_z);
    assert(u32_of(b.subrange(52, 56)) == p.accel_z);
    lemma_u32_roundtrip(p.gyro_x);
    assert(u32_of(b.subrange(56, 60)) == p.gyro_x);
    lemma_u32_roundtrip(p.gyro_y);
    assert(u32_of(b.subrange(60, 64)) == p.gyro_y);
    lemma_u32_roundtrip(p.gyro_z);
    assert(u32_of(b.subrange(64, 68)) == p.gyro_z);
    lemma_u32_roundtrip(p.pt3);
    assert(u32_of(b.subrange(68, 72)) == p.pt3);
    lemma_u32_roundtrip(p.pt4);
    assert(u32_of(b.subrange(72, 76)) == p.pt4);
    lemma_u32_roundtrip(p.rtd);
    assert(u32_of(b.subrange(76, 80)) == p.rtd);
    lemma_byte_range(b, 80);
    assert(b[80] != 0 == p.sv_open);
    lemma_byte_range(b, 81);
    assert(b[81] != 0 == p.mav_open);
    lemma_byte_range(b, 82);
    assert(b[82] == p.ssa_drogue_deployed);
    lemma_byte_range(b, 83);
    assert(b[83] == p.ssa_main_deployed);
    lemma_byte_range(b, 84);
    assert(b[84] == p.cmd_n1);
    lemma_byte_range(b, 85);
    assert(b[85] == p.cmd_n2);
    lemma_byte_range(b, 86);
    assert(b[86] == p.cmd_n3);
    lemma_byte_range(b, 87);
    assert(b[87] == p.cmd_n4);
    lemma_byte_range(b, 88);
    assert(b[88] == p.cmd_a1);
    lemma_byte_range(b, 89);
    assert(b[89] == p.cmd_a2);
    lemma_byte_range(b, 90);
    assert(b[90] == p.cmd_a3);
    lemma_u32_roundtrip(p.airbrake_deployment);
    assert(u32_of(b.subrange(91, 95)) == p.airbrake_deployment);
    lemma_u32_roundtrip(p.predicted_apogee);
    assert(u32_of(b.subrange(95, 99)) == p.predicted_apogee);
    lemma_u32_roundtrip(p.h_acc);
    assert(u32_of(b.subrange(99, 103)) == p.h_acc);
    lemma_u32_roundtrip(p.v_acc);
    assert(u32_of(b.subrange(103, 107)) == p.v_acc);
    lemma_u64_roundtrip(p.vel_n);
    assert(u64_of(b.subrange(107, 115)) == p.vel_n);
    lemma_u64_roundtrip(p.vel_e);
    assert(u64_of(b.subrange(115, 123)) == p.vel_e);
    lemma_u64_roundtrip(p.vel_d);
    assert(u64_of(b.subrange(123, 131)) == p.vel_d);
    lemma_u64_roundtrip(p.g_speed);
    assert(u64_of(b.subrange(131, 139)) == p.g_speed);
    lemma_u32_roundtrip(p.s_acc);
    assert(u32_of(b.subrange(139, 143)) == p.s_acc);
    lemma_u32_roundtrip(p.head_acc);
    assert(u32_of(b.subrange(143, 147)) == p.head_acc);
    lemma_byte_range(b, 147);
    assert(b[147] == p.fix_type);
    lemma_u32_roundtrip(p.head_mot as u32);
    lemma_i32_roundtrip(p.head_mot);
    assert(u32_of(b.subrange(148, 152)) as i32 == p.head_mot);
    lemma_u32_roundtrip(p.blims_brakeline_diff);
    assert(u32_of(b.subrange(152, 156)) == p.blims_brakeline_diff);
    lemma_i8_roundtrip(p.blims_phase_id);
    lemma_byte_range(b, 156);
    assert(b[156] as i8 == p.blims_phase_id);
    lemma_u32_roundtrip(p.blims_pid_p);
    assert(u32_of(b.subrange(157, 161)) == p.blims_pid_p);
    lemma_u32_roundtrip(p.blims_pid_i);
    assert(u32_of(b.subrange(161, 165)) == p.blims_pid_i);
    lemma_u32_roundtrip(p.blims_bearing);
    assert(u32_of(b.subrange(165, 169)) == p.blims_bearing);
    lemma_u32_roundtrip(p.blims_upwind_lat);
    assert(u32_of(b.subrange(169, 173)) == p.blims_upwind_lat);
    lemma_u32_roundtrip(p.blims_upwind_lon);
    assert(u32_of(b.subrange(173, 177)) == p.blims_upwind_lon);
    lemma_u32_roundtrip(p.blims_downwind_lat);
    assert(u32_of(b.subrange(177, 181)) == p.blims_downwind_lat);
    lemma_u32_roundtrip(p.blims_downwind_lon);
    assert(u32_of(b.subrange(181, 185)) == p.blims_downwind_lon);
    lemma_u32_roundtrip(p.blims_wind_from_deg);
    assert(u32_of(b.subrange(185, 189)) == p.blims_wind_from_deg);
    lemma_u32_roundtrip(p.ms_since_boot_cfc);
    assert(u32_of(b.subrange(189, 193)) == p.ms_since_boot_cfc);
    assert(packet_from_bytes(b) == p);
}

/// A 193-byte buffer whose two flag bytes are 0 or 1 is the wire layout of the packet it decodes to.
pub proof fn lemma_packet_bytes_roundtrip(b: Seq<u8>)
    requires
        b.len() == 193,
        b[80] <= 1,
        b[81] <= 1,
    ensures
        packet_bytes(packet_from_bytes(b)) == b,
{
    let q = packet_from_bytes(b);
    let b0_e0 = le_u32(q.flight_mode);
    let b0_e1 = le_u32(q.pressure);
    let b0_e2 = le_u32(q.temp);
    let b0_e3 = le_u32(q.altitude);
    let b0_e4 = le_u32(q.latitude);
    let b0_e5 = le_u32(q.longitude);
    let b0_e6 = le_u32(q.num_satellites);
    let b0_e7 = le_u32(q.timestamp);
    let b0_e8 = le_u32(q.mag_x);
    let b0_e9 = le_u32(q.mag_y);
    let b0_e10 = le_u32(q.mag_z);
    let b0_e11 = le_u32(q.accel_x);
    let b0_e12 = le_u32(q.accel_y);
    let b0_e13 = le_u32(q.accel_z);
    let b0_e14 = le_u32(q.gyro_x);
    let b0_e15 = le_u32(q.gyro_y);
    let b0_e16 = le_u32(q.gyro_z);
    let b0_e17 = le_u32(q.pt3);
    let b0_e18 = le_u32(q.pt4);
    let b0_e19 = le_u32(q.rtd);
    let b0_s0 = b0_e0;
    let b0_s1 = b0_s0 + b0_e1;
    let b0_s2 = b0_s1 + b0_e2;
    let b0_s3 = b0_s2 + b0_e3;
    let b0_s4 = b0_s3 + b0_e4;
    let b0_s5 = b0_s4 + b0_e5;
    let b0_s6 = b0_s5 + b0_e6;
    let b0_s7 = b0_s6 + b0_e7;
    let b0_s8 = b0_s7 + b0_e8;
    let b0_s9 = b0_s8 + b0_e9;
    let b0_s10 = b0_s9 + b0_e10;
    let b0_s11 = b0_s10 + b0_e11;
    let b0_s12 = b0_s11 + b0_e12;
    let b0_s13 = b0_s12 + b0_e13;
    let b0_s14 = b0_s13 + b0_e14;
    let b0_s15 = b0_s14 + b0_e15;
    let b0_s16 = b0_s15 + b0_e16;
    let b0_s17 = b0_s16 + b0_e17;
    let b0_s18 = b0_s17 + b0_e18;
    let b0_s19 = b0_s18 + b0_e19;
    lemma_u32_bytes_roundtrip(b.subrange(0, 4));
    assert(b0_e0 == b.subrange(0, 4));
    lemma_u32_bytes_roundtrip(b.subrange(4, 8));
    assert(b0_e1 == b.subrange(4, 8));
    lemma_u32_bytes_roundtrip(b.subrange(8, 12));
    assert(b0_e2 == b.subrange(8, 12));
    lemma_u32_bytes_roundtrip(b.subrange(12, 16));
    assert(b0_e3 == b.subrange(12, 16));
    lemma_u32_bytes_roundtrip(b.subrange(16, 20));
    assert(b0_e4 == b.subrange(16, 20));
    lemma_u32_bytes_roundtrip(b.subrange(20, 24));
    assert(b0_e5 == b.subrange(20, 24));
    lemma_u32_bytes_roundtrip(b.subrange(24, 28));
    assert(b0_e6 == b.subrange(24, 28));
    lemma_u32_bytes_roundtrip(b.subrange(28, 32));
    assert(b0_e7 == b.subrange(28, 32));
    lemma_u32_bytes_roundtrip(b.subrange(32, 36));
    assert(b0_e8 == b.subrange(32, 36));
    lemma_u32_bytes_roundtrip(b.subrange(36, 40));
    assert(b0_e9 == b.subrange(36, 40));
    lemma_u32_bytes_roundtrip(b.subrange(40, 44));
    assert(b0_e10 == b.subrange(40, 44));
    lemma_u32_bytes_roundtrip(b.subrange(44, 48));
    assert(b0_e11 == b.subrange(44, 48));
    lemma_u32_bytes_roundtrip(b.subrange(48, 52));
    assert(b0_e12 == b.subrange(48, 52));
    lemma_u32_bytes_roundtrip(b.subrange(52, 56));
    assert(b0_e13 == b.subrange(52, 56));
    lemma_u32_bytes_roundtrip(b.subrange(56, 60));
    assert(b0_e14 == b.subrange(56, 60));
    lemma_u32_bytes_roundtrip(b.subrange(60, 64));
    assert(b0_e15 == b.subrange(60, 64));
    lemma_u32_bytes_roundtrip(b.subrange(64, 68));
    assert(b0_e16 == b.subrange(64, 68));
    lemma_u32_bytes_roundtrip(b.subrange(68, 72));
    assert(b0_e17 == b.subrange(68, 72));
    lemma_u32_bytes_roundtrip(b.subrange(72, 76));
    assert(b0_e18 == b.subrange(72, 76));
    lemma_u32_bytes_roundtrip(b.subrange(76, 80));
    assert(b0_e19 == b.subrange(76, 80));
    lemma_range_join(b, 0, 4, 8);
    assert(b0_s1 == b.subrange(0, 8));
    lemma_range_join(b, 0, 8, 12);
    assert(b0_s2 == b.subrange(0, 12));
    lemma_range_join(b, 0, 12, 16);
    assert(b0_s3 == b.subrange(0, 16));
    lemma_range_join(b, 0, 16, 20);
    assert(b0_s4 == b.subrange(0, 20));
    lemma_range_join(b, 0, 20, 24);
    assert(b0_s5 == b.subrange(0, 24));
    lemma_range_join(b, 0, 24, 28);
    assert(b0_s6 == b.subrange(0, 28));
    lemma_range_join(b, 0, 28, 32);
    assert(b0_s7 == b.subrange(0, 32));
    lemma_range_join(b, 0, 32, 36);
    assert(b0_s8 == b.subrange(0, 36));
    lemma_range_join(b, 0, 36, 40);
    assert(b0_s9 == b.subrange(0, 40));
    lemma_range_join(b, 0, 40, 44);
    assert(b0_s10 == b.subrange(0, 44));
    lemma_range_join(b, 0, 44, 48);
    assert(b0_s11 == b.subrange(0, 48));
    lemma_range_join(b, 0, 48, 52);
    assert(b0_s12 == b.subrange(0, 52));
    lemma_range_join(b, 0, 52, 56);
    assert(b0_s13 == b.subrange(0, 56));
    lemma_range_join(b, 0, 56, 60);
    assert(b0_s14 == b.subrange(0, 60));
    lemma_range_join(b, 0, 60, 64);
    assert(b0_s15 == b.subrange(0, 64));
    lemma_range_join(b, 0, 64, 68);
    assert(b0_s16 == b.subrange(0, 68));
    lemma_range_join(b, 0, 68, 72);
    assert(b0_s17 == b.subrange(0, 72));
    lemma_range_join(b, 0, 72, 76);
    assert(b0_s18 == b.subrange(0, 76));
    lemma_range_join(b, 0, 76, 80);
    assert(b0_s19 == b.subrange(0, 80));
    assert(packet_sensor_bytes(q) == b0_s19);
    let b1_e0 = seq![bool_byte(q.sv_open)];
    let b1_e1 = seq![bool_byte(q.mav_open)];
    let b1_e2 = seq![q.ssa_drogue_deployed];
    let b1_e3 = seq![q.ssa_main_deployed];
    let b1_e4 = seq![q.cmd_n1];
    let b1_e5 = seq![q.cmd_n2];
    let b1_e6 = seq![q.cmd_n3];
    let b1_e7 = seq![q.cmd_n4];
    let b1_e8 = seq![q.cmd_a1];
    let b1_e9 = seq![q.cmd_a2];
    let b1_e10 = seq![q.cmd_a3];
    let b1_e11 = le_u32(q.airbrake_deployment);
    let b1_e12 = le_u32(q.predicted_apogee);
    let b1_s0 = b1_e0;
    let b1_s1 = b1_s0 + b1_e1;
    let b1_s2 = b1_s1 + b1_e2;
    let b1_s3 = b1_s2 + b1_e3;
    let b1_s4 = b1_s3 + b1_e4;
    let b1_s5 = b1_s4 + b1_e5;
    let b1_s6 = b1_s5 + b1_e6;
    let b1_s7 = b1_s6 + b1_e7;
    let b1_s8 = b1_s7 + b1_e8;
    let b1_s9 = b1_s8 + b1_e9;
    let b1_s10 = b1_s9 + b1_e10;
    let b1_s11 = b1_s10 + b1_e11;
    let b1_s12 = b1_s11 + b1_e12;
    lemma_byte_range(b, 80);
    assert(b1_e0 == b.subrange(80, 81));
    lemma_byte_range(b, 81);
    assert(b1_e1 == b.subrange(81, 82));
    lemma_byte_range(b, 82);
    assert(b1_e2 == b.subrange(82, 83));
    lemma_byte_range(b, 83);
    assert(b1_e3 == b.subrange(83, 84));
    lemma_byte_range(b, 84);
    assert(b1_e4 == b.subrange(84, 85));
    lemma_byte_range(b, 85);
    assert(b1_e5 == b.subrange(85, 86));
    lemma_byte_range(b, 86);
    assert(b1_e6 == b.subrange(86, 87));
    lemma_byte_range(b, 87);
    assert(b1_e7 == b.subrange(87, 88));
    lemma_byte_range(b, 88);
    assert(b1_e8 == b.subrange(88, 89));
    lemma_byte_range(b, 89);
    assert(b1_e9 == b.subrange(89, 90));
    lemma_byte_range(b, 90);
    assert(b1_e10 == b.subrange(90, 91));
    lemma_u32_bytes_roundtrip(b.subrange(91, 95));
    assert(b1_e11 == b.subrange(91, 95));
    lemma_u32_bytes_roundtrip(b.subrange(95, 99));
    assert(b1_e12 == b.subrange(95, 99));
    lemma_range_join(b, 80, 81, 82);
    assert(b1_s1 == b.subrange(80, 82));
    lemma_range_join(b, 80, 82, 83);
    assert(b1_s2 == b.subrange(80, 83));
    lemma_range_join(b, 80, 83, 84);
    assert(b1_s3 == b.subrange(80, 84));
    lemma_range_join(b, 80, 84, 85);
    assert(b1_s4 == b.subrange(80, 85));
    lemma_range_join(b, 80, 85, 86);
    assert(b1_s5 == b.subrange(80, 86));
    lemma_range_join(b, 80, 86, 87);
    assert(b1_s6 == b.subrange(80, 87));
    lemma_range_join(b, 80, 87, 88);
    assert(b1_s7 == b.subrange(80, 88));
    lemma_range_join(b, 80, 88, 89);
    assert(b1_s8 == b.subrange(80, 89));
    lemma_range_join(b, 80, 89, 90);
    assert(b1_s9 == b.subrange(80, 90));
    lemma_range_join(b, 80, 90, 91);
    assert(b1_s10 == b.subrange(80, 91));
    lemma_range_join(b, 80, 91, 95);
    assert(b1_s11 == b.subrange(80, 95));
    lemma_range_join(b, 80, 95, 99);
    assert(b1_s12 == b.subrange(80, 99));
    assert(packet_event_bytes(q) == b1_s12);
    let b2_e0 = le_u32(q.h_acc);
    let b2_e1 = le_u32(q.v_acc);
    let b2_e2 = le_u64(q.vel_n);
    let b2_e3 = le_u64(q.vel_e);
    let b2_e4 = le_u64(q.vel_d);
    let b2_e5 = le_u64(q.g_speed);
    let b2_e6 = le_u32(q.s_acc);
    let b2_e7 = le_u32(q.head_acc);
    let b2_e8 = seq![q.fix_type];
    let b2_e9 = le_u32(q.head_mot as u32);
    let b2_s0 = b2_e0;
    let b2_s1 = b2_s0 + b2_e1;
    let b2_s2 = b2_s1 + b2_e2;
    let b2_s3 = b2_s2 + b2_e3;
    let b2_s4 = b2_s3 + b2_e4;
    let b2_s5 = b2_s4 + b2_e5;
    let b2_s6 = b2_s5 + b2_e6;
    let b2_s7 = b2_s6 + b2_e7;
    let b2_s8 = b2_s7 + b2_e8;
    let b2_s9 = b2_s8 + b2_e9;
    lemma_u32_bytes_roundtrip(b.subrange(99, 103));
    assert(b2_e0 == b.subrange(99, 103));
    lemma_u32_bytes_roundtrip(b.subrange(103, 107));
    assert(b2_e1 == b.subrange(103, 107));
    lemma_u64_bytes_roundtrip(b.subrange(107, 115));
    assert(b2_e2 == b.subrange(107, 115));
    lemma_u64_bytes_roundtrip(b.subrange(115, 123));
    assert(b2_e3 == b.subrange(115, 123));
    lemma_u64_bytes_roundtrip(b.subrange(123, 131));
    assert(b2_e4 == b.subrange(123, 131));
    lemma_u64_bytes_roundtrip(b.subrange(131, 139));
    assert(b2_e5 == b.subrange(131, 139));
    lemma_u32_bytes_roundtrip(b.subrange(139, 143));
    assert(b2_e6 == b.subrange(139, 143));
    lemma_u32_bytes_roundtrip(b.subrange(143, 147));
    assert(b2_e7 == b.subrange(143, 147));
    lemma_byte_range(b, 147);
    assert(b2_e8 == b.subrange(147, 148));
    lemma_u32_bytes_roundtrip(b.subrange(148, 152));
    lemma_u32_i32_roundtrip(u32_of(b.subrange(148, 152)));
    assert(b2_e9 == b.subrange(148, 152));
    lemma_range_join(b, 99, 103, 107);
    assert(b2_s1 == b.subrange(99, 107));
    lemma_range_join(b, 99, 107, 115);
    assert(b2_s2 == b.subrange(99, 115));
    lemma_range_join(b, 99, 115, 123);
    assert(b2_s3 == b.subrange(99, 123));
    lemma_range_join(b, 99, 123, 131);
    assert(b2_s4 == b.subrange(99, 131));
    lemma_range_join(b, 99, 131, 139);
    assert(b2_s5 == b.subrange(99, 139));
    lemma_range_join(b, 99, 139, 143);
    assert(b2_s6 == b.subrange(99, 143));
    lemma_range_join(b, 99, 143, 147);
    assert(b2_s7 == b.subrange(99, 147));
    lemma_range_join(b, 99, 147, 148);
    assert(b2_s8 == b.subrange(99, 148));
    lemma_range_join(b, 99, 148, 152);
    assert(b2_s9 == b.subrange(99, 152));
    assert(packet_gps_bytes(q) == b2_s9);
    let b3_e0 = le_u32(q.blims_brakeline_diff);
    let b3_e1 = seq![q.blims_phase_id as u8];
    let b3_e2 = le_u32(q.blims_pid_p);
    let b3_e3 = le_u32(q.blims_pid_i);
    let b3_e4 = le_u32(q.blims_bearing);
    let b3_e5 = le_u32(q.blims_upwind_lat);
    let b3_e6 = le_u32(q.blims_upwind_lon);
    let b3_e7 = le_u32(q.blims_downwind_lat);
    let b3_e8 = le_u32(q.blims_downwind_lon);
    let b3_e9 = le_u32(q.blims_wind_from_deg);
    let b3_e10 = le_u32(q.ms_since_boot_cfc);
    let b3_s0 = b3_e0;
    let b3_s1 = b3_s0 + b3_e1;
    let b3_s2 = b3_s1 + b3_e2;
    let b3_s3 = b3_s2 + b3_e3;
    let b3_s4 = b3_s3 + b3_e4;
    let b3_s5 = b3_s4 + b3_e5;
    let b3_s6 = b3_s5 + b3_e6;
    let b3_s7 = b3_s6 + b3_e7;
    let b3_s8 = b3_s7 + b3_e8;
    let b3_s9 = b3_s8 + b3_e9;
    let b3_s10 = b3_s9 + b3_e10;
    lemma_u32_bytes_roundtrip(b.subrange(152, 156));
    assert(b3_e0 == b.subrange(152, 156));
    lemma_u8_i8_roundtrip(b[156]);
    lemma_byte_range(b, 156);
    assert(b3_e1 == b.subrange(156, 157));
    lemma_u32_bytes_roundtrip(b.subrange(157, 161));
    assert(b3_e2 == b.subrange(157, 161));
    lemma_u32_bytes_roundtrip(b.subrange(161, 165));
    assert(b3_e3 == b.subrange(161, 165));
    lemma_u32_bytes_roundtrip(b.subrange(165, 169));
    assert(b3_e4 == b.subrange(165, 169));
    lemma_u32_bytes_roundtrip(b.subrange(169, 173));
    assert(b3_e5 == b.subrange(169, 173));
    lemma_u32_bytes_roundtrip(b.subrange(173, 177));
    assert(b3_e6 == b.subrange(173, 177));
    lemma_u32_bytes_roundtrip(b.subrange(177, 181));
    assert(b3_e7 == b.subrange(177, 181));
    lemma_u32_bytes_roundtrip(b.subrange(181, 185));
    assert(b3_e8 == b.subrange(181, 185));
    lemma_u32_bytes_roundtrip(b.subrange(185, 189));
    assert(b3_e9 == b.subrange(185, 189));
    lemma_u32_bytes_roundtrip(b.subrange(189, 193));
    assert(b3_e10 == b.subrange(189, 193));
    lemma_range_join(b, 152, 156, 157);
    assert(b3_s1 == b.subrange(152, 157));
    lemma_range_join(b, 152, 157, 161);
    assert(b3_s2 == b.subrange(152, 161));
    lemma_range_join(b, 152, 161, 165);
    assert(b3_s3 == b.subrange(152, 165));
    lemma_range_join(b, 152, 165, 169);
    assert(b3_s4 == b.subrange(152, 169));
    lemma_range_join(b, 152, 169, 173);
    assert(b3_s5 == b.subrange(152, 173));
    lemma_range_join(b, 152, 173, 177);
    assert(b3_s6 == b.subrange(152, 177));
    lemma_range_join(b, 152, 177, 181);
    assert(b3_s7 == b.subrange(152, 181));
    lemma_range_join(b, 152, 181, 185);
    assert(b3_s8 == b.subrange(152, 185));
    lemma_range_join(b, 152, 185, 189);
    assert(b3_s9 == b.subrange(152, 189));
    lemma_range_join(b, 152, 189, 193);
    assert(b3_s10 == b.subrange(152, 193));
    assert(packet_blims_bytes(q) == b3_s10);
    let a0 = packet_sensor_bytes(q);
    let a1 = a0 + packet_event_bytes(q);
    lemma_range_join(b, 0, 80, 99);
    assert(a1 == b.subrange(0, 99));
    let a2 = a1 + packet_gps_bytes(q);
    lemma_range_join(b, 0, 99, 152);
    assert(a2 == b.subrange(0, 152));
    let a3 = a2 + packet_blims_bytes(q);
    lemma_range_join(b, 0, 152, 193);
    assert(a3 == b.subrange(0, 193));
    assert(packet_bytes(q) == a3);
    assert(b.subrange(0, 193) =~= b);
}

/// High-rate record written at 20 Hz: the sensors that update at that rate,
/// valves, events, air brakes and the BLiMS control outputs.
#[derive(Clone, Copy, Debug, PartialEq, Eq, Structural)]
pub struct FastRecord {
    pub ms_since_boot_cfc: u32,
    pub flight_mode: u32,
    /// `f32` bit pattern (Pa).
    pub pressure: u32,
    /// `f32` bit pattern (degrees C).
    pub temp: u32,
    /// `f32` bit pattern (m).
    pub altitude: u32,
    /// `f32` bit pattern (uT).
    pub mag_x: u32,
    /// `f32` bit pattern (uT).
    pub mag_y: u32,
    /// `f32` bit pattern (uT).
    pub mag_z: u32,
    /// `f32` bit pattern (m/s^2).
    pub accel_x: u32,
    /// `f32` bit pattern (m/s^2).
    pub accel_y: u32,
    /// `f32` bit pattern (m/s^2).
    pub accel_z: u32,
    /// `f32` bit pattern (deg/s).
    pub gyro_x: u32,
    /// `f32` bit pattern (deg/s).
    pub gyro_y: u32,
    /// `f32` bit pattern (deg/s).
    pub gyro_z: u32,
    /// `f32` bit pattern (ADC channel 3, scaled).
    pub pt3: u32,
    /// `f32` bit pattern (ADC channel 2, scaled).
    pub pt4: u32,
    /// `f32` bit pattern (ADC channel 1, scaled).
    pub rtd: u32,
    pub sv_open: bool,
    pub mav_open: bool,
    pub ssa_drogue_deployed: u8,
    pub ssa_main_deployed: u8,
    pub cmd_n1: u8,
    pub cmd_n2: u8,
    pub cmd_n3: u8,
    pub cmd_n4: u8,
    pub cmd_a1: u8,
    pub cmd_a2: u8,
    pub cmd_a3: u8,
    /// `f32` bit pattern (0.0 retracted .. 1.0 deployed).
    pub airbrake_deployment: u32,
    /// `f32` bit pattern (m).
    pub predicted_apogee: u32,
    /// `f32` bit pattern (inches).
    pub blims_brakeline_diff: u32,
    pub blims_phase_id: i8,
}

/// Bytes 0..68 of a high-rate record: clock, flight mode and sensor readings. Little-endian.
pub open spec fn fast_sensor_bytes(f: FastRecord) -> Seq<u8> {
    le_u32(f.ms_since_boot_cfc)
        + le_u32(f.flight_mode)
        + le_u32(f.pressure)
        + le_u32(f.temp)
        + le_u32(f.altitude)
        + le_u32(f.mag_x)
        + le_u32(f.mag_y)
        + le_u32(f.mag_z)
        + le_u32(f.accel_x)
        + le_u32(f.accel_y)
        + le_u32(f.accel_z)
        + le_u32(f.gyro_x)
        + le_u32(f.gyro_y)
        + le_u32(f.gyro_z)
        + le_u32(f.pt3)
        + le_u32(f.pt4)
        + le_u32(f.rtd)
}

/// Bytes 68..92 of a high-rate record: valve states, event flags, air-brake and BLiMS outputs. Little-endian.
pub open spec fn fast_state_bytes(f: FastRecord) -> Seq<u8> {
    seq![bool_byte(f.sv_open)]
        + seq![bool_byte(f.mav_open)]
        + seq![f.ssa_drogue_deployed]
        + seq![f.ssa_main_deployed]
        + seq![f.cmd_n1]
        + seq![f.cmd_n2]
        + seq![f.cmd_n3]
        + seq![f.cmd_n4]
        + seq![f.cmd_a1]
        + seq![f.cmd_a2]
        + seq![f.cmd_a3]
        + le_u32(f.airbrake_deployment)
        + le_u32(f.predicted_apogee)
        + le_u32(f.blims_brakeline_diff)
        + seq![f.blims_phase_id as u8]
}

/// The 92-byte layout of a high-rate record: the fields in declaration order, little-endian.
pub open spec fn fast_record_bytes(f: FastRecord) -> Seq<u8> {
    fast_sensor_bytes(f) + fast_state_bytes(f)
}

/// The high-rate record whose payload layout starts `b` (a flag byte reads as set when non-zero).
pub open spec fn fast_record_from_bytes(b: Seq<u8>) -> FastRecord {
    FastRecord {
        ms_since_boot_cfc: u32_of(b.subrange(0, 4)),
        flight_mode: u32_of(b.subrange(4, 8)),
        pressure: u32_of(b.subrange(8, 12)),
        temp: u32_of(b.subrange(12, 16)),
        altitude: u32_of(b.subrange(16, 20)),
        mag_x: u32_of(b.subrange(20, 24)),
        mag_y: u32_of(b.subrange(24, 28)),
        mag_z: u32_of(b.subrange(28, 32)),
        accel_x: u32_of(b.subrange(32, 36)),
        accel_y: u32_of(b.subrange(36, 40)),
        accel_z: u32_of(b.subrange(40, 44)),
        gyro_x: u32_of(b.subrange(44, 48)),
        gyro_y: u32_of(b.subrange(48, 52)),
        gyro_z: u32_of(b.subrange(52, 56)),
        pt3: u32_of(b.subrange(56, 60)),
        pt4: u32_of(b.subrange(60, 64)),
        rtd: u32_of(b.subrange(64, 68)),
        sv_open: b[68] != 0,
        mav_open: b[69] != 0,
        ssa_drogue_deployed: b[70],
        ssa_main_deployed: b[71],
        cmd_n1: b[72],
        cmd_n2: b[73],
        cmd_n3: b[74],
        cmd_n4: b[75],
        cmd_a1: b[76],
        cmd_a2: b[77],
        cmd_a3: b[78],
        airbrake_deployment: u32_of(b.subrange(79, 83)),
        predicted_apogee: u32_of(b.subrange(83, 87)),
        blims_brakeline_diff: u32_of(b.subrange(87, 91)),
        blims_phase_id: b[91] as i8,
    }
}

/// The high-rate record that carries the given packet's fast fields.
pub open spec fn fast_record_of(p: Packet) -> FastRecord {
    FastRecord {
        ms_since_boot_cfc: p.ms_since_boot_cfc,
        flight_mode: p.flight_mode,
        pressure: p.pressure,
        temp: p.temp,
        altitude: p.altitude,
        mag_x: p.mag_x,
        mag_y: p.mag_y,
        mag_z: p.mag_z,
        accel_x: p.accel_x,
        accel_y: p.accel_y,
        accel_z: p.accel_z,
        gyro_x: p.gyro_x,
        gyro_y: p.gyro_y,
        gyro_z: p.gyro_z,
        pt3: p.pt3,
        pt4: p.pt4,
        rtd: p.rtd,
        sv_open: p.sv_open,
        mav_open: p.mav_open,
        ssa_drogue_deployed: p.ssa_drogue_deployed,
        ssa_main_deployed: p.ssa_main_deployed,
        cmd_n1: p.cmd_n1,
        cmd_n2: p.cmd_n2,
        cmd_n3: p.cmd_n3,
        cmd_n4: p.cmd_n4,
        cmd_a1: p.cmd_a1,
        cmd_a2: p.cmd_a2,
        cmd_a3: p.cmd_a3,
        airbrake_deployment: p.airbrake_deployment,
        predicted_apogee: p.predicted_apogee,
        blims_brakeline_diff: p.blims_brakeline_diff,
        blims_phase_id: p.blims_phase_id,
    }
}

impl FastRecord {
    /// Takes the high-rate fields of a packet.
    pub fn from_packet(p: &Packet) -> (f: FastRecord)
        ensures
            f == fast_record_of(*p),
    {
        FastRecord {
            ms_since_boot_cfc: p.ms_since_boot_cfc,
            flight_mode: p.flight_mode,
            pressure: p.pressure,
            temp: p.temp,
            altitude: p.altitude,
            mag_x: p.mag_x,
            mag_y: p.mag_y,
            mag_z: p.mag_z,
            accel_x: p.accel_x,
            accel_y: p.accel_y,
            accel_z: p.accel_z,
            gyro_x: p.gyro_x,
            gyro_y: p.gyro_y,
            gyro_z: p.gyro_z,
            pt3: p.pt3,
            pt4: p.pt4,
            rtd: p.rtd,
            sv_open: p.sv_open,
            mav_open: p.mav_open,
            ssa_drogue_deployed: p.ssa_drogue_deployed,
            ssa_main_deployed: p.ssa_main_deployed,
            cmd_n1: p.cmd_n1,
            cmd_n2: p.cmd_n2,
            cmd_n3: p.cmd_n3,
            cmd_n4: p.cmd_n4,
            cmd_a1: p.cmd_a1,
            cmd_a2: p.cmd_a2,
            cmd_a3: p.cmd_a3,
            airbrake_deployment: p.airbrake_deployment,
            predicted_apogee: p.predicted_apogee,
            blims_brakeline_diff: p.blims_brakeline_diff,
            blims_phase_id: p.blims_phase_id,
        }
    }

    /// Deserialises a record payload (92 bytes or more; bytes past 92 are ignored).
    pub fn from_bytes(bytes: &[u8]) -> (f: FastRecord)
        requires
            bytes@.len() >= FAST_RECORD_SIZE,
        ensures
            f == fast_record_from_bytes(bytes@),
    {
        FastRecord {            ms_since_boot_cfc: read_u32(bytes, 0),
            flight_mode: read_u32(bytes, 4),
            pressure: read_u32(bytes, 8),
            temp: read_u32(bytes, 12),
            altitude: read_u32(bytes, 16),
            mag_x: read_u32(bytes, 20),
            mag_y: read_u32(bytes, 24),
            mag_z: read_u32(bytes, 28),
            accel_x: read_u32(bytes, 32),
            accel_y: read_u32(bytes, 36),
            accel_z: read_u32(bytes, 40),
            gyro_x: read_u32(bytes, 44),
            gyro_y: read_u32(bytes, 48),
            gyro_z: read_u32(bytes, 52),
            pt3: read_u32(bytes, 56),
            pt4: read_u32(bytes, 60),
            rtd: read_u32(bytes, 64),
            sv_open: bytes[68] != 0,
            mav_open: bytes[69] != 0,
            ssa_drogue_deployed: bytes[70],
            ssa_main_deployed: bytes[71],
            cmd_n1: bytes[72],
            cmd_n2: bytes[73],
            cmd_n3: bytes[74],
            cmd_n4: bytes[75],
            cmd_a1: bytes[76],
            cmd_a2: bytes[77],
            cmd_a3: bytes[78],
            airbrake_deployment: read_u32(bytes, 79),
            predicted_apogee: read_u32(bytes, 83),
            blims_brakeline_diff: read_u32(bytes, 87),
            blims_phase_id: bytes[91] as i8,
        }
    }

    /// Serialises the record into its 92-byte payload layout.
    pub fn to_bytes(&self) -> (r: [u8; 92])
        ensures
            r@ == fast_record_bytes(*self),
    {
        let mut out: Vec<u8> = Vec::new();
        push_u32(&mut out, self.ms_since_boot_cfc);
        assert(out@ =~= le_u32(self.ms_since_boot_cfc));
        push_u32(&mut out, self.flight_mode);
        push_u32(&mut out, self.pressure);
        push_u32(&mut out, self.temp);
        push_u32(&mut out, self.altitude);
        push_u32(&mut out, self.mag_x);
        push_u32(&mut out, self.mag_y);
        push_u32(&mut out, self.mag_z);
        push_u32(&mut out, self.accel_x);
        push_u32(&mut out, self.accel_y);
        push_u32(&mut out, self.accel_z);
        push_u32(&mut out, self.gyro_x);
        push_u32(&mut out, self.gyro_y);
        push_u32(&mut out, self.gyro_z);
        push_u32(&mut out, self.pt3);
        push_u32(&mut out, self.pt4);
        push_u32(&mut out, self.rtd);
        let mut state: Vec<u8> = Vec::new();
        state.push(if self.sv_open { 1u8 } else { 0u8 });
        assert(state@ =~= seq![bool_byte(self.sv_open)]);
        state.push(if self.mav_open { 1u8 } else { 0u8 });
        state.push(self.ssa_drogue_deployed);
        state.push(self.ssa_main_deployed);
        state.push(self.cmd_n1);
        state.push(self.cmd_n2);
        state.push(self.cmd_n3);
        state.push(self.cmd_n4);
        state.push(self.cmd_a1);
        state.push(self.cmd_a2);
        state.push(self.cmd_a3);
        push_u32(&mut state, self.airbrake_deployment);
        push_u32(&mut state, self.predicted_apogee);
        push_u32(&mut state, self.blims_brakeline_diff);
        state.push(self.blims_phase_id as u8);
        out.append(&mut state);
        proof {
            lemma_fast_record_layout(*self);
        }
        to_array(&out)
    }
}

/// Each field of the block occupies its own byte range of it.
proof fn lemma_fast_sensor_layout(f: FastRecord)
    ensures
        fast_sensor_bytes(f).len() == 68,
        fast_sensor_bytes(f).subrange(0, 4) == le_u32(f.ms_since_boot_cfc),
        fast_sensor_bytes(f).subrange(4, 8) == le_u32(f.flight_mode),
        fast_sensor_bytes(f).subrange(8, 12) == le_u32(f.pressure),
        fast_sensor_bytes(f).subrange(12, 16) == le_u32(f.temp),
        fast_sensor_bytes(f).subrange(16, 20) == le_u32(f.altitude),
        fast_sensor_bytes(f).subrange(20, 24) == le_u32(f.mag_x),
        fast_sensor_bytes(f).subrange(24, 28) == le_u32(f.mag_y),
        fast_sensor_bytes(f).subrange(28, 32) == le_u32(f.mag_z),
        fast_sensor_bytes(f).subrange(32, 36) == le_u32(f.accel_x),
        fast_sensor_bytes(f).subrange(36, 40) == le_u32(f.accel_y),
        fast_sensor_bytes(f).subrange(40, 44) == le_u32(f.accel_z),
        fast_sensor_bytes(f).subrange(44, 48) == le_u32(f.gyro_x),
        fast_sensor_bytes(f).subrange(48, 52) == le_u32(f.gyro_y),
        fast_sensor_bytes(f).subrange(52, 56) == le_u32(f.gyro_z),
        fast_sensor_bytes(f).subrange(56, 60) == le_u32(f.pt3),
        fast_sensor_bytes(f).subrange(60, 64) == le_u32(f.pt4),
        fast_sensor_bytes(f).subrange(64, 68) == le_u32(f.rtd),
{
    let b = fast_sensor_bytes(f);
    let e0 = le_u32(f.ms_since_boot_cfc);
    let e1 = le_u32(f.flight_mode);
    let e2 = le_u32(f.pressure);
    let e3 = le_u32(f.temp);
    let e4 = le_u32(f.altitude);
    let e5 = le_u32(f.mag_x);
    let e6 = le_u32(f.mag_y);
    let e7 = le_u32(f.mag_z);
    let e8 = le_u32(f.accel_x);
    let e9 = le_u32(f.accel_y);
    let e10 = le_u32(f.accel_z);
    let e11 = le_u32(f.gyro_x);
    let e12 = le_u32(f.gyro_y);
    let e13 = le_u32(f.gyro_z);
    let e14 = le_u32(f.pt3);
    let e15 = le_u32(f.pt4);
    let e16 = le_u32(f.rtd);
    let s0 = e0;
    let s1 = s0 + e1;
    let s2 = s1 + e2;
    let s3 = s2 + e3;
    let s4 = s3 + e4;
    let s5 = s4 + e5;
    let s6 = s5 + e6;
    let s7 = s6 + e7;
    let s8 = s7 + e8;
    let s9 = s8 + e9;
    let s10 = s9 + e10;
    let s11 = s10 + e11;
    let s12 = s11 + e12;
    let s13 = s12 + e13;
    let s14 = s13 + e14;
    let s15 = s14 + e15;
    let s16 = s15 + e16;
    lemma_u32_roundtrip(f.ms_since_boot_cfc);
    lemma_u32_roundtrip(f.flight_mode);
    lemma_u32_roundtrip(f.pressure);
    lemma_u32_roundtrip(f.temp);
    lemma_u32_roundtrip(f.altitude);
    lemma_u32_roundtrip(f.mag_x);
    lemma_u32_roundtrip(f.mag_y);
    lemma_u32_roundtrip(f.mag_z);
    lemma_u32_roundtrip(f.accel_x);
    lemma_u32_roundtrip(f.accel_y);
    lemma_u32_roundtrip(f.accel_z);
    lemma_u32_roundtrip(f.gyro_x);
    lemma_u32_roundtrip(f.gyro_y);
    lemma_u32_roundtrip(f.gyro_z);
    lemma_u32_roundtrip(f.pt3);
    lemma_u32_roundtrip(f.pt4);
    lemma_u32_roundtrip(f.rtd);
    assert(b == s16);
    assert(b.subrange(0, 68) =~= b);
    lemma_prefix_split(b, s15, e16);
    lemma_prefix_split(b, s14, e15);
    lemma_prefix_split(b, s13, e14);
    lemma_prefix_split(b, s12, e13);
    lemma_prefix_split(b, s11, e12);
    lemma_prefix_split(b, s10, e11);
    lemma_prefix_split(b, s9, e10);
    lemma_prefix_split(b, s8, e9);
    lemma_prefix_split(b, s7, e8);
    lemma_prefix_split(b, s6, e7);
    lemma_prefix_split(b, s5, e6);
    lemma_prefix_split(b, s4, e5);
    lemma_prefix_split(b, s3, e4);
    lemma_prefix_split(b, s2, e3);
    lemma_prefix_split(b, s1, e2);
    lemma_prefix_split(b, s0, e1);
}

/// Each field of the block occupies its own byte range of it.
proof fn lemma_fast_state_layout(f: FastRecord)
    ensures
        fast_state_bytes(f).len() == 24,
        fast_state_bytes(f).subrange(0, 1) == seq![bool_byte(f.sv_open)],
        fast_state_bytes(f).subrange(1, 2) == seq![bool_byte(f.mav_open)],
        fast_state_bytes(f).subrange(2, 3) == seq![f.ssa_drogue_deployed],
        fast_state_bytes(f).subrange(3, 4) == seq![f.ssa_main_deployed],
        fast_state_bytes(f).subrange(4, 5) == seq![f.cmd_n1],
        fast_state_bytes(f).subrange(5, 6) == seq![f.cmd_n2],
        fast_state_bytes(f).subrange(6, 7) == seq![f.cmd_n3],
        fast_state_bytes(f).subrange(7, 8) == seq![f.cmd_n4],
        fast_state_bytes(f).subrange(8, 9) == seq![f.cmd_a1],
        fast_state_bytes(f).subrange(9, 10) == seq![f.cmd_a2],
        fast_state_bytes(f).subrange(10, 11) == seq![f.cmd_a3],
        fast_state_bytes(f).subrange(11, 15) == le_u32(f.airbrake_deployment),
        fast_state_bytes(f).subrange(15, 19) == le_u32(f.predicted_apogee),
        fast_state_bytes(f).subrange(19, 23) == le_u32(f.blims_brakeline_diff),
        fast_state_bytes(f).subrange(23, 24) == seq![f.blims_phase_id as u8],
{
    let b = fast_state_bytes(f);
    let e0 = seq![bool_byte(f.sv_open)];
    let e1 = seq![bool_byte(f.mav_open)];
    let e2 = seq![f.ssa_drogue_deployed];
    let e3 = seq![f.ssa_main_deployed];
    let e4 = seq![f.cmd_n1];
    let e5 = seq![f.cmd_n2];
    let e6 = seq![f.cmd_n3];
    let e7 = seq![f.cmd_n4];
    let e8 = seq![f.cmd_a1];
    let e9 = seq![f.cmd_a2];
    let e10 = seq![f.cmd_a3];
    let e11 = le_u32(f.airbrake_deployment);
    let e12 = le_u32(f.predicted_apogee);
    let e13 = le_u32(f.blims_brakeline_diff);
    let e14 = seq![f.blims_phase_id as u8];
    let s0 = e0;
    let s1 = s0 + e1;
    let s2 = s1 + e2;
    let s3 = s2 + e3;
    let s4 = s3 + e4;
    let s5 = s4 + e5;
    let s6 = s5 + e6;
    let s7 = s6 + e7;
    let s8 = s7 + e8;
    let s9 = s8 + e9;
    let s10 = s9 + e10;
    let s11 = s10 + e11;
    let s12 = s11 + e12;
    let s13 = s12 + e13;
    let s14 = s13 + e14;
    lemma_u32_roundtrip(f.airbrake_deployment);
    lemma_u32_roundtrip(f.predicted_apogee);
    lemma_u32_roundtrip(f.blims_brakeline_diff);
    lemma_i8_roundtrip(f.blims_phase_id);
    assert(b == s14);
    assert(b.subrange(0, 24) =~= b);
    lemma_prefix_split(b, s13, e14);
    lemma_prefix_split(b, s12, e13);
    lemma_prefix_split(b, s11, e12);
    lemma_prefix_split(b, s10, e11);
    lemma_prefix_split(b, s9, e10);
    lemma_prefix_split(b, s8, e9);
    lemma_prefix_split(b, s7, e8);
    lemma_prefix_split(b, s6, e7);
    lemma_prefix_split(b, s5, e6);
    lemma_prefix_split(b, s4, e5);
    lemma_prefix_split(b, s3, e4);
    lemma_prefix_split(b, s2, e3);
    lemma_prefix_split(b, s1, e2);
    lemma_prefix_split(b, s0, e1);
}

/// Each field of a high-rate record occupies its own byte range of its layout.
pub proof fn lemma_fast_record_layout(f: FastRecord)
    ensures
        fast_record_bytes(f).len() == 92,
        fast_record_bytes(f).subrange(0, 4) == le_u32(f.ms_since_boot_cfc),
        fast_record_bytes(f).subrange(4, 8) == le_u32(f.flight_mode),
        fast_record_bytes(f).subrange(8, 12) == le_u32(f.pressure),
        fast_record_bytes(f).subrange(12, 16) == le_u32(f.temp),
        fast_record_bytes(f).subrange(16, 20) == le_u32(f.altitude),
        fast_record_bytes(f).subrange(20, 24) == le_u32(f.mag_x),
        fast_record_bytes(f).subrange(24, 28) == le_u32(f.mag_y),
        fast_record_bytes(f).subrange(28, 32) == le_u32(f.mag_z),
        fast_record_bytes(f).subrange(32, 36) == le_u32(f.accel_x),
        fast_record_bytes(f).subrange(36, 40) == le_u32(f.accel_y),
        fast_record_bytes(f).subrange(40, 44) == le_u32(f.accel_z),
        fast_record_bytes(f).subrange(44, 48) == le_u32(f.gyro_x),
        fast_record_bytes(f).subrange(48, 52) == le_u32(f.gyro_y),
        fast_record_bytes(f).subrange(52, 56) == le_u32(f.gyro_z),
        fast_record_bytes(f).subrange(56, 60) == le_u32(f.pt3),
        fast_record_bytes(f).subrange(60, 64) == le_u32(f.pt4),
        fast_record_bytes(f).subrange(64, 68) == le_u32(f.rtd),
        fast_record_bytes(f).subrange(68, 69) == seq![bool_byte(f.sv_open)],
        fast_record_bytes(f).subrange(69, 70) == seq![bool_byte(f.mav_open)],
        fast_record_bytes(f).subrange(70, 71) == seq![f.ssa_drogue_deployed],
        fast_record_bytes(f).subrange(71, 72) == seq![f.ssa_main_deployed],
        fast_record_bytes(f).subrange(72, 73) == seq![f.cmd_n1],
        fast_record_bytes(f).subrange(73, 74) == seq![f.cmd_n2],
        fast_record_bytes(f).subrange(74, 75) == seq![f.cmd_n3],
        fast_record_bytes(f).subrange(75, 76) == seq![f.cmd_n4],
        fast_record_bytes(f).subrange(76, 77) == seq![f.cmd_a1],
        fast_record_bytes(f).subrange(77, 78) == seq![f.cmd_a2],
        fast_record_bytes(f).subrange(78, 79) == seq![f.cmd_a3],
        fast_record_bytes(f).subrange(79, 83) == le_u32(f.airbrake_deployment),
        fast_record_bytes(f).subrange(83, 87) == le_u32(f.predicted_apogee),
        fast_record_bytes(f).subrange(87, 91) == le_u32(f.blims_brakeline_diff),
        fast_record_bytes(f).subrange(91, 92) == seq![f.blims_phase_id as u8],
{
    lemma_fast_sensor_layout(f);
    lemma_fast_state_layout(f);
    let a0 = fast_sensor_bytes(f);
    let a1 = a0 + fast_state_bytes(f);
    assert(fast_record_bytes(f) == a1);
    lemma_range_in_prefix(a0, fast_state_bytes(f), 0, 4);
    lemma_range_in_prefix(a0, fast_state_bytes(f), 4, 8);
    lemma_range_in_prefix(a0, fast_state_bytes(f), 8, 12);
    lemma_range_in_prefix(a0, fast_state_bytes(f), 12, 16);
    lemma_range_in_prefix(a0, fast_state_bytes(f), 16, 20);
    lemma_range_in_prefix(a0, fast_state_bytes(f), 20, 24);
    lemma_range_in_prefix(a0, fast_state_bytes(f), 24, 28);
    lemma_range_in_prefix(a0, fast_state_bytes(f), 28, 32);
    lemma_range_in_prefix(a0, fast_state_bytes(f), 32, 36);
    lemma_range_in_prefix(a0, fast_state_bytes(f), 36, 40);
    lemma_range_in_prefix(a0, fast_state_bytes(f), 40, 44);
    lemma_range_in_prefix(a0, fast_state_bytes(f), 44, 48);
    lemma_range_in_prefix(a0, fast_state_bytes(f), 48, 52);
    lemma_range_in_prefix(a0, fast_state_bytes(f), 52, 56);
    lemma_range_in_prefix(a0, fast_state_bytes(f), 56, 60);
    lemma_range_in_prefix(a0, fast_state_bytes(f), 60, 64);
    lemma_range_in_prefix(a0, fast_state_bytes(f), 64, 68);
    lemma_range_in_suffix(a0, fast_state_bytes(f), 0, 1);
    lemma_range_in_suffix(a0, fast_state_bytes(f), 1, 2);
    lemma_range_in_suffix(a0, fast_state_bytes(f), 2, 3);
    lemma_range_in_suffix(a0, fast_state_bytes(f), 3, 4);
    lemma_range_in_suffix(a0, fast_state_bytes(f), 4, 5);
    lemma_range_in_suffix(a0, fast_state_bytes(f), 5, 6);
    lemma_range_in_suffix(a0, fast_state_bytes(f), 6, 7);
    lemma_range_in_suffix(a0, fast_state_bytes(f), 7, 8);
    lemma_range_in_suffix(a0, fast_state_bytes(f), 8, 9);
    lemma_range_in_suffix(a0, fast_state_bytes(f), 9, 10);
    lemma_range_in_suffix(a0, fast_state_bytes(f), 10, 11);
    lemma_range_in_suffix(a0, fast_state_bytes(f), 11, 15);
    lemma_range_in_suffix(a0, fast_state_bytes(f), 15, 19);
    lemma_range_in_suffix(a0, fast_state_bytes(f), 19, 23);
    lemma_range_in_suffix(a0, fast_state_bytes(f), 23, 24);
}

/// Decoding the payload layout of a high-rate record gives the record back.
#[verifier::spinoff_prover]
#[verifier::rlimit(60)]
pub proof fn lemma_fast_record_roundtrip(f: FastRecord)
    ensures
        fast_record_from_bytes(fast_record_bytes(f)) == f,
{
    lemma_fast_record_layout(f);
    let b = fast_record_bytes(f);
    lemma_u32_roundtrip(f.ms_since_boot_cfc);
    assert(u32_of(b.subrange(0, 4)) == f.ms_since_boot_cfc);
    lemma_u32_roundtrip(f.flight_mode);
    assert(u32_of(b.subrange(4, 8)) == f.flight_mode);
    lemma_u32_roundtrip(f.pressure);
    assert(u32_of(b.subrange(8, 12)) == f.pressure);
    lemma_u32_roundtrip(f.temp);
    assert(u32_of(b.subrange(12, 16)) == f.temp);
    lemma_u32_roundtrip(f.altitude);
    assert(u32_of(b.subrange(16, 20)) == f.altitude);
    lemma_u32_roundtrip(f.mag_x);
    assert(u32_of(b.subrange(20, 24)) == f.mag_x);
    lemma_u32_roundtrip(f.mag_y);
    assert(u32_of(b.subrange(24, 28)) == f.mag_y);
    lemma_u32_roundtrip(f.mag_z);
    assert(u32_of(b.subrange(28, 32)) == f.mag_z);
    lemma_u32_roundtrip(f.accel_x);
    assert(u32_of(b.subrange(32, 36)) == f.accel_x);
    lemma_u32_roundtrip(f.accel_y);
    assert(u32_of(b.subrange(36, 40)) == f.accel_y);
    lemma_u32_roundtrip(f.accel_z);
    assert(u32_of(b.subrange(40, 44)) == f.accel_z);
    lemma_u32_roundtrip(f.gyro_x);
    assert(u32_of(b.subrange(44, 48)) == f.gyro_x);
    lemma_u32_roundtrip(f.gyro_y);
    assert(u32_of(b.subrange(48, 52)) == f.gyro_y);
    lemma_u32_roundtrip(f.gyro_z);
    assert(u32_of(b.subrange(52, 56)) == f.gyro_z);
    lemma_u32_roundtrip(f.pt3);
    assert(u32_of(b.subrange(56, 60)) == f.pt3);
    lemma_u32_roundtrip(f.pt4);
    assert(u32_of(b.subrange(60, 64)) == f.pt4);
    lemma_u32_roundtrip(f.rtd);
    assert(u32_of(b.subrange(64, 68)) == f.rtd);
    lemma_byte_range(b, 68);
    assert(b[68] != 0 == f.sv_open);
    lemma_byte_range(b, 69);
    assert(b[69] != 0 == f.mav_open);
    lemma_byte_range(b, 70);
    assert(b[70] == f.ssa_drogue_deployed);
    lemma_byte_range(b, 71);
    assert(b[71] == f.ssa_main_deployed);
    lemma_byte_range(b, 72);
    assert(b[72] == f.cmd_n1);
    lemma_byte_range(b, 73);
    assert(b[73] == f.cmd_n2);
    lemma_byte_range(b, 74);
    assert(b[74] == f.cmd_n3);
    lemma_byte_range(b, 75);
    assert(b[75] == f.cmd_n4);
    lemma_byte_range(b, 76);
    assert(b[76] == f.cmd_a1);
    lemma_byte_range(b, 77);
    assert(b[77] == f.cmd_a2);
    lemma_byte_range(b, 78);
    assert(b[78] == f.cmd_a3);
    lemma_u32_roundtrip(f.airbrake_deployment);
    assert(u32_of(b.subrange(79, 83)) == f.airbrake_deployment);
    lemma_u32_roundtrip(f.predicted_apogee);
    assert(u32_of(b.subrange(83, 87)) == f.predicted_apogee);
    lemma_u32_roundtrip(f.blims_brakeline_diff);
    assert(u32_of(b.subrange(87, 91)) == f.blims_brakeline_diff);
    lemma_i8_roundtrip(f.blims_phase_id);
    lemma_byte_range(b, 91);
    assert(b[91] as i8 == f.blims_phase_id);
    assert(fast_record_from_bytes(b) == f);
}

/// A high-rate record taken from a packet carries, byte for byte, the
/// packet's clock, its flight mode and barometer readings, its magnetometer,
/// IMU, ADC, valve, event and air-brake fields, and its BLiMS outputs.
pub proof fn lemma_fast_record_mirrors_packet(p: Packet)
    ensures
        fast_record_bytes(fast_record_of(p)).subrange(0, 4) == packet_bytes(p).subrange(189, 193),
        fast_record_bytes(fast_record_of(p)).subrange(4, 20) == packet_bytes(p).subrange(0, 16),
        fast_record_bytes(fast_record_of(p)).subrange(20, 87) == packet_bytes(p).subrange(32, 99),
        fast_record_bytes(fast_record_of(p)).subrange(87, 92) == packet_bytes(p).subrange(152, 157),
{
    lemma_packet_layout(p);
    lemma_fast_record_layout(fast_record_of(p));
    let f = fast_record_bytes(fast_record_of(p));
    let b = packet_bytes(p);
    assert(f.subrange(0, 4) == b.subrange(189, 193));
    assert(f.subrange(4, 8) == b.subrange(0, 4));
    assert(f.subrange(8, 12) == b.subrange(4, 8));
    lemma_range_join(f, 4, 8, 12);
    lemma_range_join(b, 0, 4, 8);
    assert(f.subrange(4, 12) == b.subrange(0, 8));
    assert(f.subrange(12, 16) == b.subrange(8, 12));
    lemma_range_join(f, 4, 12, 16);
    lemma_range_join(b, 0, 8, 12);
    assert(f.subrange(4, 16) == b.subrange(0, 12));
    assert(f.subrange(16, 20) == b.subrange(12, 16));
    lemma_range_join(f, 4, 16, 20);
    lemma_range_join(b, 0, 12, 16);
    assert(f.subrange(4, 20) == b.subrange(0, 16));
    assert(f.subrange(20, 24) == b.subrange(32, 36));
    assert(f.subrange(24, 28) == b.subrange(36, 40));
    lemma_range_join(f, 20, 24, 28);
    lemma_range_join(b, 32, 36, 40);
    assert(f.subrange(20, 28) == b.subrange(32, 40));
    assert(f.subrange(28, 32) == b.subrange(40, 44));
    lemma_range_join(f, 20, 28, 32);
    lemma_range_join(b, 32, 40, 44);
    assert(f.subrange(20, 32) == b.subrange(32, 44));
    assert(f.subrange(32, 36) == b.subrange(44, 48));
    lemma_range_join(f, 20, 32, 36);
    lemma_range_join(b, 32, 44, 48);
    assert(f.subrange(20, 36) == b.subrange(32, 48));
    assert(f.subrange(36, 40) == b.subrange(48, 52));
    lemma_range_join(f, 20, 36, 40);
    lemma_range_join(b, 32, 48, 52);
    assert(f.subrange(20, 40) == b.subrange(32, 52));
    assert(f.subrange(40, 44) == b.subrange(52, 56));
    lemma_range_join(f, 20, 40, 44);
    lemma_range_join(b, 32, 52, 56);
    assert(f.subrange(20, 44) == b.subrange(32, 56));
    assert(f.subrange(44, 48) == b.subrange(56, 60));
    lemma_range_join(f, 20, 44, 48);
    lemma_range_join(b, 32, 56, 60);
    assert(f.subrange(20, 48) == b.subrange(32, 60));
    assert(f.subrange(48, 52) == b.subrange(60, 64));
    lemma_range_join(f, 20, 48, 52);
    lemma_range_join(b, 32, 60, 64);
    assert(f.subrange(20, 52) == b.subrange(32, 64));
    assert(f.subrange(52, 56) == b.subrange(64, 68));
    lemma_range_join(f, 20, 52, 56);
    lemma_range_join(b, 32, 64, 68);
    assert(f.subrange(20, 56) == b.subrange(32, 68));
    assert(f.subrange(56, 60) == b.subrange(68, 72));
    lemma_range_join(f, 20, 56, 60);
    lemma_range_join(b, 32, 68, 72);
    assert(f.subrange(20, 60) == b.subrange(32, 72));
    assert(f.subrange(60, 64) == b.subrange(72, 76));
    lemma_range_join(f, 20, 60, 64);
    lemma_range_join(b, 32, 72, 76);
    assert(f.subrange(20, 64) == b.subrange(32, 76));
    assert(f.subrange(64, 68) == b.subrange(76, 80));
    lemma_range_join(f, 20, 64, 68);
    lemma_range_join(b, 32, 76, 80);
    assert(f.subrange(20, 68) == b.subrange(32, 80));
    assert(f.subrange(68, 69) == b.subrange(80, 81));
    lemma_range_join(f, 20, 68, 69);
    lemma_range_join(b, 32, 80, 81);
    assert(f.subrange(20, 69) == b.subrange(32, 81));
    assert(f.subrange(69, 70) == b.subrange(81, 82));
    lemma_range_join(f, 20, 69, 70);
    lemma_range_join(b, 32, 81, 82);
    assert(f.subrange(20, 70) == b.subrange(32, 82));
    assert(f.subrange(70, 71) == b.subrange(82, 83));
    lemma_range_join(f, 20, 70, 71);
    lemma_range_join(b, 32, 82, 83);
    assert(f.subrange(20, 71) == b.subrange(32, 83));
    assert(f.subrange(71, 72) == b.subrange(83, 84));
    lemma_range_join(f, 20, 71, 72);
    lemma_range_join(b, 32, 83, 84);
    assert(f.subrange(20, 72) == b.subrange(32, 84));
    assert(f.subrange(72, 73) == b.subrange(84, 85));
    lemma_range_join(f, 20, 72, 73);
    lemma_range_join(b, 32, 84, 85);
    assert(f.subrange(20, 73) == b.subrange(32, 85));
    assert(f.subrange(73, 74) == b.subrange(85, 86));
    lemma_range_join(f, 20, 73, 74);
    lemma_range_join(b, 32, 85, 86);
    assert(f.subrange(20, 74) == b.subrange(32, 86));
    assert(f.subrange(74, 75) == b.subrange(86, 87));
    lemma_range_join(f, 20, 74, 75);
    lemma_range_join(b, 32, 86, 87);
    assert(f.subrange(20, 75) == b.subrange(32, 87));
    assert(f.subrange(75, 76) == b.subrange(87, 88));
    lemma_range_join(f, 20, 75, 76);
    lemma_range_join(b, 32, 87, 88);
    assert(f.subrange(20, 76) == b.subrange(32, 88));
    assert(f.subrange(76, 77) == b.subrange(88, 89));
    lemma_range_join(f, 20, 76, 77);
    lemma_range_join(b, 32, 88, 89);
    assert(f.subrange(20, 77) == b.subrange(32, 89));
    assert(f.subrange(77, 78) == b.subrange(89, 90));
    lemma_range_join(f, 20, 77, 78);
    lemma_range_join(b, 32, 89, 90);
    assert(f.subrange(20, 78) == b.subrange(32, 90));
    assert(f.subrange(78, 79) == b.subrange(90, 91));
    lemma_range_join(f, 20, 78, 79);
    lemma_range_join(b, 32, 90, 91);
    assert(f.subrange(20, 79) == b.subrange(32, 91));
    assert(f.subrange(79, 83) == b.subrange(91, 95));
    lemma_range_join(f, 20, 79, 83);
    lemma_range_join(b, 32, 91, 95);
    assert(f.subrange(20, 83) == b.subrange(32, 95));
    assert(f.subrange(83, 87) == b.subrange(95, 99));
    lemma_range_join(f, 20, 83, 87);
    lemma_range_join(b, 32, 95, 99);
    assert(f.subrange(20, 87) == b.subrange(32, 99));
    assert(f.subrange(87, 91) == b.subrange(152, 156));
    assert(f.subrange(91, 92) == b.subrange(156, 157));
    lemma_range_join(f, 87, 91, 92);
    lemma_range_join(b, 152, 156, 157);
    assert(f.subrange(87, 92) == b.subrange(152, 157));
}

} // verus!
