//! A small UDP telemetry core: a fixed binary wire codec with a CRC-32
//! integrity trailer, epoch-timestamp arithmetic for applying signed
//! microsecond clock corrections, and the state machine of a periodic
//! clock-synchronization session — together with the pixel and tile-map
//! routines of the repository's software-rendered demos.

pub mod checksum;
pub mod codec;
pub mod epoch;
pub mod level;
pub mod raster;
pub mod sync;
pub mod telemetry;
