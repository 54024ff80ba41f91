pub mod bytes;
pub mod packet;
pub mod flash;
pub mod umbilical;
pub mod dump;
pub mod driver;
pub mod gps;
pub mod radio;
pub mod actuator;
pub mod blims;
pub mod airbrake;
pub mod writer;
