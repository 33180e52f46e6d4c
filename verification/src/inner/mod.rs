//! The preparation that runs inside a container.

pub mod lithos;
pub mod options;

pub use self::options::Options;
