//! Fare estimation engine for GPS-tracked rides.
//!
//! A ride is an ordered sequence of GPS fixes sharing one ride id. The engine
//! groups decoded input rows into rides, filters GPS noise with an
//! anchor-retention rule, classifies each accepted hop as day, night or idle,
//! and prices the ride. Coordinate and distance values are IEEE 754 doubles;
//! this library carries them as their 64-bit patterns and verifies every
//! decision that does not depend on float arithmetic: row validation, ride
//! grouping, time-of-day classification, and the segment filter's state
//! machine. The float arithmetic itself (great-circle distance, speeds and
//! fare sums) lives with the unverified shell around the library.

pub mod errors;
pub mod grouping;
pub mod records;
pub mod segment;
pub mod segmenter;

pub use errors::MainError;
pub use errors::ReadError;
pub use grouping::Grouper;
pub use grouping::Ride;
pub use grouping::rides_from_records;
pub use records::ParsedRecord;
pub use records::RawRecord;
pub use records::parse_record;
pub use records::validate_record;
pub use segment::DAY_START_SECONDS;
pub use segment::Location;
pub use segment::Position;
pub use segment::SECONDS_PER_DAY;
pub use segment::Segment;
pub use segment::seconds_from_midnight;
pub use segmenter::Segmenter;
