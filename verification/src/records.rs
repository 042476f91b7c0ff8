//! Decoded input rows and their validation.
//!
//! One input row carries four optional fields: a ride id, a latitude, a
//! longitude and an epoch timestamp in seconds (UTC). The transport decodes
//! rows; this module checks that the fields a position needs are present and
//! builds the position. A missing field fails with `MissingValueError`
//! naming the field; the timestamp field is reported under its row name
//! `datetime`. Fields are checked in row order after the id: datetime first,
//! then latitude, then longitude; the id is checked by the grouping stage.

use vstd::prelude::*;
use vstd::string::StringExecFns;

use crate::errors::ReadError;
use crate::segment::Location;
use crate::segment::Position;

verus! {

/// One decoded input row: ride id, latitude, longitude, epoch timestamp.
/// The coordinates are IEEE 754 doubles carried as their 64-bit patterns.
#[derive(Clone, Copy, Debug)]
pub struct RawRecord {
    pub id: Option<u32>,
    pub latitude_bits: Option<u64>,
    pub longitude_bits: Option<u64>,
    pub timestamp: Option<i64>,
}

/// A validated row: its (still optional) ride id and the position it fixes.
pub type ParsedRecord = (Option<u32>, Position);

/// The name of the first field `parse_record` finds missing, if any. The id
/// is not checked here.
pub open spec fn spec_parse_missing(r: RawRecord) -> Option<Seq<char>> {
    if r.timestamp is None {
        Some("datetime"@)
    } else if r.latitude_bits is None {
        Some("latitude"@)
    } else if r.longitude_bits is None {
        Some("longitude"@)
    } else {
        None
    }
}

/// The position a complete record fixes.
pub open spec fn spec_position(r: RawRecord) -> Position {
    Position {
        timestamp: r.timestamp->Some_0,
        location: Location {
            latitude_bits: r.latitude_bits->Some_0,
            longitude_bits: r.longitude_bits->Some_0,
        },
    }
}

/// Validates one decoded row. Returns the row's id and position when the
/// datetime, latitude and longitude fields are all present, and otherwise a
/// `MissingValueError` naming the first missing one, in that order.
pub fn parse_record(record: RawRecord) -> (r: Result<ParsedRecord, ReadError>)
    ensures
        match r {
            Ok(p) => spec_parse_missing(record) is None && p.0 == record.id
                && p.1 == spec_position(record),
            Err(e) => spec_parse_missing(record) is Some
                && e.spec_missing_field() == spec_parse_missing(record),
        },
{
    let timestamp: i64 = match record.timestamp {
        Some(ts) => ts,
        None => {
            return Err(ReadError::MissingValueError { field: String::from_str("datetime") });
        },
    };
    let latitude_bits: u64 = match record.latitude_bits {
        Some(lat) => lat,
        None => {
            return Err(ReadError::MissingValueError { field: String::from_str("latitude") });
        },
    };
    let longitude_bits: u64 = match record.longitude_bits {
        Some(lon) => lon,
        None => {
            return Err(ReadError::MissingValueError { field: String::from_str("longitude") });
        },
    };
    let location = Location { latitude_bits, longitude_bits };
    Ok((record.id, Position { timestamp, location }))
}

/// The name of the first field a record lacks, if any: the position fields in
/// row order first, the ride id last.
pub open spec fn spec_record_missing(r: RawRecord) -> Option<Seq<char>> {
    match spec_parse_missing(r) {
        Some(f) => Some(f),
        None => if r.id is None {
            Some("id"@)
        } else {
            None
        },
    }
}

/// A record with all four fields present.
pub open spec fn record_complete(r: RawRecord) -> bool {
    spec_record_missing(r) is None
}

/// Validates one decoded row completely: the position fields and the ride id.
/// Returns the key-and-position pair exactly when the record is complete, and
/// otherwise a `MissingValueError` naming its first missing field.
pub fn validate_record(record: RawRecord) -> (r: Result<(u32, Position), ReadError>)
    ensures
        r is Ok <==> record_complete(record),
        r matches Ok(p) ==> p.0 == record.id->Some_0 && p.1 == spec_position(record),
        r matches Err(e) ==> e.spec_missing_field() == spec_record_missing(record),
{
    let (id_opt, pos) = parse_record(record)?;
    match id_opt {
        Some(id) => Ok((id, pos)),
        None => Err(ReadError::MissingValueError { field: String::from_str("id") }),
    }
}

} // verus!
