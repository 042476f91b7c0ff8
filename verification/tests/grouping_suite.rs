//! Row validation and grouping rows into rides.

use fare_estimation::Grouper;
use fare_estimation::MainError;
use fare_estimation::Location;
use fare_estimation::Position;
use fare_estimation::RawRecord;
use fare_estimation::ReadError;
use fare_estimation::Ride;
use fare_estimation::parse_record;
use fare_estimation::rides_from_records;
use fare_estimation::validate_record;

fn record(id: u32, lat: f64, lon: f64, ts: i64) -> RawRecord {
    RawRecord {
        id: Some(id),
        latitude_bits: Some(lat.to_bits()),
        longitude_bits: Some(lon.to_bits()),
        timestamp: Some(ts),
    }
}

fn missing_field(result: Result<Vec<Ride>, ReadError>) -> String {
    match result {
        Err(ReadError::MissingValueError { field }) => field,
        _ => panic!("expected a missing-field error"),
    }
}

#[test]
fn groups_are_contiguous_runs_of_one_id() {
    // A reappearing id starts a new ride: ids [1, 1, 2, 2, 1] give three
    // rides, never one merged id-1 ride.
    let records = vec![
        record(1, 38.0, -77.0, 100),
        record(1, 38.1, -77.1, 200),
        record(2, 33.0, 151.0, 300),
        record(2, 33.1, 151.1, 400),
        record(1, 38.2, -77.2, 500),
    ];
    let rides = rides_from_records(&records).unwrap();
    assert_eq!(3, rides.len());
    assert_eq!(1, rides[0].id);
    assert_eq!(2, rides[0].positions.len());
    assert_eq!(2, rides[1].id);
    assert_eq!(2, rides[1].positions.len());
    assert_eq!(1, rides[2].id);
    assert_eq!(1, rides[2].positions.len());
    assert_eq!(500, rides[2].positions[0].timestamp);
}

#[test]
fn no_records_mean_no_rides() {
    let rides = rides_from_records(&vec![]).unwrap();
    assert_eq!(0, rides.len());
}

#[test]
fn missing_fields_are_reported_by_name_in_row_order() {
    let complete = record(7, 38.0, -77.0, 100);

    let mut no_datetime = complete;
    no_datetime.timestamp = None;
    assert_eq!("datetime", missing_field(rides_from_records(&vec![no_datetime])));

    let mut no_latitude = complete;
    no_latitude.latitude_bits = None;
    assert_eq!("latitude", missing_field(rides_from_records(&vec![no_latitude])));

    let mut no_longitude = complete;
    no_longitude.longitude_bits = None;
    assert_eq!("longitude", missing_field(rides_from_records(&vec![no_longitude])));

    let mut no_id = complete;
    no_id.id = None;
    assert_eq!("id", missing_field(rides_from_records(&vec![no_id])));

    // The datetime field is checked first even when several are missing.
    let mut bare = complete;
    bare.timestamp = None;
    bare.latitude_bits = None;
    bare.id = None;
    assert_eq!("datetime", missing_field(rides_from_records(&vec![bare])));
}

#[test]
fn first_invalid_record_aborts_the_batch() {
    let mut no_id = record(2, 38.1, -77.1, 200);
    no_id.id = None;
    let records = vec![record(1, 38.0, -77.0, 100), no_id, record(3, 38.2, -77.2, 300)];
    assert_eq!("id", missing_field(rides_from_records(&records)));
}

#[test]
fn parse_record_returns_id_and_position() {
    let (id, pos) = parse_record(record(9, 38.5, -77.5, 12345)).unwrap();
    assert_eq!(Some(9), id);
    assert_eq!(12345, pos.timestamp);
    assert_eq!(38.5, f64::from_bits(pos.location.latitude_bits));
    assert_eq!(-77.5, f64::from_bits(pos.location.longitude_bits));
}

#[test]
fn parse_record_leaves_the_id_unchecked() {
    let mut no_id = record(1, 38.5, -77.5, 12345);
    no_id.id = None;
    let (id, _) = parse_record(no_id).unwrap();
    assert_eq!(None, id);
    // validate_record checks it, last.
    match validate_record(no_id) {
        Err(ReadError::MissingValueError { field }) => assert_eq!("id", field),
        _ => panic!("expected a missing-field error"),
    }
}

#[test]
fn streaming_grouper_matches_the_batch() {
    let records = vec![
        record(1, 38.0, -77.0, 100),
        record(1, 38.1, -77.1, 200),
        record(2, 33.0, 151.0, 300),
        record(2, 33.1, 151.1, 400),
        record(1, 38.2, -77.2, 500),
    ];
    let batch = rides_from_records(&records).unwrap();

    let mut streamed: Vec<Ride> = Vec::new();
    let mut grouper = Grouper::new();
    for r in &records {
        let (id, pos) = validate_record(*r).unwrap();
        if let Some(ride) = grouper.push(id, pos) {
            streamed.push(ride);
        }
    }
    if let Some(ride) = grouper.finish() {
        streamed.push(ride);
    }

    assert_eq!(batch.len(), streamed.len());
    for (b, s) in batch.iter().zip(streamed.iter()) {
        assert_eq!(b.id, s.id);
        assert_eq!(b.positions, s.positions);
    }
}

#[test]
fn one_id_throughout_is_one_ride() {
    let records = vec![
        record(6, 38.0, -77.0, 100),
        record(6, 38.1, -77.1, 200),
        record(6, 38.2, -77.2, 300),
    ];
    let rides = rides_from_records(&records).unwrap();
    assert_eq!(1, rides.len());
    assert_eq!(6, rides[0].id);
    assert_eq!(3, rides[0].positions.len());
}

#[test]
fn transport_faults_wrap_as_csv_errors() {
    let mut reader = csv::ReaderBuilder::new().has_headers(false).from_reader("a,b".as_bytes());
    let decoded: Result<(Option<u32>, Option<f64>, Option<f64>, Option<i64>), csv::Error> =
        reader.deserialize().next().unwrap();
    let fault = decoded.unwrap_err();
    assert!(matches!(ReadError::from(fault), ReadError::CSVError(_)));
}

#[test]
fn main_error_wraps_both_fault_kinds() {
    let read = ReadError::MissingValueError { field: "id".to_string() };
    assert!(matches!(MainError::from(read), MainError::ReadError(_)));
    let io = std::io::Error::new(std::io::ErrorKind::NotFound, "gone");
    assert!(matches!(MainError::from(io), MainError::IOError(_)));
}

#[test]
fn grouper_emits_a_ride_only_when_its_run_closes() {
    let pos = Position {
        timestamp: 1,
        location: Location { latitude_bits: 0, longitude_bits: 0 },
    };
    let mut grouper = Grouper::new();
    assert!(grouper.push(4, pos).is_none());
    assert!(grouper.push(4, pos).is_none());
    let closed = grouper.push(5, pos).unwrap();
    assert_eq!(4, closed.id);
    assert_eq!(2, closed.positions.len());
    let last = grouper.finish().unwrap();
    assert_eq!(5, last.id);
    assert_eq!(1, last.positions.len());
}
