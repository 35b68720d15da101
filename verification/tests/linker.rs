//! The relational linker and the enumeration codecs, exercised directly.

use std::sync::Arc;

use gtfs_parser::error::Error;
use gtfs_parser::string_map::StringMap;
use gtfs_parser::structures::fare_attributes::{encode_transfers, Transfers};
use gtfs_parser::structures::pathways::{encode_pathway_mode, pathway_mode_of, PathwayMode};
use gtfs_parser::structures::routes::{
    decode_continuous, encode_route_type, route_type_of, ContinuousPickupDropOff, RouteType,
};
use gtfs_parser::structures::stop_times::{decode_pickup, PickupDropOffType, RawStopTime};
use gtfs_parser::structures::stops::{decode_stop_location, decode_wheelchair, Stop, StopLocationType, WheelchairBoardingAvailable};
use gtfs_parser::structures::transfers::{decode_transfer_type, TransferType};
use gtfs_parser::structures::trips::{decode_bikes, BikesAllowed, Trip};
use gtfs_parser::to_map;
use gtfs_parser::Id;

fn stop(id: &str) -> Stop {
    let mut s = Stop::default();
    s.id = id.to_string();
    s
}

fn raw_stop_time(trip: &str, stop: &str, seq: u16, arrival: Option<u64>) -> RawStopTime {
    let mut r = RawStopTime::default();
    r.trip_id = trip.to_string();
    r.stop_id = stop.to_string();
    r.stop_sequence = seq;
    r.arrival_time = arrival;
    r
}

fn raw_trip(id: &str) -> gtfs_parser::structures::trips::RawTrip {
    let mut t = gtfs_parser::structures::trips::RawTrip::default();
    t.id = id.to_string();
    t.route_id = "route1".to_string();
    t.service_id = "service1".to_string();
    t
}

fn stops_map(ids: &[&str]) -> StringMap<Arc<Stop>> {
    let mut m = StringMap::new();
    for id in ids {
        m.insert(id.to_string(), Arc::new(stop(id)));
    }
    m
}

#[test]
fn linking_sorts_by_stop_sequence() {
    let trips = vec![raw_trip("t1")];
    let sts = vec![
        raw_stop_time("t1", "s3", 7, None),
        raw_stop_time("t1", "s1", 2, None),
        raw_stop_time("t1", "s2", 5, None),
    ];
    let stops = stops_map(&["s1", "s2", "s3"]);
    let linked = Trip::create_trips(trips, sts, &stops).unwrap();
    assert_eq!(linked.len(), 1);
    let t = &linked[0];
    assert_eq!(t.id, "t1");
    let seqs: Vec<u16> = t.stop_times.iter().map(|st| st.stop_sequence).collect();
    assert_eq!(seqs, vec![2, 5, 7]);
    let ids: Vec<&str> = t.stop_times.iter().map(|st| st.stop.id.as_str()).collect();
    assert_eq!(ids, vec!["s1", "s2", "s3"]);
}

#[test]
fn equal_stop_sequences_keep_input_order() {
    let trips = vec![raw_trip("t1")];
    let sts = vec![
        raw_stop_time("t1", "s2", 0, Some(14 * 3600)),
        raw_stop_time("t1", "s3", 0, Some(15 * 3600)),
    ];
    let stops = stops_map(&["s2", "s3"]);
    let linked = Trip::create_trips(trips, sts, &stops).unwrap();
    let t = &linked[0];
    assert_eq!(t.stop_times.len(), 2);
    assert_eq!(t.stop_times[0].stop.id, "s2");
    assert_eq!(t.stop_times[0].arrival_time, Some(50400));
    assert_eq!(t.stop_times[1].stop.id, "s3");
    assert_eq!(t.stop_times[1].arrival_time, Some(54000));
}

#[test]
fn unknown_trip_reference_names_the_trip() {
    let trips = vec![raw_trip("t1")];
    let sts = vec![raw_stop_time("ghost", "s1", 0, None)];
    let stops = stops_map(&["s1"]);
    match Trip::create_trips(trips, sts, &stops) {
        Err(Error::ReferenceError(id)) => assert_eq!(id, "ghost"),
        other => panic!("expected a reference error, got {:?}", other),
    }
}

#[test]
fn unknown_stop_reference_names_the_stop() {
    let trips = vec![raw_trip("t1")];
    let sts = vec![raw_stop_time("t1", "nowhere", 0, None)];
    let stops = stops_map(&["s1"]);
    match Trip::create_trips(trips, sts, &stops) {
        Err(Error::ReferenceError(id)) => assert_eq!(id, "nowhere"),
        other => panic!("expected a reference error, got {:?}", other),
    }
}

#[test]
fn first_bad_reference_wins() {
    let trips = vec![raw_trip("t1")];
    let sts = vec![
        raw_stop_time("t1", "s1", 0, None),
        raw_stop_time("t1", "missing_stop", 1, None),
        raw_stop_time("missing_trip", "s1", 2, None),
    ];
    let stops = stops_map(&["s1"]);
    match Trip::create_trips(trips, sts, &stops) {
        Err(Error::ReferenceError(id)) => assert_eq!(id, "missing_stop"),
        other => panic!("expected a reference error, got {:?}", other),
    }
}

#[test]
fn stops_are_shared_between_stop_times() {
    let trips = vec![raw_trip("t1")];
    let sts = vec![
        raw_stop_time("t1", "s1", 0, None),
        raw_stop_time("t1", "s1", 1, None),
    ];
    let stops = stops_map(&["s1"]);
    let linked = Trip::create_trips(trips, sts, &stops).unwrap();
    let t = &linked[0];
    assert!(Arc::ptr_eq(&t.stop_times[0].stop, &t.stop_times[1].stop));
}

#[test]
fn to_map_keeps_the_last_record_per_identifier() {
    let mut a = raw_trip("dup");
    a.route_id = "first".to_string();
    let mut b = raw_trip("dup");
    b.route_id = "second".to_string();
    let m = to_map(vec![a, b]);
    assert_eq!(m.len(), 1);
    assert_eq!(m.get("dup").unwrap().route_id, "second");
}

#[test]
fn empty_identifiers_collide_under_the_empty_key() {
    let mut a = gtfs_parser::structures::agency::Agency::default();
    a.name = "first".to_string();
    let mut b = gtfs_parser::structures::agency::Agency::default();
    b.name = "second".to_string();
    assert_eq!(a.id(), "");
    let m = to_map(vec![a, b]);
    assert_eq!(m.len(), 1);
    assert_eq!(m.get("").unwrap().name, "second");
}

#[test]
fn closed_enumerations_fall_back_without_error() {
    assert_eq!(decode_pickup("7"), PickupDropOffType::Regular);
    assert_eq!(decode_pickup("abc"), PickupDropOffType::Regular);
    assert_eq!(decode_pickup("2"), PickupDropOffType::ArrangeByPhone);
    assert_eq!(decode_continuous("9"), ContinuousPickupDropOff::NotAvailable);
    assert_eq!(decode_continuous("0"), ContinuousPickupDropOff::Continuous);
    assert_eq!(decode_stop_location(""), StopLocationType::StopPoint);
    assert_eq!(decode_stop_location("4"), StopLocationType::BoardingArea);
    assert_eq!(decode_wheelchair("5"), WheelchairBoardingAvailable::InformationNotAvailable);
    assert_eq!(decode_wheelchair("1"), WheelchairBoardingAvailable::Available);
    assert_eq!(decode_transfer_type("x"), TransferType::Recommended);
    assert_eq!(decode_transfer_type("3"), TransferType::NotPossible);
    assert_eq!(decode_bikes("9"), BikesAllowed::NoBikeInfo);
    assert_eq!(decode_bikes("2"), BikesAllowed::NoBikesAllowed);
}

#[test]
fn open_enumerations_preserve_unknown_codes() {
    assert_eq!(route_type_of(8000), RouteType::Other(8000));
    assert_eq!(encode_route_type(&RouteType::Other(8000)), 8000);
    assert_eq!(pathway_mode_of(9), PathwayMode::Other(9));
    assert_eq!(encode_pathway_mode(&PathwayMode::Other(9)), 9);
    assert_eq!(encode_transfers(&Transfers::Other(77)), Some(77));
    assert_eq!(encode_transfers(&Transfers::Unlimited), None);
}

#[test]
fn route_type_bands_by_hundreds_digit() {
    assert_eq!(route_type_of(0), RouteType::Tramway);
    assert_eq!(route_type_of(3), RouteType::Bus);
    assert_eq!(route_type_of(700), RouteType::Bus);
    assert_eq!(route_type_of(200), RouteType::Coach);
    assert_eq!(route_type_of(1100), RouteType::Air);
    assert_eq!(route_type_of(1500), RouteType::Taxi);
    assert_eq!(route_type_of(104), RouteType::Rail);
    assert_eq!(route_type_of(400), RouteType::Subway);
    // A banded value re-encodes as its canonical legacy code: one-way for
    // the extended number.
    assert_eq!(encode_route_type(&route_type_of(701)), 3);
    assert_eq!(encode_route_type(&RouteType::Coach), 200);
}
