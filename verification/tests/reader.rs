//! End-to-end reads over in-memory archives.

use std::io::Write;

use gtfs_parser::error::Error;
use gtfs_parser::table::FromRow;
use gtfs_parser::GtfsReader;

fn make_zip(entries: &[(&str, &[u8])]) -> Vec<u8> {
    let mut w = zip::ZipWriter::new(std::io::Cursor::new(Vec::new()));
    for (name, data) in entries {
        let opts = zip::write::SimpleFileOptions::default();
        w.start_file(*name, opts).unwrap();
        w.write_all(data).unwrap();
    }
    w.finish().unwrap().into_inner()
}

const TRIPS: &str = "route_id,service_id,trip_id,trip_headsign,direction_id,block_id,brigade_id\n\
route1,service1,trip1,85088452,0,,010/51\n";

const STOP_TIMES: &str = "trip_id,arrival_time,departure_time,stop_id,stop_sequence,pickup_type,drop_off_type,continuous_pickup,continuous_drop_off,timepoint\n\
trip1,14:00:00,14:00:00,stop2,0,0,1,2,3,1\n\
trip1,15:00:00,15:00:00,stop3,0,0,0,1,1,1\n";

const STOPS: &str = "stop_id,stop_name,location_type\n\
stop1,Stop Area,1\n\
stop2,Middle,0\n\
stop3,End,\n";

const AGENCY: &str = "agency_id,agency_name,agency_url,agency_timezone\n\
agency001,Transit Agency,http://www.transitcommuterbus.com/,PST\n";

fn gtfs_bytes() -> Vec<u8> {
    make_zip(&[
        ("agency.txt", AGENCY.as_bytes()),
        ("trips.txt", TRIPS.as_bytes()),
        ("stop_times.txt", STOP_TIMES.as_bytes()),
        ("stops.txt", STOPS.as_bytes()),
    ])
}

#[test]
fn create_trips_test() {
    let mut gtfs = GtfsReader::from_bytes(gtfs_bytes()).unwrap();
    gtfs.trips().expect("trips");
}

#[derive(Debug)]
struct TripBrigade {
    trip_id: String,
    brigade_id: String,
}

impl FromRow for TripBrigade {
    fn from_row(header: &Vec<String>, row: &Vec<String>) -> Result<Self, Error> {
        let find = |name: &str| -> Result<String, Error> {
            for (i, h) in header.iter().enumerate() {
                if h == name {
                    if i < row.len() {
                        return Ok(row[i].clone());
                    }
                }
            }
            Err(Error::MissingField(name.to_string()))
        };
        Ok(TripBrigade { trip_id: find("trip_id")?, brigade_id: find("brigade_id")? })
    }
}

#[test]
fn custom_test() {
    let mut gtfs = GtfsReader::from_bytes(gtfs_bytes()).unwrap();
    let trip_brigade: Vec<TripBrigade> = gtfs.custom("trips.txt").unwrap();

    assert_eq!(trip_brigade[0].brigade_id, "010/51");
    assert_eq!(trip_brigade[0].trip_id, "trip1");
}

#[test]
fn custom_schema_sees_only_its_own_fields() {
    // A caller-defined shape against a known table name succeeds and exposes
    // only the declared fields, the unmodeled columns ignored.
    let mut gtfs = GtfsReader::from_bytes(gtfs_bytes()).unwrap();
    let rows: Vec<TripBrigade> = gtfs.custom("trips.txt").unwrap();
    assert_eq!(rows.len(), 1);
    assert_eq!(rows[0].trip_id, "trip1");
}

#[test]
fn custom_unknown_table_is_not_found() {
    let mut gtfs = GtfsReader::from_bytes(gtfs_bytes()).unwrap();
    match gtfs.custom::<TripBrigade>("extras.txt") {
        Err(Error::FileNotFound(name)) => assert_eq!(name, "extras.txt"),
        other => panic!("expected not found, got {:?}", other),
    }
}

#[test]
fn linked_trip_keeps_equal_sequences_in_input_order() {
    // Both rows carry stop_sequence 0: the linked trip holds exactly two stop
    // times, stop2 before stop3, arrivals 50400 and 54000.
    let mut gtfs = GtfsReader::from_bytes(gtfs_bytes()).unwrap();
    let trips = gtfs.trips().unwrap();
    let t = trips.get("trip1").expect("trip1");
    assert_eq!(t.stop_times.len(), 2);
    assert_eq!(t.stop_times[0].stop.id, "stop2");
    assert_eq!(t.stop_times[0].arrival_time, Some(50400));
    assert_eq!(t.stop_times[0].departure_time, Some(50400));
    assert_eq!(t.stop_times[1].stop.id, "stop3");
    assert_eq!(t.stop_times[1].arrival_time, Some(54000));
    assert_eq!(t.stop_times[1].stop_sequence, 0);
}

#[test]
fn linking_fails_on_unknown_trip_reference() {
    let stop_times = "trip_id,arrival_time,departure_time,stop_id,stop_sequence\n\
ghost,14:00:00,14:00:00,stop2,0\n";
    let bytes = make_zip(&[
        ("trips.txt", TRIPS.as_bytes()),
        ("stop_times.txt", stop_times.as_bytes()),
        ("stops.txt", STOPS.as_bytes()),
    ]);
    let mut gtfs = GtfsReader::from_bytes(bytes).unwrap();
    match gtfs.trips() {
        Err(Error::ReferenceError(id)) => assert_eq!(id, "ghost"),
        Err(e) => panic!("expected a reference error, got {:?}", e),
        Ok(_) => panic!("expected a reference error, got a linked result"),
    }
}

#[test]
fn linking_fails_on_unknown_stop_reference() {
    let stop_times = "trip_id,arrival_time,departure_time,stop_id,stop_sequence\n\
trip1,14:00:00,14:00:00,nowhere,0\n";
    let bytes = make_zip(&[
        ("trips.txt", TRIPS.as_bytes()),
        ("stop_times.txt", stop_times.as_bytes()),
        ("stops.txt", STOPS.as_bytes()),
    ]);
    let mut gtfs = GtfsReader::from_bytes(bytes).unwrap();
    match gtfs.trips() {
        Err(Error::ReferenceError(id)) => assert_eq!(id, "nowhere"),
        Err(e) => panic!("expected a reference error, got {:?}", e),
        Ok(_) => panic!("expected a reference error, got a linked result"),
    }
}

#[test]
fn byte_order_mark_is_transparent() {
    let mut with_bom = vec![0xEFu8, 0xBB, 0xBF];
    with_bom.extend_from_slice(AGENCY.as_bytes());
    let plain = make_zip(&[("agency.txt", AGENCY.as_bytes())]);
    let marked = make_zip(&[("agency.txt", &with_bom)]);

    let mut g1 = GtfsReader::from_bytes(plain).unwrap();
    let mut g2 = GtfsReader::from_bytes(marked).unwrap();
    let a1 = g1.agencies().unwrap();
    let a2 = g2.agencies().unwrap();
    assert_eq!(a1.len(), a2.len());
    assert_eq!(a1[0].id, a2[0].id);
    assert_eq!(a1[0].name, a2[0].name);
    assert_eq!(a1[0].name, "Transit Agency");
    assert_eq!(a1[0].timezone, "PST");
}

#[test]
fn tables_are_found_under_subdirectories() {
    let bytes = make_zip(&[("nested/deeper/agency.txt", AGENCY.as_bytes())]);
    let mut gtfs = GtfsReader::from_bytes(bytes).unwrap();
    let agencies = gtfs.agencies().unwrap();
    assert_eq!(agencies[0].name, "Transit Agency");
}

#[test]
fn trailing_separators_do_not_hide_a_table_name() {
    // An entry whose name ends in `/` still names its terminal path
    // component, as a filesystem path would.
    let bytes = make_zip(&[("sub/agency.txt/", AGENCY.as_bytes())]);
    let mut gtfs = GtfsReader::from_bytes(bytes).unwrap();
    let agencies = gtfs.agencies().unwrap();
    assert_eq!(agencies[0].name, "Transit Agency");
}

#[test]
fn later_entries_win_for_one_table_name() {
    let second = "agency_id,agency_name,agency_url,agency_timezone\n\
agency002,Second Agency,http://example.com/,UTC\n";
    let bytes = make_zip(&[
        ("agency.txt", AGENCY.as_bytes()),
        ("sub/agency.txt", second.as_bytes()),
    ]);
    let mut gtfs = GtfsReader::from_bytes(bytes).unwrap();
    let agencies = gtfs.agencies().unwrap();
    assert_eq!(agencies[0].name, "Second Agency");
}

#[test]
fn missing_table_is_not_found() {
    let bytes = make_zip(&[("agency.txt", AGENCY.as_bytes())]);
    let mut gtfs = GtfsReader::from_bytes(bytes).unwrap();
    match gtfs.routes() {
        Err(Error::FileNotFound(name)) => assert_eq!(name, "routes.txt"),
        other => panic!("expected not found, got {:?}", other),
    }
}

#[test]
fn malformed_row_reports_headers_and_padded_values() {
    // The second row's time is bad, and the row is one field short: the error
    // carries the header names and the row's raw values, normalized to the
    // header's length.
    let stop_times = "trip_id,arrival_time,departure_time,stop_id,stop_sequence\n\
trip1,xx:00:00,14:00:00,stop2\n";
    let bytes = make_zip(&[("stop_times.txt", stop_times.as_bytes())]);
    let mut gtfs = GtfsReader::from_bytes(bytes).unwrap();
    match gtfs.raw_stop_times() {
        Err(Error::CSVError { filename, source, line_in_error }) => {
            assert_eq!(filename, "stop_times.txt");
            match *source {
                Error::InvalidNumber(t) => assert_eq!(t, "xx"),
                other => panic!("expected invalid number, got {:?}", other),
            }
            let line = line_in_error.expect("row context");
            assert_eq!(line.headers.len(), 5);
            assert_eq!(line.values.len(), line.headers.len());
            assert_eq!(line.values[0], "trip1");
            assert_eq!(line.values[4], "");
        },
        other => panic!("expected a table decode error, got {:?}", other),
    }
}

#[test]
fn missing_required_column_fails_the_read() {
    let trips = "route_id,service_id\nroute1,service1\n";
    let bytes = make_zip(&[("trips.txt", trips.as_bytes())]);
    let mut gtfs = GtfsReader::from_bytes(bytes).unwrap();
    match gtfs.raw_trips() {
        Err(Error::CSVError { source, .. }) => match *source {
            Error::MissingField(name) => assert_eq!(name, "trip_id"),
            other => panic!("expected a missing field, got {:?}", other),
        },
        other => panic!("expected a table decode error, got {:?}", other),
    }
}

#[test]
fn route_defaults_and_colors() {
    let routes = "route_id,route_short_name,route_long_name,route_type,route_color\n\
A,17,Mission,3,\n\
B,18,Downtown,3,FF00A0\n";
    let bytes = make_zip(&[("routes.txt", routes.as_bytes())]);
    let mut gtfs = GtfsReader::from_bytes(bytes).unwrap();
    let routes = gtfs.routes().unwrap();
    // A present-but-blank color is "no value"; an omitted text-color column
    // takes the schema's default, black.
    assert_eq!(routes[0].route_color, None);
    assert_eq!(
        routes[1].route_color,
        Some(gtfs_parser::codecs::Rgb { r: 255, g: 0, b: 160 }),
    );
    let black = gtfs_parser::codecs::Rgb { r: 0, g: 0, b: 0 };
    assert_eq!(routes[0].route_text_color, Some(black));
    assert_eq!(routes[0].route_type, gtfs_parser::structures::routes::RouteType::Bus);
}

#[test]
fn omitted_route_color_column_defaults_to_white() {
    let routes = "route_id,route_short_name,route_long_name,route_type\nA,17,Mission,3\n";
    let bytes = make_zip(&[("routes.txt", routes.as_bytes())]);
    let mut gtfs = GtfsReader::from_bytes(bytes).unwrap();
    let routes = gtfs.routes().unwrap();
    let white = gtfs_parser::codecs::Rgb { r: 255, g: 255, b: 255 };
    assert_eq!(routes[0].route_color, Some(white));
}

#[test]
fn timepoint_defaults_to_exact() {
    let stop_times = "trip_id,arrival_time,departure_time,stop_id,stop_sequence\n\
trip1,14:00:00,14:00:00,stop2,0\n";
    let bytes = make_zip(&[("stop_times.txt", stop_times.as_bytes())]);
    let mut gtfs = GtfsReader::from_bytes(bytes).unwrap();
    let rows = gtfs.raw_stop_times().unwrap();
    assert_eq!(rows[0].timepoint, true);
    assert_eq!(rows[0].pickup_type, gtfs_parser::structures::stop_times::PickupDropOffType::Regular);
}

#[test]
fn calendar_tables_group_and_map() {
    let calendar = "service_id,monday,tuesday,wednesday,thursday,friday,saturday,sunday,start_date,end_date\n\
WE,0,0,0,0,0,1,1,20060701,20060731\n";
    let calendar_dates = "service_id,date,exception_type\n\
WD,20060703,2\n\
WD,20060704,1\n\
WE,20060708,2\n";
    let bytes = make_zip(&[
        ("calendar.txt", calendar.as_bytes()),
        ("calendar_dates.txt", calendar_dates.as_bytes()),
    ]);
    let mut gtfs = GtfsReader::from_bytes(bytes).unwrap();
    let cal = gtfs.calendar_map().unwrap();
    let we = cal.get("WE").expect("WE");
    assert_eq!(we.saturday, true);
    assert_eq!(we.monday, false);
    assert_eq!(we.start_date, gtfs_parser::codecs::Date { year: 2006, month: 7, day: 1 });

    let dates = gtfs.calendar_dates_map().unwrap();
    let wd = dates.get("WD").expect("WD");
    assert_eq!(wd.len(), 2);
    assert_eq!(
        wd[0].exception_type,
        gtfs_parser::structures::calendar_dates::Exception::Deleted,
    );
    assert_eq!(
        wd[1].exception_type,
        gtfs_parser::structures::calendar_dates::Exception::Added,
    );
    assert_eq!(dates.get("WE").expect("WE").len(), 1);
    assert!(dates.get("XX").is_none());
}

#[test]
fn remaining_tables_decode() {
    let attributions = "attribution_id,organization_name,is_producer\n\
attribution001,Transit Feed Solutions USA,1\n";
    let fare_attributes = "fare_id,price,currency_type,payment_method,transfers\n\
2,0.5,USD,0,0\n";
    let fare_rules = "fare_id,route_id,origin_id,destination_id\na,TSW,1,1\n";
    let feed_info = "feed_publisher_name,feed_publisher_url,feed_lang,feed_start_date\n\
Pub,http://pub,en,20060701\n";
    let frequencies = "trip_id,start_time,end_time,headway_secs,exact_times\n\
AWE1,20:30:00,28:00:00,420,0\n";
    let levels = "level_id,level_index,level_name\nL1,-1,Mezzanine\n";
    let pathways = "pathway_id,from_stop_id,to_stop_id,pathway_mode,is_bidirectional\n\
E2N1,E2,N1,2,1\n";
    let shapes = "shape_id,shape_pt_lat,shape_pt_lon,shape_pt_sequence,shape_dist_traveled\n\
A_shp,37.64430,-122.41070,2,6.8310\n";
    let transfers = "from_stop_id,to_stop_id,transfer_type,min_transfer_time\n\
S6,S7,2,300\nS7,S6,3,\n";
    let bytes = make_zip(&[
        ("attributions.txt", attributions.as_bytes()),
        ("fare_attributes.txt", fare_attributes.as_bytes()),
        ("fare_rules.txt", fare_rules.as_bytes()),
        ("feed_info.txt", feed_info.as_bytes()),
        ("frequencies.txt", frequencies.as_bytes()),
        ("levels.txt", levels.as_bytes()),
        ("pathways.txt", pathways.as_bytes()),
        ("shapes.txt", shapes.as_bytes()),
        ("transfers.txt", transfers.as_bytes()),
    ]);
    let mut gtfs = GtfsReader::from_bytes(bytes).unwrap();

    let a = gtfs.attributions().unwrap();
    assert_eq!(a[0].organization_name, "Transit Feed Solutions USA");
    assert_eq!(a[0].is_producer, true);
    assert_eq!(a[0].is_operator, false);

    let fa = gtfs.fare_attributes().unwrap();
    assert_eq!(fa[0].price, "0.5");
    assert_eq!(fa[0].currency, "USD");
    assert_eq!(
        fa[0].payment_method,
        gtfs_parser::structures::fare_attributes::PaymentMethod::Aboard,
    );
    assert_eq!(
        fa[0].transfers,
        gtfs_parser::structures::fare_attributes::Transfers::NoTransfer,
    );

    let fr = gtfs.fare_rules().unwrap();
    assert_eq!(fr[0].route_id.as_deref(), Some("TSW"));

    let fi = gtfs.feed_info().unwrap();
    assert_eq!(fi[0].lang, "en");
    assert_eq!(
        fi[0].start_date,
        Some(gtfs_parser::codecs::Date { year: 2006, month: 7, day: 1 }),
    );
    assert_eq!(fi[0].end_date, None);

    let fq = gtfs.frequencies().unwrap();
    assert_eq!(fq[0].start_time, 20 * 3600 + 30 * 60);
    assert_eq!(fq[0].end_time, 28 * 3600);
    assert_eq!(fq[0].headway_secs, 420);
    assert_eq!(
        fq[0].exact_times,
        gtfs_parser::structures::frequencies::ServiceType::FrequencyBased,
    );

    let lv = gtfs.levels().unwrap();
    assert_eq!(lv[0].index, -1);
    assert_eq!(lv[0].name.as_deref(), Some("Mezzanine"));

    let pw = gtfs.pathways().unwrap();
    assert_eq!(pw[0].mode, gtfs_parser::structures::pathways::PathwayMode::Stairs);
    assert_eq!(pw[0].is_bidirectional, true);

    let sh = gtfs.shapes().unwrap();
    assert_eq!(sh[0].sequence, 2);
    assert_eq!(sh[0].latitude.as_deref(), Some("37.64430"));
    assert_eq!(sh[0].dist_traveled.as_deref(), Some("6.8310"));

    let tr = gtfs.transfers().unwrap();
    assert_eq!(tr[0].transfer_type, gtfs_parser::structures::transfers::TransferType::TimedMinimum);
    assert_eq!(tr[0].min_transfer_time, Some(300));
    assert_eq!(tr[1].transfer_type, gtfs_parser::structures::transfers::TransferType::NotPossible);
    assert_eq!(tr[1].min_transfer_time, None);
}

#[test]
fn raw_trip_fields_carry_over() {
    let mut gtfs = GtfsReader::from_bytes(gtfs_bytes()).unwrap();
    let trips = gtfs.raw_trips().unwrap();
    let t = &trips[0];
    assert_eq!(t.id, "trip1");
    assert_eq!(t.route_id, "route1");
    assert_eq!(t.service_id, "service1");
    assert_eq!(t.headsign.as_deref(), Some("85088452"));
    assert_eq!(t.short_name, None);
    assert_eq!(t.direction_id, Some(gtfs_parser::structures::trips::Direction::Outbound));
    assert_eq!(t.block_id, None);
    assert_eq!(t.bikes_allowed, gtfs_parser::structures::trips::BikesAllowed::NoBikeInfo);
    assert_eq!(
        t.wheelchair_accessible,
        gtfs_parser::structures::stops::WheelchairBoardingAvailable::InformationNotAvailable,
    );
}

#[test]
fn tokenize_failure_reports_no_row_values() {
    // A field holding invalid text bytes cannot be tokenized: the error names
    // the table and carries the header row, with the raw values absent.
    let mut bad = Vec::new();
    bad.extend_from_slice(b"agency_id,agency_name,agency_url,agency_timezone\n");
    bad.extend_from_slice(b"a1,\xFF\xFE,u,t\n");
    let bytes = make_zip(&[("agency.txt", &bad)]);
    let mut gtfs = GtfsReader::from_bytes(bytes).unwrap();
    match gtfs.agencies() {
        Err(Error::CSVError { filename, source, line_in_error }) => {
            assert_eq!(filename, "agency.txt");
            assert_eq!(source.kind(), "tokenize error");
            let line = line_in_error.expect("header context");
            assert_eq!(line.headers.len(), 4);
            assert_eq!(line.values.len(), 0);
        },
        other => panic!("expected a table decode error, got {:?}", other),
    }
}

#[test]
fn strict_enumerations_reject_unknown_codes() {
    let calendar_dates = "service_id,date,exception_type\nWD,20060703,3\n";
    let bytes = make_zip(&[("calendar_dates.txt", calendar_dates.as_bytes())]);
    let mut gtfs = GtfsReader::from_bytes(bytes).unwrap();
    match gtfs.calendar_dates() {
        Err(Error::CSVError { source, .. }) => match *source {
            Error::InvalidValue(t) => assert_eq!(t, "3"),
            other => panic!("expected an invalid value, got {:?}", other),
        },
        other => panic!("expected a table decode error, got {:?}", other),
    }

    let trips = "route_id,service_id,trip_id,direction_id\nr1,s1,t1,5\n";
    let bytes = make_zip(&[("trips.txt", trips.as_bytes())]);
    let mut gtfs = GtfsReader::from_bytes(bytes).unwrap();
    match gtfs.raw_trips() {
        Err(Error::CSVError { source, .. }) => match *source {
            Error::InvalidValue(t) => assert_eq!(t, "5"),
            other => panic!("expected an invalid value, got {:?}", other),
        },
        other => panic!("expected a table decode error, got {:?}", other),
    }
}

#[test]
fn error_kinds_name_their_family() {
    assert_eq!(Error::FileNotFound("x".to_string()).kind(), "file not found");
    assert_eq!(Error::ReferenceError("x".to_string()).kind(), "reference error");
    assert_eq!(Error::InvalidTime("x".to_string()).kind(), "invalid time");
}

#[test]
fn malformed_container_is_a_container_error() {
    let garbage = vec![1u8, 2, 3, 4, 5];
    match GtfsReader::from_bytes(garbage) {
        Err(Error::Zip(_)) => {},
        Err(e) => panic!("expected a container error, got {:?}", e),
        Ok(_) => panic!("expected a container error, got a session"),
    }
}
