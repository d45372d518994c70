use series_poll::panels::{generate_headers, DataBases, Panel, MAX_WIDTH};
use series_poll::requests::{full_url, latest_url};
use series_poll::routes::{
    rocket, select_full, select_latest, FullTable, Handler, LatestSeries, BASE, INVALID_FULL,
    INVALID_LATEST, PORT,
};
use series_poll::series::SeriesKey;
use series_poll::text::same_text;

#[test]
fn the_server_listens_on_port_8000() {
    let launch = rocket();
    assert_eq!(launch.port, 8000);
    assert_eq!(PORT, 8000);
    assert_eq!(BASE, "/");
}

#[test]
fn the_server_mounts_its_seven_handlers_in_order() {
    assert_eq!(
        rocket().mounts,
        vec![
            Handler::Index,
            Handler::Files,
            Handler::Update,
            Handler::UpdateSettings,
            Handler::ReqSettings,
            Handler::ReqDataLatest,
            Handler::ReqDataFull,
        ]
    );
}

#[test]
fn latest_data_is_selected_by_name() {
    assert_eq!(select_latest("acceleration_x"), Some(LatestSeries::AccelerationX));
    assert_eq!(select_latest("acceleration_y"), Some(LatestSeries::AccelerationY));
    assert_eq!(select_latest("acceleration_z"), Some(LatestSeries::AccelerationZ));
    assert_eq!(select_latest("gps_latlon"), Some(LatestSeries::GpsLatLon));
}

#[test]
fn other_names_select_no_latest_data() {
    assert_eq!(select_latest(""), None);
    assert_eq!(select_latest("acceleration"), None);
    assert_eq!(select_latest("acceleration_w"), None);
    assert_eq!(select_latest("Acceleration_x"), None);
    assert_eq!(select_latest("gps_latlon "), None);
    assert_eq!(INVALID_LATEST, "invalid data type for req_data_latest");
}

#[test]
fn full_data_is_selected_by_name() {
    assert_eq!(select_full("acceleration"), Some(FullTable::Acceleration));
    assert_eq!(select_full("gps"), Some(FullTable::Gps));
    assert_eq!(select_full("temperature"), None);
    assert_eq!(select_full("gp"), None);
    assert_eq!(select_full(""), None);
    assert_eq!(INVALID_FULL, "invalid data type for req_data_full");
}

#[test]
fn same_text_compares_characters() {
    assert!(same_text("", ""));
    assert!(same_text("gps", "gps"));
    assert!(!same_text("gps", "gpS"));
    assert!(!same_text("gps", "gp"));
    assert!(!same_text("", "g"));
    assert!(same_text("Temperature (°C)", "Temperature (°C)"));
    assert!(!same_text("é", "e"));
}

#[test]
fn the_home_panel_is_open_first() {
    assert_eq!(Panel::default(), Panel::Home);
}

#[test]
fn acceleration_has_five_columns() {
    assert_eq!(
        generate_headers(DataBases::Acceleration),
        vec!["Row", "Time", "Acceleration X", "Acceleration Y", "Acceleration Z"]
    );
}

#[test]
fn gps_has_eight_columns() {
    assert_eq!(
        generate_headers(DataBases::GPS),
        vec![
            "Fix Type",
            "Fix Time",
            "Fix Date",
            "Latitude",
            "Longitude",
            "Altitude",
            "Ground Speed",
            "Geoid Separation",
        ]
    );
}

#[test]
fn temperature_has_three_columns() {
    assert_eq!(generate_headers(DataBases::Temperature), vec!["Row", "Timestamp", "Temperature (C)"]);
}

#[test]
fn no_table_is_wider_than_a_row() {
    assert_eq!(MAX_WIDTH, 12);
    for choice in [DataBases::Acceleration, DataBases::GPS, DataBases::Temperature] {
        assert!(generate_headers(choice).len() <= MAX_WIDTH);
    }
}

#[test]
fn each_data_base_has_its_request_name() {
    assert_eq!(DataBases::Acceleration.param(), "acceleration");
    assert_eq!(DataBases::GPS.param(), "gps");
    assert_eq!(DataBases::Temperature.param(), "temperature");
}

#[test]
fn the_address_of_latest_data_names_column_and_table() {
    let key = SeriesKey::new("accelerometer_x", "accelerometer_data");
    assert_eq!(
        latest_url(&key),
        "http://127.0.0.1:8000/req/data/latest/accelerometer_x/accelerometer_data"
    );
    assert_eq!(latest_url(&SeriesKey::new("", "")), "http://127.0.0.1:8000/req/data/latest//");
}

#[test]
fn the_address_of_full_data_names_the_data_base() {
    assert_eq!(full_url(DataBases::Acceleration), "http://127.0.0.1:8000/req/data/full/acceleration");
    assert_eq!(full_url(DataBases::GPS), "http://127.0.0.1:8000/req/data/full/gps");
    assert_eq!(full_url(DataBases::Temperature), "http://127.0.0.1:8000/req/data/full/temperature");
}
