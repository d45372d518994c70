//! What the data server answers to: its port, the handlers it mounts, and the
//! data that the parameter of a request selects.

use vstd::prelude::*;
use crate::text::same_text;

verus! {

/// The port on which the server listens.
pub const PORT: u16 = 8000;

/// The path under which every handler is mounted.
pub const BASE: &'static str = "/";

/// What the server says of a parameter that names no latest series.
pub const INVALID_LATEST: &'static str = "invalid data type for req_data_latest";

/// What the server says of a parameter that names no table.
pub const INVALID_FULL: &'static str = "invalid data type for req_data_full";

/// A request handler of the server.
#[derive(Clone, Copy, Debug, PartialEq, Eq)]
pub enum Handler {
    /// The start page.
    Index,
    /// Any other file below the working directory.
    Files,
    /// Takes a new recording state.
    Update,
    /// Takes and stores new settings.
    UpdateSettings,
    /// Hands out the stored settings.
    ReqSettings,
    /// Hands out the latest points of one series.
    ReqDataLatest,
    /// Hands out the rows of one table.
    ReqDataFull,
}

/// How the server is launched.
pub struct Launch {
    pub port: u16,
    /// The handlers, in the order in which they are mounted.
    pub mounts: Vec<Handler>,
}

/// The handlers of the server, in the order in which they are mounted.
pub open spec fn mounted_handlers() -> Seq<Handler> {
    seq![
        Handler::Index,
        Handler::Files,
        Handler::Update,
        Handler::UpdateSettings,
        Handler::ReqSettings,
        Handler::ReqDataLatest,
        Handler::ReqDataFull,
    ]
}

/// The launch of the server: port 8000 and its seven handlers.
pub fn rocket() -> (launch: Launch)
    ensures
        launch.port == 8000,
        launch.mounts@ == mounted_handlers(),
{
    let mut mounts: Vec<Handler> = Vec::new();
    mounts.push(Handler::Index);
    mounts.push(Handler::Files);
    mounts.push(Handler::Update);
    mounts.push(Handler::UpdateSettings);
    mounts.push(Handler::ReqSettings);
    mounts.push(Handler::ReqDataLatest);
    mounts.push(Handler::ReqDataFull);
    assert(mounts@ =~= mounted_handlers());
    Launch { port: PORT, mounts }
}

/// A series of which the server hands out the latest points.
#[derive(Clone, Copy, Debug, PartialEq, Eq)]
pub enum LatestSeries {
    AccelerationX,
    AccelerationY,
    AccelerationZ,
    GpsLatLon,
}

/// The series that the parameter of a request for the latest data names.
pub open spec fn latest_series_named(param: Seq<char>) -> Option<LatestSeries> {
    if param == "acceleration_x"@ {
        Some(LatestSeries::AccelerationX)
    } else if param == "acceleration_y"@ {
        Some(LatestSeries::AccelerationY)
    } else if param == "acceleration_z"@ {
        Some(LatestSeries::AccelerationZ)
    } else if param == "gps_latlon"@ {
        Some(LatestSeries::GpsLatLon)
    } else {
        None
    }
}

/// Selects the series of a request for the latest data; `None` where the
/// parameter names none, which the server answers with `INVALID_LATEST`.
pub fn select_latest(param: &str) -> (selected: Option<LatestSeries>)
    ensures
        selected == latest_series_named(param@),
{
    if same_text(param, "acceleration_x") {
        Some(LatestSeries::AccelerationX)
    } else if same_text(param, "acceleration_y") {
        Some(LatestSeries::AccelerationY)
    } else if same_text(param, "acceleration_z") {
        Some(LatestSeries::AccelerationZ)
    } else if same_text(param, "gps_latlon") {
        Some(LatestSeries::GpsLatLon)
    } else {
        None
    }
}

/// A table of which the server hands out the rows.
#[derive(Clone, Copy, Debug, PartialEq, Eq)]
pub enum FullTable {
    Acceleration,
    Gps,
}

/// The table that the parameter of a request for full data names.
pub open spec fn full_table_named(param: Seq<char>) -> Option<FullTable> {
    if param == "acceleration"@ {
        Some(FullTable::Acceleration)
    } else if param == "gps"@ {
        Some(FullTable::Gps)
    } else {
        None
    }
}

/// Selects the table of a request for full data; `None` where the parameter
/// names none, which the server answers with `INVALID_FULL`.
pub fn select_full(param: &str) -> (selected: Option<FullTable>)
    ensures
        selected == full_table_named(param@),
{
    if same_text(param, "acceleration") {
        Some(FullTable::Acceleration)
    } else if same_text(param, "gps") {
        Some(FullTable::Gps)
    } else {
        None
    }
}

} // verus!
