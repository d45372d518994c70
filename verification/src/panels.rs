//! What the panels of the front end show: which panel is open, and the
//! columns of the log table for each data base.

use vstd::prelude::*;

verus! {

/// The widest row that the log table can show.
pub const MAX_WIDTH: usize = 12;

/// The panel that is open.
#[derive(Clone, Copy, Debug, PartialEq, Eq)]
pub enum Panel {
    Home,
    Log,
    Config,
}

impl Default for Panel {
    fn default() -> (panel: Self)
        ensures
            panel == Panel::Home,
    {
        Panel::Home
    }
}

/// The data base whose rows the log table shows.
#[derive(Clone, Copy, Debug, PartialEq, Eq)]
pub enum DataBases {
    Acceleration,
    GPS,
    Temperature,
}

/// The name by which a request for full data asks for a data base.
pub open spec fn param_of(choice: DataBases) -> Seq<char> {
    match choice {
        DataBases::Acceleration => "acceleration"@,
        DataBases::GPS => "gps"@,
        DataBases::Temperature => "temperature"@,
    }
}

/// The column titles of a data base, from left to right.
pub open spec fn headers_of(choice: DataBases) -> Seq<Seq<char>> {
    match choice {
        DataBases::Acceleration => seq![
            "Row"@,
            "Time"@,
            "Acceleration X"@,
            "Acceleration Y"@,
            "Acceleration Z"@,
        ],
        DataBases::GPS => seq![
            "Fix Type"@,
            "Fix Time"@,
            "Fix Date"@,
            "Latitude"@,
            "Longitude"@,
            "Altitude"@,
            "Ground Speed"@,
            "Geoid Separation"@,
        ],
        DataBases::Temperature => seq!["Row"@, "Timestamp"@, "Temperature (C)"@],
    }
}

/// The texts of a sequence of strings.
pub open spec fn texts(strings: Seq<String>) -> Seq<Seq<char>> {
    strings.map_values(|s: String| s@)
}

impl DataBases {
    /// The name by which a request for full data asks for this data base.
    pub fn param(&self) -> (name: &'static str)
        ensures
            name@ == param_of(*self),
    {
        match self {
            DataBases::Acceleration => "acceleration",
            DataBases::GPS => "gps",
            DataBases::Temperature => "temperature",
        }
    }
}

/// The column titles of the log table for `choice`: never more than a row is wide.
pub fn generate_headers(choice: DataBases) -> (headers: Vec<String>)
    ensures
        texts(headers@) == headers_of(choice),
        headers@.len() <= MAX_WIDTH,
{
    let mut headers: Vec<String> = Vec::new();
    match choice {
        DataBases::Acceleration => {
            headers.push("Row".to_owned());
            headers.push("Time".to_owned());
            headers.push("Acceleration X".to_owned());
            headers.push("Acceleration Y".to_owned());
            headers.push("Acceleration Z".to_owned());
        },
        DataBases::GPS => {
            headers.push("Fix Type".to_owned());
            headers.push("Fix Time".to_owned());
            headers.push("Fix Date".to_owned());
            headers.push("Latitude".to_owned());
            headers.push("Longitude".to_owned());
            headers.push("Altitude".to_owned());
            headers.push("Ground Speed".to_owned());
            headers.push("Geoid Separation".to_owned());
        },
        DataBases::Temperature => {
            headers.push("Row".to_owned());
            headers.push("Timestamp".to_owned());
            headers.push("Temperature (C)".to_owned());
        },
    }
    assert(texts(headers@) =~= headers_of(choice));
    headers
}

} // verus!
