//! The addresses under which the front end asks the data server for data.

use vstd::prelude::*;
use vstd::string::StringExecFns;
use crate::panels::{param_of, DataBases};
use crate::series::SeriesKey;

verus! {

/// Where the latest points of a series are asked for, up to the series' name.
pub const LATEST_PREFIX: &'static str = "http://127.0.0.1:8000/req/data/latest/";

/// Where the rows of a data base are asked for, up to the data base's name.
pub const FULL_PREFIX: &'static str = "http://127.0.0.1:8000/req/data/full/";

/// The address of the latest points of the series `key`: the prefix, the
/// column, a slash, the table.
pub fn latest_url(key: &SeriesKey) -> (url: String)
    ensures
        url@ == LATEST_PREFIX@ + key.column@ + "/"@ + key.table@,
{
    let mut url = String::from_str(LATEST_PREFIX);
    url.append(key.column.as_str());
    url.append("/");
    url.append(key.table.as_str());
    url
}

/// The address of the rows of the data base `choice`: the prefix and its name.
pub fn full_url(choice: DataBases) -> (url: String)
    ensures
        url@ == FULL_PREFIX@ + param_of(choice),
{
    let mut url = String::from_str(FULL_PREFIX);
    url.append(choice.param());
    url
}

} // verus!
