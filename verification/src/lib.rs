//! Access to the Copernicus Marine toolbox: dataset selection, request
//! planning, date formatting and output-file naming, each with its contract.

pub mod copernicus;
pub mod dataset;
pub mod datetime;
pub mod text;
pub mod values;

pub use copernicus::{
    after_subset_attempt, has_netcdf_extension, netcdf_file_name, subset_file_name, AttemptOutcome,
    Copernicus,
};
pub use dataset::{dataset_id_at, get_dataset_id, CopernicusVariable, DatasetIdError};
pub use datetime::{secs_since_1990_01_01_0_to_utcdatetime, UtcDateTime};
pub use text::{string_first_n_chars, utc_date_time_to_string};
pub use values::{check_value_attributes, AttributeKind, ValuesError};
