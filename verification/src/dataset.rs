use vstd::prelude::*;

use crate::datetime::{
    checked_add_seconds, civil_instant, is_valid_date, lemma_unix_seconds_in_range, nanos_per_second,
    unix_timestamp, utc_now, UtcDateTime,
};

verus! {

/// A list of Copernicus variables, for use with `get_dataset_id`.
/// The variables are in alphabetical order within their own category (see
/// comments), and the categories are in alphabetical order too.
#[derive(Debug, Clone)]
pub enum CopernicusVariable {
    // Ocean Current
    EastwardSeaWaterVelocity,
    NorthwardSeaWaterVelocity,
    // Wind
    EastwardWind,
    NorthwardWind,
}

/// Why no single dataset covers the requested variable and time span.
#[derive(Debug, Clone, Copy, PartialEq, Eq)]
pub enum DatasetIdError {
    /// The start of the span lies after its end.
    StartAfterEnd,
    /// The span starts at or before 1993-01-01 00:00:00, the earliest ocean
    /// current data in GLOBAL_MULTIYEAR_PHY_001_030.
    StartBeforeOceanCurrentRecords,
    /// The span ends at or after the end of the ocean current forecast in
    /// GLOBAL_ANALYSISFORECAST_PHY_001_024, 10 days after now.
    EndAfterOceanCurrentForecast,
    /// The span starts at or before 1994-06-01 00:00:00, the earliest wind
    /// data in WIND_GLO_PHY_L4_MY_012_006.
    StartBeforeWindRecords,
    /// The span ends at or after now, past the latest wind data in
    /// WIND_GLO_PHY_L4_NRT_012_004.
    EndAfterWindRecords,
    /// The span would need more than one dataset.
    SpansTwoDatasets,
}

impl DatasetIdError {
    /// The text that explains the error.
    pub open spec fn spec_message(self) -> Seq<char> {
        match self {
            DatasetIdError::StartAfterEnd => "start_datetime must be before end_datetime or the same as end_datetime"@,
            DatasetIdError::StartBeforeOceanCurrentRecords => "start_datetime is before 1993-01-01 00:00:00, which is the earliest date for ocean current data in GLOBAL_MULTIYEAR_PHY_001_030"@,
            DatasetIdError::EndAfterOceanCurrentForecast => "end_datetime is after the latest date for ocean current data in GLOBAL_ANALYSISFORECAST_PHY_001_024, which has a forecast up to 10 days into the future from now"@,
            DatasetIdError::StartBeforeWindRecords => "start_datetime is before 1994-06-01 00:00:00, which is the earliest date for wind data in WIND_GLO_PHY_L4_MY_012_006"@,
            DatasetIdError::EndAfterWindRecords => "end_datetime is after the latest date for wind data in WIND_GLO_PHY_L4_NRT_012_004, which is updated daily at 15:00 UTC"@,
            DatasetIdError::SpansTwoDatasets => "The temporal extent from start_datetime to end_datetime is too large and would require using more than one dataset. Please use a smaller temporal extent."@,
        }
    }

    /// The text that explains the error.
    pub fn message(&self) -> (m: String)
        ensures
            m@ == self.spec_message(),
    {
        match self {
            DatasetIdError::StartAfterEnd => "start_datetime must be before end_datetime or the same as end_datetime".to_owned(),
            DatasetIdError::StartBeforeOceanCurrentRecords => "start_datetime is before 1993-01-01 00:00:00, which is the earliest date for ocean current data in GLOBAL_MULTIYEAR_PHY_001_030".to_owned(),
            DatasetIdError::EndAfterOceanCurrentForecast => "end_datetime is after the latest date for ocean current data in GLOBAL_ANALYSISFORECAST_PHY_001_024, which has a forecast up to 10 days into the future from now".to_owned(),
            DatasetIdError::StartBeforeWindRecords => "start_datetime is before 1994-06-01 00:00:00, which is the earliest date for wind data in WIND_GLO_PHY_L4_MY_012_006".to_owned(),
            DatasetIdError::EndAfterWindRecords => "end_datetime is after the latest date for wind data in WIND_GLO_PHY_L4_NRT_012_004, which is updated daily at 15:00 UTC".to_owned(),
            DatasetIdError::SpansTwoDatasets => "The temporal extent from start_datetime to end_datetime is too large and would require using more than one dataset. Please use a smaller temporal extent.".to_owned(),
        }
    }
}

/// The ocean current variables (the others are wind variables).
pub open spec fn is_ocean_current(variable: CopernicusVariable) -> bool {
    variable is EastwardSeaWaterVelocity || variable is NorthwardSeaWaterVelocity
}

/// Ten days, in nanoseconds: how far the ocean current forecast reaches.
pub open spec fn forecast_reach() -> int {
    10 * 86400 * nanos_per_second()
}

/// The dataset that covers `variable` from `start` to `end`, when the
/// current time is `now`, or why there is none.
pub open spec fn dataset_id_spec(
    variable: CopernicusVariable,
    start: UtcDateTime,
    end: UtcDateTime,
    now: UtcDateTime,
) -> Result<Seq<char>, DatasetIdError> {
    if start.instant() > end.instant() {
        Err(DatasetIdError::StartAfterEnd)
    } else if is_ocean_current(variable) {
        if start.instant() <= civil_instant(1993, 1, 1, 0, 0, 0) {
            Err(DatasetIdError::StartBeforeOceanCurrentRecords)
        } else if end.instant() >= now.instant() + forecast_reach() {
            Err(DatasetIdError::EndAfterOceanCurrentForecast)
        } else if start.instant() < civil_instant(2020, 11, 1, 0, 0, 0) {
            if end.instant() > civil_instant(2025, 8, 26, 0, 0, 0) {
                Err(DatasetIdError::SpansTwoDatasets)
            } else {
                Ok("cmems_mod_glo_phy_my_0.083deg_P1D-m"@)
            }
        } else {
            Ok("cmems_mod_glo_phy_anfc_0.083deg_PT1H-m"@)
        }
    } else {
        if start.instant() <= civil_instant(1994, 6, 1, 0, 0, 0) {
            Err(DatasetIdError::StartBeforeWindRecords)
        } else if end.instant() >= now.instant() {
            Err(DatasetIdError::EndAfterWindRecords)
        } else if start.instant() < civil_instant(2023, 4, 27, 0, 0, 0) {
            if end.instant() > civil_instant(2025, 5, 21, 0, 0, 0) {
                Err(DatasetIdError::SpansTwoDatasets)
            } else {
                Ok("cmems_obs-wind_glo_phy_my_l4_0.125deg_PT1H"@)
            }
        } else {
            Ok("cmems_obs-wind_glo_phy_nrt_l4_0.125deg_PT1H"@)
        }
    }
}

/// A result with its text taken by its view.
pub open spec fn result_text(r: Result<String, DatasetIdError>) -> Result<Seq<char>, DatasetIdError> {
    match r {
        Ok(s) => Ok(s@),
        Err(e) => Err(e),
    }
}

/// The instant a date and time names, in nanoseconds since the Unix epoch.
fn instant_of(dt: &UtcDateTime) -> (r: i128)
    ensures
        r == dt.instant(),
{
    let seconds = unix_timestamp(dt);
    (seconds as i128) * 1_000_000_000 + (dt.nanosecond() as i128)
}

/// The instant of midnight at the start of an existing date.
fn midnight_instant(year: i32, month: u8, day: u8) -> (r: i128)
    requires
        is_valid_date(year as int, month as int, day as int),
    ensures
        r == civil_instant(year as int, month as int, day as int, 0, 0, 0),
{
    match UtcDateTime::new(year, month, day, 0, 0, 0, 0) {
        Some(dt) => instant_of(&dt),
        None => {
            proof {
                assert(false);
            }
            0
        },
    }
}

/// The dataset id for a variable and temporal extent, when the current time
/// is `now`. Almost all dates are fixed, as the datasets were known on
/// 2025-09-17.
pub fn dataset_id_at(
    variable: CopernicusVariable,
    start_datetime: UtcDateTime,
    end_datetime: UtcDateTime,
    now: UtcDateTime,
) -> (r: Result<String, DatasetIdError>)
    ensures
        result_text(r) == dataset_id_spec(variable, start_datetime, end_datetime, now),
{
    let start = instant_of(&start_datetime);
    let end = instant_of(&end_datetime);
    // Sanity check that end_datetime is indeed after start_datetime
    if start > end {
        return Err(DatasetIdError::StartAfterEnd);
    }
    match variable {
        CopernicusVariable::EastwardSeaWaterVelocity
        | CopernicusVariable::NorthwardSeaWaterVelocity => {
            if start <= midnight_instant(1993, 1, 1) {
                return Err(DatasetIdError::StartBeforeOceanCurrentRecords);
            }
            // The forecast goes 10 days into the future
            let reaches_forecast_end = match checked_add_seconds(&now, 864000) {
                Some(limit) => end >= instant_of(&limit),
                None => {
                    proof {
                        use_type_invariant(&now);
                        use_type_invariant(&end_datetime);
                        UtcDateTime::lemma_fields_valid(now);
                        UtcDateTime::lemma_fields_valid(end_datetime);
                        lemma_unix_seconds_in_range(now);
                        lemma_unix_seconds_in_range(end_datetime);
                    }
                    false
                },
            };
            if reaches_forecast_end {
                return Err(DatasetIdError::EndAfterOceanCurrentForecast);
            }
            if start < midnight_instant(2020, 11, 1) {
                // More than one dataset would be needed past the end of
                // GLOBAL_MULTIYEAR_PHY_001_030
                if end > midnight_instant(2025, 8, 26) {
                    return Err(DatasetIdError::SpansTwoDatasets);
                }
                Ok("cmems_mod_glo_phy_my_0.083deg_P1D-m".to_owned())
            } else {
                Ok("cmems_mod_glo_phy_anfc_0.083deg_PT1H-m".to_owned())
            }
        },
        CopernicusVariable::EastwardWind | CopernicusVariable::NorthwardWind => {
            if start <= midnight_instant(1994, 6, 1) {
                return Err(DatasetIdError::StartBeforeWindRecords);
            }
            // No forecast: updated daily at 15:00
            if end >= instant_of(&now) {
                return Err(DatasetIdError::EndAfterWindRecords);
            }
            if start < midnight_instant(2023, 4, 27) {
                // More than one dataset would be needed past the end of
                // WIND_GLO_PHY_L4_MY_012_006
                if end > midnight_instant(2025, 5, 21) {
                    return Err(DatasetIdError::SpansTwoDatasets);
                }
                Ok("cmems_obs-wind_glo_phy_my_l4_0.125deg_PT1H".to_owned())
            } else {
                Ok("cmems_obs-wind_glo_phy_nrt_l4_0.125deg_PT1H".to_owned())
            }
        },
    }
}

/// Gets the dataset id for a given variable and temporal extent, at the
/// current time. Whatever the clock reads, the answer is the one
/// `dataset_id_spec` gives for some representable current time.
pub fn get_dataset_id(
    variable: CopernicusVariable,
    start_datetime: UtcDateTime,
    end_datetime: UtcDateTime,
) -> (r: Result<String, DatasetIdError>)
    ensures
        exists|now: UtcDateTime|
            now.fields_valid() && result_text(r) == #[trigger] dataset_id_spec(
                variable,
                start_datetime,
                end_datetime,
                now,
            ),
        start_datetime.instant() > end_datetime.instant() ==> r == Err::<String, DatasetIdError>(
            DatasetIdError::StartAfterEnd,
        ),
{
    let now = utc_now();
    proof {
        use_type_invariant(&now);
        UtcDateTime::lemma_fields_valid(now);
    }
    let r = dataset_id_at(variable, start_datetime, end_datetime, now);
    assert(result_text(r) == dataset_id_spec(variable, start_datetime, end_datetime, now));
    r
}

/// A dataset is chosen only for a span that starts no later than it ends,
/// starts after the earliest data of the variable and ends before the latest
/// data (for ocean currents, the end of the 10-day forecast; for wind, now).
pub proof fn lemma_chosen_dataset_covers_span(
    variable: CopernicusVariable,
    start: UtcDateTime,
    end: UtcDateTime,
    now: UtcDateTime,
)
    requires
        dataset_id_spec(variable, start, end, now) is Ok,
    ensures
        start.instant() <= end.instant(),
        is_ocean_current(variable) ==> civil_instant(1993, 1, 1, 0, 0, 0) < start.instant()
            && end.instant() < now.instant() + forecast_reach(),
        !is_ocean_current(variable) ==> civil_instant(1994, 6, 1, 0, 0, 0) < start.instant()
            && end.instant() < now.instant(),
{
}

/// Which dataset answers a span, stated by the dates of the datasets (in
/// nanoseconds since the epoch) and by where the span lies:
/// - wind spans starting after 1994-06-01 and before 2023-04-27 and ending
///   by 2025-05-21 (and before now) get the multi-year wind dataset, and wind
///   spans starting on or after 2023-04-27 and ending before now get the
///   near-real-time one;
/// - ocean current spans starting after 1993-01-01 and before 2020-11-01 and
///   ending by 2025-08-26 (and before now plus ten days) get the multi-year
///   ocean dataset, and those starting on or after 2020-11-01 and ending
///   before now plus ten days get the analysis and forecast one;
/// - a span is refused as needing two datasets only when it starts before the
///   near-real-time (or forecast) dataset and ends after the end of the
///   multi-year one.
pub proof fn lemma_dataset_choice(
    variable: CopernicusVariable,
    start: UtcDateTime,
    end: UtcDateTime,
    now: UtcDateTime,
)
    ensures
        ({
            let r = dataset_id_spec(variable, start, end, now);
            let (s, e, n) = (start.instant(), end.instant(), now.instant());
            let ten_days: int = 10 * 86400 * 1_000_000_000int;
            let wind = variable is EastwardWind || variable is NorthwardWind;
            let ocean = variable is EastwardSeaWaterVelocity || variable is NorthwardSeaWaterVelocity;
            &&& (wind && civil_instant(1994, 6, 1, 0, 0, 0) < s < civil_instant(2023, 4, 27, 0, 0, 0)
                && s <= e <= civil_instant(2025, 5, 21, 0, 0, 0) && e < n ==> r == Ok::<
                Seq<char>,
                DatasetIdError,
            >("cmems_obs-wind_glo_phy_my_l4_0.125deg_PT1H"@))
            &&& (wind && civil_instant(2023, 4, 27, 0, 0, 0) <= s <= e < n ==> r == Ok::<
                Seq<char>,
                DatasetIdError,
            >("cmems_obs-wind_glo_phy_nrt_l4_0.125deg_PT1H"@))
            &&& (ocean && civil_instant(1993, 1, 1, 0, 0, 0) < s < civil_instant(2020, 11, 1, 0, 0, 0)
                && s <= e <= civil_instant(2025, 8, 26, 0, 0, 0) && e < n + ten_days ==> r == Ok::<
                Seq<char>,
                DatasetIdError,
            >("cmems_mod_glo_phy_my_0.083deg_P1D-m"@))
            &&& (ocean && civil_instant(2020, 11, 1, 0, 0, 0) <= s <= e < n + ten_days ==> r == Ok::<
                Seq<char>,
                DatasetIdError,
            >("cmems_mod_glo_phy_anfc_0.083deg_PT1H-m"@))
            &&& (r == Err::<Seq<char>, DatasetIdError>(DatasetIdError::SpansTwoDatasets) ==> s <= e
                && (wind ==> s < civil_instant(2023, 4, 27, 0, 0, 0) && e > civil_instant(
                2025,
                5,
                21,
                0,
                0,
                0,
            )) && (ocean ==> s < civil_instant(2020, 11, 1, 0, 0, 0) && e > civil_instant(
                2025,
                8,
                26,
                0,
                0,
                0,
            )))
            &&& (r == Err::<Seq<char>, DatasetIdError>(DatasetIdError::StartAfterEnd) <==> s > e)
            &&& (wind && s <= e ==> (r == Err::<Seq<char>, DatasetIdError>(
                DatasetIdError::StartBeforeWindRecords,
            ) <==> s <= civil_instant(1994, 6, 1, 0, 0, 0)))
            &&& (wind && s <= e && civil_instant(1994, 6, 1, 0, 0, 0) < s ==> (r == Err::<
                Seq<char>,
                DatasetIdError,
            >(DatasetIdError::EndAfterWindRecords) <==> e >= n))
            &&& (wind && civil_instant(1994, 6, 1, 0, 0, 0) < s <= e < n ==> (r == Err::<
                Seq<char>,
                DatasetIdError,
            >(DatasetIdError::SpansTwoDatasets) <==> s < civil_instant(2023, 4, 27, 0, 0, 0)
                && e > civil_instant(2025, 5, 21, 0, 0, 0)))
            &&& (ocean && s <= e ==> (r == Err::<Seq<char>, DatasetIdError>(
                DatasetIdError::StartBeforeOceanCurrentRecords,
            ) <==> s <= civil_instant(1993, 1, 1, 0, 0, 0)))
            &&& (ocean && s <= e && civil_instant(1993, 1, 1, 0, 0, 0) < s ==> (r == Err::<
                Seq<char>,
                DatasetIdError,
            >(DatasetIdError::EndAfterOceanCurrentForecast) <==> e >= n + ten_days))
            &&& (ocean && civil_instant(1993, 1, 1, 0, 0, 0) < s <= e < n + ten_days ==> (r
                == Err::<Seq<char>, DatasetIdError>(DatasetIdError::SpansTwoDatasets) <==> s
                < civil_instant(2020, 11, 1, 0, 0, 0) && e > civil_instant(2025, 8, 26, 0, 0, 0)))
        }),
{
}

} // verus!
