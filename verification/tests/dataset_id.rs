use copernicusmarine_rs::dataset::dataset_id_at;
use copernicusmarine_rs::{get_dataset_id, CopernicusVariable, DatasetIdError, UtcDateTime};

fn at(year: i32, month: u8, day: u8) -> UtcDateTime {
    UtcDateTime::new(year, month, day, 0, 0, 0, 0).unwrap()
}

#[test]
fn test_get_dataset_id() {
    let date = UtcDateTime::new(2024, 1, 1, 0, 0, 0, 0).unwrap();
    let result = match get_dataset_id(CopernicusVariable::EastwardSeaWaterVelocity, date, date) {
        Ok(id) => id,
        Err(e) => panic!("Error getting dataset id: {}", e.message()),
    };
    println!("Result: {:?}", result);
}

#[test]
fn ocean_current_recent_span_uses_the_forecast_dataset() {
    let date = at(2024, 1, 1);
    assert_eq!(
        get_dataset_id(CopernicusVariable::NorthwardSeaWaterVelocity, date, date),
        Ok("cmems_mod_glo_phy_anfc_0.083deg_PT1H-m".to_string())
    );
}

#[test]
fn start_after_end_is_refused() {
    assert_eq!(
        get_dataset_id(CopernicusVariable::EastwardWind, at(2024, 1, 2), at(2024, 1, 1)),
        Err(DatasetIdError::StartAfterEnd)
    );
    let later = UtcDateTime::new(2024, 1, 1, 0, 0, 0, 1).unwrap();
    assert_eq!(
        dataset_id_at(CopernicusVariable::EastwardWind, later, at(2024, 1, 1), at(2025, 1, 1)),
        Err(DatasetIdError::StartAfterEnd)
    );
}

#[test]
fn ocean_current_cases() {
    let now = at(2025, 9, 17);
    let v = CopernicusVariable::EastwardSeaWaterVelocity;
    assert_eq!(
        dataset_id_at(v.clone(), at(1993, 1, 1), at(1994, 1, 1), now),
        Err(DatasetIdError::StartBeforeOceanCurrentRecords)
    );
    let just_after = UtcDateTime::new(1993, 1, 1, 0, 0, 0, 1).unwrap();
    assert_eq!(
        dataset_id_at(v.clone(), just_after, at(1994, 1, 1), now),
        Ok("cmems_mod_glo_phy_my_0.083deg_P1D-m".to_string())
    );
    assert_eq!(
        dataset_id_at(v.clone(), at(2024, 1, 1), at(2025, 9, 27), now),
        Err(DatasetIdError::EndAfterOceanCurrentForecast)
    );
    assert_eq!(
        dataset_id_at(v.clone(), at(2024, 1, 1), UtcDateTime::new(2025, 9, 26, 23, 59, 59, 0).unwrap(), now),
        Ok("cmems_mod_glo_phy_anfc_0.083deg_PT1H-m".to_string())
    );
    assert_eq!(
        dataset_id_at(v.clone(), at(2019, 1, 1), at(2025, 8, 27), now),
        Err(DatasetIdError::SpansTwoDatasets)
    );
    assert_eq!(
        dataset_id_at(v.clone(), at(2019, 1, 1), at(2025, 8, 26), now),
        Ok("cmems_mod_glo_phy_my_0.083deg_P1D-m".to_string())
    );
    assert_eq!(
        dataset_id_at(v, at(2020, 11, 1), at(2025, 9, 1), now),
        Ok("cmems_mod_glo_phy_anfc_0.083deg_PT1H-m".to_string())
    );
}

#[test]
fn wind_cases() {
    let now = at(2025, 9, 17);
    let v = CopernicusVariable::NorthwardWind;
    assert_eq!(
        dataset_id_at(v.clone(), at(1994, 6, 1), at(1995, 1, 1), now),
        Err(DatasetIdError::StartBeforeWindRecords)
    );
    assert_eq!(
        dataset_id_at(v.clone(), at(2024, 1, 1), at(2025, 9, 17), now),
        Err(DatasetIdError::EndAfterWindRecords)
    );
    assert_eq!(
        dataset_id_at(v.clone(), at(2020, 1, 1), at(2025, 5, 22), now),
        Err(DatasetIdError::SpansTwoDatasets)
    );
    assert_eq!(
        dataset_id_at(v.clone(), at(2020, 1, 1), at(2021, 1, 1), now),
        Ok("cmems_obs-wind_glo_phy_my_l4_0.125deg_PT1H".to_string())
    );
    assert_eq!(
        dataset_id_at(v, at(2023, 4, 27), at(2025, 9, 1), now),
        Ok("cmems_obs-wind_glo_phy_nrt_l4_0.125deg_PT1H".to_string())
    );
}

#[test]
fn wind_in_the_future_is_refused_at_the_current_time() {
    assert_eq!(
        get_dataset_id(CopernicusVariable::EastwardWind, at(2024, 1, 1), at(9999, 1, 1)),
        Err(DatasetIdError::EndAfterWindRecords)
    );
}

#[test]
fn forecast_reach_near_the_last_representable_day() {
    let now = UtcDateTime::new(9999, 12, 30, 0, 0, 0, 0).unwrap();
    let end = UtcDateTime::new(9999, 12, 31, 23, 59, 59, 999_999_999).unwrap();
    assert_eq!(
        dataset_id_at(CopernicusVariable::EastwardSeaWaterVelocity, at(2024, 1, 1), end, now),
        Ok("cmems_mod_glo_phy_anfc_0.083deg_PT1H-m".to_string())
    );
}

#[test]
fn error_messages() {
    assert_eq!(
        DatasetIdError::StartAfterEnd.message(),
        "start_datetime must be before end_datetime or the same as end_datetime"
    );
    assert_eq!(
        DatasetIdError::SpansTwoDatasets.message(),
        "The temporal extent from start_datetime to end_datetime is too large and would require using more than one dataset. Please use a smaller temporal extent."
    );
    assert!(DatasetIdError::EndAfterWindRecords.message().contains("15:00 UTC"));
}
