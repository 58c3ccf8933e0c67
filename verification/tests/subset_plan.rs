use copernicusmarine_rs::{check_value_attributes, AttributeKind, ValuesError};
use copernicusmarine_rs::{
    after_subset_attempt, has_netcdf_extension, netcdf_file_name, subset_file_name, AttemptOutcome,
    Copernicus, UtcDateTime,
};

fn strings(v: &[&str]) -> Vec<String> {
    v.iter().map(|s| s.to_string()).collect()
}

#[test]
fn new_keeps_the_output_path() {
    let c = Copernicus::new("/tmp/out".to_string());
    assert_eq!(c.output_path, "/tmp/out");
}

#[test]
fn file_name_uses_only_the_first_variable() {
    let start = UtcDateTime::new(2024, 1, 1, 6, 30, 15, 0).unwrap();
    let name = subset_file_name(
        &"cmems_mod_glo_phy".to_string(),
        &strings(&["uo", "vo"]),
        &"-10.5".to_string(),
        &"12.25".to_string(),
        &"100.125".to_string(),
        &"-3".to_string(),
        start,
    );
    assert_eq!(name, "cmems_uo_-10.5_12.25_100.1_-3_2024-01-01T063015");
    assert!(!name.contains(':'));
    let other = subset_file_name(
        &"cmems_mod_glo_phy".to_string(),
        &strings(&["uo", "something_else"]),
        &"-10.5".to_string(),
        &"12.25".to_string(),
        &"100.125".to_string(),
        &"-3".to_string(),
        start,
    );
    assert_eq!(name, other);
}

#[test]
fn netcdf_names() {
    assert_eq!(netcdf_file_name(&"abc".to_string()), "abc.nc");
    assert!(has_netcdf_extension("abc.nc"));
    assert!(has_netcdf_extension("..nc"));
    assert!(has_netcdf_extension("a.b.nc"));
    assert!(!has_netcdf_extension(".nc"));
    assert!(!has_netcdf_extension("nc"));
    assert!(!has_netcdf_extension("abc.nc.bak"));
    assert!(!has_netcdf_extension("abcnc"));
    assert!(!has_netcdf_extension("abc.NC"));
    let stored = netcdf_file_name(&"cmems_uo_-10.5_12.25_100.1_-3_2024-01-01T063015".to_string());
    assert!(has_netcdf_extension(&stored));
}

#[test]
fn subset_arguments_in_order() {
    let c = Copernicus::new("/data".to_string());
    let start = UtcDateTime::new(2024, 1, 1, 0, 0, 0, 0).unwrap();
    let end = UtcDateTime::new(2024, 1, 2, 12, 0, 0, 0).unwrap();
    let args = c.subset_arguments(
        &"ds".to_string(),
        &strings(&["uo", "vo"]),
        start,
        end,
        &"-3".to_string(),
        &"-10.5".to_string(),
        &"12.25".to_string(),
        Some("0.5".to_string()),
        None,
        &"file".to_string(),
    );
    assert_eq!(
        args,
        strings(&[
            "subset",
            "--dataset-id",
            "ds",
            "--variable",
            "uo",
            "--variable",
            "vo",
            "--start-datetime",
            "2024-01-01T00:00:00",
            "--end-datetime",
            "2024-01-02T12:00:00",
            "--minimum-longitude",
            "-3",
            "--maximum-longitude",
            "-3",
            "--minimum-latitude",
            "-10.5",
            "--maximum-latitude",
            "12.25",
            "--minimum-depth",
            "0.5",
            "--output-directory",
            "/data",
            "--overwrite",
            "--output-filename",
            "file",
        ])
    );
    let no_vars = c.subset_arguments(
        &"ds".to_string(),
        &Vec::new(),
        start,
        end,
        &"1".to_string(),
        &"2".to_string(),
        &"3".to_string(),
        None,
        Some("100".to_string()),
        &"f".to_string(),
    );
    assert_eq!(no_vars.len(), 3 + 12 + 2 + 5);
    assert_eq!(no_vars[15], "--maximum-depth");
    assert_eq!(no_vars[16], "100");
}

#[test]
fn attempt_decisions() {
    assert_eq!(after_subset_attempt(0, Some(0), 5, 0), AttemptOutcome::Done);
    assert_eq!(after_subset_attempt(7, Some(0), 500, 0), AttemptOutcome::Done);
    assert_eq!(after_subset_attempt(0, Some(1), 99, 999_999_999), AttemptOutcome::GiveUp { exit_code: 1 });
    assert_eq!(after_subset_attempt(0, None, 3, 0), AttemptOutcome::GiveUp { exit_code: -1 });
    assert_eq!(
        after_subset_attempt(0, Some(2), 100, 0),
        AttemptOutcome::RetryAfter { exit_code: 2, wait_seconds: 0, next_attempt: 1 }
    );
    assert_eq!(
        after_subset_attempt(5, None, 150, 0),
        AttemptOutcome::RetryAfter { exit_code: -1, wait_seconds: 5, next_attempt: 6 }
    );
}

#[test]
fn value_attribute_kinds() {
    assert_eq!(check_value_attributes(None, None, None), Ok(()));
    assert_eq!(
        check_value_attributes(Some(AttributeKind::Short), Some(AttributeKind::Double), Some(AttributeKind::Double)),
        Ok(())
    );
    assert_eq!(check_value_attributes(Some(AttributeKind::Float), None, None), Ok(()));
    assert_eq!(
        check_value_attributes(Some(AttributeKind::Other), Some(AttributeKind::Float), None),
        Err(ValuesError::FillValueNotUsable)
    );
    assert_eq!(
        check_value_attributes(Some(AttributeKind::Double), Some(AttributeKind::Float), Some(AttributeKind::Other)),
        Err(ValuesError::ScaleFactorNotDouble)
    );
    assert_eq!(
        check_value_attributes(None, Some(AttributeKind::Double), Some(AttributeKind::Short)),
        Err(ValuesError::AddOffsetNotDouble)
    );
    assert_eq!(ValuesError::ScaleFactorNotDouble.message(), "scale_factor was not a double");
}
