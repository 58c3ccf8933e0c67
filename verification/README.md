# copernicusmarine_rs

Access to the Copernicus Marine toolbox, with its logic verified by Verus.

- `src/datetime.rs`: the library's UTC date and time, the proleptic Gregorian
  calendar as spec functions, the calls into the `time` crate, and the laws of
  the calendar (range, identity and order of instants).
- `src/text.rs`: decimal rendering, the "YYYY-MM-DDTHH:MM:SS" date text,
  cutting strings to their first characters and removing a character.
- `src/dataset.rs`: which dataset covers a variable over a time span.
- `src/copernicus.rs`: the `subset` command line, the stored file's name,
  the retry decision after each run of the command, and netCDF file names.
- `src/values.rs`: which netCDF attribute types can scale and offset values.
- `app/lib.rs`: running the command, reading netCDF files, deleting files and
  the floating-point work, around the library.
