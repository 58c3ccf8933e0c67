use vstd::prelude::*;

use crate::datetime::UtcDateTime;
use crate::text::{
    datetime_text, first_chars, lemma_without_char_excludes, remove_char, string_first_n_chars,
    utc_date_time_to_string, without_char,
};

verus! {

/// Holds what every request to the Copernicus Marine service shares: the
/// directory where the downloaded files are stored and read back from.
#[derive(Debug, Clone)]
pub struct Copernicus {
    /// The output path where the files are stored and retrieved
    pub output_path: String,
}

/// The views of a sequence of strings.
pub open spec fn texts(v: Seq<String>) -> Seq<Seq<char>> {
    v.map_values(|s: String| s@)
}

/// "--variable" followed by the variable, for each variable in turn.
pub open spec fn variable_flags(variables: Seq<Seq<char>>) -> Seq<Seq<char>>
    decreases variables.len(),
{
    if variables.len() == 0 {
        seq![]
    } else {
        variable_flags(variables.drop_last()) + seq!["--variable"@, variables.last()]
    }
}

/// The flag followed by the value, when there is a value.
pub open spec fn optional_flag(flag: Seq<char>, value: Option<Seq<char>>) -> Seq<Seq<char>> {
    match value {
        Some(v) => seq![flag, v],
        None => seq![],
    }
}

/// The file name, without extension, under which a subset is stored: the
/// first 5 characters of the dataset id, the first variable, the first 5
/// characters of each coordinate bound's text (minimum and maximum latitude,
/// minimum and maximum longitude), and the start date and time without its
/// colons, joined by '_'.
pub open spec fn subset_file_name_spec(
    dataset_id: Seq<char>,
    first_variable: Seq<char>,
    minimum_latitude: Seq<char>,
    maximum_latitude: Seq<char>,
    minimum_longitude: Seq<char>,
    maximum_longitude: Seq<char>,
    start: UtcDateTime,
) -> Seq<char> {
    first_chars(dataset_id, 5) + seq!['_'] + first_variable + seq!['_'] + first_chars(
        minimum_latitude,
        5,
    ) + seq!['_'] + first_chars(maximum_latitude, 5) + seq!['_'] + first_chars(
        minimum_longitude,
        5,
    ) + seq!['_'] + first_chars(maximum_longitude, 5) + seq!['_'] + without_char(
        datetime_text(start),
        ':',
    )
}

/// The command-line arguments of `copernicusmarine` for a subset request.
/// The value given after "--maximum-longitude" is the minimum longitude's
/// text; the maximum longitude appears only in the file name.
pub open spec fn subset_arguments_spec(
    output_path: Seq<char>,
    dataset_id: Seq<char>,
    variables: Seq<Seq<char>>,
    start: UtcDateTime,
    end: UtcDateTime,
    minimum_longitude: Seq<char>,
    minimum_latitude: Seq<char>,
    maximum_latitude: Seq<char>,
    minimum_depth: Option<Seq<char>>,
    maximum_depth: Option<Seq<char>>,
    file_name: Seq<char>,
) -> Seq<Seq<char>> {
    seq!["subset"@, "--dataset-id"@, dataset_id] + variable_flags(variables) + seq![
        "--start-datetime"@,
        datetime_text(start),
        "--end-datetime"@,
        datetime_text(end),
        "--minimum-longitude"@,
        minimum_longitude,
        "--maximum-longitude"@,
        minimum_longitude,
        "--minimum-latitude"@,
        minimum_latitude,
        "--maximum-latitude"@,
        maximum_latitude,
    ] + optional_flag("--minimum-depth"@, minimum_depth) + optional_flag(
        "--maximum-depth"@,
        maximum_depth,
    ) + seq![
        "--output-directory"@,
        output_path,
        "--overwrite"@,
        "--output-filename"@,
        file_name,
    ]
}

/// The view of an optional text.
pub open spec fn optional_text(value: Option<String>) -> Option<Seq<char>> {
    match value {
        Some(v) => Some(v@),
        None => None,
    }
}

/// Appends one argument.
fn push_argument(args: &mut Vec<String>, argument: String)
    ensures
        texts(final(args)@) == texts(old(args)@).push(argument@),
{
    args.push(argument);
    assert(texts(final(args)@) =~= texts(old(args)@).push(argument@));
}

/// Appends the flag and its value, when there is a value.
fn push_optional_flag(args: &mut Vec<String>, flag: &str, value: Option<String>)
    ensures
        texts(final(args)@) == texts(old(args)@) + optional_flag(flag@, optional_text(value)),
{
    match value {
        Some(v) => {
            push_argument(args, flag.to_owned());
            push_argument(args, v);
            assert(texts(final(args)@) =~= texts(old(args)@) + optional_flag(
                flag@,
                optional_text(Some(v)),
            ));
        },
        None => {
            assert(texts(final(args)@) =~= texts(old(args)@) + optional_flag(flag@, None));
        },
    }
}

impl Copernicus {
    /// Creates the settings for the given output directory.
    pub fn new(output_path: String) -> (c: Copernicus)
        ensures
            c.output_path@ == output_path@,
    {
        Copernicus { output_path: output_path }
    }

    /// The arguments of the `copernicusmarine subset` command that stores
    /// the subset under `file_name` in the output path, overwriting any file
    /// of that name. The coordinate bounds and depths are given as text.
    pub fn subset_arguments(
        &self,
        dataset_id: &String,
        variables: &Vec<String>,
        start_datetime: UtcDateTime,
        end_datetime: UtcDateTime,
        minimum_longitude: &String,
        minimum_latitude: &String,
        maximum_latitude: &String,
        minimum_depth: Option<String>,
        maximum_depth: Option<String>,
        file_name: &String,
    ) -> (args: Vec<String>)
        ensures
            texts(args@) == subset_arguments_spec(
                self.output_path@,
                dataset_id@,
                texts(variables@),
                start_datetime,
                end_datetime,
                minimum_longitude@,
                minimum_latitude@,
                maximum_latitude@,
                optional_text(minimum_depth),
                optional_text(maximum_depth),
                file_name@,
            ),
    {
        let mut args: Vec<String> = Vec::new();
        push_argument(&mut args, "subset".to_owned());
        push_argument(&mut args, "--dataset-id".to_owned());
        push_argument(&mut args, dataset_id.clone());
        let ghost head = texts(args@);
        assert(head =~= seq!["subset"@, "--dataset-id"@, dataset_id@]);

        // For each variable, add "--variable" and the variable
        let mut i: usize = 0;
        while i < variables.len()
            invariant
                i <= variables.len(),
                texts(args@) == head + variable_flags(texts(variables@).take(i as int)),
            decreases variables.len() - i,
        {
            push_argument(&mut args, "--variable".to_owned());
            push_argument(&mut args, variables[i].clone());
            proof {
                let vs = texts(variables@);
                assert(vs.take(i + 1).drop_last() =~= vs.take(i as int));
                assert(vs.take(i + 1).last() == variables@[i as int]@);
                assert(texts(args@) =~= head + variable_flags(vs.take(i + 1)));
            }
            i = i + 1;
        }
        assert(texts(variables@).take(variables.len() as int) =~= texts(variables@));
        let ghost with_variables = texts(args@);

        push_argument(&mut args, "--start-datetime".to_owned());
        push_argument(&mut args, utc_date_time_to_string(start_datetime));
        push_argument(&mut args, "--end-datetime".to_owned());
        push_argument(&mut args, utc_date_time_to_string(end_datetime));
        push_argument(&mut args, "--minimum-longitude".to_owned());
        push_argument(&mut args, minimum_longitude.clone());
        push_argument(&mut args, "--maximum-longitude".to_owned());
        push_argument(&mut args, minimum_longitude.clone());
        push_argument(&mut args, "--minimum-latitude".to_owned());
        push_argument(&mut args, minimum_latitude.clone());
        push_argument(&mut args, "--maximum-latitude".to_owned());
        push_argument(&mut args, maximum_latitude.clone());
        let ghost with_bounds = texts(args@);
        push_optional_flag(&mut args, "--minimum-depth", minimum_depth);
        push_optional_flag(&mut args, "--maximum-depth", maximum_depth);
        let ghost with_depths = texts(args@);
        push_argument(&mut args, "--output-directory".to_owned());
        push_argument(&mut args, self.output_path.clone());
        // Overwrite the file if it already exists, to conserve space
        push_argument(&mut args, "--overwrite".to_owned());
        push_argument(&mut args, "--output-filename".to_owned());
        push_argument(&mut args, file_name.clone());
        assert(texts(args@) =~= subset_arguments_spec(
            self.output_path@,
            dataset_id@,
            texts(variables@),
            start_datetime,
            end_datetime,
            minimum_longitude@,
            minimum_latitude@,
            maximum_latitude@,
            optional_text(minimum_depth),
            optional_text(maximum_depth),
            file_name@,
        ));
        args
    }
}

/// The file name, without extension, under which a subset is stored. Even
/// though a request may name many variables, only the first variable is used
/// in the file name. The coordinate bounds are given as text.
pub fn subset_file_name(
    dataset_id: &String,
    variables: &Vec<String>,
    minimum_latitude: &String,
    maximum_latitude: &String,
    minimum_longitude: &String,
    maximum_longitude: &String,
    start_datetime: UtcDateTime,
) -> (name: String)
    requires
        variables.len() > 0,
    ensures
        name@ == subset_file_name_spec(
            dataset_id@,
            variables@[0]@,
            minimum_latitude@,
            maximum_latitude@,
            minimum_longitude@,
            maximum_longitude@,
            start_datetime,
        ),
{
    let mut name = String::new();
    name.append(string_first_n_chars(dataset_id.clone(), 5).as_str());
    name.append("_");
    name.append(variables[0].as_str());
    name.append("_");
    name.append(string_first_n_chars(minimum_latitude.clone(), 5).as_str());
    name.append("_");
    name.append(string_first_n_chars(maximum_latitude.clone(), 5).as_str());
    name.append("_");
    name.append(string_first_n_chars(minimum_longitude.clone(), 5).as_str());
    name.append("_");
    name.append(string_first_n_chars(maximum_longitude.clone(), 5).as_str());
    name.append("_");
    // Remove the colons from the date so that it makes a valid file name
    let date = utc_date_time_to_string(start_datetime);
    name.append(remove_char(date.as_str(), ':').as_str());
    proof {
        reveal_strlit("_");
    }
    assert(name@ =~= subset_file_name_spec(
        dataset_id@,
        variables@[0]@,
        minimum_latitude@,
        maximum_latitude@,
        minimum_longitude@,
        maximum_longitude@,
        start_datetime,
    ));
    name
}

/// The name of the netCDF file that holds a subset stored under `file_name`.
pub open spec fn netcdf_file_name_spec(file_name: Seq<char>) -> Seq<char> {
    file_name + seq!['.', 'n', 'c']
}

/// The name of the netCDF file that holds a subset stored under `file_name`:
/// the name with ".nc" appended.
pub fn netcdf_file_name(file_name: &String) -> (name: String)
    ensures
        name@ == netcdf_file_name_spec(file_name@),
{
    let mut name = file_name.clone();
    name.append(".nc");
    proof {
        reveal_strlit(".nc");
    }
    assert(name@ =~= netcdf_file_name_spec(file_name@));
    name
}

/// A file name whose extension is "nc": there is a '.' that is not the first
/// character, and "nc" follows the last '.'.
pub open spec fn has_netcdf_extension_spec(file_name: Seq<char>) -> bool {
    file_name.len() > 3 && file_name.subrange(file_name.len() - 3, file_name.len() as int) == seq![
        '.',
        'n',
        'c',
    ]
}

/// Whether a file name has the extension "nc", the extension being what
/// follows the last '.' of a name that does not start with that '.'.
pub fn has_netcdf_extension(file_name: &str) -> (r: bool)
    ensures
        r == has_netcdf_extension_spec(file_name@),
{
    let n = file_name.unicode_len();
    if n <= 3 {
        return false;
    }
    let dot = file_name.get_char(n - 3);
    let en = file_name.get_char(n - 2);
    let ce = file_name.get_char(n - 1);
    let r = dot == '.' && en == 'n' && ce == 'c';
    assert(r == has_netcdf_extension_spec(file_name@)) by {
        let tail = file_name@.subrange(n - 3, n as int);
        if r {
            assert(tail =~= seq!['.', 'n', 'c']);
        } else {
            assert(tail[0] == dot && tail[1] == en && tail[2] == ce);
        }
    }
    r
}

/// The netCDF file that a subset request stores is one that
/// `has_netcdf_extension` recognises, so clearing the output path of netCDF
/// files removes every stored subset.
pub proof fn lemma_subset_file_is_netcdf(
    dataset_id: Seq<char>,
    first_variable: Seq<char>,
    minimum_latitude: Seq<char>,
    maximum_latitude: Seq<char>,
    minimum_longitude: Seq<char>,
    maximum_longitude: Seq<char>,
    start: UtcDateTime,
)
    ensures
        has_netcdf_extension_spec(
            netcdf_file_name_spec(
                subset_file_name_spec(
                    dataset_id,
                    first_variable,
                    minimum_latitude,
                    maximum_latitude,
                    minimum_longitude,
                    maximum_longitude,
                    start,
                ),
            ),
        ),
{
    let f = subset_file_name_spec(
        dataset_id,
        first_variable,
        minimum_latitude,
        maximum_latitude,
        minimum_longitude,
        maximum_longitude,
        start,
    );
    let g = netcdf_file_name_spec(f);
    assert(f.len() >= 6);
    assert(g.subrange(g.len() - 3, g.len() as int) =~= seq!['.', 'n', 'c']);
}

/// The file name of a subset holds no ':' (the colons of the date are
/// removed) when the dataset id, the first variable and the coordinate texts
/// hold none.
pub proof fn lemma_subset_file_name_has_no_colon(
    dataset_id: Seq<char>,
    first_variable: Seq<char>,
    minimum_latitude: Seq<char>,
    maximum_latitude: Seq<char>,
    minimum_longitude: Seq<char>,
    maximum_longitude: Seq<char>,
    start: UtcDateTime,
)
    requires
        !dataset_id.contains(':'),
        !first_variable.contains(':'),
        !minimum_latitude.contains(':'),
        !maximum_latitude.contains(':'),
        !minimum_longitude.contains(':'),
        !maximum_longitude.contains(':'),
    ensures
        !subset_file_name_spec(
            dataset_id,
            first_variable,
            minimum_latitude,
            maximum_latitude,
            minimum_longitude,
            maximum_longitude,
            start,
        ).contains(':'),
{
    let f = subset_file_name_spec(
        dataset_id,
        first_variable,
        minimum_latitude,
        maximum_latitude,
        minimum_longitude,
        maximum_longitude,
        start,
    );
    let date = without_char(datetime_text(start), ':');
    lemma_without_char_excludes(datetime_text(start), ':');
    if f.contains(':') {
        let i = choose|i: int| 0 <= i < f.len() && f[i] == ':';
        let parts = seq![
            first_chars(dataset_id, 5),
            seq!['_'],
            first_variable,
            seq!['_'],
            first_chars(minimum_latitude, 5),
            seq!['_'],
            first_chars(maximum_latitude, 5),
            seq!['_'],
            first_chars(minimum_longitude, 5),
            seq!['_'],
            first_chars(maximum_longitude, 5),
            seq!['_'],
            date,
        ];
        assert(forall|k: int| 0 <= k < parts.len() ==> !(#[trigger] parts[k]).contains(':'));
        assert(false) by {
            lemma_concat_excludes(parts, ':');
            assert(parts.flatten() =~= f);
        }
    }
}

/// A concatenation of pieces none of which holds `c` holds no `c`.
proof fn lemma_concat_excludes(parts: Seq<Seq<char>>, c: char)
    requires
        forall|k: int| 0 <= k < parts.len() ==> !(#[trigger] parts[k]).contains(c),
    ensures
        !parts.flatten().contains(c),
    decreases parts.len(),
{
    if parts.len() > 0 {
        lemma_concat_excludes(parts.drop_first(), c);
        assert(!parts[0].contains(c));
        let all = parts.flatten();
        assert(all =~= parts[0] + parts.drop_first().flatten());
        if all.contains(c) {
            let i = choose|i: int| 0 <= i < all.len() && all[i] == c;
            if i < parts[0].len() {
                assert(parts[0][i] == c);
            } else {
                assert(parts.drop_first().flatten()[i - parts[0].len()] == c);
            }
        }
    }
}

/// "--variable" and the variable for each variable: two arguments each.
proof fn lemma_variable_flags_len(variables: Seq<Seq<char>>)
    ensures
        variable_flags(variables).len() == 2 * variables.len(),
    decreases variables.len(),
{
    if variables.len() > 0 {
        lemma_variable_flags_len(variables.drop_last());
    }
}

/// Each depth bound that is given appears among the arguments as its flag
/// immediately followed by its value, whether or not the other bound is
/// given: the minimum depth right after the four coordinate bounds, and the
/// maximum depth after that (after the minimum depth, when there is one).
pub proof fn lemma_depth_bounds_are_passed(
    output_path: Seq<char>,
    dataset_id: Seq<char>,
    variables: Seq<Seq<char>>,
    start: UtcDateTime,
    end: UtcDateTime,
    minimum_longitude: Seq<char>,
    minimum_latitude: Seq<char>,
    maximum_latitude: Seq<char>,
    minimum_depth: Option<Seq<char>>,
    maximum_depth: Option<Seq<char>>,
    file_name: Seq<char>,
)
    ensures
        ({
            let a = subset_arguments_spec(
                output_path,
                dataset_id,
                variables,
                start,
                end,
                minimum_longitude,
                minimum_latitude,
                maximum_latitude,
                minimum_depth,
                maximum_depth,
                file_name,
            );
            let bounds_end: int = 3 + 2 * variables.len() as int + 12;
            &&& (minimum_depth matches Some(d) ==> a[bounds_end] == "--minimum-depth"@
                && a[bounds_end + 1] == d)
            &&& (maximum_depth matches Some(d) ==> ({
                let i = if minimum_depth is Some {
                    bounds_end + 2
                } else {
                    bounds_end
                };
                a[i] == "--maximum-depth"@ && a[i + 1] == d
            }))
            &&& (minimum_depth matches Some(d) ==> exists|i: int|
                0 <= i && i + 1 < a.len() && #[trigger] a[i] == "--minimum-depth"@ && a[i + 1] == d)
            &&& (maximum_depth matches Some(d) ==> exists|i: int|
                0 <= i && i + 1 < a.len() && #[trigger] a[i] == "--maximum-depth"@ && a[i + 1] == d)
            &&& a.len() == bounds_end + (if minimum_depth is Some {
                2int
            } else {
                0int
            }) + (if maximum_depth is Some {
                2int
            } else {
                0int
            }) + 5
        }),
{
    lemma_variable_flags_len(variables);
    let a = subset_arguments_spec(
        output_path,
        dataset_id,
        variables,
        start,
        end,
        minimum_longitude,
        minimum_latitude,
        maximum_latitude,
        minimum_depth,
        maximum_depth,
        file_name,
    );
    let bounds_end: int = 3 + 2 * variables.len() as int + 12;
    if let Some(d) = minimum_depth {
        assert(a[bounds_end] == "--minimum-depth"@ && a[bounds_end + 1] == d);
    }
    if let Some(d) = maximum_depth {
        let i = if minimum_depth is Some {
            bounds_end + 2
        } else {
            bounds_end
        };
        assert(a[i] == "--maximum-depth"@ && a[i + 1] == d);
    }
}

/// The variable flags list each variable after a "--variable", in order.
proof fn lemma_variable_flags_at(variables: Seq<Seq<char>>, k: int)
    requires
        0 <= k < variables.len(),
    ensures
        variable_flags(variables).len() == 2 * variables.len(),
        variable_flags(variables)[2 * k] == "--variable"@,
        variable_flags(variables)[2 * k + 1] == variables[k],
    decreases variables.len(),
{
    lemma_variable_flags_len(variables);
    lemma_variable_flags_len(variables.drop_last());
    if k < variables.len() - 1 {
        lemma_variable_flags_at(variables.drop_last(), k);
    }
}

/// The arguments of a subset request, place by place: "subset", the
/// dataset id after "--dataset-id", the start and end texts, the longitude
/// and latitude bounds after their flags (the minimum longitude after both
/// longitude flags), and at the end the output directory, "--overwrite" and
/// the file name after "--output-filename".
pub proof fn lemma_subset_arguments_layout(
    output_path: Seq<char>,
    dataset_id: Seq<char>,
    variables: Seq<Seq<char>>,
    start: UtcDateTime,
    end: UtcDateTime,
    minimum_longitude: Seq<char>,
    minimum_latitude: Seq<char>,
    maximum_latitude: Seq<char>,
    minimum_depth: Option<Seq<char>>,
    maximum_depth: Option<Seq<char>>,
    file_name: Seq<char>,
)
    ensures
        ({
            let a = subset_arguments_spec(
                output_path,
                dataset_id,
                variables,
                start,
                end,
                minimum_longitude,
                minimum_latitude,
                maximum_latitude,
                minimum_depth,
                maximum_depth,
                file_name,
            );
            let b: int = 3 + 2 * variables.len() as int;
            let t: int = a.len() as int;
            &&& a[0] == "subset"@ && a[1] == "--dataset-id"@ && a[2] == dataset_id
            &&& a[b] == "--start-datetime"@ && a[b + 1] == datetime_text(start)
            &&& a[b + 2] == "--end-datetime"@ && a[b + 3] == datetime_text(end)
            &&& a[b + 4] == "--minimum-longitude"@ && a[b + 5] == minimum_longitude
            &&& a[b + 6] == "--maximum-longitude"@ && a[b + 7] == minimum_longitude
            &&& a[b + 8] == "--minimum-latitude"@ && a[b + 9] == minimum_latitude
            &&& a[b + 10] == "--maximum-latitude"@ && a[b + 11] == maximum_latitude
            &&& t >= b + 17
            &&& a[t - 5] == "--output-directory"@ && a[t - 4] == output_path
            &&& a[t - 3] == "--overwrite"@
            &&& a[t - 2] == "--output-filename"@ && a[t - 1] == file_name
        }),
{
    lemma_variable_flags_len(variables);
    let a = subset_arguments_spec(
        output_path,
        dataset_id,
        variables,
        start,
        end,
        minimum_longitude,
        minimum_latitude,
        maximum_latitude,
        minimum_depth,
        maximum_depth,
        file_name,
    );
    let p1 = seq!["subset"@, "--dataset-id"@, dataset_id];
    let vf = variable_flags(variables);
    let p2 = seq![
        "--start-datetime"@,
        datetime_text(start),
        "--end-datetime"@,
        datetime_text(end),
        "--minimum-longitude"@,
        minimum_longitude,
        "--maximum-longitude"@,
        minimum_longitude,
        "--minimum-latitude"@,
        minimum_latitude,
        "--maximum-latitude"@,
        maximum_latitude,
    ];
    let o1 = optional_flag("--minimum-depth"@, minimum_depth);
    let o2 = optional_flag("--maximum-depth"@, maximum_depth);
    let p3 = seq![
        "--output-directory"@,
        output_path,
        "--overwrite"@,
        "--output-filename"@,
        file_name,
    ];
    let front = p1 + vf + p2;
    let back = o1 + o2 + p3;
    assert(a =~= front + back);
    let b: int = 3 + 2 * variables.len() as int;
    assert(front.len() == b + 12);
    assert forall|i: int| 0 <= i < b + 12 implies a[i] == front[i] by {}
    assert forall|i: int| 0 <= i < 12 implies front[b + i] == p2[i] by {}
    let t: int = a.len() as int;
    assert forall|i: int| 0 <= i < 5 implies a[t - 5 + i] == p3[i] by {
        assert(a[t - 5 + i] == back[back.len() - 5 + i]);
    }
    assert(a[0] == front[0] && a[1] == front[1] && a[2] == front[2]);
    assert(a[b] == front[b] && front[b] == p2[0]);
    assert(a[b + 1] == front[b + 1] && front[b + 1] == p2[1]);
    assert(a[b + 2] == front[b + 2] && front[b + 2] == p2[2]);
    assert(a[b + 3] == front[b + 3] && front[b + 3] == p2[3]);
    assert(a[b + 4] == front[b + 4] && front[b + 4] == p2[4]);
    assert(a[b + 5] == front[b + 5] && front[b + 5] == p2[5]);
    assert(a[b + 6] == front[b + 6] && front[b + 6] == p2[6]);
    assert(a[b + 7] == front[b + 7] && front[b + 7] == p2[7]);
    assert(a[b + 8] == front[b + 8] && front[b + 8] == p2[8]);
    assert(a[b + 9] == front[b + 9] && front[b + 9] == p2[9]);
    assert(a[b + 10] == front[b + 10] && front[b + 10] == p2[10]);
    assert(a[b + 11] == front[b + 11] && front[b + 11] == p2[11]);
    assert(a[t - 5] == p3[0] && a[t - 4] == p3[1] && a[t - 3] == p3[2]);
    assert(a[t - 5 + 3] == p3[3] && a[t - 5 + 4] == p3[4]);
}

/// The `k`-th variable of a subset request is passed as the arguments
/// "--variable" and the variable, at places 3 + 2k and 4 + 2k: every
/// variable is passed, in the order given.
pub proof fn lemma_subset_arguments_variable(
    output_path: Seq<char>,
    dataset_id: Seq<char>,
    variables: Seq<Seq<char>>,
    start: UtcDateTime,
    end: UtcDateTime,
    minimum_longitude: Seq<char>,
    minimum_latitude: Seq<char>,
    maximum_latitude: Seq<char>,
    minimum_depth: Option<Seq<char>>,
    maximum_depth: Option<Seq<char>>,
    file_name: Seq<char>,
    k: int,
)
    requires
        0 <= k < variables.len(),
    ensures
        ({
            let a = subset_arguments_spec(
                output_path,
                dataset_id,
                variables,
                start,
                end,
                minimum_longitude,
                minimum_latitude,
                maximum_latitude,
                minimum_depth,
                maximum_depth,
                file_name,
            );
            a[3 + 2 * k] == "--variable"@ && a[4 + 2 * k] == variables[k]
        }),
{
    lemma_variable_flags_at(variables, k);
    let a = subset_arguments_spec(
        output_path,
        dataset_id,
        variables,
        start,
        end,
        minimum_longitude,
        minimum_latitude,
        maximum_latitude,
        minimum_depth,
        maximum_depth,
        file_name,
    );
    let p1 = seq!["subset"@, "--dataset-id"@, dataset_id];
    let vf = variable_flags(variables);
    assert(a[3 + 2 * k] == (p1 + vf)[3 + 2 * k]);
    assert(a[4 + 2 * k] == (p1 + vf)[4 + 2 * k]);
}

/// The file name of a subset starts with the first five characters of the
/// dataset id (all of them when it is shorter), then '_', the first variable
/// and '_', and ends with '_' and the start date and time without colons.
pub proof fn lemma_subset_file_name_parts(
    dataset_id: Seq<char>,
    first_variable: Seq<char>,
    minimum_latitude: Seq<char>,
    maximum_latitude: Seq<char>,
    minimum_longitude: Seq<char>,
    maximum_longitude: Seq<char>,
    start: UtcDateTime,
)
    ensures
        ({
            let f = subset_file_name_spec(
                dataset_id,
                first_variable,
                minimum_latitude,
                maximum_latitude,
                minimum_longitude,
                maximum_longitude,
                start,
            );
            let k: int = if dataset_id.len() < 5 {
                dataset_id.len() as int
            } else {
                5
            };
            let v: int = first_variable.len() as int;
            let date = without_char(datetime_text(start), ':');
            &&& f.take(k) == dataset_id.take(k)
            &&& f[k] == '_'
            &&& f.subrange(k + 1, k + 1 + v) == first_variable
            &&& f[k + 1 + v] == '_'
            &&& f.len() >= date.len() + 1
            &&& f.subrange(f.len() - date.len(), f.len() as int) == date
            &&& f[f.len() - date.len() - 1] == '_'
        }),
{
    let f = subset_file_name_spec(
        dataset_id,
        first_variable,
        minimum_latitude,
        maximum_latitude,
        minimum_longitude,
        maximum_longitude,
        start,
    );
    let k: int = if dataset_id.len() < 5 {
        dataset_id.len() as int
    } else {
        5
    };
    let v: int = first_variable.len() as int;
    let date = without_char(datetime_text(start), ':');
    let head = first_chars(dataset_id, 5);
    assert(head =~= dataset_id.take(k));
    assert(f.take(k) =~= dataset_id.take(k));
    assert(f.subrange(k + 1, k + 1 + v) =~= first_variable);
    assert(f.subrange(f.len() - date.len(), f.len() as int) =~= date);
}

/// A name is recognised as a netCDF file name exactly when it has more than
/// three characters and ends with ".nc"; every non-empty name with ".nc"
/// appended is recognised.
pub proof fn lemma_netcdf_extension(file_name: Seq<char>, stem: Seq<char>)
    ensures
        has_netcdf_extension_spec(file_name) <==> file_name.len() >= 4 && file_name[file_name.len()
            - 3] == '.' && file_name[file_name.len() - 2] == 'n' && file_name[file_name.len() - 1]
            == 'c',
        stem.len() > 0 ==> has_netcdf_extension_spec(netcdf_file_name_spec(stem)),
{
    if file_name.len() >= 4 {
        let tail = file_name.subrange(file_name.len() - 3, file_name.len() as int);
        if file_name[file_name.len() - 3] == '.' && file_name[file_name.len() - 2] == 'n'
            && file_name[file_name.len() - 1] == 'c' {
            assert(tail =~= seq!['.', 'n', 'c']);
        }
        if tail == seq!['.', 'n', 'c'] {
            assert(tail[0] == '.' && tail[1] == 'n' && tail[2] == 'c');
        }
    }
    let g = netcdf_file_name_spec(stem);
    assert(g.subrange(g.len() - 3, g.len() as int) =~= seq!['.', 'n', 'c']);
}

/// What to do after one run of the `copernicusmarine subset` command.
#[derive(Debug, Clone, Copy, PartialEq, Eq)]
pub enum AttemptOutcome {
    /// The command succeeded: the file can be read.
    Done,
    /// The command failed in under 100 seconds, so the failure is taken not
    /// to be a timeout and trying again would not help.
    GiveUp { exit_code: i32 },
    /// The command failed with `exit_code` slowly, as on a timeout: wait
    /// `wait_seconds`, then make attempt number `next_attempt`.
    RetryAfter { exit_code: i32, wait_seconds: u64, next_attempt: u64 },
}

/// The exit code of a finished command; -1 (a failure) where there is none.
pub open spec fn exit_code_of(code: Option<i32>) -> i32 {
    match code {
        Some(c) => c,
        None => -1i32,
    }
}

/// A duration of `seconds` whole seconds and `nanoseconds` more is shorter
/// than 100 seconds.
pub open spec fn shorter_than_100_seconds(seconds: i64, nanoseconds: i32) -> bool {
    seconds < 100 || (seconds == 100 && nanoseconds < 0)
}

/// The decision after attempt number `attempt`.
pub open spec fn after_subset_attempt_spec(
    attempt: u64,
    exit_code: Option<i32>,
    elapsed_seconds: i64,
    elapsed_nanoseconds: i32,
) -> AttemptOutcome {
    if exit_code_of(exit_code) == 0 {
        AttemptOutcome::Done
    } else if shorter_than_100_seconds(elapsed_seconds, elapsed_nanoseconds) {
        AttemptOutcome::GiveUp { exit_code: exit_code_of(exit_code) }
    } else {
        AttemptOutcome::RetryAfter {
            exit_code: exit_code_of(exit_code),
            wait_seconds: attempt,
            next_attempt: (attempt + 1) as u64,
        }
    }
}

/// Attempts are unlimited: a run that exits with code 0 is done; any other
/// run that took at least 100 seconds is retried, after waiting as many
/// seconds as its attempt number, as the next attempt, whatever that number
/// is; giving up happens only after a run shorter than 100 seconds.
pub proof fn lemma_attempts_are_unlimited(
    attempt: u64,
    exit_code: Option<i32>,
    elapsed_seconds: i64,
    elapsed_nanoseconds: i32,
)
    requires
        attempt < u64::MAX,
    ensures
        ({
            let outcome = after_subset_attempt_spec(
                attempt,
                exit_code,
                elapsed_seconds,
                elapsed_nanoseconds,
            );
            let at_least_100_seconds = elapsed_seconds > 100 || (elapsed_seconds == 100
                && elapsed_nanoseconds >= 0);
            &&& (outcome is Done <==> exit_code == Some(0i32))
            &&& (outcome is GiveUp ==> !at_least_100_seconds)
            &&& (exit_code != Some(0i32) && at_least_100_seconds ==> outcome == (
            AttemptOutcome::RetryAfter {
                exit_code: match exit_code {
                    Some(c) => c,
                    None => -1i32,
                },
                wait_seconds: attempt,
                next_attempt: (attempt + 1) as u64,
            }))
        }),
{
}

/// Decides what follows attempt number `attempt` (counted from 0) of the
/// subset command, from its exit code (none where the process had none) and
/// how long it ran. Attempts are unlimited; before attempt `k + 1` the wait
/// is `k` seconds, as the service's developers ask for a pause between
/// attempts.
pub fn after_subset_attempt(
    attempt: u64,
    exit_code: Option<i32>,
    elapsed_seconds: i64,
    elapsed_nanoseconds: i32,
) -> (outcome: AttemptOutcome)
    requires
        attempt < u64::MAX,
    ensures
        outcome == after_subset_attempt_spec(
            attempt,
            exit_code,
            elapsed_seconds,
            elapsed_nanoseconds,
        ),
        outcome is Done <==> exit_code == Some(0i32),
        outcome is GiveUp ==> elapsed_seconds < 100 || (elapsed_seconds == 100
            && elapsed_nanoseconds < 0),
        exit_code != Some(0i32) && (elapsed_seconds > 100 || (elapsed_seconds == 100
            && elapsed_nanoseconds >= 0)) ==> outcome == (AttemptOutcome::RetryAfter {
            exit_code: match exit_code {
                Some(c) => c,
                None => -1i32,
            },
            wait_seconds: attempt,
            next_attempt: (attempt + 1) as u64,
        }),
{
    proof {
        lemma_attempts_are_unlimited(attempt, exit_code, elapsed_seconds, elapsed_nanoseconds);
    }
    // Without an exit code, assume failure
    let code = match exit_code {
        Some(code) => code,
        None => -1,
    };
    if code == 0 {
        return AttemptOutcome::Done;
    }
    if elapsed_seconds < 100 || (elapsed_seconds == 100 && elapsed_nanoseconds < 0) {
        return AttemptOutcome::GiveUp { exit_code: code };
    }
    AttemptOutcome::RetryAfter { exit_code: code, wait_seconds: attempt, next_attempt: attempt + 1 }
}

} // verus!
