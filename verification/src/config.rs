//! The configuration file: where it lies, and which settings it gives to
//! which profile.
//!
//! A profile header opens a profile, with no settings; a later header of the
//! same name opens it anew. A line `key = value` below a header gives the
//! open profile a setting, in place of an earlier one under that key.

use crate::error::CredentialsError;
use crate::file::{lines_of, split_lines, FileContents};
use crate::line::{
    get_profile_name_from, header_name, is_profile, is_profile_header, is_skipped,
    lemma_line_kinds_exclusive, lemma_opened_stays_opened, lemma_skipped_lines_open_no_profile,
    line_kind, opens_profile, profile_name_of, within_one_profile, LineKind,
};
use crate::string_map::StringMap;
use crate::text::{
    chars_are_blank, chars_of, find_char, first_index_of, is_whitespace, leading_padding,
    lemma_first_index_of_finds, lemma_trimmed_is_bare, trim_bounds, trimmed, Padding,
};
use vstd::prelude::*;
use vstd::string::StringExecFns;

verus! {

/// The environment variable that names the configuration file.
pub const AWS_CONFIG_FILE_ENV_VAR_NAME: &'static str = "AWS_CONFIG_FILE";

/// Where the configuration file lies below the home directory.
pub const DEFAULT_AWS_CONFIG_FILE_PATH: &'static str = ".aws/config";

/// What separates the home directory from what lies below it.
pub const PATH_SEPARATOR: &'static str = "/";

/// The settings of each profile, as text.
pub type ConfigProfiles = Map<Seq<char>, Map<Seq<char>, Seq<char>>>;

/// The configuration file's path below the home directory `home`.
pub open spec fn default_config_path(home: Seq<char>) -> Seq<char> {
    home + PATH_SEPARATOR@ + DEFAULT_AWS_CONFIG_FILE_PATH@
}

/// What a variable of the environment gives: its value, unless it is unset
/// or empty.
pub open spec fn usable_value(value: Option<Seq<char>>) -> Option<Seq<char>> {
    match value {
        Some(text) => if text.len() > 0 {
            Some(text)
        } else {
            None
        },
        None => None,
    }
}

/// The key of a data line: what stands before its first `=`, or the whole
/// line where there is none, without the whitespace around it.
pub open spec fn config_key(line: Seq<char>) -> Seq<char> {
    trimmed(line.take(first_index_of(line, '=') as int), Padding::Whitespace)
}

/// The value of a data line: what follows its first `=`, without the
/// whitespace around it; empty where the line holds no `=`.
pub open spec fn config_value(line: Seq<char>) -> Seq<char> {
    let eq = first_index_of(line, '=');
    if eq < line.len() {
        trimmed(line.skip(eq as int + 1), Padding::Whitespace)
    } else {
        Seq::empty()
    }
}

/// `profiles` after the profile `profile` got the setting `key`, in place of
/// an earlier one under that key. Without a profile nothing changes.
pub open spec fn with_setting(
    profiles: ConfigProfiles,
    profile: Option<Seq<char>>,
    key: Seq<char>,
    value: Seq<char>,
) -> ConfigProfiles {
    match profile {
        Some(name) => {
            let settings = if profiles.contains_key(name) {
                profiles[name]
            } else {
                Map::empty()
            };
            profiles.insert(name, settings.insert(key, value))
        },
        None => profiles,
    }
}

/// Where the reading of a configuration file stands: the profiles so far,
/// and the name of the profile that is open.
pub struct ConfigScan {
    pub profiles: ConfigProfiles,
    pub open_profile: Option<Seq<char>>,
}

/// The scan after one more line.
pub open spec fn scan_line(scan: ConfigScan, line: Seq<char>) -> ConfigScan {
    match line_kind(line) {
        LineKind::Blank | LineKind::Comment => scan,
        LineKind::ProfileHeader => ConfigScan {
            profiles: scan.profiles.insert(header_name(line), Map::empty()),
            open_profile: Some(header_name(line)),
        },
        LineKind::Data => if config_key(line).len() > 0 && config_value(line).len() > 0 {
            ConfigScan {
                profiles: with_setting(
                    scan.profiles,
                    scan.open_profile,
                    config_key(line),
                    config_value(line),
                ),
                open_profile: scan.open_profile,
            }
        } else {
            scan
        },
    }
}

/// The scan after `lines`.
pub open spec fn scan_lines(lines: Seq<Seq<char>>) -> ConfigScan
    decreases lines.len(),
{
    if lines.len() == 0 {
        ConfigScan { profiles: Map::empty(), open_profile: None }
    } else {
        scan_line(scan_lines(lines.drop_last()), lines.last())
    }
}

/// The profiles that a configuration file of these lines holds, each with
/// its settings.
pub open spec fn config_profiles(lines: Seq<Seq<char>>) -> ConfigProfiles {
    scan_lines(lines).profiles
}

/// What reading a configuration file gives: nothing where there is no
/// regular file, and its profiles otherwise.
pub open spec fn config_outcome(file: FileContents) -> Option<ConfigProfiles> {
    match file {
        FileContents::Text(text) => Some(config_profiles(lines_of(text@))),
        _ => None,
    }
}

/// Whether `outcome` is what reading `file` gives.
pub open spec fn is_config_reading(
    file: FileContents,
    outcome: Option<StringMap<StringMap<String>>>,
) -> bool {
    match outcome {
        Some(found) => config_outcome(file) == Some(found@),
        None => config_outcome(file).is_none(),
    }
}

/// The key of a data line holds no `=`, and neither the key nor the value
/// begins or ends with whitespace.
pub proof fn lemma_key_and_value_are_bare(line: Seq<char>)
    ensures
        forall|i: int| 0 <= i < config_key(line).len() ==> #[trigger] config_key(line)[i] != '=',
        config_key(line).len() > 0 ==> !is_whitespace(config_key(line)[0]) && !is_whitespace(
            config_key(line).last(),
        ),
        config_value(line).len() > 0 ==> !is_whitespace(config_value(line)[0]) && !is_whitespace(
            config_value(line).last(),
        ),
{
    lemma_first_index_of_finds(line, '=');
    let eq = first_index_of(line, '=') as int;
    let before = line.take(eq);
    lemma_trimmed_is_bare(before, Padding::Whitespace);
    let from = leading_padding(before, Padding::Whitespace) as int;
    assert forall|i: int| 0 <= i < config_key(line).len() implies #[trigger] config_key(line)[i]
        != '=' by {
        assert(config_key(line)[i] == line[from + i]);
    }
    if eq < line.len() {
        lemma_trimmed_is_bare(line.skip(eq + 1), Padding::Whitespace);
    }
}

/// Reading one more line is one step of the scan.
pub proof fn lemma_scan_one_more(lines: Seq<Seq<char>>, line: Seq<char>)
    ensures
        scan_lines(lines.push(line)) == scan_line(scan_lines(lines), line),
{
    assert(lines.push(line).drop_last() == lines);
}

/// Lines above the first profile header belong to no profile: a file
/// without a profile header holds no profile, and none is open at its end.
pub proof fn lemma_no_header_no_profiles(lines: Seq<Seq<char>>)
    requires
        within_one_profile(lines),
    ensures
        config_profiles(lines) == Map::<Seq<char>, Map<Seq<char>, Seq<char>>>::empty(),
        scan_lines(lines).open_profile.is_none(),
    decreases lines.len(),
{
    if lines.len() > 0 {
        let front = lines.drop_last();
        assert forall|i: int| 0 <= i < front.len() implies !is_profile_header(
            #[trigger] front[i],
        ) by {
            assert(front[i] == lines[i]);
        }
        lemma_no_header_no_profiles(front);
        assert(!is_profile_header(lines[lines.len() - 1]));
    }
}

/// A file of nothing but blank lines and comments is read, and holds no
/// profile.
pub proof fn lemma_no_profiles_in_comments(text: String)
    requires
        forall|i: int| 0 <= i < lines_of(text@).len() ==> is_skipped(#[trigger] lines_of(text@)[i]),
    ensures
        config_outcome(FileContents::Text(text)) == Some(
            Map::<Seq<char>, Map<Seq<char>, Seq<char>>>::empty(),
        ),
{
    lemma_skipped_lines_open_no_profile(lines_of(text@));
    lemma_no_header_no_profiles(lines_of(text@));
}

/// A profile header opens its profile anew: after it the profile is there
/// and has no setting, whatever an earlier header of that name had gathered,
/// and every other profile is as it was.
pub proof fn lemma_header_opens_profile_anew(lines: Seq<Seq<char>>, header: Seq<char>)
    requires
        is_profile_header(header),
    ensures
        config_profiles(lines.push(header)) == config_profiles(lines).insert(
            header_name(header),
            Map::empty(),
        ),
        scan_lines(lines.push(header)).open_profile == Some(header_name(header)),
{
    lemma_scan_one_more(lines, header);
    lemma_line_kinds_exclusive(header);
}

/// A line `key = value` with a key and a value gives the open profile that
/// setting, in place of what it had under the key.
pub proof fn lemma_setting_is_read(lines: Seq<Seq<char>>, line: Seq<char>)
    requires
        line_kind(line) == LineKind::Data,
        config_key(line).len() > 0,
        config_value(line).len() > 0,
        scan_lines(lines).open_profile.is_some(),
    ensures
        ({
            let name = scan_lines(lines).open_profile.unwrap();
            let profiles = config_profiles(lines.push(line));
            &&& profiles.contains_key(name)
            &&& profiles[name].contains_key(config_key(line))
            &&& profiles[name][config_key(line)] == config_value(line)
            &&& scan_lines(lines.push(line)).open_profile == Some(name)
        }),
{
    lemma_scan_one_more(lines, line);
}

/// No line takes a profile away.
proof fn lemma_profiles_stay(scan: ConfigScan, line: Seq<char>, name: Seq<char>)
    requires
        scan.profiles.contains_key(name),
    ensures
        scan_line(scan, line).profiles.contains_key(name),
{
}

/// Every name that a header of the file gives is a profile of the file.
proof fn lemma_every_header_names_a_profile(lines: Seq<Seq<char>>, at: int)
    requires
        0 <= at < lines.len(),
        is_profile_header(lines[at]),
    ensures
        config_profiles(lines).contains_key(header_name(lines[at])),
    decreases lines.len(),
{
    let front = lines.drop_last();
    if at == lines.len() - 1 {
        lemma_line_kinds_exclusive(lines[at]);
    } else {
        assert(front[at] == lines[at]);
        lemma_every_header_names_a_profile(front, at);
        lemma_profiles_stay(scan_lines(front), lines.last(), header_name(lines[at]));
    }
}

/// The profiles of the file, and the profile that is open at its end, are
/// named by headers of the file.
proof fn lemma_names_come_from_headers(lines: Seq<Seq<char>>, name: Seq<char>)
    requires
        scan_lines(lines).profiles.contains_key(name) || scan_lines(lines).open_profile == Some(
            name,
        ),
    ensures
        opens_profile(lines, name),
    decreases lines.len(),
{
    if lines.len() > 0 {
        let front = lines.drop_last();
        let last = lines.last();
        let before = scan_lines(front);
        assert(front.push(last) == lines);
        if line_kind(last) == LineKind::ProfileHeader && header_name(last) == name {
            lemma_line_kinds_exclusive(last);
            assert(lines[lines.len() - 1] == last);
        } else {
            assert(before.profiles.contains_key(name) || before.open_profile == Some(name));
            lemma_names_come_from_headers(front, name);
            lemma_opened_stays_opened(front, last, name);
        }
    }
}

/// The profiles of the file are those that its headers open: every name
/// that a header gives is a profile, also where no setting follows, and there
/// is no other profile.
pub proof fn lemma_profiles_are_the_opened_ones(lines: Seq<Seq<char>>, name: Seq<char>)
    ensures
        config_profiles(lines).contains_key(name) <==> opens_profile(lines, name),
{
    if config_profiles(lines).contains_key(name) {
        lemma_names_come_from_headers(lines, name);
    }
    if opens_profile(lines, name) {
        let at = choose|at: int|
            0 <= at < lines.len() && is_profile_header(#[trigger] lines[at]) && header_name(
                lines[at],
            ) == name;
        lemma_every_header_names_a_profile(lines, at);
    }
}

/// What reading a configuration file gives depends on the file alone: two
/// readings of one file agree.
pub proof fn lemma_config_reading_repeats(
    file: FileContents,
    first: Option<StringMap<StringMap<String>>>,
    second: Option<StringMap<StringMap<String>>>,
)
    requires
        is_config_reading(file, first),
        is_config_reading(file, second),
    ensures
        first.is_some() == second.is_some(),
        first.is_some() ==> first.unwrap()@ == second.unwrap()@,
{
}

/// The user's home directory as `dirs::home_dir` gives it, where that is
/// valid Unicode; `None` where the directory is unknown or its path is no
/// valid Unicode. What comes back depends on the environment and the
/// machine, so nothing is claimed of it.
#[verifier::external_body]
fn home_dir() -> (home: Option<String>) {
    match dirs::home_dir() {
        Some(path) => path.into_os_string().into_string().ok(),
        None => None,
    }
}

/// The value of an environment variable, unless it is unset or empty.
pub fn try_get_env_variable_value_from(value: Option<String>) -> (usable: Option<String>)
    ensures
        usable.deep_view() == usable_value(value.deep_view()),
        usable.is_some() ==> usable == value,
{
    match value {
        Some(text) => {
            if text.as_str().is_empty() {
                None
            } else {
                Some(text)
            }
        },
        None => None,
    }
}

/// The configuration file's default path, given the home directory.
///
/// Fails with `NoHomeDirectory` where no home directory is known.
pub fn default_aws_config_file_path_in(home: Option<String>) -> (path: Result<
    String,
    CredentialsError,
>)
    ensures
        match home {
            Some(directory) => path.is_ok() && path.unwrap()@ == default_config_path(directory@),
            None => path == Err::<String, CredentialsError>(CredentialsError::NoHomeDirectory),
        },
{
    match home {
        Some(directory) => {
            let mut path = directory;
            path.append(PATH_SEPARATOR);
            path.append(DEFAULT_AWS_CONFIG_FILE_PATH);
            Ok(path)
        },
        None => Err(CredentialsError::NoHomeDirectory),
    }
}

/// The configuration file's default path: `.aws/config` below the home
/// directory of the user.
///
/// Which directory that is depends on the machine; whatever it is, the path
/// is the one that [`default_aws_config_file_path_in`] gives for it.
pub fn get_default_aws_config_file_path() -> (path: Result<String, CredentialsError>)
    ensures
        match path {
            Ok(p) => exists|home: Seq<char>| p@ == default_config_path(home),
            Err(error) => error == CredentialsError::NoHomeDirectory,
        },
{
    let home = home_dir();
    default_aws_config_file_path_in(home)
}

/// The configuration file's path. `env_value` is what the environment holds
/// under [`AWS_CONFIG_FILE_ENV_VAR_NAME`]: where it is set and not empty,
/// it is the path; otherwise the path is the default one.
pub fn get_aws_config_file_path(env_value: Option<String>) -> (path: Result<
    String,
    CredentialsError,
>)
    ensures
        match usable_value(env_value.deep_view()) {
            Some(given) => path.is_ok() && path.unwrap()@ == given,
            None => match path {
                Ok(p) => exists|home: Seq<char>| p@ == default_config_path(home),
                Err(error) => error == CredentialsError::NoHomeDirectory,
            },
        },
{
    match try_get_env_variable_value_from(env_value) {
        Some(path) => Ok(path),
        None => get_default_aws_config_file_path(),
    }
}

/// The line, unless it is blank or a comment.
pub fn try_get_config_line_from(maybe_config_line: Option<String>) -> (line: Option<String>)
    ensures
        match maybe_config_line {
            Some(given) => if is_skipped(given@) {
                line.is_none()
            } else {
                line == Some(given)
            },
            None => line.is_none(),
        },
{
    match maybe_config_line {
        Some(given) => {
            let chars = chars_of(given.as_str());
            if chars_are_blank(&chars) || chars[0] == '#' {
                None
            } else {
                Some(given)
            }
        },
        None => None,
    }
}

/// The name of the profile that the header `line` opens.
pub fn get_profile_from(line: &str) -> (name: Option<String>)
    ensures
        name.deep_view() == profile_name_of(line@),
{
    get_profile_name_from(line)
}

/// The key and the value of a data line.
pub fn extract_config_from(line: &str) -> (pair: (&str, &str))
    ensures
        pair.0@ == config_key(line@),
        pair.1@ == config_value(line@),
{
    let chars = chars_of(line);
    let n = chars.len();
    assert(chars@.subrange(0, n as int) == line@);
    let eq = find_char(&chars, 0, n, '=');
    assert(chars@.subrange(0, eq as int) == line@.take(eq as int));
    let (key_from, key_to) = trim_bounds(&chars, 0, eq, Padding::Whitespace);
    let key = line.substring_char(key_from, key_to);
    if eq < n {
        assert(chars@.subrange(eq + 1, n as int) == line@.skip(eq + 1));
        let (value_from, value_to) = trim_bounds(&chars, eq + 1, n, Padding::Whitespace);
        (key, line.substring_char(value_from, value_to))
    } else {
        (key, line.substring_char(n, n))
    }
}

/// Gives the profile `profile` the setting `key`, in place of an earlier one
/// under that key. Without a profile the map stays as it is.
pub fn insert_config_to_correspond_profile(
    key: String,
    value: String,
    profile: Option<String>,
    config_map: StringMap<StringMap<String>>,
) -> (profiles: StringMap<StringMap<String>>)
    ensures
        profiles@ == with_setting(config_map@, profile.deep_view(), key@, value@),
{
    let ghost before = config_map@;
    let mut config_map = config_map;
    match profile {
        Some(current_profile_name) => {
            let mut current_profile = match config_map.remove(current_profile_name.as_str()) {
                Some(settings) => settings,
                None => StringMap::new(),
            };
            current_profile.insert(key, value);
            config_map.insert(current_profile_name, current_profile);
            proof {
                let name = current_profile_name@;
                assert(before.remove(name).insert(name, current_profile@) == before.insert(
                    name,
                    current_profile@,
                ));
            }
        },
        None => {},
    }
    config_map
}

/// The profiles of a configuration file, from its lines.
pub fn parse_config_lines(lines: &Vec<String>) -> (profiles: StringMap<StringMap<String>>)
    ensures
        profiles@ == config_profiles(lines.deep_view()),
{
    let ghost all = lines.deep_view();
    let mut config_map: StringMap<StringMap<String>> = StringMap::new();
    let mut profile: Option<String> = None;
    let mut i: usize = 0;
    while i < lines.len()
        invariant
            i <= lines.len(),
            all == lines.deep_view(),
            config_map@ == scan_lines(all.take(i as int)).profiles,
            profile.deep_view() == scan_lines(all.take(i as int)).open_profile,
        decreases lines.len() - i,
    {
        proof {
            assert(all.take(i + 1).drop_last() == all.take(i as int));
            assert(all.take(i + 1).last() == lines[i as int]@);
        }
        match try_get_config_line_from(Some(lines[i].clone())) {
            Some(line) => {
                if is_profile(line.as_str()) {
                    match get_profile_from(line.as_str()) {
                        Some(name) => {
                            config_map.insert(name.clone(), StringMap::new());
                            profile = Some(name);
                        },
                        None => {},
                    }
                } else {
                    let (key, value) = extract_config_from(line.as_str());
                    if !key.is_empty() && !value.is_empty() {
                        config_map =
                        insert_config_to_correspond_profile(
                            key.to_owned(),
                            value.to_owned(),
                            profile.clone(),
                            config_map,
                        );
                    }
                }
            },
            None => {},
        }
        i += 1;
    }
    proof {
        assert(all.take(lines.len() as int) == all);
    }
    config_map
}

/// The profiles of a configuration file, each with its settings; `None`
/// where there is no regular file at its path.
pub fn create_profile_config_map_from(file: &FileContents) -> (profiles: Option<
    StringMap<StringMap<String>>,
>)
    ensures
        is_config_reading(*file, profiles),
{
    match file {
        FileContents::Text(text) => {
            let lines = split_lines(text.as_str());
            Some(parse_config_lines(&lines))
        },
        _ => None,
    }
}

} // verus!
