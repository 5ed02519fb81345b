//! The credentials file: which profiles it holds, with their keys.
//!
//! A profile is open from its header to the next header or the end of the
//! file. Within it, the first line that names a field sets that field, and a
//! profile is kept only if both its access key and its secret key were set.

use crate::error::CredentialsError;
use crate::file::{lines_of, split_lines, FileContents};
use crate::line::{
    classify, get_profile_name_from, header_name, is_profile_header, is_skipped,
    lemma_line_kinds_exclusive, lemma_opened_stays_opened, lemma_skipped_lines_open_no_profile,
    line_kind, opens_profile, within_one_profile, LineKind,
};
use crate::string_map::{SameAs, StringMap};
use crate::text::{
    chars_of, contains, find_char, first_index_of, lowercase, lowercase_contains, trim_bounds,
    trimmed, Padding,
};
use vstd::prelude::*;

verus! {

/// What marks the line of an access key.
pub const ACCESS_KEY_MARKER: &'static str = "aws_access_key_id";

/// What marks the line of a secret key.
pub const SECRET_KEY_MARKER: &'static str = "aws_secret_access_key";

/// What marks the line of a session token.
pub const SESSION_TOKEN_MARKER: &'static str = "aws_session_token";

/// The older name under which a session token may stand.
pub const SECURITY_TOKEN_MARKER: &'static str = "aws_security_token";

/// The credentials of one profile, as text.
pub struct Credentials {
    pub access_key: Seq<char>,
    pub secret_key: Seq<char>,
    pub token: Option<Seq<char>>,
}

/// What has been read of the profile that is open, as text.
pub struct PartialCredentials {
    pub profile_name: Option<Seq<char>>,
    pub access_key: Option<Seq<char>>,
    pub secret_key: Option<Seq<char>>,
    pub token: Option<Seq<char>>,
}

/// The credentials of one profile.
#[derive(Debug)]
pub struct AwsCredentials {
    pub access_key: String,
    pub secret_key: String,
    pub token: Option<String>,
}

impl View for AwsCredentials {
    type V = Credentials;

    open spec fn view(&self) -> Credentials {
        Credentials {
            access_key: self.access_key@,
            secret_key: self.secret_key@,
            token: self.token.deep_view(),
        }
    }
}

/// The profile that is being read: its name, once a header gave one, and
/// the fields that its lines have set so far.
#[derive(Debug)]
pub struct AwsProfileCredential {
    pub profile_name: Option<String>,
    pub access_key: Option<String>,
    pub secret_key: Option<String>,
    pub token: Option<String>,
}

impl View for AwsProfileCredential {
    type V = PartialCredentials;

    open spec fn view(&self) -> PartialCredentials {
        PartialCredentials {
            profile_name: self.profile_name.deep_view(),
            access_key: self.access_key.deep_view(),
            secret_key: self.secret_key.deep_view(),
            token: self.token.deep_view(),
        }
    }
}

/// A profile of which nothing is known.
pub open spec fn unnamed() -> PartialCredentials {
    PartialCredentials { profile_name: None, access_key: None, secret_key: None, token: None }
}

/// A profile of which only the name is known.
pub open spec fn named(name: Seq<char>) -> PartialCredentials {
    PartialCredentials { profile_name: Some(name), access_key: None, secret_key: None, token: None }
}

/// The credentials that `partial` amounts to: it needs both keys.
pub open spec fn completed(partial: PartialCredentials) -> Option<Credentials> {
    match (partial.access_key, partial.secret_key) {
        (Some(access_key), Some(secret_key)) => Some(
            Credentials { access_key, secret_key, token: partial.token },
        ),
        _ => None,
    }
}

/// `profiles` after the open profile is closed: it is entered under its
/// name if it has a name and both keys, in place of an earlier profile of
/// that name, and dropped otherwise.
pub open spec fn committed(
    profiles: Map<Seq<char>, Credentials>,
    partial: PartialCredentials,
) -> Map<Seq<char>, Credentials> {
    match (partial.profile_name, completed(partial)) {
        (Some(name), Some(credentials)) => profiles.insert(name, credentials),
        _ => profiles,
    }
}

/// Whether `line`, in lower case, holds `marker`.
pub open spec fn mentions(line: Seq<char>, marker: Seq<char>) -> bool {
    contains(lowercase(line), marker)
}

/// Whether `line` holds a `=`.
pub open spec fn has_assignment(line: Seq<char>) -> bool {
    first_index_of(line, '=') < line.len()
}

/// What stands between the first `=` of `line` and the next one, or the end
/// of the line, without the spaces around it.
pub open spec fn assigned_value(line: Seq<char>) -> Seq<char> {
    let rest = line.skip(first_index_of(line, '=') as int + 1);
    trimmed(rest.take(first_index_of(rest, '=') as int), Padding::Spaces)
}

/// The value that `line` assigns, if it assigns one.
pub open spec fn value_of(line: Seq<char>) -> Option<Seq<char>> {
    if has_assignment(line) {
        Some(assigned_value(line))
    } else {
        None
    }
}

/// The open profile after a data line. The line sets the first field, in the
/// order access key, secret key, session token, older token name, that it
/// mentions and that is not set yet. A line without `=` sets nothing.
pub open spec fn record_field(partial: PartialCredentials, line: Seq<char>) -> PartialCredentials {
    match value_of(line) {
        None => partial,
        Some(value) => {
            if mentions(line, ACCESS_KEY_MARKER@) && partial.access_key.is_none() {
                PartialCredentials { access_key: Some(value), ..partial }
            } else if mentions(line, SECRET_KEY_MARKER@) && partial.secret_key.is_none() {
                PartialCredentials { secret_key: Some(value), ..partial }
            } else if mentions(line, SESSION_TOKEN_MARKER@) && partial.token.is_none() {
                PartialCredentials { token: Some(value), ..partial }
            } else if mentions(line, SECURITY_TOKEN_MARKER@) && partial.token.is_none() {
                PartialCredentials { token: Some(value), ..partial }
            } else {
                partial
            }
        },
    }
}

/// Where the reading of a credentials file stands: the profiles entered so
/// far, and the profile that is open.
pub struct CredentialScan {
    pub profiles: Map<Seq<char>, Credentials>,
    pub open_profile: PartialCredentials,
}

/// The scan after one more line.
pub open spec fn scan_line(scan: CredentialScan, line: Seq<char>) -> CredentialScan {
    match line_kind(line) {
        LineKind::Blank | LineKind::Comment => scan,
        LineKind::ProfileHeader => CredentialScan {
            profiles: committed(scan.profiles, scan.open_profile),
            open_profile: named(header_name(line)),
        },
        LineKind::Data => CredentialScan {
            profiles: scan.profiles,
            open_profile: record_field(scan.open_profile, line),
        },
    }
}

/// The scan after `lines`.
pub open spec fn scan_lines(lines: Seq<Seq<char>>) -> CredentialScan
    decreases lines.len(),
{
    if lines.len() == 0 {
        CredentialScan { profiles: Map::empty(), open_profile: unnamed() }
    } else {
        scan_line(scan_lines(lines.drop_last()), lines.last())
    }
}

/// The profiles that a credentials file of these lines holds.
pub open spec fn credential_profiles(lines: Seq<Seq<char>>) -> Map<Seq<char>, Credentials> {
    let scan = scan_lines(lines);
    committed(scan.profiles, scan.open_profile)
}

/// What reading a credentials file gives: an error where there is no file
/// to read or no profile in it, and its profiles otherwise.
pub open spec fn credentials_outcome(file: FileContents) -> Result<
    Map<Seq<char>, Credentials>,
    CredentialsError,
> {
    match file {
        FileContents::Missing => Err(CredentialsError::NotFound),
        FileContents::NotAFile => Err(CredentialsError::NotAFile),
        FileContents::Text(text) => {
            let profiles = credential_profiles(lines_of(text@));
            if profiles == Map::<Seq<char>, Credentials>::empty() {
                Err(CredentialsError::NoCredentialsFound)
            } else {
                Ok(profiles)
            }
        },
    }
}

/// Whether `outcome` is what reading `file` gives.
pub open spec fn is_credentials_reading(
    file: FileContents,
    outcome: Result<StringMap<AwsCredentials>, CredentialsError>,
) -> bool {
    match outcome {
        Ok(profiles) => credentials_outcome(file) == Ok::<
            Map<Seq<char>, Credentials>,
            CredentialsError,
        >(profiles@),
        Err(error) => credentials_outcome(file) == Err::<
            Map<Seq<char>, Credentials>,
            CredentialsError,
        >(error),
    }
}

/// Whether `line` is taken as the line of a session token by a profile that
/// has read `partial`: it assigns a value, names the session token, and
/// names no key that is still to be set.
pub open spec fn gives_session_token(partial: PartialCredentials, line: Seq<char>) -> bool {
    &&& line_kind(line) == LineKind::Data
    &&& has_assignment(line)
    &&& mentions(line, SESSION_TOKEN_MARKER@)
    &&& mentions(line, ACCESS_KEY_MARKER@) ==> partial.access_key.is_some()
    &&& mentions(line, SECRET_KEY_MARKER@) ==> partial.secret_key.is_some()
}

/// Reading one more line is one step of the scan.
pub proof fn lemma_scan_one_more(lines: Seq<Seq<char>>, line: Seq<char>)
    ensures
        scan_lines(lines.push(line)) == scan_line(scan_lines(lines), line),
{
    assert(lines.push(line).drop_last() == lines);
}

/// A data line leaves the name of the open profile, and each field that is
/// set, as they are.
pub proof fn lemma_set_field_stays(partial: PartialCredentials, line: Seq<char>)
    ensures
        record_field(partial, line).profile_name == partial.profile_name,
        partial.access_key.is_some() ==> record_field(partial, line).access_key
            == partial.access_key,
        partial.secret_key.is_some() ==> record_field(partial, line).secret_key
            == partial.secret_key,
        partial.token.is_some() ==> record_field(partial, line).token == partial.token,
{
}

/// First occurrence wins: within one profile, lines that follow change
/// neither the profiles entered so far, nor the name of the open profile, nor
/// any of its fields that is set.
pub proof fn lemma_first_value_wins(lines: Seq<Seq<char>>, block: Seq<Seq<char>>)
    requires
        within_one_profile(block),
    ensures
        scan_lines(lines + block).profiles == scan_lines(lines).profiles,
        scan_lines(lines + block).open_profile.profile_name == scan_lines(
            lines,
        ).open_profile.profile_name,
        scan_lines(lines).open_profile.access_key.is_some() ==> scan_lines(
            lines + block,
        ).open_profile.access_key == scan_lines(lines).open_profile.access_key,
        scan_lines(lines).open_profile.secret_key.is_some() ==> scan_lines(
            lines + block,
        ).open_profile.secret_key == scan_lines(lines).open_profile.secret_key,
        scan_lines(lines).open_profile.token.is_some() ==> scan_lines(
            lines + block,
        ).open_profile.token == scan_lines(lines).open_profile.token,
    decreases block.len(),
{
    if block.len() == 0 {
        assert(lines + block == lines);
    } else {
        let front = block.drop_last();
        let last = block.last();
        assert(within_one_profile(front)) by {
            assert forall|i: int| 0 <= i < front.len() implies !is_profile_header(
                #[trigger] front[i],
            ) by {
                assert(front[i] == block[i]);
            }
        }
        lemma_first_value_wins(lines, front);
        assert(lines + block == (lines + front).push(last));
        lemma_scan_one_more(lines + front, last);
        assert(!is_profile_header(block[block.len() - 1]));
        lemma_set_field_stays(scan_lines(lines + front).open_profile, last);
    }
}

/// The first line of a profile that gives an access key decides the access
/// key: whatever lines of the profile follow, also further access key lines
/// with other values, the key stays the one that this line assigned.
pub proof fn lemma_first_access_key_wins(
    lines: Seq<Seq<char>>,
    line: Seq<char>,
    block: Seq<Seq<char>>,
)
    requires
        scan_lines(lines).open_profile.access_key.is_none(),
        line_kind(line) == LineKind::Data,
        has_assignment(line),
        mentions(line, ACCESS_KEY_MARKER@),
        within_one_profile(block),
    ensures
        scan_lines(lines.push(line) + block).open_profile.access_key == Some(
            assigned_value(line),
        ),
        ({
            let read = scan_lines(lines.push(line) + block).open_profile;
            read.profile_name.is_some() && read.secret_key.is_some() ==> credential_profiles(
                lines.push(line) + block,
            )[read.profile_name.unwrap()].access_key == assigned_value(line)
        }),
{
    lemma_scan_one_more(lines, line);
    lemma_first_value_wins(lines.push(line), block);
}

/// A session token that a profile has read stays: whatever lines of the
/// profile follow, also lines that give a token under the older name, the
/// token is the one that the session token line assigned.
pub proof fn lemma_session_token_wins(
    lines: Seq<Seq<char>>,
    line: Seq<char>,
    block: Seq<Seq<char>>,
)
    requires
        scan_lines(lines).open_profile.token.is_none(),
        gives_session_token(scan_lines(lines).open_profile, line),
        within_one_profile(block),
    ensures
        scan_lines(lines.push(line) + block).open_profile.token == Some(assigned_value(line)),
        completed(scan_lines(lines.push(line) + block).open_profile).is_some() ==> completed(
            scan_lines(lines.push(line) + block).open_profile,
        ).unwrap().token == Some(assigned_value(line)),
{
    lemma_scan_one_more(lines, line);
    lemma_first_value_wins(lines.push(line), block);
}

/// A profile whose lines name neither an access key nor a secret key adds
/// nothing: the file holds the profiles that it would hold if it ended
/// before the header of that profile.
pub proof fn lemma_profile_without_keys_adds_nothing(
    lines: Seq<Seq<char>>,
    header: Seq<char>,
    block: Seq<Seq<char>>,
)
    requires
        is_profile_header(header),
        within_one_profile(block),
        forall|i: int|
            0 <= i < block.len() ==> !mentions(#[trigger] block[i], ACCESS_KEY_MARKER@)
                && !mentions(block[i], SECRET_KEY_MARKER@),
    ensures
        credential_profiles(lines.push(header) + block) == credential_profiles(lines),
        !credential_profiles(lines).contains_key(header_name(header)) ==> !credential_profiles(
            lines.push(header) + block,
        ).contains_key(header_name(header)),
{
    lemma_line_kinds_exclusive(header);
    lemma_scan_one_more(lines, header);
    lemma_first_value_wins(lines.push(header), block);
    lemma_keys_stay_unset(lines.push(header), block);
}

/// Lines of a profile that name neither key leave both keys unset, if they
/// were.
proof fn lemma_keys_stay_unset(lines: Seq<Seq<char>>, block: Seq<Seq<char>>)
    requires
        within_one_profile(block),
        forall|i: int|
            0 <= i < block.len() ==> !mentions(#[trigger] block[i], ACCESS_KEY_MARKER@)
                && !mentions(block[i], SECRET_KEY_MARKER@),
    ensures
        scan_lines(lines).open_profile.access_key.is_none() ==> scan_lines(
            lines + block,
        ).open_profile.access_key.is_none(),
        scan_lines(lines).open_profile.secret_key.is_none() ==> scan_lines(
            lines + block,
        ).open_profile.secret_key.is_none(),
    decreases block.len(),
{
    if block.len() == 0 {
        assert(lines + block == lines);
    } else {
        let front = block.drop_last();
        let last = block.last();
        assert forall|i: int| 0 <= i < front.len() implies !is_profile_header(
            #[trigger] front[i],
        ) && !mentions(front[i], ACCESS_KEY_MARKER@) && !mentions(
            front[i],
            SECRET_KEY_MARKER@,
        ) by {
            assert(front[i] == block[i]);
        }
        lemma_keys_stay_unset(lines, front);
        assert(lines + block == (lines + front).push(last));
        lemma_scan_one_more(lines + front, last);
        assert(!is_profile_header(block[block.len() - 1]));
        assert(!mentions(block[block.len() - 1], ACCESS_KEY_MARKER@));
    }
}

/// The profiles entered so far, and the profile that is open, are named by
/// headers of the file.
proof fn lemma_names_come_from_headers(lines: Seq<Seq<char>>, name: Seq<char>)
    requires
        scan_lines(lines).profiles.contains_key(name) || scan_lines(
            lines,
        ).open_profile.profile_name == Some(name),
    ensures
        opens_profile(lines, name),
    decreases lines.len(),
{
    if lines.len() > 0 {
        let front = lines.drop_last();
        let last = lines.last();
        let before = scan_lines(front);
        assert(front.push(last) == lines);
        if line_kind(last) == LineKind::ProfileHeader && header_name(last) == name {
            lemma_line_kinds_exclusive(last);
            assert(lines[lines.len() - 1] == last);
        } else {
            lemma_set_field_stays(before.open_profile, last);
            assert(before.profiles.contains_key(name) || before.open_profile.profile_name == Some(
                name,
            ));
            lemma_names_come_from_headers(front, name);
            lemma_opened_stays_opened(front, last, name);
        }
    }
}

/// Every profile of the file is named by one of its headers.
pub proof fn lemma_every_profile_is_named_by_a_header(lines: Seq<Seq<char>>, name: Seq<char>)
    requires
        credential_profiles(lines).contains_key(name),
    ensures
        opens_profile(lines, name),
{
    lemma_names_come_from_headers(lines, name);
}

/// Lines above the first profile header belong to no profile: a file
/// without a profile header holds no profile.
pub proof fn lemma_no_header_no_credentials(lines: Seq<Seq<char>>)
    requires
        within_one_profile(lines),
    ensures
        credential_profiles(lines) == Map::<Seq<char>, Credentials>::empty(),
{
    let none = Seq::<Seq<char>>::empty();
    lemma_first_value_wins(none, lines);
    assert(none + lines == lines);
}

/// A file of nothing but blank lines and comments holds no profile, so that
/// reading it fails with `NoCredentialsFound`.
pub proof fn lemma_no_credentials_in_comments(text: String)
    requires
        forall|i: int| 0 <= i < lines_of(text@).len() ==> is_skipped(#[trigger] lines_of(text@)[i]),
    ensures
        credential_profiles(lines_of(text@)) == Map::<Seq<char>, Credentials>::empty(),
        credentials_outcome(FileContents::Text(text)) == Err::<
            Map<Seq<char>, Credentials>,
            CredentialsError,
        >(CredentialsError::NoCredentialsFound),
{
    lemma_skipped_lines_open_no_profile(lines_of(text@));
    lemma_no_header_no_credentials(lines_of(text@));
}

/// What reading a credentials file gives depends on the file alone: two
/// readings of one file agree, in the profiles as in the error.
pub proof fn lemma_credentials_reading_repeats(
    file: FileContents,
    first: Result<StringMap<AwsCredentials>, CredentialsError>,
    second: Result<StringMap<AwsCredentials>, CredentialsError>,
)
    requires
        is_credentials_reading(file, first),
        is_credentials_reading(file, second),
    ensures
        first.is_ok() == second.is_ok(),
        first.is_ok() ==> first.unwrap()@ == second.unwrap()@,
        first matches Err(error) ==> second == Err::<StringMap<AwsCredentials>, CredentialsError>(
            error,
        ),
{
}

impl AwsCredentials {
    /// Credentials of these parts.
    pub fn new(access_key: String, secret_key: String, token: Option<String>) -> (credentials:
        Self)
        ensures
            credentials.access_key == access_key,
            credentials.secret_key == secret_key,
            credentials.token == token,
    {
        AwsCredentials { access_key, secret_key, token }
    }

    /// The access key.
    pub fn aws_access_key_id(&self) -> (key: &str)
        ensures
            key@ == self@.access_key,
    {
        self.access_key.as_str()
    }

    /// The secret key.
    pub fn aws_secret_access_key(&self) -> (key: &str)
        ensures
            key@ == self@.secret_key,
    {
        self.secret_key.as_str()
    }

    /// The session token, if there is one.
    pub fn token(&self) -> (token: &Option<String>)
        ensures
            *token == self.token,
    {
        &self.token
    }
}

impl AwsProfileCredential {
    /// A profile of which nothing is known.
    pub fn new() -> (credential: AwsProfileCredential)
        ensures
            credential@ == unnamed(),
    {
        AwsProfileCredential { profile_name: None, access_key: None, secret_key: None, token: None }
    }

    /// A profile of which only the name is known.
    pub fn new_with_profile_name(profile_name: String) -> (credential: AwsProfileCredential)
        ensures
            credential@ == named(profile_name@),
    {
        AwsProfileCredential {
            profile_name: Some(profile_name),
            access_key: None,
            secret_key: None,
            token: None,
        }
    }

    /// The credentials of this profile, if it has both keys.
    pub fn into_aws_credential(self) -> (credentials: Option<AwsCredentials>)
        ensures
            match credentials {
                Some(c) => completed(self@) == Some(c@),
                None => completed(self@).is_none(),
            },
    {
        match (self.access_key, self.secret_key) {
            (Some(access_key), Some(secret_key)) => Some(
                AwsCredentials::new(access_key, secret_key, self.token),
            ),
            _ => None,
        }
    }
}

impl Default for AwsProfileCredential {
    fn default() -> (credential: Self)
        ensures
            credential@ == unnamed(),
    {
        Self::new()
    }
}

/// Whether `line`, in lower case, holds `marker`.
pub fn line_mentions(line: &str, marker: &str) -> (found: bool)
    ensures
        found == mentions(line@, marker@),
{
    let chars = chars_of(line);
    let wanted = chars_of(marker);
    lowercase_contains(&chars, &wanted)
}

/// Whether `line` names the access key.
pub fn is_aws_access_key(line: &str) -> (found: bool)
    ensures
        found == mentions(line@, ACCESS_KEY_MARKER@),
{
    line_mentions(line, ACCESS_KEY_MARKER)
}

/// The value that `line` assigns: what stands between its first `=` and the
/// next, without the spaces around it. `None` when `line` holds no `=`.
pub fn extract_value_from(line: &str) -> (value: Option<String>)
    ensures
        value.deep_view() == value_of(line@),
{
    let chars = chars_of(line);
    let n = chars.len();
    assert(chars@.subrange(0, n as int) == line@);
    let eq = find_char(&chars, 0, n, '=');
    if eq >= n {
        return None;
    }
    let ghost rest = line@.skip(eq + 1);
    assert(chars@.subrange(eq + 1, n as int) == rest);
    let stop = eq + 1 + find_char(&chars, eq + 1, n, '=');
    assert(chars@.subrange(eq + 1, stop as int) == rest.take(stop - eq - 1));
    let (from, to) = trim_bounds(&chars, eq + 1, stop, Padding::Spaces);
    Some(line.substring_char(from, to).to_owned())
}

/// Lets a data line set a field of the open profile.
pub fn record_credential_line(credential: &mut AwsProfileCredential, line: &str)
    ensures
        final(credential)@ == record_field(old(credential)@, line@),
{
    match extract_value_from(line) {
        None => {},
        Some(value) => {
            if credential.access_key.is_none() && is_aws_access_key(line) {
                credential.access_key = Some(value);
            } else if credential.secret_key.is_none() && line_mentions(line, SECRET_KEY_MARKER) {
                credential.secret_key = Some(value);
            } else if credential.token.is_none() && line_mentions(line, SESSION_TOKEN_MARKER) {
                credential.token = Some(value);
            } else if credential.token.is_none() && line_mentions(line, SECURITY_TOKEN_MARKER) {
                credential.token = Some(value);
            }
        },
    }
}

/// Closes a profile: enters it into the map if it has a name and both keys.
pub fn try_insert_profile_credential_to(
    profile_credentials_map: StringMap<AwsCredentials>,
    aws_profile_credential: AwsProfileCredential,
) -> (profiles: StringMap<AwsCredentials>)
    ensures
        profiles@ == committed(profile_credentials_map@, aws_profile_credential@),
{
    let mut profile_credentials_map = profile_credentials_map;
    match (aws_profile_credential.profile_name.clone(), aws_profile_credential.into_aws_credential()) {
        (Some(profile_name), Some(aws_credential)) => {
            profile_credentials_map.insert(profile_name, aws_credential);
        },
        _ => {},
    }
    profile_credentials_map
}

/// Whether two optional texts are the same.
fn same_text(first: &Option<String>, second: &Option<String>) -> (same: bool)
    ensures
        same == (first.deep_view() == second.deep_view()),
{
    match (first, second) {
        (Some(mine), Some(other)) => *mine == *other,
        (None, None) => true,
        _ => false,
    }
}

impl SameAs for AwsCredentials {
    /// Whether both hold the same keys and the same token.
    fn same_as(&self, other: &Self) -> (same: bool) {
        self.access_key == other.access_key && self.secret_key == other.secret_key && same_text(
            &self.token,
            &other.token,
        )
    }
}

/// The profiles of a credentials file, from its lines.
pub fn create_profile_credentials_map_from(lines: &Vec<String>) -> (profiles: StringMap<
    AwsCredentials,
>)
    ensures
        profiles@ == credential_profiles(lines.deep_view()),
{
    let ghost all = lines.deep_view();
    let mut profile_credentials_map: StringMap<AwsCredentials> = StringMap::new();
    let mut aws_profile_credential = AwsProfileCredential::new();
    let mut i: usize = 0;
    while i < lines.len()
        invariant
            i <= lines.len(),
            all == lines.deep_view(),
            profile_credentials_map@ == scan_lines(all.take(i as int)).profiles,
            aws_profile_credential@ == scan_lines(all.take(i as int)).open_profile,
        decreases lines.len() - i,
    {
        let line = lines[i].as_str();
        proof {
            assert(all.take(i + 1).drop_last() == all.take(i as int));
            assert(all.take(i + 1).last() == line@);
        }
        match classify(line) {
            LineKind::Blank | LineKind::Comment => {},
            LineKind::ProfileHeader => {
                profile_credentials_map = try_insert_profile_credential_to(
                    profile_credentials_map,
                    aws_profile_credential,
                );
                match get_profile_name_from(line) {
                    Some(name) => {
                        aws_profile_credential = AwsProfileCredential::new_with_profile_name(name);
                    },
                    None => {
                        aws_profile_credential = AwsProfileCredential::new();
                    },
                }
            },
            LineKind::Data => {
                record_credential_line(&mut aws_profile_credential, line);
            },
        }
        i += 1;
    }
    proof {
        assert(all.take(lines.len() as int) == all);
    }
    try_insert_profile_credential_to(profile_credentials_map, aws_profile_credential)
}

/// The profiles of a credentials file.
///
/// Fails with `NotFound` where the path could not be examined, with
/// `NotAFile` where it leads to no regular file, and with
/// `NoCredentialsFound` where the file holds no complete profile.
pub fn parse_credentials_file(file: &FileContents) -> (outcome: Result<
    StringMap<AwsCredentials>,
    CredentialsError,
>)
    ensures
        is_credentials_reading(*file, outcome),
{
    match file {
        FileContents::Missing => Err(CredentialsError::NotFound),
        FileContents::NotAFile => Err(CredentialsError::NotAFile),
        FileContents::Text(text) => {
            let lines = split_lines(text.as_str());
            let profile_credentials_map = create_profile_credentials_map_from(&lines);
            if profile_credentials_map.is_empty() {
                Err(CredentialsError::NoCredentialsFound)
            } else {
                Ok(profile_credentials_map)
            }
        },
    }
}

} // verus!
