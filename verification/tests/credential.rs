use awsp::credential::{
    create_profile_credentials_map_from, extract_value_from, is_aws_access_key, line_mentions,
    parse_credentials_file, record_credential_line, try_insert_profile_credential_to,
    AwsCredentials, AwsProfileCredential, ACCESS_KEY_MARKER, SECRET_KEY_MARKER,
    SECURITY_TOKEN_MARKER, SESSION_TOKEN_MARKER,
};
use awsp::error::CredentialsError;
use awsp::file::FileContents;
use awsp::string_map::{SameAs, StringMap};
use std::collections::BTreeMap;

const DEFAULT: &str = "default";

const DEFAULT_PROFILE_CREDENTIALS: &str = "[default]
aws_access_key_id=foo
aws_secret_access_key=bar
";

const MULTIPLE_PROFILE_CREDENTIALS: &str = "[foo]
aws_access_key_id=foo_access_key
aws_secret_access_key=foo_secret_key

# a second profile
[bar]
aws_access_key_id=bar_access_key
aws_secret_access_key=bar_secret_key
";

const FULL_PROFILE_CREDENTIALS: &str = "[default]
aws_access_key_id = foo
aws_secret_access_key = bar
aws_session_token = baz
region = us-east-2
";

type Plain = BTreeMap<String, (String, String, Option<String>)>;

fn file_of(text: &str) -> FileContents {
    FileContents::Text(text.to_string())
}

fn lines_of(text: &str) -> Vec<String> {
    text.lines().map(|line| line.to_string()).collect()
}

fn plain(profiles: &StringMap<AwsCredentials>) -> Plain {
    let mut result = BTreeMap::new();
    for name in profiles.keys() {
        let credentials = profiles.get(name).expect("a listed key is held");
        result.insert(
            name.clone(),
            (
                credentials.aws_access_key_id().to_string(),
                credentials.aws_secret_access_key().to_string(),
                credentials.token().clone(),
            ),
        );
    }
    result
}

fn expected(profiles: &[(&str, &str, &str, Option<&str>)]) -> Plain {
    let mut result = BTreeMap::new();
    for (name, access_key, secret_key, token) in profiles {
        result.insert(
            name.to_string(),
            (
                access_key.to_string(),
                secret_key.to_string(),
                token.map(|text| text.to_string()),
            ),
        );
    }
    result
}

fn read(text: &str) -> Result<Plain, CredentialsError> {
    parse_credentials_file(&file_of(text)).map(|profiles| plain(&profiles))
}

fn fields(
    profile_name: Option<&str>,
    access_key: Option<&str>,
    secret_key: Option<&str>,
    token: Option<&str>,
) -> AwsProfileCredential {
    AwsProfileCredential {
        profile_name: profile_name.map(|text| text.to_string()),
        access_key: access_key.map(|text| text.to_string()),
        secret_key: secret_key.map(|text| text.to_string()),
        token: token.map(|text| text.to_string()),
    }
}

fn as_tuple(
    credential: &AwsProfileCredential,
) -> (Option<String>, Option<String>, Option<String>, Option<String>) {
    (
        credential.profile_name.clone(),
        credential.access_key.clone(),
        credential.secret_key.clone(),
        credential.token.clone(),
    )
}

#[test]
fn into_aws_credential_should_return_aws_credential_when_both_access_key_and_secret_key_are_exist(
) {
    let access_key = "access_key";
    let secret_key = "secret_key";

    let aws_profile_credential = AwsProfileCredential {
        profile_name: None,
        access_key: Some(access_key.into()),
        secret_key: Some(secret_key.into()),
        token: None,
    };

    let result = aws_profile_credential.into_aws_credential().unwrap();
    let expected = AwsCredentials::new(access_key.into(), secret_key.into(), None);

    assert_eq!(expected.aws_access_key_id(), result.aws_access_key_id());
    assert_eq!(
        expected.aws_secret_access_key(),
        result.aws_secret_access_key()
    );
    assert_eq!(expected.token(), result.token());
}

#[test]
fn into_aws_credential_should_return_none_when_either_or_both_access_key_and_secret_key_are_none(
) {
    let aws_profile_credential = AwsProfileCredential::new();

    assert!(aws_profile_credential.into_aws_credential().is_none());
}

#[test]
fn into_aws_credential_should_return_none_when_one_key_is_none() {
    assert!(fields(Some("a"), Some("key"), None, Some("token"))
        .into_aws_credential()
        .is_none());
    assert!(fields(Some("a"), None, Some("secret"), None)
        .into_aws_credential()
        .is_none());
}

#[test]
fn into_aws_credential_should_carry_the_token() {
    let result = fields(None, Some("key"), Some("secret"), Some("token"))
        .into_aws_credential()
        .unwrap();

    assert_eq!("key", result.aws_access_key_id());
    assert_eq!("secret", result.aws_secret_access_key());
    assert_eq!(&Some("token".to_string()), result.token());
}

#[test]
fn new_should_know_nothing_of_the_profile() {
    assert_eq!((None, None, None, None), as_tuple(&AwsProfileCredential::new()));
    assert_eq!((None, None, None, None), as_tuple(&AwsProfileCredential::default()));
}

#[test]
fn new_with_profile_name_should_know_the_name_only() {
    assert_eq!(
        (Some("foo".to_string()), None, None, None),
        as_tuple(&AwsProfileCredential::new_with_profile_name("foo".to_string()))
    );
}

#[test]
fn markers_should_stay_as_they_are() {
    assert_eq!("aws_access_key_id", ACCESS_KEY_MARKER);
    assert_eq!("aws_secret_access_key", SECRET_KEY_MARKER);
    assert_eq!("aws_session_token", SESSION_TOKEN_MARKER);
    assert_eq!("aws_security_token", SECURITY_TOKEN_MARKER);
}

#[test]
fn is_aws_access_key_should_look_at_the_line_in_lower_case() {
    assert_eq!(true, is_aws_access_key("aws_access_key_id=foo"));
    assert_eq!(true, is_aws_access_key("AWS_ACCESS_KEY_ID = foo"));
    assert_eq!(true, is_aws_access_key("  Aws_Access_Key_Id"));
    assert_eq!(false, is_aws_access_key("aws_secret_access_key=foo"));
    assert_eq!(false, is_aws_access_key("aws_access_key_i=foo"));
    assert_eq!(false, is_aws_access_key(""));
}

#[test]
fn line_mentions_should_find_the_marker_anywhere() {
    assert_eq!(true, line_mentions("x = AWS_SESSION_TOKEN", SESSION_TOKEN_MARKER));
    assert_eq!(false, line_mentions("aws_security_token = x", SESSION_TOKEN_MARKER));
    assert_eq!(true, line_mentions("aws_security_token = x", SECURITY_TOKEN_MARKER));
}

#[test]
fn extract_value_from_should_take_what_stands_between_the_first_two_equals_signs() {
    assert_eq!(Some("foo".to_string()), extract_value_from("aws_access_key_id=foo"));
    assert_eq!(Some("foo".to_string()), extract_value_from("aws_access_key_id =   foo  "));
    assert_eq!(Some("Foo Bar".to_string()), extract_value_from("KEY = Foo Bar "));
    assert_eq!(Some("abc".to_string()), extract_value_from("key = abc=def"));
    assert_eq!(Some("".to_string()), extract_value_from("key ="));
    assert_eq!(Some("".to_string()), extract_value_from("key = = x"));
    assert_eq!(Some("x".to_string()), extract_value_from("=x"));
}

#[test]
fn extract_value_from_should_trim_spaces_and_nothing_else() {
    assert_eq!(Some("\tfoo\t".to_string()), extract_value_from("key = \tfoo\t "));
    assert_eq!(Some("\u{a0}foo".to_string()), extract_value_from("key=\u{a0}foo"));
}

#[test]
fn extract_value_from_should_return_none_when_line_holds_no_equals_sign() {
    assert_eq!(None, extract_value_from("aws_access_key_id"));
    assert_eq!(None, extract_value_from(""));
}

#[test]
fn extract_value_from_should_agree_with_splitting_the_line() {
    for line in ["a=b", " a = b ", "a==b", "a=b=c=d", "=", "a= b c ", "a =\tb"] {
        let parts: Vec<&str> = line.split('=').collect();
        assert_eq!(
            Some(parts[1].trim_matches(' ').to_string()),
            extract_value_from(line),
            "line {:?}",
            line
        );
    }
}

#[test]
fn record_credential_line_should_set_the_field_that_the_line_names() {
    let mut credential = AwsProfileCredential::new_with_profile_name("p".to_string());

    record_credential_line(&mut credential, "aws_access_key_id = key");
    assert_eq!(
        (Some("p".to_string()), Some("key".to_string()), None, None),
        as_tuple(&credential)
    );
    record_credential_line(&mut credential, "AWS_SECRET_ACCESS_KEY=Secret");
    record_credential_line(&mut credential, "aws_session_token = token");
    assert_eq!(
        (
            Some("p".to_string()),
            Some("key".to_string()),
            Some("Secret".to_string()),
            Some("token".to_string())
        ),
        as_tuple(&credential)
    );
}

#[test]
fn record_credential_line_should_keep_a_field_that_is_set() {
    let mut credential = fields(Some("p"), Some("first"), Some("one"), Some("kept"));

    record_credential_line(&mut credential, "aws_access_key_id = second");
    record_credential_line(&mut credential, "aws_secret_access_key = two");
    record_credential_line(&mut credential, "aws_session_token = other");
    record_credential_line(&mut credential, "aws_security_token = other");

    assert_eq!(
        (
            Some("p".to_string()),
            Some("first".to_string()),
            Some("one".to_string()),
            Some("kept".to_string())
        ),
        as_tuple(&credential)
    );
}

#[test]
fn record_credential_line_should_ignore_other_lines_and_lines_without_equals_sign() {
    let mut credential = AwsProfileCredential::new();

    record_credential_line(&mut credential, "region = us-east-2");
    record_credential_line(&mut credential, "aws_access_key_id");
    record_credential_line(&mut credential, "aws_secret_access_key foo");

    assert_eq!((None, None, None, None), as_tuple(&credential));
}

#[test]
fn record_credential_line_should_take_the_older_token_name_when_no_token_is_set() {
    let mut credential = AwsProfileCredential::new();

    record_credential_line(&mut credential, "aws_security_token = old");

    assert_eq!((None, None, None, Some("old".to_string())), as_tuple(&credential));
}

#[test]
fn record_credential_line_should_go_on_to_the_next_marker_when_the_first_is_set() {
    let mut credential = fields(None, Some("key"), None, None);

    record_credential_line(&mut credential, "aws_access_key_id_or_aws_secret_access_key = x");

    assert_eq!(
        (None, Some("key".to_string()), Some("x".to_string()), None),
        as_tuple(&credential)
    );
}

#[test]
fn try_insert_profile_credential_to_should_enter_a_complete_profile() {
    let profiles = try_insert_profile_credential_to(
        StringMap::new(),
        fields(Some("foo"), Some("key"), Some("secret"), Some("token")),
    );

    assert_eq!(expected(&[("foo", "key", "secret", Some("token"))]), plain(&profiles));
}

#[test]
fn try_insert_profile_credential_to_should_drop_an_incomplete_profile() {
    let mut profiles = StringMap::new();
    profiles = try_insert_profile_credential_to(profiles, fields(None, Some("k"), Some("s"), None));
    profiles = try_insert_profile_credential_to(profiles, fields(Some("a"), None, Some("s"), None));
    profiles = try_insert_profile_credential_to(profiles, fields(Some("a"), Some("k"), None, None));
    profiles = try_insert_profile_credential_to(profiles, fields(Some("a"), None, None, Some("t")));

    assert!(profiles.is_empty());
}

#[test]
fn try_insert_profile_credential_to_should_replace_an_earlier_profile_of_the_name() {
    let mut profiles = StringMap::new();
    profiles = try_insert_profile_credential_to(profiles, fields(Some("a"), Some("1"), Some("2"), None));
    profiles = try_insert_profile_credential_to(profiles, fields(Some("a"), Some("3"), Some("4"), None));

    assert_eq!(expected(&[("a", "3", "4", None)]), plain(&profiles));
}

#[test]
fn credential_parse_credentials_file_default_profile() {
    let result = parse_credentials_file(&file_of(DEFAULT_PROFILE_CREDENTIALS));
    assert!(result.is_ok());

    let profiles = result.ok().unwrap();
    assert_eq!(profiles.len(), 1);

    let default_profile = profiles
        .get(DEFAULT)
        .expect("No Default profile in default_profile_credentials");
    assert_eq!(default_profile.aws_access_key_id(), "foo");
    assert_eq!(default_profile.aws_secret_access_key(), "bar");
}

#[test]
fn credential_parse_credentials_file_multiple_profiles() {
    let result = parse_credentials_file(&file_of(MULTIPLE_PROFILE_CREDENTIALS));
    assert!(result.is_ok());

    let profiles = result.ok().unwrap();
    assert_eq!(profiles.len(), 2);

    let foo_profile = profiles
        .get("foo")
        .expect("No foo profile in multiple_profile_credentials");
    assert_eq!(foo_profile.aws_access_key_id(), "foo_access_key");
    assert_eq!(foo_profile.aws_secret_access_key(), "foo_secret_key");

    let bar_profile = profiles
        .get("bar")
        .expect("No bar profile in multiple_profile_credentials");
    assert_eq!(bar_profile.aws_access_key_id(), "bar_access_key");
    assert_eq!(bar_profile.aws_secret_access_key(), "bar_secret_key");
}

#[test]
fn credential_parse_all_values_credentials_file() {
    let result = parse_credentials_file(&file_of(FULL_PROFILE_CREDENTIALS));
    assert!(result.is_ok());

    let profiles = result.ok().unwrap();
    assert_eq!(profiles.len(), 1);

    let default_profile = profiles
        .get(DEFAULT)
        .expect("No default profile in full_profile_credentials");
    assert_eq!(default_profile.aws_access_key_id(), "foo");
    assert_eq!(default_profile.aws_secret_access_key(), "bar");
}

#[test]
fn lib_parse_credentials_file_default_profile() {
    let result = parse_credentials_file(&file_of(DEFAULT_PROFILE_CREDENTIALS));
    assert!(result.is_ok());

    let profiles = result.ok().unwrap();
    assert_eq!(profiles.len(), 1);

    let default_profile = profiles
        .get(DEFAULT)
        .expect("No Default profile in default_profile_credentials");
    assert_eq!(default_profile.aws_access_key_id(), "foo");
    assert_eq!(default_profile.aws_secret_access_key(), "bar");
}

#[test]
fn lib_parse_credentials_file_multiple_profiles() {
    let result = parse_credentials_file(&file_of(MULTIPLE_PROFILE_CREDENTIALS));
    assert!(result.is_ok());

    let profiles = result.ok().unwrap();
    assert_eq!(profiles.len(), 2);

    let foo_profile = profiles
        .get("foo")
        .expect("No foo profile in multiple_profile_credentials");
    assert_eq!(foo_profile.aws_access_key_id(), "foo_access_key");
    assert_eq!(foo_profile.aws_secret_access_key(), "foo_secret_key");

    let bar_profile = profiles
        .get("bar")
        .expect("No bar profile in multiple_profile_credentials");
    assert_eq!(bar_profile.aws_access_key_id(), "bar_access_key");
    assert_eq!(bar_profile.aws_secret_access_key(), "bar_secret_key");
}

#[test]
fn lib_parse_all_values_credentials_file() {
    let result = parse_credentials_file(&file_of(FULL_PROFILE_CREDENTIALS));
    assert!(result.is_ok());

    let profiles = result.ok().unwrap();
    assert_eq!(profiles.len(), 1);

    let default_profile = profiles
        .get(DEFAULT)
        .expect("No default profile in full_profile_credentials");
    assert_eq!(default_profile.aws_access_key_id(), "foo");
    assert_eq!(default_profile.aws_secret_access_key(), "bar");
    assert_eq!(default_profile.token(), &Some("baz".to_string()));
}

#[test]
fn parse_credentials_file_should_fail_with_not_found_when_path_is_missing() {
    assert_eq!(
        Some(CredentialsError::NotFound),
        parse_credentials_file(&FileContents::Missing).err()
    );
}

#[test]
fn parse_credentials_file_should_fail_with_not_a_file_when_path_is_no_file() {
    assert_eq!(
        Some(CredentialsError::NotAFile),
        parse_credentials_file(&FileContents::NotAFile).err()
    );
}

#[test]
fn parse_credentials_file_should_fail_with_no_credentials_found_when_file_holds_comments_only() {
    for text in ["", "\n", "# a comment", "# one\n\n   \n# two\n", "\t\n#[default]\n"] {
        assert_eq!(Err(CredentialsError::NoCredentialsFound), read(text), "text {:?}", text);
    }
}

#[test]
fn parse_credentials_file_should_fail_with_no_credentials_found_when_no_profile_is_complete() {
    for text in [
        "[default]\n",
        "[default]\naws_access_key_id=foo\n",
        "[default]\naws_secret_access_key=bar\n[other]\naws_access_key_id=foo\n",
        "aws_access_key_id=foo\naws_secret_access_key=bar\n",
        "aws_access_key_id=foo\naws_secret_access_key=bar\n[default]\n",
    ] {
        assert_eq!(Err(CredentialsError::NoCredentialsFound), read(text), "text {:?}", text);
    }
}

#[test]
fn credentials_of_default_profile_should_hold_both_keys_and_no_token() {
    assert_eq!(
        Ok(expected(&[("default", "foo", "bar", None)])),
        read("[default]\naws_access_key_id=foo\naws_secret_access_key=bar")
    );
}

#[test]
fn credentials_should_keep_the_first_access_key_of_a_profile() {
    assert_eq!(
        Ok(expected(&[("default", "first", "bar", None)])),
        read("[default]\naws_access_key_id=first\naws_access_key_id=second\naws_secret_access_key=bar\n")
    );
    assert_eq!(
        Ok(expected(&[("default", "foo", "first", None)])),
        read("[default]\naws_secret_access_key=first\naws_access_key_id=foo\naws_secret_access_key=second\n")
    );
}

#[test]
fn credentials_should_keep_the_session_token_when_the_older_name_follows() {
    assert_eq!(
        Ok(expected(&[("default", "foo", "bar", Some("session"))])),
        read("[default]\naws_access_key_id=foo\naws_secret_access_key=bar\naws_session_token=session\naws_security_token=security\n")
    );
}

#[test]
fn credentials_should_keep_the_token_of_the_older_name_when_it_comes_first() {
    assert_eq!(
        Ok(expected(&[("default", "foo", "bar", Some("security"))])),
        read("[default]\naws_access_key_id=foo\naws_secret_access_key=bar\naws_security_token=security\naws_session_token=session\n")
    );
}

#[test]
fn credentials_should_leave_out_a_profile_without_keys() {
    assert_eq!(
        Ok(expected(&[("full", "foo", "bar", None)])),
        read("[empty]\n[full]\naws_access_key_id=foo\naws_secret_access_key=bar\n[last]\nregion = us-east-2\n")
    );
}

#[test]
fn credentials_should_keep_an_earlier_complete_profile_when_a_later_one_of_the_name_is_incomplete() {
    assert_eq!(
        Ok(expected(&[("a", "foo", "bar", None)])),
        read("[a]\naws_access_key_id=foo\naws_secret_access_key=bar\n[a]\naws_access_key_id=other\n")
    );
}

#[test]
fn credentials_should_let_a_later_complete_profile_replace_an_earlier_one_of_the_name() {
    assert_eq!(
        Ok(expected(&[("a", "3", "4", None)])),
        read("[a]\naws_access_key_id=1\naws_secret_access_key=2\naws_session_token=t\n[profile a]\naws_access_key_id=3\naws_secret_access_key=4\n")
    );
}

#[test]
fn credentials_should_match_markers_in_any_case_and_keep_the_case_of_values() {
    assert_eq!(
        Ok(expected(&[("Default", "FooKey", "BarSecret", Some("Tok"))])),
        read("[Default]\nAWS_ACCESS_KEY_ID = FooKey\nAws_Secret_Access_Key = BarSecret\nAWS_SESSION_TOKEN = Tok\n")
    );
}

#[test]
fn credentials_should_start_each_profile_with_no_field_set() {
    assert_eq!(
        Ok(expected(&[("a", "1", "2", Some("t")), ("b", "3", "4", None)])),
        read("[a]\naws_access_key_id=1\naws_secret_access_key=2\naws_session_token=t\n[b]\naws_access_key_id=3\naws_secret_access_key=4\n")
    );
}

#[test]
fn credentials_read_twice_should_compare_equal() {
    let first = read(MULTIPLE_PROFILE_CREDENTIALS);
    let second = read(MULTIPLE_PROFILE_CREDENTIALS);

    assert_eq!(first, second);
    assert_eq!(2, first.unwrap().len());
}

#[test]
fn create_profile_credentials_map_from_should_agree_with_reading_the_text() {
    for text in [
        DEFAULT_PROFILE_CREDENTIALS,
        MULTIPLE_PROFILE_CREDENTIALS,
        FULL_PROFILE_CREDENTIALS,
    ] {
        assert_eq!(
            read(text),
            Ok(plain(&create_profile_credentials_map_from(&lines_of(text)))),
            "text {:?}",
            text
        );
    }
    assert!(create_profile_credentials_map_from(&Vec::new()).is_empty());
}

#[test]
fn same_as_should_hold_of_two_readings_of_one_credentials_file() {
    let first = parse_credentials_file(&file_of(MULTIPLE_PROFILE_CREDENTIALS)).unwrap();
    let second = parse_credentials_file(&file_of(MULTIPLE_PROFILE_CREDENTIALS)).unwrap();

    assert_eq!(true, first.same_as(&second));
    assert_eq!(true, first.same_as(&first));
}

#[test]
fn same_as_should_not_hold_of_credentials_files_that_differ() {
    let text = "[a]\naws_access_key_id=1\naws_secret_access_key=2\naws_session_token=t\n";
    let first = parse_credentials_file(&file_of(text)).unwrap();
    for other in [
        "[a]\naws_access_key_id=x\naws_secret_access_key=2\naws_session_token=t\n",
        "[a]\naws_access_key_id=1\naws_secret_access_key=x\naws_session_token=t\n",
        "[a]\naws_access_key_id=1\naws_secret_access_key=2\naws_session_token=x\n",
        "[a]\naws_access_key_id=1\naws_secret_access_key=2\n",
        "[b]\naws_access_key_id=1\naws_secret_access_key=2\naws_session_token=t\n",
        "[a]\naws_access_key_id=1\naws_secret_access_key=2\naws_session_token=t\n[b]\naws_access_key_id=1\naws_secret_access_key=2\n",
    ] {
        let second = parse_credentials_file(&file_of(other)).unwrap();
        assert_eq!(false, first.same_as(&second), "text {:?}", other);
        assert_eq!(false, second.same_as(&first), "text {:?}", other);
    }
    let reordered = parse_credentials_file(&file_of(
        "[a]\naws_session_token=t\naws_secret_access_key=2\naws_access_key_id=1\n",
    ))
    .unwrap();
    assert_eq!(true, first.same_as(&reordered));
}

#[test]
fn same_as_should_tell_credentials_apart_by_each_field() {
    let first = AwsCredentials::new("k".to_string(), "s".to_string(), Some("t".to_string()));

    assert_eq!(
        true,
        first.same_as(&AwsCredentials::new("k".to_string(), "s".to_string(), Some("t".to_string())))
    );
    assert_eq!(
        false,
        first.same_as(&AwsCredentials::new("K".to_string(), "s".to_string(), Some("t".to_string())))
    );
    assert_eq!(
        false,
        first.same_as(&AwsCredentials::new("k".to_string(), "".to_string(), Some("t".to_string())))
    );
    assert_eq!(
        false,
        first.same_as(&AwsCredentials::new("k".to_string(), "s".to_string(), None))
    );
}
