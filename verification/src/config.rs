//! The user's credentials for the time-tracking service, and where their
//! file lies.

use vstd::prelude::*;
use vstd::string::StringExecFns;
use crate::paths::{has_root, SEPARATOR};
use crate::text::{push_char, push_signed_decimal, signed_decimal, to_chars};

verus! {

/// The token and the account that requests to the time-tracking service
/// are made with.
#[derive(Debug)]
pub struct AccessCredentials {
    /// The personal access token.
    pub token: String,
    /// The identifier of the account.
    pub account_id: i32,
}

impl AccessCredentials {
    /// The key that names the account in a request: its identifier in
    /// decimal.
    pub fn api_key(&self) -> (key: String)
        ensures
            key@ == signed_decimal(self.account_id as int),
    {
        let mut key = String::new();
        push_signed_decimal(&mut key, self.account_id as i64);
        key
    }
}

/// The path `name` as seen from the directory `base`: `name` itself when it
/// starts at the root; else `base` and `name` with one separator between
/// them, unless `base` is empty or ends in one already.
pub open spec fn spec_join(base: Seq<char>, name: Seq<char>) -> Seq<char> {
    if has_root(name) {
        name
    } else if base.len() == 0 || base.last() == SEPARATOR {
        base + name
    } else {
        base + seq![SEPARATOR] + name
    }
}

/// The path `name` as seen from the directory `base`.
pub fn join(base: &str, name: &str) -> (joined: String)
    ensures
        joined@ == spec_join(base@, name@),
{
    let name_chars = to_chars(name);
    if name_chars.len() > 0 && name_chars[0] == SEPARATOR {
        return name.to_owned();
    }
    let base_chars = to_chars(base);
    let mut joined = base.to_owned();
    if base_chars.len() > 0 && base_chars[base_chars.len() - 1] != SEPARATOR {
        push_char(&mut joined, SEPARATOR);
    }
    joined.append(name);
    joined
}

/// The directory under the user's home directory that holds the files of
/// applications.
pub const USER_CONFIG_DIR: &'static str = ".config";

/// The application's name, which is also the name of its directory.
pub const APP_NAME: &'static str = "clockhand";

/// The name of the credentials file.
pub const CREDENTIALS_FILE: &'static str = "access-token.json";

/// The directory that holds the application's files, for a user whose home
/// directory is `home`.
pub open spec fn spec_config_dir(home: Seq<char>) -> Seq<char> {
    spec_join(spec_join(home, USER_CONFIG_DIR@), APP_NAME@)
}

/// The directory that holds the application's files, for a user whose home
/// directory is `home`.
pub fn config_dir(home: &str) -> (dir: String)
    ensures
        dir@ == spec_config_dir(home@),
{
    let above = join(home, USER_CONFIG_DIR);
    join(above.as_str(), APP_NAME)
}

/// The path of the credentials file, for a user whose home directory is
/// `home`.
pub fn credentials_path(home: &str) -> (path: String)
    ensures
        path@ == spec_join(spec_config_dir(home@), CREDENTIALS_FILE@),
{
    let dir = config_dir(home);
    join(dir.as_str(), CREDENTIALS_FILE)
}

/// How to get credentials, up to the path of the file that is to hold
/// them.
pub const CREDENTIALS_STEPS: &'static str =
    "\n\n1. visit https://id.getharvest.com/developers\n2. Create new personal access token\n3. Write json like {\"token\": \"123...\", \"account_id\": 456}\n   into this file: ";

/// What the user is told when there is no credentials file at `path`: where
/// it was looked for, and how to make one.
pub open spec fn spec_credentials_missing(path: Seq<char>) -> Seq<char> {
    "didn't find the credentials config file at "@ + path + CREDENTIALS_STEPS@ + path + "\n"@
}

/// What the user is told when there is no credentials file at `path`.
pub fn credentials_missing_message(path: &str) -> (text: String)
    ensures
        text@ == spec_credentials_missing(path@),
{
    let mut text = "didn't find the credentials config file at ".to_owned();
    text.append(path);
    text.append(CREDENTIALS_STEPS);
    text.append(path);
    text.append("\n");
    text
}

/// What the user is told when the credentials file at `path` does not hold
/// credentials.
pub fn credentials_malformed_message(path: &str) -> (text: String)
    ensures
        text@ == "bad format for "@ + path@,
{
    let mut text = "bad format for ".to_owned();
    text.append(path);
    text
}

} // verus!
