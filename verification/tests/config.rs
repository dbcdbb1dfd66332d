use clockhand::config::{
    config_dir, credentials_malformed_message, credentials_missing_message, credentials_path, join,
    AccessCredentials,
};
use clockhand::errors::ErrorKind;
use std::path::Path;

#[test]
fn join_puts_one_separator_between() {
    assert_eq!(join("/home/u", ".config"), "/home/u/.config");
    assert_eq!(join("/home/u/", ".config"), "/home/u/.config");
    assert_eq!(join("", ".config"), ".config");
    assert_eq!(join("/", "x"), "/x");
    assert_eq!(join("a", ""), "a/");
}

#[test]
fn join_of_a_rooted_name_is_the_name() {
    assert_eq!(join("/home/u", "/etc"), "/etc");
    assert_eq!(join("", "/"), "/");
}

#[test]
fn join_agrees_with_std() {
    for base in ["", "/", "a", "a/", "/a/b", "/a/b//", ".", "./x"].iter() {
        for name in ["", "x", "x/y", ".config", "/abs", "/", "..", "./z"].iter() {
            let expected = Path::new(base).join(name);
            assert_eq!(join(base, name), expected.to_str().unwrap(), "{:?} {:?}", base, name);
        }
    }
}

#[test]
fn config_dir_lies_under_dot_config() {
    assert_eq!(config_dir("/home/u"), "/home/u/.config/clockhand");
    assert_eq!(config_dir("/home/u/"), "/home/u/.config/clockhand");
    assert_eq!(config_dir(""), ".config/clockhand");
}

#[test]
fn credentials_lie_in_the_config_dir() {
    assert_eq!(credentials_path("/home/u"), "/home/u/.config/clockhand/access-token.json");
}

#[test]
fn api_key_is_the_account_in_decimal() {
    let credentials = AccessCredentials { token: "SECRET".to_string(), account_id: 456 };
    assert_eq!(credentials.api_key(), "456");
    let negative = AccessCredentials { token: String::new(), account_id: -17 };
    assert_eq!(negative.api_key(), "-17");
    for id in [0, 7, 10, 1234567, i32::MAX, i32::MIN].iter() {
        let some = AccessCredentials { token: String::new(), account_id: *id };
        assert_eq!(some.api_key(), id.to_string());
    }
}

#[test]
fn missing_credentials_are_answered_with_instructions() {
    let text = credentials_missing_message("/home/u/.config/clockhand/access-token.json");
    assert_eq!(
        text,
        "didn't find the credentials config file at /home/u/.config/clockhand/access-token.json\n\n\
         1. visit https://id.getharvest.com/developers\n\
         2. Create new personal access token\n\
         3. Write json like {\"token\": \"123...\", \"account_id\": 456}\n   \
         into this file: /home/u/.config/clockhand/access-token.json\n"
    );
}

#[test]
fn malformed_credentials_name_the_file() {
    assert_eq!(credentials_malformed_message("/c/access-token.json"), "bad format for /c/access-token.json");
}

#[test]
fn missing_descriptor_is_answered_with_an_example() {
    assert_eq!(
        ErrorKind::ConfigNotFound.message("/p/alpha/clockhand.json"),
        "didn't find the project config file at /p/alpha/clockhand.json\n\n\
         1. Create a file at this path with the following contents:\n   \
         {\"harvest_project_id\": 12345, \"name\": \"My project\"}\n"
    );
}

#[test]
fn other_startup_failures_name_the_descriptor() {
    assert_eq!(ErrorKind::ConfigMalformed.message("/p/a.json"), "bad format for /p/a.json");
    assert_eq!(
        ErrorKind::ProjectRootMissing.message("clockhand.json"),
        "failed to find the project directory of clockhand.json"
    );
}

#[test]
fn failures_of_the_loop_have_their_own_words() {
    assert_eq!(ErrorKind::RemoteQueryFailed.message("x"), "failed to query the running timer");
    assert_eq!(ErrorKind::NotificationDeliveryFailed.message("x"), "failed to show the notification");
    assert_eq!(ErrorKind::WatchSubscriptionLost.message(""), "lost the subscription to file changes");
}
