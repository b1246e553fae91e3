use rusty_toolkit::config::Config;
use rusty_toolkit::errors::VaultError;
use rusty_toolkit::file_search::FileSearch;
use rusty_toolkit::password::PasswordManager;
use rusty_toolkit::text::{contains_substring, str_eq, str_lex_leq, str_lex_max};

#[test]
fn test_new() {
    let file_search = FileSearch::new(None, None).unwrap();
    assert_eq!(file_search.path, None);
    assert_eq!(file_search.name, None);
    assert_eq!(file_search.result, Vec::<String>::new());
}

#[test]
fn file_search_keeps_inputs() {
    let fs = FileSearch::new(Some("/tmp".to_string()), Some("Cargo".to_string())).unwrap();
    assert_eq!(fs.path.as_deref(), Some("/tmp"));
    assert_eq!(fs.name.as_deref(), Some("Cargo"));
    assert!(fs.result.is_empty());
}

#[test]
fn test_default_config() {
    let config = Config::default();

    assert_eq!(config.logging.level, "info");
    assert_eq!(config.database.db_name, "pass.db");
}

#[test]
fn db_path_joins_directory_and_name() {
    let config = Config::default();
    assert_eq!(config.get_db_path("/home/user/.config/app"), "/home/user/.config/app/pass.db");
}

#[test]
fn test_generate_password() {
    let password = PasswordManager::generate_password(16).unwrap();
    assert_eq!(password.len(), 16);
}

#[test]
fn test_is_valid_password() {
    let password = "Password123!";
    assert!(PasswordManager::is_valid_password(password));
}

#[test]
fn test_is_valid_password_length() {
    assert!(PasswordManager::is_valid_password_length("16"));
}

#[test]
fn generated_passwords_have_length_and_complexity() {
    for length in [8usize, 9, 12, 16, 32, 64] {
        let p = PasswordManager::generate_password(length).unwrap();
        assert_eq!(p.chars().count(), length);
        assert!(PasswordManager::is_valid_password(&p));
    }
}

#[test]
fn generate_rejects_bad_lengths() {
    for length in [0usize, 1, 7, 65, 1000] {
        assert!(matches!(
            PasswordManager::generate_password(length),
            Err(VaultError::Validation)
        ));
    }
}

#[test]
fn complexity_rule_exact_cases() {
    assert!(!PasswordManager::is_valid_password(""));
    assert!(!PasswordManager::is_valid_password("alllowercase"));
    assert!(!PasswordManager::is_valid_password("ALLUPPERCASE"));
    assert!(!PasswordManager::is_valid_password("12345678"));
    assert!(!PasswordManager::is_valid_password("NoDigits!"));
    assert!(!PasswordManager::is_valid_password("NoSpecial1"));
    assert!(PasswordManager::is_valid_password("Ab1!"));
    assert!(PasswordManager::is_valid_password("xY9 ")); // space counts as special
}

#[test]
fn length_input_exact_cases() {
    assert!(PasswordManager::is_valid_password_length("8"));
    assert!(PasswordManager::is_valid_password_length("64"));
    assert!(PasswordManager::is_valid_password_length("+16"));
    assert!(PasswordManager::is_valid_password_length("0064"));
    assert!(!PasswordManager::is_valid_password_length("7"));
    assert!(!PasswordManager::is_valid_password_length("65"));
    assert!(!PasswordManager::is_valid_password_length(""));
    assert!(!PasswordManager::is_valid_password_length("+"));
    assert!(!PasswordManager::is_valid_password_length("abc"));
    assert!(!PasswordManager::is_valid_password_length("1 6"));
    assert!(!PasswordManager::is_valid_password_length("-16"));
    assert!(!PasswordManager::is_valid_password_length("99999999999999999999"));
}

#[test]
fn substring_search_exact_cases() {
    assert!(contains_substring("hello world", "lo wo"));
    assert!(contains_substring("hello", ""));
    assert!(contains_substring("", ""));
    assert!(contains_substring("abc", "abc"));
    assert!(!contains_substring("", "a"));
    assert!(!contains_substring("abc", "abcd"));
    assert!(!contains_substring("Hello", "hello"));
    assert!(contains_substring("überstraße", "straße"));
}

#[test]
fn string_equality_and_order() {
    assert!(str_eq("same", "same"));
    assert!(!str_eq("same", "samé"));
    assert!(str_lex_leq("2024-01-01T00:00:00.000000000Z", "2024-01-01T00:00:00.000000001Z"));
    assert!(!str_lex_leq("2025-01-01T00:00:00.000000000Z", "2024-12-31T23:59:59.999999999Z"));
    assert!(str_lex_leq("abc", "abcd"));
    assert!(!str_lex_leq("abcd", "abc"));
    assert_eq!(str_lex_max("apple", "banana"), "banana");
    assert_eq!(str_lex_max("banana", "apple"), "banana");
    assert_eq!(str_lex_max("tie", "tie"), "tie");
}

#[test]
fn error_messages_name_their_class() {
    assert!(VaultError::Authentication.message().contains("authentication"));
    assert!(VaultError::Storage("disk gone".to_string()).message().contains("disk gone"));
    let io = rusty_toolkit::errors::FileSearchError::IoError("broken".to_string());
    assert!(io.message().contains("broken"));
}
