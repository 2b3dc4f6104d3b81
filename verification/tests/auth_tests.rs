use native_bridge::auth::{check_auth_core, FileProbe, AUTH_FILE_MAX_BYTES};

#[test]
fn size_cap_is_one_thousand_bytes() {
    assert_eq!(AUTH_FILE_MAX_BYTES, 1000);
}

#[test]
fn matching_file_within_cap_is_accepted() {
    let secret = "s".repeat(900);
    let probe = FileProbe::Sized { size: 900, content: Some(secret.clone()) };
    assert!(check_auth_core(&probe, &secret));
}

#[test]
fn oversized_file_is_rejected_regardless_of_content() {
    let secret = "s".repeat(1001);
    let probe = FileProbe::Sized { size: 1001, content: Some(secret.clone()) };
    assert!(!check_auth_core(&probe, &secret));
}

#[test]
fn file_of_exactly_the_cap_is_still_read() {
    let secret = "s".repeat(1000);
    let probe = FileProbe::Sized { size: 1000, content: Some(secret.clone()) };
    assert!(check_auth_core(&probe, &secret));
}

#[test]
fn missing_path_is_rejected() {
    assert!(!check_auth_core(&FileProbe::Missing, &"token".to_string()));
}

#[test]
fn non_regular_file_is_rejected() {
    assert!(!check_auth_core(&FileProbe::NotRegular, &"token".to_string()));
}

#[test]
fn unreadable_file_is_rejected() {
    let probe = FileProbe::Sized { size: 10, content: None };
    assert!(!check_auth_core(&probe, &"token".to_string()));
}

#[test]
fn comparison_is_exact_without_trimming() {
    let probe = FileProbe::Sized { size: 6, content: Some("token\n".to_string()) };
    assert!(!check_auth_core(&probe, &"token".to_string()));
    let probe = FileProbe::Sized { size: 5, content: Some("Token".to_string()) };
    assert!(!check_auth_core(&probe, &"token".to_string()));
    let probe = FileProbe::Sized { size: 5, content: Some("token".to_string()) };
    assert!(check_auth_core(&probe, &"token".to_string()));
}
