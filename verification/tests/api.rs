use ytkew::api::{browse_id, check_access, AuthLevel};

#[test]
fn playlist_ids_get_the_vl_browse_prefix() {
    // YouTube's browse endpoint 400s on a bare playlist id.
    assert_eq!(browse_id("LM"), "VLLM");
    assert_eq!(browse_id("PLabc123"), "VLPLabc123");
}

#[test]
fn an_already_prefixed_id_is_left_alone() {
    assert_eq!(browse_id("VLLM"), "VLLM");
    assert_eq!(browse_id("VLPLabc123"), "VLPLabc123");
}

#[test]
fn offline_queries_error_instead_of_panicking() {
    assert!(!AuthLevel::Offline.is_authenticated());
    assert!(AuthLevel::Offline.is_offline());
    // Searches and library queries alike report the lost connection, not
    // the misleading sign-in hint.
    let e = check_access(AuthLevel::Offline, false).err().unwrap();
    assert!(e.message.contains("no connection"), "got {}", e.message);
    let e = check_access(AuthLevel::Offline, true).err().unwrap();
    assert!(e.message.contains("no connection"), "got {}", e.message);
}

#[test]
fn library_queries_need_a_sign_in() {
    let e = check_access(AuthLevel::NoAuth, true).err().unwrap();
    assert!(e.message.contains("--auth"), "got {}", e.message);
    assert!(check_access(AuthLevel::NoAuth, false).is_ok());
    assert!(check_access(AuthLevel::LoggedIn, true).is_ok());
}
