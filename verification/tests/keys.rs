use cursor::client::CursorClient;
use cursor::keys::{client_key, fs_client_key, to_lower_hex};

fn is_hex(text: &str) -> bool {
    text.chars().all(|c| c.is_ascii_digit() || ('a'..='f').contains(&c))
}

fn is_random_uuid(text: &str) -> bool {
    let groups: Vec<&str> = text.split('-').collect();
    let lengths: Vec<usize> = groups.iter().map(|group| group.len()).collect();
    lengths == [8, 4, 4, 4, 12]
        && groups.iter().all(|group| is_hex(group))
        && groups[2].starts_with('4')
        && ['8', '9', 'a', 'b'].contains(&groups[3].chars().next().unwrap())
}

#[test]
fn hexadecimal_is_lower_case_and_two_digits_each() {
    assert_eq!(to_lower_hex(&[]), "");
    assert_eq!(to_lower_hex(&[0x00, 0x0f, 0xa0, 0xff, 0x5b]), "000fa0ff5b");
    assert_ne!(to_lower_hex(&[0x01, 0x23]), to_lower_hex(&[0x12, 0x03]));
}

#[test]
fn checksum_is_a_prefixed_sha256() {
    assert_eq!(
        CursorClient::compute_checksum(b""),
        "TPn75BGqe3b0c44298fc1c149afbf4c8996fb92427ae41e4649b934ca495991b7852b855"
    );
    assert_eq!(
        CursorClient::compute_checksum(b"abc"),
        "TPn75BGqba7816bf8f01cfea414140de5dae2223b00361a396177a9cb410ff61f20015ad"
    );
}

#[test]
fn keys_are_digests_of_the_random_text() {
    let random = "00000000-0000-4000-8000-000000000000";
    assert_eq!(
        client_key(random),
        "db8055e0e0307d5a016bec4dc338d69875eb0fb7e614a8b125b08fb082095d98"
    );
    assert_eq!(
        fs_client_key(random),
        "7a595fed60b3d1152e2073b0b4bb5bf40d0c18fa80edd6e655ab18b09c531762"
    );
}

#[test]
fn fresh_keys_have_the_form_of_a_digest() {
    for key in [CursorClient::generate_client_key(), CursorClient::generate_fs_client_key()] {
        assert_eq!(key.len(), 64);
        assert!(is_hex(&key));
    }
    assert_ne!(CursorClient::generate_client_key(), CursorClient::generate_client_key());
}

#[test]
fn time_zone_is_an_offset() {
    let timezone = CursorClient::get_timezone();
    assert!(timezone.len() == 6 || timezone.len() == 9, "{}", timezone);
    for (i, c) in timezone.chars().enumerate() {
        match i {
            0 => assert!(c == '+' || c == '-'),
            3 | 6 => assert_eq!(c, ':'),
            _ => assert!(c.is_ascii_digit()),
        }
    }
}

#[test]
fn new_session_has_random_identifiers() {
    let client = CursorClient::new(Some("token".to_string()));
    assert_eq!(client.auth_token.as_deref(), Some("token"));
    assert!(is_random_uuid(&client.session_id));
    assert!(is_random_uuid(&client.workspace_id));
    assert_ne!(client.session_id, client.workspace_id);
    assert_eq!(client.client_key.len(), 64);
    assert_eq!(client.fs_client_key.len(), 64);
    assert_ne!(client.client_key, client.fs_client_key);
    assert_eq!(CursorClient::new(None).auth_token, None);
}
