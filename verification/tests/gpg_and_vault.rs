use gitcore::list_gpg_keys;
use gitcore::vault::{VaultError, decrypt_vault, encrypt_vault, frame_vault, unframe_vault};

#[test]
fn test_list_gpg_keys_parsing() {
    let sample_output = "\
sec:u:3072:1:C57492EDC2E97855:1584617173:::u:::scESC::::::23::
uid:u::::1584617173::41CD10AD71E738597F876617C57492EDC2E97855::John Doe <john@doe.com>::::::::::
sec:u:4096:1:AABBCCDDEEFF0011:1584617174:::u:::scESC::::::23::
uid:u::::1584617174::41CD10AD71E738597F876617C57492EDC2E97855::Alice Smith <alice@example.com>::::::::::
";
    let keys = list_gpg_keys(true, sample_output).unwrap();
    assert_eq!(keys.len(), 2);

    assert_eq!(keys[0].id, "C57492EDC2E97855");
    assert_eq!(keys[0].name, "John Doe");
    assert_eq!(keys[0].email, "john@doe.com");

    assert_eq!(keys[1].id, "AABBCCDDEEFF0011");
    assert_eq!(keys[1].name, "Alice Smith");
    assert_eq!(keys[1].email, "alice@example.com");
}

#[test]
fn gpg_failed_run_lists_no_keys() {
    let keys = list_gpg_keys(false, "sec:u:1:1:ABC\nuid:u::::::::A <a@b>\n").unwrap();
    assert!(keys.is_empty());
}

#[test]
fn gpg_uid_without_pending_sec_is_ignored_and_crlf_lines_are_read() {
    let out = "uid:u::::::::Nobody <n@x>\r\nsec:u:1:1:KEY1\r\nuid:u::::::::Bob  < bob@x.org >\r\nuid:u::::::::Again <a@x>\r\n";
    let keys = list_gpg_keys(true, out).unwrap();
    assert_eq!(keys.len(), 1);
    assert_eq!(keys[0].id, "KEY1");
    assert_eq!(keys[0].name, "Bob");
    assert_eq!(keys[0].email, "bob@x.org");
}

#[test]
fn gpg_identity_with_reversed_brackets_cannot_be_read() {
    let out = "sec:u:1:1:KEY1\nuid:u::::::::weird > name <\n";
    assert!(list_gpg_keys(true, out).is_none());
}

#[test]
fn test_vault_encryption_cycle() {
    let plaintext = br#"{"config":{"accounts":[{"name":"test","platform":"github","key_path":"id_ed25519_test","host_alias":"github-test","username":"tester","email":"test@example.com","gpg_key_id":null}]},"keys":[{"filename":"id_ed25519_test","private_content":"PRIVATE KEY CONTENT","public_content":"PUBLIC KEY CONTENT"}]}"#;
    let password = "strongpassword123";

    let encrypted = encrypt_vault(plaintext, password).expect("Encryption failed");
    let decrypted = decrypt_vault(&encrypted, password).expect("Decryption failed");

    assert_eq!(decrypted, plaintext.to_vec());
    assert_eq!(encrypted.len(), 16 + 12 + plaintext.len() + 16);
}

#[test]
fn test_vault_wrong_password() {
    let plaintext = br#"{"config":{"accounts":[]},"keys":[]}"#;
    let encrypted = encrypt_vault(plaintext, "password").unwrap();
    let result = decrypt_vault(&encrypted, "wrong_password");
    assert!(result.is_err());
    assert_eq!(result.unwrap_err(), VaultError::Decryption);
}

#[test]
fn vault_too_short_and_corrupted() {
    assert_eq!(decrypt_vault(&[0u8; 27], "pw"), Err(VaultError::TooShort));
    assert_eq!(VaultError::TooShort.message(), "Invalid vault file: too short");
    let mut encrypted = encrypt_vault(b"data", "pw").unwrap();
    let last = encrypted.len() - 1;
    encrypted[last] ^= 1;
    assert_eq!(decrypt_vault(&encrypted, "pw"), Err(VaultError::Decryption));
}

#[test]
fn vault_frame_round_trip() {
    let framed = frame_vault(&[1u8; 16], &[2u8; 12], &[3, 4, 5]);
    assert_eq!(framed.len(), 31);
    let (s, n, c) = unframe_vault(&framed).unwrap();
    assert_eq!(s, vec![1u8; 16]);
    assert_eq!(n, vec![2u8; 12]);
    assert_eq!(c, vec![3, 4, 5]);
}
