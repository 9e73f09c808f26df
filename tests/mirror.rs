use resharding::mirror::{resolve_secret, PrepareCmd, SecretArgsError};

#[test]
fn prepare_maps_records_with_secret_unless_disabled() {
    let cmd = PrepareCmd {
        records_file_in: "in.json".to_string(),
        records_file_out: "out.json".to_string(),
        no_secret: false,
        secret_file_out: "secret".to_string(),
    };
    let r = cmd.run();
    assert_eq!(r.records_file_in, "in.json");
    assert_eq!(r.records_file_out, "out.json");
    assert_eq!(r.secret_file_out, "secret");
    assert!(r.use_secret);
    let cmd = PrepareCmd {
        records_file_in: "a".to_string(),
        records_file_out: "b".to_string(),
        no_secret: true,
        secret_file_out: "c".to_string(),
    };
    assert!(!cmd.run().use_secret);
}

#[test]
fn secret_arguments_resolve() {
    assert_eq!(resolve_secret::<u8>(None, true), Ok(None));
    assert_eq!(resolve_secret::<u8>(None, false), Err(SecretArgsError::MissingSecretChoice));
    assert_eq!(resolve_secret::<u8>(Some(None), false), Ok(None));
    assert_eq!(resolve_secret::<u8>(Some(None), true), Ok(None));
    assert_eq!(resolve_secret(Some(Some(7u8)), false), Ok(Some(7)));
    assert_eq!(resolve_secret(Some(Some(7u8)), true), Err(SecretArgsError::ConflictingSecret));
    assert_eq!(
        SecretArgsError::MissingSecretChoice.message(),
        "Please give either --secret-file or --no-secret"
    );
}
