use pgpaste::client::{create_outcome, read_outcome, CreateOutcome, ReadOutcome};

#[test]
fn create_statuses() {
    assert_eq!(create_outcome(201), CreateOutcome::Created);
    assert_eq!(create_outcome(409), CreateOutcome::SlugTaken);
    assert_eq!(create_outcome(400), CreateOutcome::Unexpected);
    assert_eq!(create_outcome(200), CreateOutcome::Unexpected);
}

#[test]
fn read_statuses() {
    assert_eq!(read_outcome(200, None), ReadOutcome::Found);
    assert_eq!(read_outcome(200, Some("application/msgpack")), ReadOutcome::Found);
    assert_eq!(read_outcome(200, Some("text/plain")), ReadOutcome::InvalidContentType);
    assert_eq!(read_outcome(404, None), ReadOutcome::NotFound);
    assert_eq!(read_outcome(500, Some("application/msgpack")), ReadOutcome::Unexpected);
}

#[test]
fn client_defaults() {
    assert_eq!(pgpaste::cli::default_server(), "https://pgpaste.org");
    assert!(pgpaste::cli::to_do::<Option<String>>("2030-01-01").is_err());
}
