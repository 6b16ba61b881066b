use mealie_backup::config::Config;
use mealie_backup::get_backup::{
    AllBackups, Backup, BackupError, FileTokenResponse, HTTPValidationError, HttpRequest, Method,
    SuccessResponse, ValidationError,
};
use mealie_backup::retention::LocalBackupFile;
use mealie_backup::run::{
    save_backup, select_target, Action, BackupRun, Event, Expect, Payload, Phase,
};

fn config(max_server_backups: usize, max_local_backups: usize) -> Config {
    Config {
        api_url: "http://mealie.local:9000".to_string(),
        api_key: "k3y".to_string(),
        max_server_backups,
        max_local_backups,
        local_backups_location: "/srv/backups".to_string(),
        log_location: "/srv/backups/logs".to_string(),
    }
}

fn backup(name: &str, date: &str) -> Backup {
    Backup { name: name.to_string(), date: date.to_string(), size: "1 kB".to_string() }
}

fn catalog(entries: &[(&str, &str)]) -> AllBackups {
    AllBackups {
        backups: entries.iter().map(|(name, date)| backup(name, date)).collect(),
        templates: vec!["recipes.md".to_string()],
    }
}

fn done() -> Event {
    Event::Json(Payload::Success(SuccessResponse { message: "ok".to_string(), error: false }))
}

fn file(path: &str, created: i128) -> LocalBackupFile {
    LocalBackupFile { path: path.to_string(), is_file: true, created: Some(created) }
}

fn request(method: Method, path: &str) -> Action {
    Action::Send(HttpRequest {
        method,
        url: format!("http://mealie.local:9000{}", path),
        accept_language: Some("en-US".to_string()),
        authorization: Some("Bearer k3y".to_string()),
        token: None,
    })
}

fn failure(error: BackupError) -> Action {
    Action::Finish(Err(error))
}

/// Feeds the events to a fresh run and returns the run with every action it
/// asked for, the first one included.
fn drive(config: Config, events: Vec<Event>) -> (BackupRun, Vec<Action>) {
    let (mut run, first) = BackupRun::new(config);
    let mut actions = vec![first];
    for event in events {
        let (next, action) = run.step(event);
        run = next;
        actions.push(action);
    }
    (run, actions)
}

fn two_backups() -> AllBackups {
    catalog(&[("b.zip", "2024-01-02T00:00:00Z"), ("a.zip", "2024-01-01T00:00:00Z")])
}

/// The events of a run up to and including the arrival of the archive.
fn until_downloaded(listed: AllBackups, archive: Vec<u8>) -> Vec<Event> {
    vec![
        Event::Status(200),
        done(),
        Event::Status(200),
        Event::Json(Payload::Catalog(listed)),
        Event::Status(200),
        Event::Json(Payload::FileToken(FileTokenResponse { file_token: "t0k3n".to_string() })),
        Event::Status(200),
        Event::Bytes(archive),
    ]
}

#[test]
fn select_target_takes_the_first_entry() {
    let listed = two_backups();
    assert_eq!(select_target(&listed), Ok(&listed.backups[0]));
    let listed = catalog(&[("old.zip", "1999-01-01T00:00:00Z"), ("new.zip", "2024-01-01T00:00:00Z")]);
    assert_eq!(select_target(&listed).map(|b| b.name.as_str()), Ok("old.zip"));
    let listed = catalog(&[("only.zip", "not a date")]);
    assert_eq!(select_target(&listed).map(|b| b.name.as_str()), Ok("only.zip"));
}

#[test]
fn select_target_of_an_empty_catalog_fails() {
    assert_eq!(select_target(&catalog(&[])), Err(BackupError::EmptyCatalog));
}

#[test]
fn save_backup_writes_under_the_backup_name() {
    let action = save_backup("b.zip", "/srv/backups", vec![1, 2, 3]);
    assert_eq!(
        action,
        Action::WriteFile { path: "/srv/backups/b.zip".to_string(), data: vec![1, 2, 3] }
    );
    let action = save_backup("", "", vec![]);
    assert_eq!(action, Action::WriteFile { path: "/".to_string(), data: vec![] });
}

#[test]
fn run_begins_by_creating_a_backup() {
    let (run, first) = BackupRun::new(config(2, 3));
    assert_eq!(first, request(Method::Post, "/api/admin/backups"));
    assert_eq!(run.phase(), Phase::AwaitCreate);
    assert!(!run.is_finished());
}

#[test]
fn run_with_an_unsendable_credential_ends_before_it_begins() {
    let mut settings = config(2, 3);
    settings.api_key = "line\nbreak".to_string();
    let (run, first) = BackupRun::new(settings);
    assert_eq!(first, failure(BackupError::InvalidHeader));
    assert!(run.is_finished());
}

#[test]
fn scenario_newest_is_downloaded_and_oldest_deleted() {
    let mut events = until_downloaded(two_backups(), b"PK\x03\x04archive".to_vec());
    events.extend([
        Event::Written,
        Event::Status(200),
        done(),
        Event::Listing(vec![file("/srv/backups/b.zip", 5)]),
    ]);
    let (run, actions) = drive(config(2, 3), events);
    let token_only = Action::Send(HttpRequest {
        method: Method::Get,
        url: "http://mealie.local:9000/api/utils/download".to_string(),
        accept_language: None,
        authorization: None,
        token: Some("t0k3n".to_string()),
    });
    let expected = vec![
        request(Method::Post, "/api/admin/backups"),
        Action::ReadJson(Expect::Success),
        request(Method::Get, "/api/admin/backups"),
        Action::ReadJson(Expect::Catalog),
        request(Method::Get, "/api/admin/backups/b.zip"),
        Action::ReadJson(Expect::FileToken),
        token_only,
        Action::ReadBytes,
        Action::WriteFile {
            path: "/srv/backups/b.zip".to_string(),
            data: b"PK\x03\x04archive".to_vec(),
        },
        request(Method::Delete, "/api/admin/backups/a.zip"),
        Action::ReadJson(Expect::Success),
        Action::ListDirectory { path: "/srv/backups".to_string() },
        Action::Finish(Ok(())),
    ];
    assert_eq!(actions, expected);
    assert!(run.is_finished());
}

#[test]
fn scenario_empty_catalog_ends_the_run() {
    let events = vec![
        Event::Status(200),
        done(),
        Event::Status(200),
        Event::Json(Payload::Catalog(catalog(&[]))),
    ];
    let (run, actions) = drive(config(2, 3), events);
    assert_eq!(actions.len(), 5);
    assert_eq!(actions[4], failure(BackupError::EmptyCatalog));
    assert!(run.is_finished());
    let (run, action) = run.step(Event::Status(200));
    assert_eq!(action, failure(BackupError::UnexpectedEvent));
    assert!(run.is_finished());
}

#[test]
fn scenario_oldest_two_of_five_local_files_are_removed() {
    let mut events = until_downloaded(two_backups(), vec![0]);
    events.extend([
        Event::Written,
        Event::Listing(vec![
            file("/srv/backups/t4", 400),
            file("/srv/backups/t1", 100),
            file("/srv/backups/t5", 500),
            file("/srv/backups/t2", 200),
            file("/srv/backups/t3", 300),
        ]),
        Event::Removed,
        Event::Removed,
    ]);
    let (run, actions) = drive(config(3, 3), events);
    let tail: Vec<&Action> = actions.iter().skip(9).collect();
    assert_eq!(
        tail,
        vec![
            &Action::ListDirectory { path: "/srv/backups".to_string() },
            &Action::RemoveFile { path: "/srv/backups/t1".to_string() },
            &Action::RemoveFile { path: "/srv/backups/t2".to_string() },
            &Action::Finish(Ok(())),
        ]
    );
    assert!(run.is_finished());
}

#[test]
fn scenario_refused_download_carries_the_violations() {
    let refusal = HTTPValidationError {
        detail: vec![ValidationError {
            loc: vec!["query".to_string(), "token".to_string()],
            msg: "field required".to_string(),
            kind: "value_error.missing".to_string(),
        }],
    };
    let mut events = until_downloaded(two_backups(), vec![]);
    events.truncate(6);
    events.push(Event::Status(422));
    events.push(Event::Json(Payload::Validation(refusal.clone())));
    let (run, actions) = drive(config(2, 3), events);
    assert_eq!(actions[7], Action::ReadJson(Expect::Validation));
    assert_eq!(actions[8], failure(BackupError::Validation(refusal)));
    assert!(run.is_finished());
    assert!(actions.iter().all(|action| !matches!(action, Action::WriteFile { .. })));
}

#[test]
fn archive_is_written_as_received() {
    let archive: Vec<u8> = (0..=255u8).chain([0, 255, 0, 13, 10]).collect();
    let (_, actions) = drive(config(2, 3), until_downloaded(two_backups(), archive.clone()));
    assert_eq!(
        actions[8],
        Action::WriteFile { path: "/srv/backups/b.zip".to_string(), data: archive }
    );
}

#[test]
fn target_is_the_first_entry_whatever_its_date() {
    let listed = catalog(&[("old.zip", "2001-01-01T00:00:00Z"), ("new.zip", "2024-01-01T00:00:00Z")]);
    let (_, actions) = drive(config(9, 9), until_downloaded(listed, vec![7]));
    assert_eq!(actions[4], request(Method::Get, "/api/admin/backups/old.zip"));
    assert_eq!(actions[8], Action::WriteFile { path: "/srv/backups/old.zip".to_string(), data: vec![7] });
}

#[test]
fn nothing_is_deleted_below_the_server_limit() {
    let mut events = until_downloaded(two_backups(), vec![0]);
    events.push(Event::Written);
    let (run, actions) = drive(config(3, 3), events);
    assert_eq!(actions[9], Action::ListDirectory { path: "/srv/backups".to_string() });
    assert_eq!(run.phase(), Phase::AwaitListing);
    assert!(actions.iter().all(|action| match action {
        Action::Send(request) => request.method != Method::Delete,
        _ => true,
    }));
}

#[test]
fn run_ends_when_no_local_file_is_in_excess() {
    let mut events = until_downloaded(two_backups(), vec![0]);
    events.extend([Event::Written, Event::Listing(vec![file("a", 1), file("b", 2), file("c", 3)])]);
    let (run, actions) = drive(config(3, 3), events);
    assert_eq!(actions[10], Action::Finish(Ok(())));
    assert!(run.is_finished());
}

#[test]
fn failed_removal_ends_the_run() {
    let mut events = until_downloaded(two_backups(), vec![0]);
    events.extend([
        Event::Written,
        Event::Listing(vec![file("a", 1), file("b", 2), file("c", 3)]),
        Event::FilesystemFailed,
    ]);
    let (run, actions) = drive(config(3, 1), events);
    assert_eq!(actions[10], Action::RemoveFile { path: "a".to_string() });
    assert_eq!(actions[11], failure(BackupError::Filesystem));
    assert!(run.is_finished());
}

#[test]
fn non_success_status_is_a_transport_error() {
    let (run, actions) = drive(config(2, 3), vec![Event::Status(500)]);
    assert_eq!(actions[1], failure(BackupError::Transport { status: Some(500) }));
    assert!(run.is_finished());
    let (_, actions) = drive(config(2, 3), vec![Event::Status(200), done(), Event::Status(401)]);
    assert_eq!(actions[3], failure(BackupError::Transport { status: Some(401) }));
    let mut events = until_downloaded(two_backups(), vec![]);
    events.truncate(4);
    events.push(Event::Status(404));
    let (_, actions) = drive(config(2, 3), events);
    assert_eq!(actions[5], failure(BackupError::Transport { status: Some(404) }));
    let mut events = until_downloaded(two_backups(), vec![0]);
    events.extend([Event::Written, Event::Status(199)]);
    let (_, actions) = drive(config(2, 3), events);
    assert_eq!(actions[10], failure(BackupError::Transport { status: Some(199) }));
    let (_, actions) = drive(config(2, 3), vec![Event::Status(300)]);
    assert_eq!(actions[1], failure(BackupError::Transport { status: Some(300) }));
}

#[test]
fn unanswered_request_is_a_transport_error() {
    let (run, actions) = drive(config(2, 3), vec![Event::TransportFailed]);
    assert_eq!(actions[1], failure(BackupError::Transport { status: None }));
    assert!(run.is_finished());
}

#[test]
fn malformed_body_is_a_decode_error() {
    let (run, actions) = drive(config(2, 3), vec![Event::Status(200), Event::DecodeFailed]);
    assert_eq!(actions[2], failure(BackupError::Decode));
    assert!(run.is_finished());
    let mut events = until_downloaded(two_backups(), vec![]);
    events.truncate(6);
    events.extend([Event::Status(422), Event::DecodeFailed]);
    let (_, actions) = drive(config(2, 3), events);
    assert_eq!(actions[8], failure(BackupError::Decode));
}

#[test]
fn failed_write_or_listing_is_a_filesystem_error() {
    let mut events = until_downloaded(two_backups(), vec![0]);
    events.push(Event::FilesystemFailed);
    let (_, actions) = drive(config(2, 3), events);
    assert_eq!(actions[9], failure(BackupError::Filesystem));
    let mut events = until_downloaded(two_backups(), vec![0]);
    events.extend([Event::Written, Event::FilesystemFailed]);
    let (_, actions) = drive(config(3, 3), events);
    assert_eq!(actions[10], failure(BackupError::Filesystem));
}

#[test]
fn event_out_of_turn_ends_the_run() {
    let (run, actions) = drive(config(2, 3), vec![Event::Written]);
    assert_eq!(actions[1], failure(BackupError::UnexpectedEvent));
    assert!(run.is_finished());
    let (_, actions) = drive(config(2, 3), vec![Event::Status(200), Event::Status(200)]);
    assert_eq!(actions[2], failure(BackupError::UnexpectedEvent));
    let listed = Event::Json(Payload::Catalog(two_backups()));
    let (_, actions) = drive(config(2, 3), vec![Event::Status(200), listed]);
    assert_eq!(actions[2], failure(BackupError::UnexpectedEvent));
    let (_, actions) = drive(config(2, 3), vec![Event::Status(200), Event::Bytes(vec![])]);
    assert_eq!(actions[2], failure(BackupError::UnexpectedEvent));
    let (_, actions) = drive(config(2, 3), vec![Event::Removed]);
    assert_eq!(actions[1], failure(BackupError::UnexpectedEvent));
    let (_, actions) = drive(config(2, 3), vec![Event::Listing(vec![])]);
    assert_eq!(actions[1], failure(BackupError::UnexpectedEvent));
}

#[test]
fn creation_flagged_as_error_does_not_stop_the_run() {
    let flagged = Event::Json(Payload::Success(SuccessResponse {
        message: "backup failed".to_string(),
        error: true,
    }));
    let (run, actions) = drive(config(2, 3), vec![Event::Status(201), flagged]);
    assert_eq!(actions[2], request(Method::Get, "/api/admin/backups"));
    assert_eq!(run.phase(), Phase::AwaitCatalog);
}

#[test]
fn unreadable_server_date_goes_first() {
    let listed = catalog(&[
        ("new.zip", "2024-01-02T00:00:00Z"),
        ("old.zip", "2020-01-01T00:00:00Z"),
        ("odd.zip", "02/01/2024"),
    ]);
    let mut events = until_downloaded(listed, vec![0]);
    events.push(Event::Written);
    let (_, actions) = drive(config(3, 3), events);
    assert_eq!(actions[9], request(Method::Delete, "/api/admin/backups/odd.zip"));
}
