use crate::config::Config;
use crate::get_backup::{
    authorized_request, backup_url, collection_url, download_request, headers_ok, is_built,
    is_success, status_is_success, AllBackups, Backup, BackupError, BackupService,
    FileTokenResponse, HTTPValidationError, HttpRequest, HttpRequestView, Method,
    SuccessResponse,
};
use crate::retention::{
    backup_instants, cleanup_old_backups, cleanup_old_local_backups, is_oldest,
    lemma_server_victim, local_prune, server_victim, LocalBackupFile,
};
use vstd::prelude::*;
use vstd::string::*;

verus! {

/// The shape in which the body of an answer is to be read.
#[derive(Debug, Clone, Copy, PartialEq, Eq, Structural)]
pub enum Expect {
    Catalog,
    Success,
    FileToken,
    Validation,
}

/// The body of an answer, read in one of the four shapes.
#[derive(Debug, Clone, PartialEq, Eq)]
pub enum Payload {
    Catalog(AllBackups),
    Success(SuccessResponse),
    FileToken(FileTokenResponse),
    Validation(HTTPValidationError),
}

/// What the outside world reports back after an action.
#[derive(Debug, Clone, PartialEq, Eq)]
pub enum Event {
    /// A request was answered, with this status code.
    Status(u16),
    /// The body of the last answer, read in the shape that was asked for.
    Json(Payload),
    /// The body of the last answer, as it came.
    Bytes(Vec<u8>),
    /// The file was written.
    Written,
    /// The entries of the directory.
    Listing(Vec<LocalBackupFile>),
    /// The file was removed.
    Removed,
    /// The request got no answer, or the answer's body could not be received.
    TransportFailed,
    /// The body did not have the shape that was asked for.
    DecodeFailed,
    /// The file or directory operation failed.
    FilesystemFailed,
}

/// What the run asks of the outside world next.
#[derive(Debug, PartialEq, Eq)]
pub enum Action {
    /// Send the request and report the status of the answer.
    Send(HttpRequest),
    /// Read the body of the last answer in the given shape.
    ReadJson(Expect),
    /// Read the body of the last answer as bytes.
    ReadBytes,
    /// Create or truncate the file at `path` and write `data` to it.
    WriteFile { path: String, data: Vec<u8> },
    /// List the entries of the directory at `path`.
    ListDirectory { path: String },
    /// Remove the file at `path`.
    RemoveFile { path: String },
    /// Stop: the run is over, with this outcome.
    Finish(Result<(), BackupError>),
}

/// An action, with its texts as sequences of characters and its data as a
/// sequence of bytes.
#[verifier::ext_equal]
pub enum ActionView {
    Send(HttpRequestView),
    ReadJson(Expect),
    ReadBytes,
    WriteFile { path: Seq<char>, data: Seq<u8> },
    ListDirectory { path: Seq<char> },
    RemoveFile { path: Seq<char> },
    Finish(Result<(), BackupError>),
}

impl View for Action {
    type V = ActionView;

    open spec fn view(&self) -> ActionView {
        match *self {
            Action::Send(request) => ActionView::Send(request@),
            Action::ReadJson(expect) => ActionView::ReadJson(expect),
            Action::ReadBytes => ActionView::ReadBytes,
            Action::WriteFile { path, data } => ActionView::WriteFile { path: path@, data: data@ },
            Action::ListDirectory { path } => ActionView::ListDirectory { path: path@ },
            Action::RemoveFile { path } => ActionView::RemoveFile { path: path@ },
            Action::Finish(outcome) => ActionView::Finish(outcome),
        }
    }
}

/// Where a run stands: which answer it waits for.
#[derive(Debug, Clone, Copy, PartialEq, Eq, Structural)]
pub enum Phase {
    /// Nothing has been asked yet.
    Idle,
    /// The request to create a backup is out.
    AwaitCreate,
    /// Its answer is being read.
    ReadCreate,
    /// The request for the catalog is out.
    AwaitCatalog,
    /// The catalog is being read.
    ReadCatalog,
    /// The request for a download token is out.
    AwaitToken,
    /// The token is being read.
    ReadToken,
    /// The download is out.
    AwaitArchive,
    /// The archive is being received.
    ReadArchive,
    /// The server's refusal of the download is being read.
    ReadRefusal,
    /// The archive is being written to disk.
    AwaitSave,
    /// The request to delete the oldest backup is out.
    AwaitDelete,
    /// Its answer is being read.
    ReadDelete,
    /// The local directory is being listed.
    AwaitListing,
    /// A local file is being removed.
    AwaitRemoval,
    /// The run is over.
    Finished,
}

/// The state of a run as the contracts see it.
#[verifier::ext_equal]
pub struct RunView {
    pub base_url: Seq<char>,
    pub api_key: Seq<char>,
    pub max_server_backups: nat,
    pub max_local_backups: nat,
    pub location: Seq<char>,
    pub phase: Phase,
    /// The server's backups as last listed, in the server's order.
    pub catalog: Seq<Backup>,
    /// The name of the backup that this run downloads.
    pub target: Seq<char>,
    /// The local files that this run removes, in that order.
    pub doomed: Seq<Seq<char>>,
    /// How many of them are gone.
    pub removed: nat,
}

/// The language in which the server is asked to word its messages.
pub open spec fn language() -> Seq<char> {
    "en-US"@
}

/// Where an archive is kept locally: in the directory, under its own name.
pub open spec fn save_path(location: Seq<char>, name: Seq<char>) -> Seq<char> {
    location + "/"@ + name
}

/// The paths of the listed files at the given positions.
pub open spec fn paths_at(files: Seq<LocalBackupFile>, order: Seq<usize>) -> Seq<Seq<char>> {
    order.map_values(|i: usize| files[i as int].path@)
}

/// The run ends with `outcome`.
pub open spec fn finished(run: RunView, outcome: Result<(), BackupError>) -> (RunView, ActionView) {
    (RunView { phase: Phase::Finished, ..run }, ActionView::Finish(outcome))
}

/// The run goes on to `next` with `action`.
pub open spec fn proceed(run: RunView, next: Phase, action: ActionView) -> (RunView, ActionView) {
    (RunView { phase: next, ..run }, action)
}

/// The run sends an authenticated request and goes on to `next`, or ends
/// where the credential cannot be sent.
pub open spec fn sent(
    run: RunView,
    next: Phase,
    method: Method,
    url: Seq<char>,
) -> (RunView, ActionView) {
    if headers_ok(run.api_key, Some(language())) {
        proceed(
            run,
            next,
            ActionView::Send(authorized_request(method, url, run.api_key, Some(language()))),
        )
    } else {
        finished(run, Err(BackupError::InvalidHeader))
    }
}

/// A status code arrived for a request whose answer carries a document: on a
/// success code the document is read, on any other the run ends.
pub open spec fn document_follows(
    run: RunView,
    next: Phase,
    status: u16,
    expect: Expect,
) -> (RunView, ActionView) {
    if status_is_success(status) {
        proceed(run, next, ActionView::ReadJson(expect))
    } else {
        finished(run, Err(BackupError::Transport { status: Some(status) }))
    }
}

/// What a run does when an answer's status code arrives.
pub open spec fn on_status(run: RunView, status: u16) -> (RunView, ActionView) {
    match run.phase {
        Phase::AwaitCreate => document_follows(run, Phase::ReadCreate, status, Expect::Success),
        Phase::AwaitCatalog => document_follows(run, Phase::ReadCatalog, status, Expect::Catalog),
        Phase::AwaitToken => document_follows(run, Phase::ReadToken, status, Expect::FileToken),
        Phase::AwaitDelete => document_follows(run, Phase::ReadDelete, status, Expect::Success),
        Phase::AwaitArchive => if status_is_success(status) {
            proceed(run, Phase::ReadArchive, ActionView::ReadBytes)
        } else {
            proceed(run, Phase::ReadRefusal, ActionView::ReadJson(Expect::Validation))
        },
        _ => finished(run, Err(BackupError::UnexpectedEvent)),
    }
}

/// What a run does when a document arrives.
pub open spec fn on_json(run: RunView, payload: Payload) -> (RunView, ActionView) {
    match (run.phase, payload) {
        (Phase::ReadCreate, Payload::Success(_)) => sent(
            run,
            Phase::AwaitCatalog,
            Method::Get,
            collection_url(run.base_url),
        ),
        (Phase::ReadCatalog, Payload::Catalog(listed)) => if listed.backups@.len() == 0 {
            finished(run, Err(BackupError::EmptyCatalog))
        } else {
            sent(
                RunView { catalog: listed.backups@, target: listed.backups@[0].name@, ..run },
                Phase::AwaitToken,
                Method::Get,
                backup_url(run.base_url, listed.backups@[0].name@),
            )
        },
        (Phase::ReadToken, Payload::FileToken(token)) => proceed(
            run,
            Phase::AwaitArchive,
            ActionView::Send(download_request(run.base_url, token.file_token@)),
        ),
        (Phase::ReadRefusal, Payload::Validation(refusal)) => finished(
            run,
            Err(BackupError::Validation(refusal)),
        ),
        (Phase::ReadDelete, Payload::Success(_)) => proceed(
            run,
            Phase::AwaitListing,
            ActionView::ListDirectory { path: run.location },
        ),
        _ => finished(run, Err(BackupError::UnexpectedEvent)),
    }
}

/// What a run does when the bytes of an answer arrive: the archive is written
/// as it came.
pub open spec fn on_bytes(run: RunView, data: Seq<u8>) -> (RunView, ActionView) {
    match run.phase {
        Phase::ReadArchive => proceed(
            run,
            Phase::AwaitSave,
            ActionView::WriteFile { path: save_path(run.location, run.target), data },
        ),
        _ => finished(run, Err(BackupError::UnexpectedEvent)),
    }
}

/// What a run does once the archive is on disk: it deletes the oldest backup
/// on the server where the catalog has reached the limit, and turns to the
/// local directory where it has not.
pub open spec fn on_written(run: RunView) -> (RunView, ActionView) {
    match run.phase {
        Phase::AwaitSave => match server_victim(run.catalog, run.max_server_backups) {
            Some(i) => sent(
                run,
                Phase::AwaitDelete,
                Method::Delete,
                backup_url(run.base_url, run.catalog[i].name@),
            ),
            None => proceed(
                run,
                Phase::AwaitListing,
                ActionView::ListDirectory { path: run.location },
            ),
        },
        _ => finished(run, Err(BackupError::UnexpectedEvent)),
    }
}

/// What a run does when the local directory has been listed: it starts on the
/// files that retention removes, or ends where there is none.
pub open spec fn on_listing(run: RunView, files: Seq<LocalBackupFile>) -> (RunView, ActionView) {
    match run.phase {
        Phase::AwaitListing => {
            let doomed = paths_at(files, local_prune(files, run.max_local_backups));
            if doomed.len() == 0 {
                finished(run, Ok(()))
            } else {
                proceed(
                    RunView { doomed, removed: 0, ..run },
                    Phase::AwaitRemoval,
                    ActionView::RemoveFile { path: doomed[0] },
                )
            }
        },
        _ => finished(run, Err(BackupError::UnexpectedEvent)),
    }
}

/// What a run does when a local file is gone: it removes the next one, or
/// ends where that was the last.
pub open spec fn on_removed(run: RunView) -> (RunView, ActionView) {
    match run.phase {
        Phase::AwaitRemoval => if run.removed + 1 < run.doomed.len() {
            proceed(
                RunView { removed: run.removed + 1, ..run },
                Phase::AwaitRemoval,
                ActionView::RemoveFile { path: run.doomed[run.removed + 1 as int] },
            )
        } else {
            finished(run, Ok(()))
        },
        _ => finished(run, Err(BackupError::UnexpectedEvent)),
    }
}

/// One step of a run: the state it is left in and the action it asks for,
/// given the state it was in and the event that arrived. A failure of the
/// outside world ends the run with the matching error, whatever the phase; so
/// does an event that answers nothing the run had asked for. A run that is
/// over stays over.
pub open spec fn step_spec(run: RunView, event: Event) -> (RunView, ActionView) {
    if run.phase == Phase::Finished {
        (run, ActionView::Finish(Err(BackupError::UnexpectedEvent)))
    } else {
        match event {
            Event::Status(status) => on_status(run, status),
            Event::Json(payload) => on_json(run, payload),
            Event::Bytes(data) => on_bytes(run, data@),
            Event::Written => on_written(run),
            Event::Listing(files) => on_listing(run, files@),
            Event::Removed => on_removed(run),
            Event::TransportFailed => finished(run, Err(BackupError::Transport { status: None })),
            Event::DecodeFailed => finished(run, Err(BackupError::Decode)),
            Event::FilesystemFailed => finished(run, Err(BackupError::Filesystem)),
        }
    }
}

/// The state in which a run with the given settings begins, before it has
/// asked for anything.
pub open spec fn initial(config: Config) -> RunView {
    RunView {
        base_url: config.api_url@,
        api_key: config.api_key@,
        max_server_backups: config.max_server_backups as nat,
        max_local_backups: config.max_local_backups as nat,
        location: config.local_backups_location@,
        phase: Phase::Idle,
        catalog: Seq::empty(),
        target: Seq::empty(),
        doomed: Seq::empty(),
        removed: 0,
    }
}

/// How a run begins: by asking the server to create a backup.
pub open spec fn start_spec(config: Config) -> (RunView, ActionView) {
    sent(initial(config), Phase::AwaitCreate, Method::Post, collection_url(config.api_url@))
}

/// The first backup of the catalog, which the server lists newest first: the
/// one a run downloads. The choice goes by position alone.
pub fn select_target(catalog: &AllBackups) -> (target: Result<&Backup, BackupError>)
    ensures
        match target {
            Ok(backup) => catalog.backups@.len() > 0 && *backup == catalog.backups@[0],
            Err(error) => catalog.backups@.len() == 0 && error == BackupError::EmptyCatalog,
        },
{
    if catalog.backups.len() == 0 {
        Err(BackupError::EmptyCatalog)
    } else {
        Ok(&catalog.backups[0])
    }
}

/// The action that keeps an archive: the file `backup_name` in the local
/// directory is to hold exactly `backup_data`.
pub fn save_backup(
    backup_name: &str,
    local_backups_location: &str,
    backup_data: Vec<u8>,
) -> (action: Action)
    ensures
        action@ == (ActionView::WriteFile {
            path: save_path(local_backups_location@, backup_name@),
            data: backup_data@,
        }),
{
    let mut path = String::from_str(local_backups_location);
    path.append("/");
    path.append(backup_name);
    Action::WriteFile { path, data: backup_data }
}

/// One run of the backup client: create a backup on the server, list the
/// backups, download the first, keep it locally, and prune both sides. The
/// run decides; whoever drives it carries out each action and reports what
/// came of it.
pub struct BackupRun {
    service: BackupService,
    max_server_backups: usize,
    max_local_backups: usize,
    local_backups_location: String,
    phase: Phase,
    catalog: AllBackups,
    target: String,
    doomed: Vec<String>,
    removed: usize,
}

impl View for BackupRun {
    type V = RunView;

    closed spec fn view(&self) -> RunView {
        RunView {
            base_url: self.service.base_url(),
            api_key: self.service.api_key(),
            max_server_backups: self.max_server_backups as nat,
            max_local_backups: self.max_local_backups as nat,
            location: self.local_backups_location@,
            phase: self.phase,
            catalog: self.catalog.backups@,
            target: self.target@,
            doomed: self.doomed@.map_values(|path: String| path@),
            removed: self.removed as nat,
        }
    }
}

impl BackupRun {
    /// Begins a run: the state to step from, and the first action.
    pub fn new(config: Config) -> (begun: (BackupRun, Action))
        ensures
            (begun.0@, begun.1@) == start_spec(config),
    {
        let run = BackupRun {
            service: BackupService::new(config.api_url, config.api_key),
            max_server_backups: config.max_server_backups,
            max_local_backups: config.max_local_backups,
            local_backups_location: config.local_backups_location,
            phase: Phase::Idle,
            catalog: AllBackups { backups: Vec::new(), templates: Vec::new() },
            target: String::new(),
            doomed: Vec::new(),
            removed: 0,
        };
        assert(run@ =~= initial(config));
        let built = run.service.create_backup(Some(String::from_str("en-US")));
        run.send(Phase::AwaitCreate, built, Ghost(Method::Post), Ghost(collection_url(config.api_url@)))
    }

    /// Where the run stands.
    pub fn phase(&self) -> (phase: Phase)
        ensures
            phase == self@.phase,
    {
        self.phase
    }

    /// Whether the run is over.
    pub fn is_finished(&self) -> (over: bool)
        ensures
            over == (self@.phase == Phase::Finished),
    {
        matches!(self.phase, Phase::Finished)
    }

    fn finish(self, outcome: Result<(), BackupError>) -> (next: (BackupRun, Action))
        ensures
            (next.0@, next.1@) == finished(self@, outcome),
    {
        let mut run = self;
        run.phase = Phase::Finished;
        (run, Action::Finish(outcome))
    }

    fn go(self, phase: Phase, action: Action) -> (next: (BackupRun, Action))
        ensures
            (next.0@, next.1@) == proceed(self@, phase, action@),
    {
        let mut run = self;
        run.phase = phase;
        (run, action)
    }

    fn send(
        self,
        phase: Phase,
        built: Result<HttpRequest, BackupError>,
        Ghost(method): Ghost<Method>,
        Ghost(url): Ghost<Seq<char>>,
    ) -> (next: (BackupRun, Action))
        requires
            is_built(built, method, url, self@.api_key, Some(language())),
        ensures
            (next.0@, next.1@) == sent(self@, phase, method, url),
    {
        match built {
            Ok(request) => self.go(phase, Action::Send(request)),
            Err(error) => self.finish(Err(error)),
        }
    }

    fn read_document(self, phase: Phase, status: u16, expect: Expect) -> (next: (BackupRun, Action))
        ensures
            (next.0@, next.1@) == document_follows(self@, phase, status, expect),
    {
        if is_success(status) {
            self.go(phase, Action::ReadJson(expect))
        } else {
            self.finish(Err(BackupError::Transport { status: Some(status) }))
        }
    }

    fn status_arrived(self, status: u16) -> (next: (BackupRun, Action))
        ensures
            (next.0@, next.1@) == on_status(self@, status),
    {
        match self.phase {
            Phase::AwaitCreate => self.read_document(Phase::ReadCreate, status, Expect::Success),
            Phase::AwaitCatalog => self.read_document(Phase::ReadCatalog, status, Expect::Catalog),
            Phase::AwaitToken => self.read_document(Phase::ReadToken, status, Expect::FileToken),
            Phase::AwaitDelete => self.read_document(Phase::ReadDelete, status, Expect::Success),
            Phase::AwaitArchive => if is_success(status) {
                self.go(Phase::ReadArchive, Action::ReadBytes)
            } else {
                self.go(Phase::ReadRefusal, Action::ReadJson(Expect::Validation))
            },
            _ => self.finish(Err(BackupError::UnexpectedEvent)),
        }
    }

    fn list_directory(self) -> (next: (BackupRun, Action))
        ensures
            (next.0@, next.1@) == proceed(
                self@,
                Phase::AwaitListing,
                ActionView::ListDirectory { path: self@.location },
            ),
    {
        let path = self.local_backups_location.clone();
        self.go(Phase::AwaitListing, Action::ListDirectory { path })
    }

    fn document_arrived(self, payload: Payload) -> (next: (BackupRun, Action))
        ensures
            (next.0@, next.1@) == on_json(self@, payload),
    {
        match (self.phase, payload) {
            (Phase::ReadCreate, Payload::Success(_)) => {
                let built = self.service.get_all_backups(Some(String::from_str("en-US")));
                self.send(
                    Phase::AwaitCatalog,
                    built,
                    Ghost(Method::Get),
                    Ghost(collection_url(self@.base_url)),
                )
            },
            (Phase::ReadCatalog, Payload::Catalog(listed)) => {
                let chosen = match select_target(&listed) {
                    Ok(backup) => Ok(
                        (
                            backup.name.clone(),
                            self.service.get_backup(&backup.name, Some(String::from_str("en-US"))),
                        ),
                    ),
                    Err(error) => Err(error),
                };
                match chosen {
                    Ok((target, built)) => {
                        let ghost url = backup_url(self@.base_url, listed.backups@[0].name@);
                        let mut run = self;
                        run.catalog = listed;
                        run.target = target;
                        run.send(Phase::AwaitToken, built, Ghost(Method::Get), Ghost(url))
                    },
                    Err(error) => self.finish(Err(error)),
                }
            },
            (Phase::ReadToken, Payload::FileToken(token)) => {
                let request = self.service.download_backup(token);
                self.go(Phase::AwaitArchive, Action::Send(request))
            },
            (Phase::ReadRefusal, Payload::Validation(refusal)) => self.finish(
                Err(BackupError::Validation(refusal)),
            ),
            (Phase::ReadDelete, Payload::Success(_)) => self.list_directory(),
            _ => self.finish(Err(BackupError::UnexpectedEvent)),
        }
    }

    fn bytes_arrived(self, data: Vec<u8>) -> (next: (BackupRun, Action))
        ensures
            (next.0@, next.1@) == on_bytes(self@, data@),
    {
        match self.phase {
            Phase::ReadArchive => {
                let action = save_backup(
                    self.target.as_str(),
                    self.local_backups_location.as_str(),
                    data,
                );
                self.go(Phase::AwaitSave, action)
            },
            _ => self.finish(Err(BackupError::UnexpectedEvent)),
        }
    }

    fn archive_written(self) -> (next: (BackupRun, Action))
        ensures
            (next.0@, next.1@) == on_written(self@),
    {
        match self.phase {
            Phase::AwaitSave => {
                let victim = match cleanup_old_backups(&self.catalog, self.max_server_backups) {
                    Some(backup) => Some(backup.name.clone()),
                    None => None,
                };
                match victim {
                    Some(name) => {
                        let ghost url = backup_url(self@.base_url, name@);
                        let built = self.service.delete_backup(
                            name,
                            Some(String::from_str("en-US")),
                        );
                        self.send(Phase::AwaitDelete, built, Ghost(Method::Delete), Ghost(url))
                    },
                    None => self.list_directory(),
                }
            },
            _ => self.finish(Err(BackupError::UnexpectedEvent)),
        }
    }

    fn directory_listed(self, files: Vec<LocalBackupFile>) -> (next: (BackupRun, Action))
        ensures
            (next.0@, next.1@) == on_listing(self@, files@),
    {
        match self.phase {
            Phase::AwaitListing => {
                let order = cleanup_old_local_backups(&files, self.max_local_backups);
                let mut doomed: Vec<String> = Vec::new();
                let mut k: usize = 0;
                while k < order.len()
                    invariant
                        0 <= k <= order.len(),
                        doomed.len() == k,
                        forall|j: int|
                            0 <= j < order.len() ==> 0 <= #[trigger] order@[j] < files@.len(),
                        doomed@.map_values(|path: String| path@) == paths_at(
                            files@,
                            order@.subrange(0, k as int),
                        ),
                    decreases order.len() - k,
                {
                    let ghost texts = doomed@.map_values(|path: String| path@);
                    let path = files[order[k]].path.clone();
                    doomed.push(path);
                    proof {
                        let grown = doomed@.map_values(|path: String| path@);
                        let wanted = paths_at(files@, order@.subrange(0, k + 1));
                        assert(grown.len() == wanted.len());
                        assert forall|j: int| 0 <= j < grown.len() implies grown[j] == wanted[j] by {
                            if j < k {
                                assert(grown[j] == texts[j]);
                                assert(order@.subrange(0, k as int)[j] == order@[j]);
                            }
                        }
                        assert(grown =~= wanted);
                    }
                    k = k + 1;
                }
                assert(order@.subrange(0, k as int) =~= order@);
                if doomed.len() == 0 {
                    self.finish(Ok(()))
                } else {
                    let path = doomed[0].clone();
                    let mut run = self;
                    run.doomed = doomed;
                    run.removed = 0;
                    run.go(Phase::AwaitRemoval, Action::RemoveFile { path })
                }
            },
            _ => self.finish(Err(BackupError::UnexpectedEvent)),
        }
    }

    fn file_removed(self) -> (next: (BackupRun, Action))
        ensures
            (next.0@, next.1@) == on_removed(self@),
    {
        match self.phase {
            Phase::AwaitRemoval => if self.removed < self.doomed.len() && self.removed + 1
                < self.doomed.len() {
                let path = self.doomed[self.removed + 1].clone();
                let mut run = self;
                run.removed = run.removed + 1;
                run.go(Phase::AwaitRemoval, Action::RemoveFile { path })
            } else {
                self.finish(Ok(()))
            },
            _ => self.finish(Err(BackupError::UnexpectedEvent)),
        }
    }

    /// Takes the run one step on: given what came of the last action, says
    /// what to do next.
    pub fn step(self, event: Event) -> (next: (BackupRun, Action))
        ensures
            (next.0@, next.1@) == step_spec(self@, event),
    {
        if self.is_finished() {
            return (self, Action::Finish(Err(BackupError::UnexpectedEvent)));
        }
        match event {
            Event::Status(status) => self.status_arrived(status),
            Event::Json(payload) => self.document_arrived(payload),
            Event::Bytes(data) => self.bytes_arrived(data),
            Event::Written => self.archive_written(),
            Event::Listing(files) => self.directory_listed(files),
            Event::Removed => self.file_removed(),
            Event::TransportFailed => self.finish(Err(BackupError::Transport { status: None })),
            Event::DecodeFailed => self.finish(Err(BackupError::Decode)),
            Event::FilesystemFailed => self.finish(Err(BackupError::Filesystem)),
        }
    }
}

/// The archive is kept as it was received: the bytes to write are the bytes
/// that the download returned, under the name of the backup that was chosen.
pub proof fn lemma_archive_kept_as_received(run: RunView, data: Vec<u8>)
    requires
        run.phase == Phase::ReadArchive,
    ensures
        step_spec(run, Event::Bytes(data)) == proceed(
            run,
            Phase::AwaitSave,
            ActionView::WriteFile { path: save_path(run.location, run.target), data: data@ },
        ),
{
}

/// A catalog without backups ends the run with `EmptyCatalog`; one with
/// backups makes its first entry the target, whatever the entries hold.
pub proof fn lemma_first_backup_is_target(run: RunView, listed: AllBackups)
    requires
        run.phase == Phase::ReadCatalog,
    ensures
        listed.backups@.len() == 0 ==> step_spec(run, Event::Json(Payload::Catalog(listed)))
            == finished(run, Err(BackupError::EmptyCatalog)),
        listed.backups@.len() > 0 && headers_ok(run.api_key, Some(language())) ==> {
            let next = step_spec(run, Event::Json(Payload::Catalog(listed)));
            &&& next.0.target == listed.backups@[0].name@
            &&& next.0.catalog == listed.backups@
            &&& next.1 == ActionView::Send(
                authorized_request(
                    Method::Get,
                    backup_url(run.base_url, listed.backups@[0].name@),
                    run.api_key,
                    Some(language()),
                ),
            )
        },
{
}

/// Server-side retention within a run. Once the archive is on disk, a
/// catalog below the limit has the run turn to the local directory without
/// any deletion; a catalog at or over the limit has it ask for one deletion,
/// that of the oldest backup. The answer to that request leads to the local
/// directory, so no run deletes twice.
pub proof fn lemma_run_deletes_oldest_once(run: RunView, answer: SuccessResponse)
    requires
        headers_ok(run.api_key, Some(language())),
    ensures
        run.phase == Phase::AwaitSave && run.catalog.len() < run.max_server_backups ==> step_spec(
            run,
            Event::Written,
        ) == proceed(run, Phase::AwaitListing, ActionView::ListDirectory { path: run.location }),
        run.phase == Phase::AwaitSave && run.catalog.len() >= run.max_server_backups
            && run.catalog.len() > 0 ==> exists|i: int|
            {
                &&& is_oldest(backup_instants(run.catalog), i)
                &&& #[trigger] step_spec(run, Event::Written) == proceed(
                    run,
                    Phase::AwaitDelete,
                    ActionView::Send(
                        authorized_request(
                            Method::Delete,
                            backup_url(run.base_url, run.catalog[i].name@),
                            run.api_key,
                            Some(language()),
                        ),
                    ),
                )
            },
        run.phase == Phase::ReadDelete ==> step_spec(run, Event::Json(Payload::Success(answer)))
            == proceed(run, Phase::AwaitListing, ActionView::ListDirectory { path: run.location }),
{
    lemma_server_victim(run.catalog, run.max_server_backups);
    if run.phase == Phase::AwaitSave && run.catalog.len() >= run.max_server_backups
        && run.catalog.len() > 0 {
        let i = server_victim(run.catalog, run.max_server_backups)->0;
        assert(is_oldest(backup_instants(run.catalog), i));
    }
}

/// A run that is over stays over and asks for nothing more, and a failure
/// of the outside world ends a run in whatever phase it arrives.
pub proof fn lemma_failures_end_the_run(run: RunView, event: Event)
    ensures
        run.phase == Phase::Finished ==> step_spec(run, event) == (
            run,
            ActionView::Finish(Err(BackupError::UnexpectedEvent)),
        ),
        run.phase != Phase::Finished && event == Event::TransportFailed ==> step_spec(run, event)
            == finished(run, Err(BackupError::Transport { status: None })),
        run.phase != Phase::Finished && event == Event::DecodeFailed ==> step_spec(run, event)
            == finished(run, Err(BackupError::Decode)),
        run.phase != Phase::Finished && event == Event::FilesystemFailed ==> step_spec(run, event)
            == finished(run, Err(BackupError::Filesystem)),
{
}

} // verus!
