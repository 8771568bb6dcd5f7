//! Credentials: where they are kept, when they expire, and how the access token is refreshed.

use vstd::prelude::*;
use vstd::utf8::encode_utf8;

use crate::http;
use crate::http::{push_field, HttpFailure, HttpRequest, Method, RequestModel};
use crate::outside::{data_local_dir, millis_since_epoch};
use crate::paths;
use crate::paths::{copy_bytes, join_path};
use crate::text;
use crate::text::{concat, same_text};

verus! {

/// How long before its expiry a token counts as expired, in milliseconds: five minutes.
pub const EXPIRY_BUFFER_MS: u64 = 5 * 60 * 1000;

/// The permissions with which the file for the credentials is created.
pub const AUTH_FILE_MODE: u32 = 0o600;

// ---------------------------------------------------------------------------
// Types
// ---------------------------------------------------------------------------

/// The contents of the file for the credentials.
#[derive(Debug)]
pub struct AuthFile {
    pub github_copilot: CopilotAuth,
}

/// Credentials for Copilot, with the choices that are kept beside them.
#[derive(Debug, Clone)]
pub struct CopilotAuth {
    pub auth_type: String,
    pub refresh: String,
    pub access: String,
    /// When the access token expires, in milliseconds since the Unix epoch.
    pub expires: u64,
    pub api_endpoint: Option<String>,
    pub model: Option<String>,
    pub machine_id: Option<String>,
    pub max_prompt_tokens: Option<u64>,
}

/// The answer to the request for a Copilot token.
#[derive(Debug)]
pub struct CopilotTokenResponse {
    pub token: String,
    /// When the token expires, in seconds since the Unix epoch.
    pub expires_at: u64,
    /// The addresses of the services by name, each name once.
    pub endpoints: Vec<(String, String)>,
}

impl CopilotTokenResponse {
    /// No name occurs twice among the endpoints.
    pub open spec fn wf(&self) -> bool {
        distinct_names(http::fields(self.endpoints@))
    }
}

/// Credentials as they are stored, with the endpoints through which the chosen model is to
/// be had.
#[derive(Debug)]
pub struct StoredAuth {
    pub auth: CopilotAuth,
    /// The endpoints of the chosen model, where they are known.
    pub supported_endpoints: Option<Vec<String>>,
}

/// What can go wrong with credentials.
#[derive(Debug)]
pub enum AuthError {
    NotFound,
    Network(String),
    Parse(String),
    FileSystem(String),
    Auth(String),
    Timeout,
}

/// What the user is told about an error.
pub open spec fn auth_error_text(e: AuthError) -> Seq<char> {
    match e {
        AuthError::NotFound => "Credentials not found"@,
        AuthError::Network(msg) => "Network error: "@ + msg@,
        AuthError::Parse(msg) => "Parse error: "@ + msg@,
        AuthError::FileSystem(msg) => "File system error: "@ + msg@,
        AuthError::Auth(msg) => "Authentication error: "@ + msg@,
        AuthError::Timeout => "Authentication timed out"@,
    }
}

impl AuthError {
    /// What the user is told about the error.
    pub fn message(&self) -> (r: String)
        ensures
            r@ == auth_error_text(*self),
    {
        match self {
            AuthError::NotFound => "Credentials not found".to_owned(),
            AuthError::Network(msg) => concat("Network error: ", msg.as_str()),
            AuthError::Parse(msg) => concat("Parse error: ", msg.as_str()),
            AuthError::FileSystem(msg) => concat("File system error: ", msg.as_str()),
            AuthError::Auth(msg) => concat("Authentication error: ", msg.as_str()),
            AuthError::Timeout => "Authentication timed out".to_owned(),
        }
    }

    /// The error for a request that failed.
    pub fn from_failure(failure: &HttpFailure) -> (r: AuthError)
        ensures
            r matches AuthError::Network(msg) && msg@ == http::failure_text(*failure),
    {
        AuthError::Network(failure.describe())
    }

    /// The error for an answer that broke off or could not be read.
    pub fn from_io(text: String) -> (r: AuthError)
        ensures
            r == AuthError::FileSystem(text),
    {
        AuthError::FileSystem(text)
    }
}

// ---------------------------------------------------------------------------
// The file for the credentials
// ---------------------------------------------------------------------------

/// The directory of the file for the credentials, in the directory for local data.
pub open spec fn auth_dir_in(data_dir: Seq<u8>) -> Seq<u8> {
    paths::path_in(data_dir, encode_utf8("ghcc"@))
}

/// The file for the credentials, in the directory for local data.
pub open spec fn auth_file_in(data_dir: Seq<u8>) -> Seq<u8> {
    paths::path_in(auth_dir_in(data_dir), encode_utf8("auth.json"@))
}

/// The file under which the credentials are written before they replace the old ones.
pub open spec fn auth_temp_in(data_dir: Seq<u8>) -> Seq<u8> {
    paths::path_in(auth_dir_in(data_dir), encode_utf8(".auth.json.tmp"@))
}

/// The paths that are used to keep the credentials, as bytes.
#[derive(Debug)]
pub struct AuthPaths {
    pub dir: Vec<u8>,
    pub file: Vec<u8>,
    pub temp: Vec<u8>,
}

/// The paths for the credentials where the given directory is the one for local data, and
/// the error where there is none.
pub fn auth_paths_in(data_dir: Option<Vec<u8>>) -> (r: Result<AuthPaths, AuthError>)
    ensures
        match data_dir {
            Some(d) => r matches Ok(p) && p.dir@ == auth_dir_in(d@) && p.file@ == auth_file_in(d@)
                && p.temp@ == auth_temp_in(d@),
            None => r matches Err(AuthError::FileSystem(msg)) && msg@
                == "Could not determine data directory"@,
        },
{
    match data_dir {
        Some(d) => {
            let dir: Vec<u8> = join_path(&d, "ghcc");
            let file: Vec<u8> = join_path(&dir, "auth.json");
            let temp: Vec<u8> = join_path(&dir, ".auth.json.tmp");
            Ok(AuthPaths { dir, file, temp })
        },
        None => Err(AuthError::FileSystem("Could not determine data directory".to_owned())),
    }
}

/// The paths for the credentials of the user who runs the program.
pub fn auth_paths() -> (r: Result<AuthPaths, AuthError>)
    ensures
        match r {
            Ok(p) => exists|d: Seq<u8>|
                p.dir@ == #[trigger] auth_dir_in(d) && p.file@ == auth_file_in(d) && p.temp@
                    == auth_temp_in(d),
            Err(e) => e matches AuthError::FileSystem(msg) && msg@
                == "Could not determine data directory"@,
        },
{
    auth_paths_in(data_local_dir())
}

/// The path of the file for the credentials, `ghcc/auth.json` in the directory for local
/// data of the user who runs the program.
pub fn auth_file_path() -> (r: Result<Vec<u8>, AuthError>)
    ensures
        match r {
            Ok(p) => exists|d: Seq<u8>| p@ == #[trigger] auth_file_in(d),
            Err(e) => e matches AuthError::FileSystem(msg) && msg@
                == "Could not determine data directory"@,
        },
{
    match auth_paths() {
        Ok(p) => Ok(p.file),
        Err(e) => Err(e),
    }
}

/// What came of reading the file for the credentials.
#[derive(Debug)]
pub enum AuthFileContent {
    /// There is no such file.
    Missing,
    /// The file could not be read, for this reason.
    Unreadable(String),
    /// The file does not hold credentials, for this reason.
    Malformed(String),
    /// The file holds this.
    Parsed(AuthFile),
}

/// The credentials that the file holds; `path` is how the user knows the file.
pub fn read_auth(content: AuthFileContent, path: &str) -> (r: Result<CopilotAuth, AuthError>)
    ensures
        match content {
            AuthFileContent::Missing => r matches Err(e) && e == AuthError::NotFound,
            AuthFileContent::Unreadable(e) => r matches Err(AuthError::FileSystem(msg)) && msg@
                == "Could not read "@ + path@ + ": "@ + e@,
            AuthFileContent::Malformed(e) => r matches Err(AuthError::Parse(msg)) && msg@
                == "Invalid auth file: "@ + e@,
            AuthFileContent::Parsed(file) => r == Ok::<CopilotAuth, AuthError>(file.github_copilot),
        },
{
    match content {
        AuthFileContent::Missing => Err(AuthError::NotFound),
        AuthFileContent::Unreadable(e) => {
            let mut msg: String = concat("Could not read ", path);
            msg.append(": ");
            msg.append(e.as_str());
            Err(AuthError::FileSystem(msg))
        },
        AuthFileContent::Malformed(e) => {
            Err(AuthError::Parse(concat("Invalid auth file: ", e.as_str())))
        },
        AuthFileContent::Parsed(file) => Ok(file.github_copilot),
    }
}

// ---------------------------------------------------------------------------
// Saving
// ---------------------------------------------------------------------------

/// The steps of saving credentials, in their order. The new contents are complete in a
/// temporary file before they take the place of the old ones.
#[derive(Debug, Clone, Copy, PartialEq, Eq, Structural)]
pub enum SaveStep {
    /// Create the directory for the file.
    CreateDirectory,
    /// Turn the credentials into the contents of the file.
    Serialize,
    /// Open the temporary file for writing, empty and with the permissions `AUTH_FILE_MODE`,
    /// whether it is new or was left over.
    OpenTemporary,
    /// Write the contents to the temporary file.
    WriteTemporary,
    /// Put the temporary file in the place of the file.
    Rename,
}

/// What a step of saving does.
#[derive(Debug)]
pub enum SaveAction {
    /// Create this directory, and those above it.
    CreateDirectory { dir: Vec<u8> },
    /// Turn the credentials into the contents of the file.
    Serialize,
    /// Open this file for writing, empty and with these permissions, whether it is new or was
    /// left over.
    Open { path: Vec<u8>, mode: u32 },
    /// Write the contents to the file that was opened, which has this path.
    Write { path: Vec<u8> },
    /// Put the file at the first path in the place of the one at the second.
    Rename { from: Vec<u8>, to: Vec<u8> },
}

/// What a step of saving does with the given paths.
pub open spec fn is_action(r: SaveAction, step: SaveStep, paths: AuthPaths) -> bool {
    match step {
        SaveStep::CreateDirectory => r matches SaveAction::CreateDirectory { dir } && dir@
            == paths.dir@,
        SaveStep::Serialize => r == SaveAction::Serialize,
        SaveStep::OpenTemporary => r matches SaveAction::Open { path, mode } && path@
            == paths.temp@ && mode == AUTH_FILE_MODE,
        SaveStep::WriteTemporary => r matches SaveAction::Write { path } && path@ == paths.temp@,
        SaveStep::Rename => r matches SaveAction::Rename { from, to } && from@ == paths.temp@
            && to@ == paths.file@,
    }
}

/// What a step of saving does with the given paths.
pub fn save_action(step: SaveStep, paths: &AuthPaths) -> (r: SaveAction)
    ensures
        is_action(r, step, *paths),
{
    match step {
        SaveStep::CreateDirectory => SaveAction::CreateDirectory { dir: copy_bytes(&paths.dir) },
        SaveStep::Serialize => SaveAction::Serialize,
        SaveStep::OpenTemporary => {
            SaveAction::Open { path: copy_bytes(&paths.temp), mode: AUTH_FILE_MODE }
        },
        SaveStep::WriteTemporary => SaveAction::Write { path: copy_bytes(&paths.temp) },
        SaveStep::Rename => {
            SaveAction::Rename { from: copy_bytes(&paths.temp), to: copy_bytes(&paths.file) }
        },
    }
}

/// The files whose contents an action replaces or changes.
pub open spec fn written_by(action: SaveAction) -> Set<Seq<u8>> {
    match action {
        SaveAction::Open { path, .. } => set![path@],
        SaveAction::Write { path } => set![path@],
        SaveAction::Rename { to, .. } => set![to@],
        _ => set![],
    }
}

/// Until the last step the file for the credentials is not written to: the new contents are
/// complete in the temporary file, which has the permissions for credentials, before that
/// file takes its place.
pub proof fn law_the_file_is_replaced_at_once(
    step: SaveStep,
    action: SaveAction,
    paths: AuthPaths,
    data_dir: Seq<u8>,
)
    requires
        is_action(action, step, paths),
        paths.file@ == auth_file_in(data_dir),
        paths.temp@ == auth_temp_in(data_dir),
    ensures
        written_by(action).contains(paths.file@) <==> step == SaveStep::Rename,
        action matches SaveAction::Open { mode, .. } ==> mode == AUTH_FILE_MODE,
        action matches SaveAction::Rename { from, .. } ==> from@ == paths.temp@,
{
    let dir = auth_dir_in(data_dir);
    vstd::utf8::encode_utf8_decode_utf8("auth.json"@);
    vstd::utf8::encode_utf8_decode_utf8(".auth.json.tmp"@);
    reveal_strlit("auth.json");
    reveal_strlit(".auth.json.tmp");
    let file = encode_utf8("auth.json"@);
    let temp = encode_utf8(".auth.json.tmp"@);
    if paths.file@ == paths.temp@ {
        let head = if dir.len() == 0 || dir.last() == 47 {
            dir
        } else {
            dir.push(47)
        };
        assert(paths.file@.skip(head.len() as int) =~= file);
        assert(paths.temp@.skip(head.len() as int) =~= temp);
        assert("auth.json"@.len() == 9 && ".auth.json.tmp"@.len() == 14);
    }
}

/// Where saving stands after a step.
#[derive(Debug)]
pub enum SaveProgress {
    /// This step is next.
    Next(SaveStep),
    /// The credentials are saved.
    Saved,
    /// Saving has failed, and the file is as it was.
    Failed(AuthError),
}

/// The step after `step`.
pub open spec fn step_after(step: SaveStep) -> Option<SaveStep> {
    match step {
        SaveStep::CreateDirectory => Some(SaveStep::Serialize),
        SaveStep::Serialize => Some(SaveStep::OpenTemporary),
        SaveStep::OpenTemporary => Some(SaveStep::WriteTemporary),
        SaveStep::WriteTemporary => Some(SaveStep::Rename),
        SaveStep::Rename => None,
    }
}

/// `error` is the error for a step that failed for the given reason.
pub open spec fn is_save_error(
    error: AuthError,
    step: SaveStep,
    reason: Seq<char>,
    path: Seq<char>,
) -> bool {
    match step {
        SaveStep::CreateDirectory => error matches AuthError::FileSystem(msg) && msg@
            == "Could not create directory: "@ + reason,
        SaveStep::Serialize => error matches AuthError::Parse(msg) && msg@
            == "Could not serialize auth: "@ + reason,
        SaveStep::OpenTemporary => error matches AuthError::FileSystem(msg) && msg@
            == "Could not create temp file: "@ + reason,
        SaveStep::WriteTemporary => error matches AuthError::FileSystem(msg) && msg@
            == "Could not write temp file: "@ + reason,
        SaveStep::Rename => error matches AuthError::FileSystem(msg) && msg@ == "Could not save "@
            + path + ": "@ + reason,
    }
}

/// Where saving stands once `step` came out as `outcome` says.
pub open spec fn save_goes_on(
    step: SaveStep,
    outcome: Result<(), String>,
    path: Seq<char>,
    progress: SaveProgress,
) -> bool {
    match outcome {
        Ok(_) => match step_after(step) {
            Some(next) => progress == SaveProgress::Next(next),
            None => progress == SaveProgress::Saved,
        },
        Err(reason) => progress matches SaveProgress::Failed(e) && is_save_error(
            e,
            step,
            reason@,
            path,
        ),
    }
}

/// Decides what follows a step of saving credentials; `path` is how the user knows the file.
/// The first step is to create the directory.
pub fn save_auth(step: SaveStep, outcome: Result<(), String>, path: &str) -> (r: SaveProgress)
    ensures
        save_goes_on(step, outcome, path@, r),
{
    match outcome {
        Ok(_) => match step {
            SaveStep::CreateDirectory => SaveProgress::Next(SaveStep::Serialize),
            SaveStep::Serialize => SaveProgress::Next(SaveStep::OpenTemporary),
            SaveStep::OpenTemporary => SaveProgress::Next(SaveStep::WriteTemporary),
            SaveStep::WriteTemporary => SaveProgress::Next(SaveStep::Rename),
            SaveStep::Rename => SaveProgress::Saved,
        },
        Err(reason) => SaveProgress::Failed(
            match step {
                SaveStep::CreateDirectory => AuthError::FileSystem(
                    concat("Could not create directory: ", reason.as_str()),
                ),
                SaveStep::Serialize => AuthError::Parse(
                    concat("Could not serialize auth: ", reason.as_str()),
                ),
                SaveStep::OpenTemporary => AuthError::FileSystem(
                    concat("Could not create temp file: ", reason.as_str()),
                ),
                SaveStep::WriteTemporary => AuthError::FileSystem(
                    concat("Could not write temp file: ", reason.as_str()),
                ),
                SaveStep::Rename => {
                    let mut msg: String = concat("Could not save ", path);
                    msg.append(": ");
                    msg.append(reason.as_str());
                    AuthError::FileSystem(msg)
                },
            },
        ),
    }
}

/// A run of saving from `step` on: `outcomes` are what the steps came out as, one after the
/// other, and `progress` is what was decided after each of them.
pub open spec fn is_save_run(
    step: SaveStep,
    outcomes: Seq<Result<(), String>>,
    path: Seq<char>,
    progress: Seq<SaveProgress>,
) -> bool
    decreases outcomes.len(),
{
    &&& outcomes.len() == progress.len()
    &&& outcomes.len() > 0 ==> {
        &&& save_goes_on(step, outcomes[0], path, progress[0])
        &&& match progress[0] {
            SaveProgress::Next(next) => is_save_run(
                next,
                outcomes.drop_first(),
                path,
                progress.drop_first(),
            ),
            _ => outcomes.len() == 1,
        }
    }
}

/// Saving is all or nothing: a run that ends with the credentials saved has carried out all
/// five steps, each with success, and the file is replaced by the last of them alone.
pub proof fn law_saving_is_all_or_nothing(
    outcomes: Seq<Result<(), String>>,
    path: Seq<char>,
    progress: Seq<SaveProgress>,
)
    requires
        is_save_run(SaveStep::CreateDirectory, outcomes, path, progress),
        progress.len() > 0,
        progress.last() == SaveProgress::Saved,
    ensures
        outcomes.len() == 5,
        forall|i: int| 0 <= i < 5 ==> #[trigger] outcomes[i] is Ok,
        progress[0] == SaveProgress::Next(SaveStep::Serialize),
        progress[1] == SaveProgress::Next(SaveStep::OpenTemporary),
        progress[2] == SaveProgress::Next(SaveStep::WriteTemporary),
        progress[3] == SaveProgress::Next(SaveStep::Rename),
{
    reveal_with_fuel(is_save_run, 6);
    let o1 = outcomes.drop_first();
    let p1 = progress.drop_first();
    let o2 = o1.drop_first();
    let p2 = p1.drop_first();
    let o3 = o2.drop_first();
    let p3 = p2.drop_first();
    let o4 = o3.drop_first();
    let p4 = p3.drop_first();
    assert(progress.len() > 1 ==> p1.last() == progress.last());
    assert(progress.len() > 2 ==> p2.last() == progress.last());
    assert(progress.len() > 3 ==> p3.last() == progress.last());
    assert(progress.len() > 4 ==> p4.last() == progress.last());
}

/// A step that fails ends the run: nothing is done after it, and what the run ends with is
/// the error of that step.
pub proof fn law_saving_stops_at_the_first_failure(
    step: SaveStep,
    outcomes: Seq<Result<(), String>>,
    path: Seq<char>,
    progress: Seq<SaveProgress>,
    i: int,
)
    requires
        is_save_run(step, outcomes, path, progress),
        0 <= i < outcomes.len(),
        outcomes[i] is Err,
    ensures
        i == outcomes.len() - 1,
        progress[i] is Failed,
    decreases i,
{
    if i > 0 {
        assert(outcomes.drop_first()[i - 1] == outcomes[i]);
        assert(progress.drop_first()[i - 1] == progress[i]);
        match progress[0] {
            SaveProgress::Next(next) => {
                law_saving_stops_at_the_first_failure(
                    next,
                    outcomes.drop_first(),
                    path,
                    progress.drop_first(),
                    i - 1,
                );
            },
            _ => {},
        }
    }
}

// ---------------------------------------------------------------------------
// Expiry
// ---------------------------------------------------------------------------

/// The credentials count as expired at the time `now_ms`.
pub open spec fn expired_at(auth: CopilotAuth, now_ms: u64) -> bool {
    auth.expires <= now_ms + EXPIRY_BUFFER_MS
}

/// Whether the credentials count as expired at the given time, in milliseconds since the
/// Unix epoch: a token is given up five minutes before it expires.
pub fn is_expired_at(auth: &CopilotAuth, now_ms: u64) -> (r: bool)
    ensures
        r == expired_at(*auth, now_ms),
{
    auth.expires <= now_ms.saturating_add(EXPIRY_BUFFER_MS)
}

/// The time that a reading of the clock stands for, in milliseconds since the Unix epoch:
/// the lower 64 bits of the reading, or zero where the clock is set to a time before the
/// epoch.
pub open spec fn time_of(reading: Option<u128>) -> u64 {
    match reading {
        Some(millis) => millis as u64,
        None => 0,
    }
}

/// The time that a reading of the clock stands for, in milliseconds since the Unix epoch.
pub fn time_ms(reading: Option<u128>) -> (r: u64)
    ensures
        r == time_of(reading),
{
    match reading {
        Some(millis) => {
            #[verifier::truncate]
            (millis as u64)
        },
        None => 0,
    }
}

/// The time that a reading of the clock stands for, in whole seconds since the Unix epoch:
/// the lower 64 bits of their number, or zero where the clock is set to a time before the
/// epoch.
pub open spec fn seconds_of(reading: Option<u128>) -> u64 {
    match reading {
        Some(millis) => (millis / 1000) as u64,
        None => 0,
    }
}

/// The time that a reading of the clock stands for, in whole seconds since the Unix epoch.
pub fn time_seconds(reading: Option<u128>) -> (r: u64)
    ensures
        r == seconds_of(reading),
{
    match reading {
        Some(millis) => {
            #[verifier::truncate]
            ((millis / 1000) as u64)
        },
        None => 0,
    }
}

/// The time by the system's clock, in milliseconds since the Unix epoch: what `time_ms`
/// makes of a reading of the clock. Which reading that is, is not stated: the clock may say
/// anything.
pub fn current_time_ms() -> (r: u64)
    ensures
        exists|reading: Option<u128>| r == #[trigger] time_of(reading),
{
    time_ms(millis_since_epoch())
}

/// Whether the credentials count as expired now.
pub fn is_expired(auth: &CopilotAuth) -> (r: bool)
    ensures
        exists|now_ms: u64| r == #[trigger] expired_at(*auth, now_ms),
        auth.expires <= EXPIRY_BUFFER_MS ==> r,
{
    is_expired_at(auth, current_time_ms())
}

/// Once expired, credentials stay expired.
pub proof fn law_expiry_is_final(auth: CopilotAuth, now_ms: u64, later_ms: u64)
    requires
        now_ms <= later_ms,
        expired_at(auth, now_ms),
    ensures
        expired_at(auth, later_ms),
{
}

/// Credentials that do not count as expired are good for more than five minutes still.
pub proof fn law_valid_for_five_minutes(auth: CopilotAuth, now_ms: u64)
    requires
        !expired_at(auth, now_ms),
    ensures
        auth.expires - now_ms > 5 * 60 * 1000,
{
}

// ---------------------------------------------------------------------------
// Tokens
// ---------------------------------------------------------------------------

/// What a list of named values holds under `name`.
pub open spec fn lookup(entries: Seq<(Seq<char>, Seq<char>)>, name: Seq<char>) -> Option<Seq<char>>
    decreases entries.len(),
{
    if entries.len() == 0 {
        None
    } else if entries[0].0 == name {
        Some(entries[0].1)
    } else {
        lookup(entries.drop_first(), name)
    }
}

/// No name occurs twice.
pub open spec fn distinct_names(entries: Seq<(Seq<char>, Seq<char>)>) -> bool {
    forall|i: int, j: int|
        0 <= i < j < entries.len() ==> #[trigger] entries[i].0 != #[trigger] entries[j].0
}

/// Where no name occurs twice, the order of the entries does not matter: whatever stands
/// under a name is found.
pub proof fn law_lookup_finds_every_entry(entries: Seq<(Seq<char>, Seq<char>)>, i: int)
    requires
        distinct_names(entries),
        0 <= i < entries.len(),
    ensures
        lookup(entries, entries[i].0) == Some(entries[i].1),
    decreases entries.len(),
{
    if i > 0 {
        assert(entries[0].0 != entries[i].0);
        let rest = entries.drop_first();
        assert forall|a: int, b: int| 0 <= a < b < rest.len() implies #[trigger] rest[a].0
            != #[trigger] rest[b].0 by {
            assert(entries[a + 1].0 != entries[b + 1].0);
        }
        assert(rest[i - 1] == entries[i]);
        law_lookup_finds_every_entry(rest, i - 1);
    }
}

/// Where no name occurs twice, what is found under a name is what stands under it, and
/// nothing is found if and only if nothing stands under it.
pub proof fn law_lookup_is_by_name(
    entries: Seq<(Seq<char>, Seq<char>)>,
    name: Seq<char>,
    value: Seq<char>,
)
    requires
        distinct_names(entries),
    ensures
        lookup(entries, name) == Some(value) <==> entries.contains((name, value)),
    decreases entries.len(),
{
    if entries.contains((name, value)) {
        let i = choose|i: int| 0 <= i < entries.len() && entries[i] == (name, value);
        law_lookup_finds_every_entry(entries, i);
    }
    if lookup(entries, name) == Some(value) {
        if entries[0].0 == name {
            assert(entries[0] == (name, value));
        } else {
            let rest = entries.drop_first();
            assert forall|a: int, b: int| 0 <= a < b < rest.len() implies #[trigger] rest[a].0
                != #[trigger] rest[b].0 by {
                assert(entries[a + 1].0 != entries[b + 1].0);
            }
            law_lookup_is_by_name(rest, name, value);
            let i = choose|i: int| 0 <= i < rest.len() && rest[i] == (name, value);
            assert(entries[i + 1] == (name, value));
        }
    }
}

/// What a list of named values holds under `name`.
fn find_field(entries: &Vec<(String, String)>, name: &str) -> (r: Option<String>)
    ensures
        text::opt_text(r) == lookup(http::fields(entries@), name@),
{
    let ghost all = http::fields(entries@);
    let n: usize = entries.len();
    let mut i: usize = 0;
    assert(all.skip(0) =~= all);
    while i < n
        invariant
            i <= n == entries@.len(),
            all == http::fields(entries@),
            lookup(all.skip(i as int), name@) == lookup(all, name@),
        decreases n - i,
    {
        assert(all.skip(i as int).drop_first() =~= all.skip(i + 1));
        assert(all.skip(i as int)[0] == (entries@[i as int].0@, entries@[i as int].1@));
        if same_text(entries[i].0.as_str(), name) {
            return Some(entries[i].1.clone());
        }
        i = i + 1;
    }
    None
}

/// The request for a Copilot token; `oauth_token` is the token that GitHub granted, and
/// `version` that of the program.
pub open spec fn copilot_token_request_model(
    oauth_token: Seq<char>,
    version: Seq<char>,
) -> RequestModel {
    RequestModel {
        method: Method::Get,
        url: "https://api.github.com/copilot_internal/v2/token"@,
        headers: seq![
            ("Authorization"@, "token "@ + oauth_token),
            ("User-Agent"@, "ghcc/"@ + version),
            ("Editor-Version"@, "ghcc/"@ + version),
        ],
        form: seq![],
    }
}

/// The request for a Copilot token.
pub fn copilot_token_request(oauth_token: &str, version: &str) -> (r: HttpRequest)
    ensures
        r@ == copilot_token_request_model(oauth_token@, version@),
{
    let mut headers: Vec<(String, String)> = Vec::new();
    push_field(&mut headers, "Authorization", concat("token ", oauth_token).as_str());
    push_field(&mut headers, "User-Agent", concat("ghcc/", version).as_str());
    push_field(&mut headers, "Editor-Version", concat("ghcc/", version).as_str());
    let r: HttpRequest = HttpRequest {
        method: Method::Get,
        url: "https://api.github.com/copilot_internal/v2/token".to_owned(),
        headers,
        form: Vec::new(),
    };
    assert(r@ =~~= copilot_token_request_model(oauth_token@, version@));
    r
}

/// The expiry of the token fits when it is turned into milliseconds.
pub open spec fn expiry_fits(response: CopilotTokenResponse) -> bool {
    response.expires_at * 1000 <= u64::MAX
}

/// `auth` are the credentials that follow from a granted token, the answer to the request
/// for a Copilot token, and the choices kept beside them.
pub open spec fn are_credentials(
    auth: CopilotAuth,
    oauth_token: Seq<char>,
    response: CopilotTokenResponse,
    model: Option<String>,
    machine_id: Option<String>,
    max_prompt_tokens: Option<u64>,
) -> bool {
    &&& auth.auth_type@ == "oauth"@
    &&& auth.refresh@ == oauth_token
    &&& auth.access == response.token
    &&& auth.expires == response.expires_at * 1000
    &&& text::opt_text(auth.api_endpoint) == lookup(http::fields(response.endpoints@), "api"@)
    &&& auth.model == model
    &&& auth.machine_id == machine_id
    &&& auth.max_prompt_tokens == max_prompt_tokens
}

/// The credentials after a refresh: the token is the new one, and the model, the machine ID
/// and the limit of the prompt are kept.
pub fn refresh_token(
    refresh: &str,
    current_model: Option<String>,
    current_machine_id: Option<String>,
    current_max_prompt_tokens: Option<u64>,
    response: CopilotTokenResponse,
) -> (r: CopilotAuth)
    requires
        response.wf(),
        expiry_fits(response),
    ensures
        are_credentials(
            r,
            refresh@,
            response,
            current_model,
            current_machine_id,
            current_max_prompt_tokens,
        ),
        forall|address: Seq<char>|
            text::opt_text(r.api_endpoint) == Some(address) <==> #[trigger] http::fields(
                response.endpoints@,
            ).contains(("api"@, address)),
{
    proof {
        let entries = http::fields(response.endpoints@);
        assert forall|address: Seq<char>|
            lookup(entries, "api"@) == Some(address) <==> #[trigger] entries.contains(
                ("api"@, address),
            ) by {
            law_lookup_is_by_name(entries, "api"@, address);
        }
    }
    CopilotAuth {
        auth_type: "oauth".to_owned(),
        refresh: refresh.to_owned(),
        access: response.token,
        expires: response.expires_at * 1000,
        api_endpoint: find_field(&response.endpoints, "api"),
        model: current_model,
        machine_id: current_machine_id,
        max_prompt_tokens: current_max_prompt_tokens,
    }
}

/// New credentials as they are stored after a login: no model is chosen yet, so that no
/// endpoints of one are known.
pub fn newly_stored(auth: CopilotAuth) -> (r: StoredAuth)
    ensures
        r.auth == auth,
        r.supported_endpoints is None,
{
    StoredAuth { auth, supported_endpoints: None }
}

// ---------------------------------------------------------------------------
// Valid credentials
// ---------------------------------------------------------------------------

/// Where the way to valid credentials stands.
#[derive(Debug)]
pub enum AuthState {
    /// The file for the credentials is being read.
    Reading,
    /// A new token for these credentials is awaited.
    Refreshing(StoredAuth),
    /// These refreshed credentials are being saved.
    Saving(StoredAuth),
    /// These credentials are valid.
    Ready(StoredAuth),
    /// There are no valid credentials.
    Failed(AuthError),
}

/// What happened on the way to valid credentials.
#[derive(Debug)]
pub enum AuthEvent {
    /// The file was read, at this time in milliseconds since the Unix epoch.
    Stored(Result<StoredAuth, AuthError>, u64),
    /// The request for a Copilot token was answered.
    Token(Result<CopilotTokenResponse, AuthError>),
    /// Saving the credentials came to an end.
    Saved(Result<(), AuthError>),
}

/// `event` is one that can happen in `state`.
pub open spec fn auth_expects(state: AuthState, event: AuthEvent) -> bool {
    match (state, event) {
        (AuthState::Reading, AuthEvent::Stored(_, _)) => true,
        (AuthState::Refreshing(_), AuthEvent::Token(Ok(response))) => {
            response.wf() && expiry_fits(response)
        },
        (AuthState::Refreshing(_), AuthEvent::Token(Err(_))) => true,
        (AuthState::Saving(_), AuthEvent::Saved(_)) => true,
        _ => false,
    }
}

/// The credentials cannot be used as they are: the token is expired, or it is not known
/// where the API is.
pub open spec fn needs_refresh(auth: CopilotAuth, now_ms: u64) -> bool {
    expired_at(auth, now_ms) || auth.api_endpoint is None
}

/// `next` is where the way to valid credentials stands when `event` happened in `state`.
pub open spec fn auth_goes_on(state: AuthState, event: AuthEvent, next: AuthState) -> bool {
    match (state, event) {
        (AuthState::Reading, AuthEvent::Stored(Ok(stored), now_ms)) => next == if needs_refresh(
            stored.auth,
            now_ms,
        ) {
            AuthState::Refreshing(stored)
        } else {
            AuthState::Ready(stored)
        },
        (AuthState::Reading, AuthEvent::Stored(Err(e), _)) => next == AuthState::Failed(e),
        (AuthState::Refreshing(stored), AuthEvent::Token(Ok(response))) => {
            &&& next matches AuthState::Saving(fresh)
            &&& fresh.supported_endpoints == stored.supported_endpoints
            &&& are_credentials(
                fresh.auth,
                stored.auth.refresh@,
                response,
                stored.auth.model,
                stored.auth.machine_id,
                stored.auth.max_prompt_tokens,
            )
        },
        (AuthState::Refreshing(_), AuthEvent::Token(Err(e))) => next == AuthState::Failed(e),
        (AuthState::Saving(stored), AuthEvent::Saved(Ok(_))) => next == AuthState::Ready(stored),
        (AuthState::Saving(_), AuthEvent::Saved(Err(e))) => next == AuthState::Failed(e),
        _ => false,
    }
}

/// Leads to valid credentials, event by event: stored credentials that are still good are
/// used as they are, others are refreshed and saved first.
pub fn get_valid_auth(state: AuthState, event: AuthEvent) -> (next: AuthState)
    requires
        auth_expects(state, event),
    ensures
        auth_goes_on(state, event, next),
{
    match event {
        AuthEvent::Stored(Ok(stored), now_ms) => {
            if is_expired_at(&stored.auth, now_ms) || stored.auth.api_endpoint.is_none() {
                AuthState::Refreshing(stored)
            } else {
                AuthState::Ready(stored)
            }
        },
        AuthEvent::Stored(Err(e), _) => AuthState::Failed(e),
        AuthEvent::Token(Ok(response)) => match state {
            AuthState::Refreshing(stored) => AuthState::Saving(
                StoredAuth {
                    auth: refresh_token(
                        stored.auth.refresh.as_str(),
                        stored.auth.model,
                        stored.auth.machine_id,
                        stored.auth.max_prompt_tokens,
                        response,
                    ),
                    supported_endpoints: stored.supported_endpoints,
                },
            ),
            other => other,
        },
        AuthEvent::Token(Err(e)) => AuthState::Failed(e),
        AuthEvent::Saved(Ok(_)) => match state {
            AuthState::Saving(stored) => AuthState::Ready(stored),
            other => other,
        },
        AuthEvent::Saved(Err(e)) => AuthState::Failed(e),
    }
}

/// A run from `state` on: `events` happened one after the other, and `states` are the states
/// that they led to.
pub open spec fn is_auth_run(
    state: AuthState,
    events: Seq<AuthEvent>,
    states: Seq<AuthState>,
) -> bool
    decreases events.len(),
{
    &&& events.len() == states.len()
    &&& events.len() > 0 ==> {
        &&& auth_expects(state, events[0])
        &&& auth_goes_on(state, events[0], states[0])
        &&& is_auth_run(states[0], events.drop_first(), states.drop_first())
    }
}

/// The credentials that a run ends with belong to the stored ones: the refresh token, the
/// model with its endpoints, the machine ID and the limit of the prompt are the same. They
/// are the stored ones themselves if and only if those needed no refresh; otherwise a token
/// was fetched and the new credentials were saved.
pub proof fn law_refresh_keeps_the_choices(events: Seq<AuthEvent>, states: Seq<AuthState>)
    requires
        is_auth_run(AuthState::Reading, events, states),
        states.len() > 0,
        states.last() is Ready,
    ensures
        events[0] matches AuthEvent::Stored(Ok(stored), now_ms) && {
            let ready = states.last()->Ready_0;
            &&& ready.auth.refresh@ == stored.auth.refresh@
            &&& ready.auth.model == stored.auth.model
            &&& ready.auth.machine_id == stored.auth.machine_id
            &&& ready.auth.max_prompt_tokens == stored.auth.max_prompt_tokens
            &&& ready.supported_endpoints == stored.supported_endpoints
            &&& !needs_refresh(stored.auth, now_ms) ==> events.len() == 1 && ready == stored
            &&& needs_refresh(stored.auth, now_ms) ==> {
                &&& events.len() == 3
                &&& events[1] matches AuthEvent::Token(Ok(response)) && ready.auth.access
                    == response.token
                &&& events[2] matches AuthEvent::Saved(Ok(_))
                &&& states[1] == AuthState::Saving(ready)
            }
        },
{
    reveal_with_fuel(is_auth_run, 5);
    let e1 = events.drop_first();
    let s1 = states.drop_first();
    let e2 = e1.drop_first();
    let s2 = s1.drop_first();
    let e3 = e2.drop_first();
    let s3 = s2.drop_first();
    assert(states.len() > 1 ==> s1[0] == states[1] && e1[0] == events[1]);
    assert(states.len() > 2 ==> s2[0] == states[2] && e2[0] == events[2]);
    assert(states.len() > 3 ==> s3[0] == states[3] && e3[0] == events[3]);
}

/// The credentials are `ghcc/auth.json` in the directory for local data, and the file that is
/// written first stands beside it.
pub proof fn law_where_credentials_are_kept(data_dir: Seq<u8>)
    requires
        data_dir.len() > 0,
        data_dir.last() != '/' as u8,
    ensures
        auth_dir_in(data_dir) == data_dir + seq!['/' as u8] + encode_utf8("ghcc"@),
        auth_file_in(data_dir) == data_dir + seq!['/' as u8] + encode_utf8("ghcc"@) + seq![
            '/' as u8,
        ] + encode_utf8("auth.json"@),
        auth_temp_in(data_dir) == data_dir + seq!['/' as u8] + encode_utf8("ghcc"@) + seq![
            '/' as u8,
        ] + encode_utf8(".auth.json.tmp"@),
{
    let name = encode_utf8("ghcc"@);
    reveal_strlit("ghcc");
    paths::law_one_slash_stands_between(data_dir, name, seq![], seq![]);
    let dir = auth_dir_in(data_dir);
    let chars = "ghcc"@;
    vstd::utf8::is_ascii_chars_encode_utf8(chars);
    assert(name.len() == 4);
    assert(name[3] == chars[3] as u8);
    assert(dir.last() == name[3]);
    paths::law_one_slash_stands_between(dir, encode_utf8("auth.json"@), seq![], seq![]);
    paths::law_one_slash_stands_between(dir, encode_utf8(".auth.json.tmp"@), seq![], seq![]);
}

/// Every error says of which sort it is, and then its text as it is.
pub proof fn law_auth_errors_keep_their_text(text: String)
    ensures
        auth_error_text(AuthError::NotFound) == "Credentials not found"@,
        auth_error_text(AuthError::Network(text)) == "Network error: "@ + text@,
        auth_error_text(AuthError::Parse(text)) == "Parse error: "@ + text@,
        auth_error_text(AuthError::FileSystem(text)) == "File system error: "@ + text@,
        auth_error_text(AuthError::Auth(text)) == "Authentication error: "@ + text@,
        auth_error_text(AuthError::Timeout) == "Authentication timed out"@,
{
}

/// A step of saving that fails is told with its reason, whatever that is: what could not be
/// serialized as a matter of the contents, and the rest as matters of the file system.
pub proof fn law_a_failed_step_is_told_with_its_reason(
    step: SaveStep,
    reason: String,
    path: Seq<char>,
    progress: SaveProgress,
)
    requires
        save_goes_on(step, Err(reason), path, progress),
    ensures
        progress matches SaveProgress::Failed(e) && match step {
            SaveStep::Serialize => e matches AuthError::Parse(msg) && msg@
                == "Could not serialize auth: "@ + reason@,
            SaveStep::CreateDirectory => e matches AuthError::FileSystem(msg) && msg@
                == "Could not create directory: "@ + reason@,
            SaveStep::OpenTemporary => e matches AuthError::FileSystem(msg) && msg@
                == "Could not create temp file: "@ + reason@,
            SaveStep::WriteTemporary => e matches AuthError::FileSystem(msg) && msg@
                == "Could not write temp file: "@ + reason@,
            SaveStep::Rename => e matches AuthError::FileSystem(msg) && msg@ == "Could not save "@
                + path + ": "@ + reason@,
        },
{
}

/// Saving that meets no failure writes the file: from the first step on, five steps without
/// a failure lead to the end.
pub proof fn law_saving_without_a_failure_ends_saved(
    path: Seq<char>,
    p1: SaveProgress,
    s2: SaveStep,
    p2: SaveProgress,
    s3: SaveStep,
    p3: SaveProgress,
    s4: SaveStep,
    p4: SaveProgress,
    s5: SaveStep,
    p5: SaveProgress,
)
    requires
        save_goes_on(SaveStep::CreateDirectory, Ok(()), path, p1),
        p1 == SaveProgress::Next(s2) ==> save_goes_on(s2, Ok(()), path, p2),
        p2 == SaveProgress::Next(s3) ==> save_goes_on(s3, Ok(()), path, p3),
        p3 == SaveProgress::Next(s4) ==> save_goes_on(s4, Ok(()), path, p4),
        p4 == SaveProgress::Next(s5) ==> save_goes_on(s5, Ok(()), path, p5),
        p1 is Next ==> p1->Next_0 == s2,
        p2 is Next ==> p2->Next_0 == s3,
        p3 is Next ==> p3->Next_0 == s4,
        p4 is Next ==> p4->Next_0 == s5,
    ensures
        s2 == SaveStep::Serialize,
        s3 == SaveStep::OpenTemporary,
        s4 == SaveStep::WriteTemporary,
        s5 == SaveStep::Rename,
        p5 == SaveProgress::Saved,
{
}

/// Credentials count as expired from five minutes before their expiry on, to the millisecond.
pub proof fn law_a_token_is_given_up_five_minutes_early(auth: CopilotAuth, now_ms: u64)
    ensures
        expired_at(auth, now_ms) <==> auth.expires - now_ms <= 300_000,
{
}

/// A reading of the clock that fits into 64 bits is the time, in milliseconds as it is and in
/// seconds without the rest. Without a reading it is the epoch.
pub proof fn law_a_reading_is_the_time(millis: u128)
    ensures
        millis <= u64::MAX ==> time_of(Some(millis)) == millis,
        millis <= u64::MAX ==> seconds_of(Some(millis)) * 1000 <= millis < (seconds_of(Some(millis))
            + 1) * 1000,
        time_of(None) == 0,
        seconds_of(None) == 0,
{
}

/// A Copilot token is asked for with the granted token, in the name of the program.
pub proof fn law_the_request_for_a_copilot_token(token: Seq<char>, version: Seq<char>)
    ensures
        copilot_token_request_model(token, version).method == Method::Get,
        copilot_token_request_model(token, version).url
            == "https://api.github.com/copilot_internal/v2/token"@,
        copilot_token_request_model(token, version).headers == seq![
            ("Authorization"@, "token "@ + token),
            ("User-Agent"@, "ghcc/"@ + version),
            ("Editor-Version"@, "ghcc/"@ + version),
        ],
        copilot_token_request_model(token, version).form.len() == 0,
{
}

/// Stored credentials are used as they are exactly where their token is good for more than
/// five minutes and the address of the API is known; otherwise a token is fetched.
pub proof fn law_good_credentials_are_used_as_they_are(
    stored: StoredAuth,
    now_ms: u64,
    next: AuthState,
)
    requires
        auth_goes_on(AuthState::Reading, AuthEvent::Stored(Ok(stored), now_ms), next),
    ensures
        stored.auth.expires - now_ms > 300_000 && stored.auth.api_endpoint is Some ==> next
            == AuthState::Ready(stored),
        stored.auth.expires - now_ms <= 300_000 || stored.auth.api_endpoint is None ==> next
            == AuthState::Refreshing(stored),
{
}

/// A refresh takes the access token, its expiry in milliseconds and the address of the API
/// from the answer, and everything else from what was stored.
pub proof fn law_a_refresh_renews_the_token_alone(
    stored: StoredAuth,
    response: CopilotTokenResponse,
    next: AuthState,
)
    requires
        auth_goes_on(AuthState::Refreshing(stored), AuthEvent::Token(Ok(response)), next),
        response.wf(),
    ensures
        next matches AuthState::Saving(fresh) && {
            &&& fresh.auth.access@ == response.token@
            &&& fresh.auth.expires == response.expires_at * 1000
            &&& forall|address: Seq<char>|
                text::opt_text(fresh.auth.api_endpoint) == Some(address) <==> #[trigger] http::fields(
                    response.endpoints@,
                ).contains(("api"@, address))
            &&& fresh.auth.auth_type@ == "oauth"@
            &&& fresh.auth.refresh@ == stored.auth.refresh@
            &&& fresh.auth.model == stored.auth.model
            &&& fresh.auth.machine_id == stored.auth.machine_id
            &&& fresh.auth.max_prompt_tokens == stored.auth.max_prompt_tokens
            &&& fresh.supported_endpoints == stored.supported_endpoints
        },
{
    let entries = http::fields(response.endpoints@);
    assert forall|address: Seq<char>|
        lookup(entries, "api"@) == Some(address) <==> #[trigger] entries.contains(
            ("api"@, address),
        ) by {
        law_lookup_is_by_name(entries, "api"@, address);
    }
}

/// Refreshed credentials are good once they are saved, and a failure on the way is what the
/// way ends with.
pub proof fn law_the_way_to_credentials_ends(
    stored: StoredAuth,
    e: AuthError,
    now_ms: u64,
    saved: AuthState,
    unread: AuthState,
    unfetched: AuthState,
    unsaved: AuthState,
)
    requires
        auth_goes_on(AuthState::Saving(stored), AuthEvent::Saved(Ok(())), saved),
        auth_goes_on(AuthState::Reading, AuthEvent::Stored(Err(e), now_ms), unread),
        auth_goes_on(AuthState::Refreshing(stored), AuthEvent::Token(Err(e)), unfetched),
        auth_goes_on(AuthState::Saving(stored), AuthEvent::Saved(Err(e)), unsaved),
    ensures
        saved == AuthState::Ready(stored),
        unread == AuthState::Failed(e),
        unfetched == AuthState::Failed(e),
        unsaved == AuthState::Failed(e),
{
}

/// Every answer can come where it is awaited; of a token only an expiry that does not fit,
/// and a name that occurs twice, are ruled out.
pub proof fn law_every_event_is_taken(
    stored: StoredAuth,
    read: Result<StoredAuth, AuthError>,
    now_ms: u64,
    response: CopilotTokenResponse,
    e: AuthError,
    saved: Result<(), AuthError>,
)
    ensures
        auth_expects(AuthState::Reading, AuthEvent::Stored(read, now_ms)),
        auth_expects(AuthState::Refreshing(stored), AuthEvent::Token(Err(e))),
        auth_expects(AuthState::Refreshing(stored), AuthEvent::Token(Ok(response))) <==> (
        response.wf() && response.expires_at * 1000 <= u64::MAX),
        auth_expects(AuthState::Saving(stored), AuthEvent::Saved(saved)),
        response.wf() <==> forall|i: int, j: int|
            0 <= i < j < response.endpoints@.len() ==> (#[trigger] response.endpoints@[i]).0@ != (
            #[trigger] response.endpoints@[j]).0@,
{
    let entries = http::fields(response.endpoints@);
    assert forall|i: int| 0 <= i < entries.len() implies (#[trigger] entries[i]).0
        == response.endpoints@[i].0@ by {}
    if response.wf() {
        assert forall|i: int, j: int| 0 <= i < j < response.endpoints@.len() implies (
        #[trigger] response.endpoints@[i]).0@ != (#[trigger] response.endpoints@[j]).0@ by {
            assert(entries[i].0 != entries[j].0);
        }
    }
}

/// Every step of saving works on the path that is meant for it.
pub proof fn law_every_step_has_its_path(action: SaveAction, step: SaveStep, paths: AuthPaths)
    requires
        is_action(action, step, paths),
    ensures
        match step {
            SaveStep::CreateDirectory => action matches SaveAction::CreateDirectory { dir } && dir@
                == paths.dir@,
            SaveStep::Serialize => action is Serialize,
            SaveStep::OpenTemporary => action matches SaveAction::Open { path, mode } && path@
                == paths.temp@ && mode == 0o600,
            SaveStep::WriteTemporary => action matches SaveAction::Write { path } && path@
                == paths.temp@,
            SaveStep::Rename => action matches SaveAction::Rename { from, to } && from@
                == paths.temp@ && to@ == paths.file@,
        },
{
}

} // verus!
