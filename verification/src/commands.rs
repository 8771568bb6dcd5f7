//! The commands of the program: what the user is told, what a choice means, and in which
//! order the steps towards a commit message are taken.

use vstd::prelude::*;

use crate::auth;
use crate::auth::{is_expired_at, time_ms, time_seconds, AuthError, CopilotAuth, StoredAuth};
use crate::copilot;
use crate::copilot::{Model, ModelCapabilities, ModelLimits, DEFAULT_MODEL};
use crate::outside::millis_since_epoch;
use crate::text;
use crate::text::{
    concat, decimal_text, is_empty, pad_left, pad_right, parse_number, same_text, trim,
};

verus! {

// ---------------------------------------------------------------------------
// Login
// ---------------------------------------------------------------------------

/// What the user is told after a login; `path` is where the credentials were saved.
pub fn cmd_login(path: &str) -> (r: Vec<String>)
    ensures
        text::texts(r@) == seq!["Authentication successful!"@, "Token saved to: "@ + path@],
{
    let mut r: Vec<String> = Vec::new();
    r.push("Authentication successful!".to_owned());
    r.push(concat("Token saved to: ", path));
    assert(text::texts(r@) =~= seq!["Authentication successful!"@, "Token saved to: "@ + path@]);
    r
}

// ---------------------------------------------------------------------------
// Status
// ---------------------------------------------------------------------------

/// For how many whole minutes the access token is still good.
pub open spec fn minutes_left(auth: CopilotAuth, now_seconds: u64) -> nat {
    if auth.expires / 1000 <= now_seconds {
        0
    } else {
        ((auth.expires / 1000 - now_seconds) / 60) as nat
    }
}

/// What the user is told about the credentials.
pub open spec fn status_lines(auth: CopilotAuth, now_ms: u64, now_seconds: u64) -> Seq<Seq<char>> {
    seq![
        "Authenticated: yes"@,
        if auth::expired_at(auth, now_ms) {
            "Token status: expired (will refresh on next use)"@
        } else {
            "Token status: valid ("@ + text::decimal(minutes_left(auth, now_seconds))
                + " minutes remaining)"@
        },
        match auth.model {
            Some(model) => "Selected model: "@ + model@,
            None => "Selected model: "@ + DEFAULT_MODEL@ + " (default)"@,
        },
    ]
}

/// What the user is told about the credentials that were read, at this time, or the error
/// where they could not be read at all.
pub open spec fn is_status(
    r: Result<Vec<String>, AuthError>,
    read: Result<CopilotAuth, AuthError>,
    now_ms: u64,
    now_seconds: u64,
) -> bool {
    match read {
        Ok(auth) => r matches Ok(lines) && text::texts(lines@) == status_lines(
            auth,
            now_ms,
            now_seconds,
        ),
        Err(AuthError::NotFound) => r matches Ok(lines) && text::texts(lines@) == seq![
            "Authenticated: no"@,
            "Run 'ghcc login' to authenticate"@,
        ],
        Err(AuthError::Parse(msg)) => r matches Ok(lines) && text::texts(lines@) == seq![
            "Authenticated: unknown (auth file is invalid)"@,
            msg@,
            "Run 'ghcc login' to refresh credentials"@,
        ],
        Err(e) => r == Err::<Vec<String>, AuthError>(e),
    }
}

/// What the user is told about the credentials that were read, at this time.
pub fn status_at(
    read: Result<CopilotAuth, AuthError>,
    now_ms: u64,
    now_seconds: u64,
) -> (r: Result<Vec<String>, AuthError>)
    ensures
        is_status(r, read, now_ms, now_seconds),
{
    let mut lines: Vec<String> = Vec::new();
    match read {
        Ok(auth) => {
            lines.push("Authenticated: yes".to_owned());
            if is_expired_at(&auth, now_ms) {
                lines.push("Token status: expired (will refresh on next use)".to_owned());
            } else {
                let remaining: u64 = (auth.expires / 1000).saturating_sub(now_seconds);
                let mut line: String = concat(
                    "Token status: valid (",
                    decimal_text(remaining / 60).as_str(),
                );
                line.append(" minutes remaining)");
                lines.push(line);
            }
            match &auth.model {
                Some(model) => {
                    lines.push(concat("Selected model: ", model.as_str()));
                },
                None => {
                    let mut line: String = concat("Selected model: ", DEFAULT_MODEL);
                    line.append(" (default)");
                    lines.push(line);
                },
            }
            assert(text::texts(lines@) =~= status_lines(auth, now_ms, now_seconds));
            Ok(lines)
        },
        Err(AuthError::NotFound) => {
            lines.push("Authenticated: no".to_owned());
            lines.push("Run 'ghcc login' to authenticate".to_owned());
            assert(text::texts(lines@) =~= seq![
                "Authenticated: no"@,
                "Run 'ghcc login' to authenticate"@,
            ]);
            Ok(lines)
        },
        Err(AuthError::Parse(msg)) => {
            let ghost reason = msg@;
            lines.push("Authenticated: unknown (auth file is invalid)".to_owned());
            lines.push(msg);
            lines.push("Run 'ghcc login' to refresh credentials".to_owned());
            assert(text::texts(lines@) =~= seq![
                "Authenticated: unknown (auth file is invalid)"@,
                reason,
                "Run 'ghcc login' to refresh credentials"@,
            ]);
            Ok(lines)
        },
        Err(e) => Err(e),
    }
}

/// What the user is told about the credentials that were read, at the time that two readings
/// of the clock stand for: one for the expiry, one for the minutes that are left.
pub fn cmd_status(read: Result<CopilotAuth, AuthError>) -> (r: Result<Vec<String>, AuthError>)
    ensures
        exists|first: Option<u128>, second: Option<u128>|
            is_status(
                r,
                read,
                #[trigger] auth::time_of(first),
                #[trigger] auth::seconds_of(second),
            ),
{
    let first: Option<u128> = millis_since_epoch();
    let second: Option<u128> = millis_since_epoch();
    status_at(read, time_ms(first), time_seconds(second))
}

// ---------------------------------------------------------------------------
// Models
// ---------------------------------------------------------------------------

/// The model that is used: the chosen one, or the default.
pub open spec fn current_model(auth: CopilotAuth) -> Seq<char> {
    match auth.model {
        Some(model) => model@,
        None => DEFAULT_MODEL@,
    }
}

/// The row of a model in the list; `number` is the one by which the user chooses it.
pub open spec fn model_row(number: nat, model: Model, current: Seq<char>) -> Seq<char> {
    text::right_aligned(text::decimal(number), 2) + ". "@ + (if model.id@ == current {
        "*"@
    } else {
        " "@
    }) + " "@ + text::left_aligned(model.id@, 20) + " "@ + model.name@ + " ("@ + model.vendor@
        + ")"@
}

/// The rows of the list of models.
pub open spec fn model_rows(models: Seq<Model>, current: Seq<char>) -> Seq<Seq<char>> {
    models.map(|i: int, m: Model| model_row((i + 1) as nat, m, current))
}

/// What the user is shown to choose a model from.
pub open spec fn menu(models: Seq<Model>, current: Seq<char>) -> Seq<Seq<char>> {
    if models.len() == 0 {
        seq!["No enabled models found."@]
    } else {
        seq![""@, "Available models:"@, ""@] + model_rows(models, current) + seq![
            ""@,
            "Current: "@ + current,
            ""@,
        ]
    }
}

/// Whether the user is asked to choose a model: not where there is none.
pub fn asks_for_model(models: &Vec<Model>) -> (r: bool)
    ensures
        r == (models@.len() > 0),
{
    models.len() > 0
}

/// What the user is asked below the list of models.
pub const MODEL_QUESTION: &'static str = "Enter number to select (q to cancel): ";

/// The model that is used.
fn model_in_use(auth: &CopilotAuth) -> (r: &str)
    ensures
        r@ == current_model(*auth),
{
    match &auth.model {
        Some(model) => model.as_str(),
        None => DEFAULT_MODEL,
    }
}

/// The row of a model in the list.
fn row_of(number: usize, model: &Model, current: &str) -> (r: String)
    ensures
        r@ == model_row(number as nat, *model, current@),
{
    let mut r: String = pad_left(decimal_text(number as u64).as_str(), 2);
    r.append(". ");
    r.append(if same_text(model.id.as_str(), current) {
        "*"
    } else {
        " "
    });
    r.append(" ");
    r.append(pad_right(model.id.as_str(), 20).as_str());
    r.append(" ");
    r.append(model.name.as_str());
    r.append(" (");
    r.append(model.vendor.as_str());
    r.append(")");
    r
}

/// What the user is shown to choose a model from.
pub fn cmd_models(auth: &CopilotAuth, models: &Vec<Model>) -> (r: Vec<String>)
    ensures
        text::texts(r@) == menu(models@, current_model(*auth)),
{
    let mut r: Vec<String> = Vec::new();
    let current: &str = model_in_use(auth);
    if models.len() == 0 {
        r.push("No enabled models found.".to_owned());
        assert(text::texts(r@) =~= seq!["No enabled models found."@]);
        return r;
    }
    r.push("".to_owned());
    r.push("Available models:".to_owned());
    r.push("".to_owned());
    let ghost rows = model_rows(models@, current@);
    let ghost head = text::texts(r@);
    assert(head =~= seq![""@, "Available models:"@, ""@]);
    assert(rows.take(0) =~= seq![]);
    for i in 0..models.len()
        invariant
            rows == model_rows(models@, current@),
            text::texts(r@) == head + rows.take(i as int),
    {
        let row: String = row_of(i + 1, &models[i], current);
        let ghost before = text::texts(r@);
        let ghost added = row@;
        r.push(row);
        proof {
            assert(text::texts(r@) =~= before.push(added));
            assert(rows[i as int] == added);
            assert(rows.take(i + 1) =~= rows.take(i as int).push(added));
        }
    }
    let ghost before = text::texts(r@);
    assert(rows.take(rows.len() as int) =~= rows);
    r.push("".to_owned());
    r.push(concat("Current: ", current));
    r.push("".to_owned());
    assert(text::texts(r@) =~= before + seq![""@, "Current: "@ + current@, ""@]);
    r
}

/// What the user chose.
#[derive(Debug)]
pub enum Selection {
    /// Nothing.
    Cancelled,
    /// Nothing that there is; the user is told this.
    Invalid(String),
    /// The model in this place of the list. The credentials with that choice are to be
    /// saved, and then the user is told this.
    Chosen { index: usize, stored: StoredAuth, notice: String },
}

/// The limit of a model on the tokens of a prompt, where it has one.
pub open spec fn prompt_limit(model: Model) -> Option<u64> {
    match model.capabilities {
        Some(ModelCapabilities { limits: Some(ModelLimits { max_prompt_tokens }) }) =>
            max_prompt_tokens,
        _ => None,
    }
}

/// The texts in an optional list.
pub open spec fn opt_texts(v: Option<Vec<String>>) -> Option<Seq<Seq<char>>> {
    match v {
        Some(v) => Some(text::texts(v@)),
        None => None,
    }
}

/// The credentials are `auth`, but for the choice of `model`, and the endpoints are those of
/// that model.
pub open spec fn is_choice(chosen: StoredAuth, auth: CopilotAuth, model: Model) -> bool {
    &&& chosen.auth.auth_type == auth.auth_type
    &&& chosen.auth.refresh == auth.refresh
    &&& chosen.auth.access == auth.access
    &&& chosen.auth.expires == auth.expires
    &&& chosen.auth.api_endpoint == auth.api_endpoint
    &&& chosen.auth.machine_id == auth.machine_id
    &&& chosen.auth.model == Some(model.id)
    &&& chosen.auth.max_prompt_tokens == prompt_limit(model)
    &&& opt_texts(chosen.supported_endpoints) == opt_texts(model.supported_endpoints)
}

/// What the line that the user entered chooses.
pub open spec fn is_selection(
    r: Selection,
    auth: CopilotAuth,
    models: Seq<Model>,
    input: Seq<char>,
) -> bool {
    let word = text::trimmed(input);
    if word == "q"@ || word == "Q"@ || word.len() == 0 {
        r is Cancelled
    } else {
        match text::number_value(word) {
            Some(n) => if 0 < n <= models.len() {
                r matches Selection::Chosen { index, stored: chosen, notice } && index == n - 1
                    && is_choice(chosen, auth, models[n - 1]) && notice@ == "Model set to: "@
                    + models[n - 1].id@
            } else {
                r matches Selection::Invalid(msg) && msg@ == "Invalid selection."@
            },
            None => r matches Selection::Invalid(msg) && msg@ == "Invalid input."@,
        }
    }
}

/// The limit of a model on the tokens of a prompt, where it has one.
fn limit_of(model: &Model) -> (r: Option<u64>)
    ensures
        r == prompt_limit(*model),
{
    match &model.capabilities {
        Some(capabilities) => match &capabilities.limits {
            Some(limits) => limits.max_prompt_tokens,
            None => None,
        },
        None => None,
    }
}

/// The endpoints of the model in this place of the list.
pub fn endpoints_of_choice(models: &Vec<Model>, index: usize) -> (r: Option<Vec<String>>)
    requires
        index < models@.len(),
    ensures
        opt_texts(r) == opt_texts(models@[index as int].supported_endpoints),
{
    match &models[index].supported_endpoints {
        Some(endpoints) => {
            let mut r: Vec<String> = Vec::new();
            for i in 0..endpoints.len()
                invariant
                    text::texts(r@) == text::texts(endpoints@).take(i as int),
            {
                let ghost before = text::texts(r@);
                r.push(endpoints[i].clone());
                assert(text::texts(r@) =~= before.push(endpoints@[i as int]@));
                assert(text::texts(r@) =~= text::texts(endpoints@).take(i + 1));
            }
            assert(text::texts(endpoints@).take(endpoints@.len() as int) =~= text::texts(
                endpoints@,
            ));
            Some(r)
        },
        None => None,
    }
}

/// What the line that the user entered chooses.
pub fn select_model(auth: CopilotAuth, models: &Vec<Model>, input: &str) -> (r: Selection)
    ensures
        is_selection(r, auth, models@, input@),
{
    let word: String = trim(input);
    if same_text(word.as_str(), "q") || same_text(word.as_str(), "Q") || is_empty(word.as_str()) {
        return Selection::Cancelled;
    }
    match parse_number(word.as_str()) {
        Some(n) => {
            if n > 0 && n <= models.len() {
                let selected: &Model = &models[n - 1];
                let mut chosen: CopilotAuth = auth;
                chosen.model = Some(selected.id.clone());
                chosen.max_prompt_tokens = limit_of(selected);
                Selection::Chosen {
                    index: n - 1,
                    stored: StoredAuth {
                        auth: chosen,
                        supported_endpoints: endpoints_of_choice(models, n - 1),
                    },
                    notice: concat("Model set to: ", selected.id.as_str()),
                }
            } else {
                Selection::Invalid("Invalid selection.".to_owned())
            }
        },
        None => Selection::Invalid("Invalid input.".to_owned()),
    }
}

/// The number before a model in the list chooses that model.
pub proof fn law_the_number_of_a_row_chooses_its_model(
    r: Selection,
    auth: CopilotAuth,
    models: Seq<Model>,
    i: int,
)
    requires
        0 <= i < models.len() <= usize::MAX,
        is_selection(r, auth, models, text::decimal((i + 1) as nat)),
    ensures
        r matches Selection::Chosen { index, stored: chosen, .. } && index == i && is_choice(
            chosen,
            auth,
            models[i],
        ),
{
    text::law_a_decimal_number_is_read_back((i + 1) as nat);
    reveal_strlit("q");
    reveal_strlit("Q");
    assert(text::digits_value("q"@) is None);
    assert(text::digits_value("Q"@) is None);
}

/// After a choice the chosen model is the current one, and whether it is asked through the
/// responses endpoint is decided by its own endpoints.
pub proof fn law_a_chosen_model_is_the_current_one(
    chosen: StoredAuth,
    auth: CopilotAuth,
    model: Model,
)
    requires
        is_choice(chosen, auth, model),
    ensures
        current_model(chosen.auth) == model.id@,
        copilot::needs_responses(chosen.supported_endpoints) == copilot::needs_responses(
            model.supported_endpoints,
        ),
{
    match (chosen.supported_endpoints, model.supported_endpoints) {
        (Some(a), Some(b)) => {
            assert forall|t: Seq<char>| copilot::has_text(a@, t) == #[trigger] copilot::has_text(
                b@,
                t,
            ) by {
                assert(text::texts(a@).len() == text::texts(b@).len());
                if copilot::has_text(a@, t) {
                    let i = choose|i: int| 0 <= i < a@.len() && #[trigger] a@[i]@ == t;
                    assert(text::texts(a@)[i] == text::texts(b@)[i]);
                    assert(b@[i]@ == t);
                }
                if copilot::has_text(b@, t) {
                    let i = choose|i: int| 0 <= i < b@.len() && #[trigger] b@[i]@ == t;
                    assert(text::texts(a@)[i] == text::texts(b@)[i]);
                    assert(a@[i]@ == t);
                }
            }
            assert(copilot::has_text(a@, "/chat/completions"@) == copilot::has_text(
                b@,
                "/chat/completions"@,
            ));
            assert(copilot::has_text(a@, "/responses"@) == copilot::has_text(b@, "/responses"@));
        },
        _ => {},
    }
}

// ---------------------------------------------------------------------------
// Towards a commit message
// ---------------------------------------------------------------------------

/// What a commit message is made for.
#[derive(Debug, Clone, Copy, PartialEq, Eq, Structural)]
pub enum Task {
    /// To be printed.
    Generate,
    /// To be written to the file that git shows to the user.
    Hook,
}

/// A step towards a commit message.
#[derive(Debug, Clone, Copy, PartialEq, Eq, Structural)]
pub enum Step {
    /// To get credentials that are good.
    Authenticate,
    /// To see whether there are staged changes.
    CheckStaged,
    /// To see whether the commit is the first one.
    CheckInitial,
    /// To get the diff of the staged changes.
    ReadDiff,
    /// To get the summary of the staged changes.
    ReadStat,
    /// To ask Copilot for the message.
    Ask,
}

/// What came of a step.
#[derive(Debug)]
pub enum StepResult {
    /// The step failed, for this reason.
    Failed(String),
    /// The step is done.
    Done,
    /// What was to be seen is so, or is not.
    Seen(bool),
    /// The message.
    Message(String),
}

/// How the work ends.
#[derive(Debug)]
pub enum Ending {
    /// As a failure, for this reason.
    Failed(String),
    /// With nothing done.
    Untouched,
    /// With nothing done but to tell the user this.
    Notice(String),
    /// With this message to be printed.
    Print(String),
    /// With this to be written to the file.
    Write(String),
}

/// What follows a step.
#[derive(Debug)]
pub enum Progress {
    Next(Step),
    Over(Ending),
}

/// The step can have this result.
pub open spec fn can_result(step: Step, result: StepResult) -> bool {
    match result {
        StepResult::Failed(_) => true,
        StepResult::Done => step == Step::Authenticate || step == Step::ReadDiff || step
            == Step::ReadStat,
        StepResult::Seen(_) => step == Step::CheckStaged || step == Step::CheckInitial,
        StepResult::Message(_) => step == Step::Ask,
    }
}

/// What the file with the message holds: the message, and a hint how to abort the commit.
pub open spec fn file_content(message: Seq<char>) -> Seq<char> {
    message + "\n\n# To abort: delete all lines or exit with :cq (vim)\n"@
}

/// The work ends with this message.
pub open spec fn delivers(ending: Ending, task: Task, message: Seq<char>) -> bool {
    match task {
        Task::Generate => ending matches Ending::Print(s) && s@ == message,
        Task::Hook => ending matches Ending::Write(s) && s@ == file_content(message),
    }
}

/// What follows a step with this result.
pub open spec fn goes_on(task: Task, step: Step, result: StepResult, r: Progress) -> bool {
    match result {
        StepResult::Failed(e) => r == Progress::Over(Ending::Failed(e)),
        StepResult::Done => r == Progress::Next(
            match step {
                Step::Authenticate => if task == Task::Generate {
                    Step::CheckStaged
                } else {
                    Step::ReadDiff
                },
                Step::ReadDiff => Step::ReadStat,
                _ => Step::Ask,
            },
        ),
        StepResult::Seen(so) => if step == Step::CheckStaged {
            if so {
                r == Progress::Next(Step::CheckInitial)
            } else if task == Task::Generate {
                r matches Progress::Over(Ending::Notice(s)) && s@
                    == "No staged changes found. Please stage your changes using 'git add'."@
            } else {
                r == Progress::Over(Ending::Untouched)
            }
        } else if so {
            r matches Progress::Over(ending) && delivers(ending, task, "Initial commit"@)
        } else {
            r == Progress::Next(
                if task == Task::Generate {
                    Step::ReadDiff
                } else {
                    Step::Authenticate
                },
            )
        },
        StepResult::Message(message) => r matches Progress::Over(ending) && delivers(
            ending,
            task,
            message@,
        ),
    }
}

/// What the file holds begins with the message, and in what follows it every line is empty
/// or a comment.
pub proof fn law_only_comments_follow_the_message(message: Seq<char>)
    ensures
        message.is_prefix_of(file_content(message)),
        ({
            let rest = text::lines_of(file_content(message).skip(message.len() as int));
            forall|i: int| 0 <= i < rest.len() ==> #[trigger] rest[i].len() == 0 || rest[i][0]
                == '#'
        }),
{
    let hint = "\n\n# To abort: delete all lines or exit with :cq (vim)\n"@;
    let all = file_content(message);
    assert(all.subrange(0, message.len() as int) =~= message);
    assert(all.skip(message.len() as int) =~= hint);
    reveal_strlit("\n\n# To abort: delete all lines or exit with :cq (vim)\n");
    let second = hint.skip(1);
    let third = hint.skip(2);
    let last = third.len() - 1;
    assert(second.skip(1) =~= third);
    assert forall|j: int| 0 <= j < last implies third[j] != '\n' by {
        assert(third[j] == hint[j + 2]);
    }
    text::lemma_position_is(third, '\n', last);
    assert(third.skip(last + 1).len() == 0);
    reveal_with_fuel(text::lines_of, 4);
}

/// The step with which the work begins.
pub fn first_step(task: Task) -> (r: Step)
    ensures
        r == plan(task)[0],
{
    match task {
        Task::Generate => Step::Authenticate,
        Task::Hook => Step::CheckStaged,
    }
}

/// The end of the work with this message.
fn deliver(task: Task, message: String) -> (r: Ending)
    ensures
        delivers(r, task, message@),
{
    match task {
        Task::Generate => Ending::Print(message),
        Task::Hook => {
            let mut content: String = message;
            content.append("\n\n# To abort: delete all lines or exit with :cq (vim)\n");
            Ending::Write(content)
        },
    }
}

/// What follows a step with this result.
pub fn next_step(task: Task, step: Step, result: StepResult) -> (r: Progress)
    requires
        can_result(step, result),
    ensures
        goes_on(task, step, result, r),
{
    match result {
        StepResult::Failed(e) => Progress::Over(Ending::Failed(e)),
        StepResult::Done => Progress::Next(
            match step {
                Step::Authenticate => match task {
                    Task::Generate => Step::CheckStaged,
                    Task::Hook => Step::ReadDiff,
                },
                Step::ReadDiff => Step::ReadStat,
                _ => Step::Ask,
            },
        ),
        StepResult::Seen(so) => match step {
            Step::CheckStaged => {
                if so {
                    Progress::Next(Step::CheckInitial)
                } else {
                    Progress::Over(
                        match task {
                            Task::Generate => Ending::Notice(
                                "No staged changes found. Please stage your changes using 'git add'.".to_owned(),
                            ),
                            Task::Hook => Ending::Untouched,
                        },
                    )
                }
            },
            _ => {
                if so {
                    Progress::Over(deliver(task, "Initial commit".to_owned()))
                } else {
                    Progress::Next(
                        match task {
                            Task::Generate => Step::ReadDiff,
                            Task::Hook => Step::Authenticate,
                        },
                    )
                }
            },
        },
        StepResult::Message(message) => Progress::Over(deliver(task, message)),
    }
}

/// The steps of a task, where nothing ends it early.
pub open spec fn plan(task: Task) -> Seq<Step> {
    match task {
        Task::Generate => seq![
            Step::Authenticate,
            Step::CheckStaged,
            Step::CheckInitial,
            Step::ReadDiff,
            Step::ReadStat,
            Step::Ask,
        ],
        Task::Hook => seq![
            Step::CheckStaged,
            Step::CheckInitial,
            Step::Authenticate,
            Step::ReadDiff,
            Step::ReadStat,
            Step::Ask,
        ],
    }
}

/// The steps were taken one after the other, with these results.
pub open spec fn is_work(task: Task, steps: Seq<Step>, results: Seq<StepResult>) -> bool {
    &&& 0 < steps.len() == results.len()
    &&& steps[0] == plan(task)[0]
    &&& forall|i: int|
        0 <= i < steps.len() ==> #[trigger] can_result(steps[i], results[i])
    &&& forall|i: int|
        0 < i < steps.len() ==> goes_on(
            task,
            steps[i - 1],
            results[i - 1],
            Progress::Next(#[trigger] steps[i]),
        )
}

/// With this result the work goes on after the step.
pub open spec fn passes(step: Step, result: StepResult) -> bool {
    match step {
        Step::CheckStaged => result == StepResult::Seen(true),
        Step::CheckInitial => result == StepResult::Seen(false),
        Step::Ask => false,
        _ => result == StepResult::Done,
    }
}

/// The steps are taken in the order of the plan, each only after those before it have
/// passed.
pub proof fn law_steps_follow_the_plan(
    task: Task,
    steps: Seq<Step>,
    results: Seq<StepResult>,
    i: int,
)
    requires
        is_work(task, steps, results),
        0 <= i < steps.len(),
    ensures
        i < plan(task).len(),
        steps[i] == plan(task)[i],
        forall|j: int| 0 <= j < i ==> passes(#[trigger] steps[j], results[j]),
    decreases i,
{
    if i > 0 {
        law_steps_follow_the_plan(task, steps, results, i - 1);
        assert(can_result(steps[i - 1], results[i - 1]));
        assert(goes_on(task, steps[i - 1], results[i - 1], Progress::Next(steps[i])));
        assert(passes(steps[i - 1], results[i - 1]));
    }
}

/// Copilot is asked only when there are good credentials, there are staged changes, and the
/// commit is not the first one.
pub proof fn law_copilot_is_asked_last(
    task: Task,
    steps: Seq<Step>,
    results: Seq<StepResult>,
    i: int,
)
    requires
        is_work(task, steps, results),
        0 <= i < steps.len(),
        steps[i] == Step::Ask,
    ensures
        exists|j: int|
            0 <= j < i && #[trigger] steps[j] == Step::Authenticate && results[j]
                == StepResult::Done,
        exists|j: int|
            0 <= j < i && #[trigger] steps[j] == Step::CheckStaged && results[j]
                == StepResult::Seen(true),
        exists|j: int|
            0 <= j < i && #[trigger] steps[j] == Step::CheckInitial && results[j]
                == StepResult::Seen(false),
{
    law_steps_follow_the_plan(task, steps, results, i);
    assert(i == 5);
    law_steps_follow_the_plan(task, steps, results, 0);
    law_steps_follow_the_plan(task, steps, results, 1);
    law_steps_follow_the_plan(task, steps, results, 2);
    assert(passes(steps[0], results[0]));
    assert(passes(steps[1], results[1]));
    assert(passes(steps[2], results[2]));
}

/// Git's hook asks for credentials only for a commit with staged changes that is not the
/// first one.
pub proof fn law_the_hook_needs_no_login_for_the_first_commit(
    steps: Seq<Step>,
    results: Seq<StepResult>,
    i: int,
)
    requires
        is_work(Task::Hook, steps, results),
        0 <= i < steps.len(),
        steps[i] == Step::Authenticate,
    ensures
        i == 2,
        results[0] == StepResult::Seen(true),
        results[1] == StepResult::Seen(false),
{
    law_steps_follow_the_plan(Task::Hook, steps, results, i);
    law_steps_follow_the_plan(Task::Hook, steps, results, 0);
    law_steps_follow_the_plan(Task::Hook, steps, results, 1);
    assert(passes(steps[0], results[0]));
    assert(passes(steps[1], results[1]));
}

/// The minutes that a token has left are whole ones, and none where its time is over.
pub proof fn law_whole_minutes_are_left(auth: CopilotAuth, now_seconds: u64)
    ensures
        auth.expires / 1000 >= now_seconds ==> minutes_left(auth, now_seconds) * 60
            <= auth.expires / 1000 - now_seconds < (minutes_left(auth, now_seconds) + 1) * 60,
        auth.expires / 1000 <= now_seconds ==> minutes_left(auth, now_seconds) == 0,
{
}

/// The status of credentials says that there are some, whether their token is good for more
/// than five minutes and for how long it is good, and which model is used.
pub proof fn law_what_the_status_says(
    r: Result<Vec<String>, AuthError>,
    auth: CopilotAuth,
    now_ms: u64,
    now_seconds: u64,
)
    requires
        is_status(r, Ok(auth), now_ms, now_seconds),
    ensures
        r matches Ok(lines) && lines@.len() == 3 && lines@[0]@ == "Authenticated: yes"@ && (
        auth.expires - now_ms <= 300_000 ==> lines@[1]@
            == "Token status: expired (will refresh on next use)"@) && (auth.expires - now_ms
            > 300_000 ==> lines@[1]@ == "Token status: valid ("@ + text::decimal(
            minutes_left(auth, now_seconds),
        ) + " minutes remaining)"@) && (auth.model matches Some(model) ==> lines@[2]@
            == "Selected model: "@ + model@) && (auth.model is None ==> lines@[2]@
            == "Selected model: "@ + "gpt-4.1"@ + " (default)"@),
{
    let lines = r->Ok_0;
    let expected = status_lines(auth, now_ms, now_seconds);
    assert(text::texts(lines@) == expected);
    assert(text::texts(lines@)[0] == lines@[0]@);
    assert(text::texts(lines@)[1] == lines@[1]@);
    assert(text::texts(lines@)[2] == lines@[2]@);
}

/// Missing credentials and ones that cannot be parsed are told to the user; any other error
/// is passed on.
pub proof fn law_what_the_status_says_without_credentials(
    missing: Result<Vec<String>, AuthError>,
    invalid: Result<Vec<String>, AuthError>,
    failed: Result<Vec<String>, AuthError>,
    reason: String,
    e: AuthError,
    now_ms: u64,
    now_seconds: u64,
)
    requires
        is_status(missing, Err(AuthError::NotFound), now_ms, now_seconds),
        is_status(invalid, Err(AuthError::Parse(reason)), now_ms, now_seconds),
        is_status(failed, Err(e), now_ms, now_seconds),
        !(e is NotFound),
        !(e is Parse),
    ensures
        missing matches Ok(lines) && text::texts(lines@) == seq![
            "Authenticated: no"@,
            "Run 'ghcc login' to authenticate"@,
        ],
        invalid matches Ok(lines) && text::texts(lines@) == seq![
            "Authenticated: unknown (auth file is invalid)"@,
            reason@,
            "Run 'ghcc login' to refresh credentials"@,
        ],
        failed == Err::<Vec<String>, AuthError>(e),
{
}

/// The model that is used is the chosen one, and `gpt-4.1` where none is chosen.
pub proof fn law_the_default_model(auth: CopilotAuth)
    ensures
        auth.model matches Some(model) ==> current_model(auth) == model@,
        auth.model is None ==> current_model(auth) == "gpt-4.1"@,
{
}

/// The row of a model has its number, a star where it is the one in use, its ID from the
/// seventh column on, and its name and vendor, all of them uncut.
pub proof fn law_what_the_row_of_a_model_shows(number: nat, model: Model, current: Seq<char>)
    requires
        number < 100,
    ensures
        ({
            let row = model_row(number, model, current);
            let id = model.id@;
            &&& row.len() >= 6 + id.len()
            &&& row.subrange(0, 2) == if number < 10 {
                seq![' '] + text::decimal(number)
            } else {
                text::decimal(number)
            }
            &&& row[2] == '.'
            &&& row[3] == ' '
            &&& row[4] == if id == current {
                '*'
            } else {
                ' '
            }
            &&& row[5] == ' '
            &&& row.subrange(6, 6 + id.len() as int) == id
            &&& (" "@ + model.name@ + " ("@ + model.vendor@ + ")"@).is_suffix_of(row)
        }),
{
    reveal_strlit(". ");
    reveal_strlit("*");
    reveal_strlit(" ");
    let row = model_row(number, model, current);
    let id = model.id@;
    text::law_decimals_count_tens_and_ones(number);
    if number >= 10 {
        text::law_decimals_count_tens_and_ones(number / 10);
    }
    let d = text::decimal(number);
    assert(d.len() == if number < 10 {
        1nat
    } else {
        2nat
    });
    let head = text::right_aligned(d, 2);
    assert(head.len() == 2);
    assert(head =~= if number < 10 {
        seq![' '] + d
    } else {
        d
    });
    let wide = text::left_aligned(id, 20);
    text::law_alignment_adds_blanks_alone(id, 20, 0);
    assert(row.subrange(0, 2) =~= head);
    assert(row.subrange(6, 6 + id.len() as int) =~= wide.take(id.len() as int));
    let tail = " "@ + model.name@ + " ("@ + model.vendor@ + ")"@;
    assert(row.subrange(row.len() - tail.len(), row.len() as int) =~= tail);
}

/// The list shows every model once, in order and numbered from one, below its heading, and
/// then the one in use; where there is none, it says so.
pub proof fn law_the_list_shows_every_model(models: Seq<Model>, current: Seq<char>, i: int)
    ensures
        models.len() == 0 ==> menu(models, current) == seq!["No enabled models found."@],
        models.len() > 0 ==> menu(models, current).len() == models.len() + 6 && menu(
            models,
            current,
        )[1] == "Available models:"@ && menu(models, current)[models.len() as int + 4]
            == "Current: "@ + current,
        0 <= i < models.len() ==> menu(models, current)[3 + i] == model_row(
            (i + 1) as nat,
            models[i],
            current,
        ),
{
}

/// `q` in either case, or nothing, chooses nothing, with whatever white space around it.
pub proof fn law_q_or_nothing_cancels(
    r: Selection,
    auth: CopilotAuth,
    models: Seq<Model>,
    before: Seq<char>,
    word: Seq<char>,
    after: Seq<char>,
)
    requires
        is_selection(r, auth, models, before + word + after),
        text::is_blank(before),
        text::is_blank(after),
        word == seq!['q'] || word == seq!['Q'] || word.len() == 0,
    ensures
        r is Cancelled,
{
    reveal_strlit("q");
    reveal_strlit("Q");
    assert("q"@ =~= seq!['q'] && "Q"@ =~= seq!['Q']);
    text::lemma_trimmed_around(before, word, after);
}

/// A number chooses the model in that place of the list, counted from one, with whatever
/// white space around it; one beyond the list is no choice.
pub proof fn law_a_number_chooses_by_place(
    r: Selection,
    auth: CopilotAuth,
    models: Seq<Model>,
    before: Seq<char>,
    n: nat,
    after: Seq<char>,
)
    requires
        is_selection(r, auth, models, before + text::decimal(n) + after),
        text::is_blank(before),
        text::is_blank(after),
        n <= usize::MAX,
    ensures
        1 <= n <= models.len() ==> (r matches Selection::Chosen { index, stored, notice } && index
            == n - 1 && stored.auth.model == Some(models[n - 1].id) && stored.auth.max_prompt_tokens
            == (match models[n - 1].capabilities {
            Some(c) => match c.limits {
                Some(l) => l.max_prompt_tokens,
                None => None,
            },
            None => None,
        }) && stored.auth.refresh == auth.refresh && stored.auth.access == auth.access
            && stored.auth.expires == auth.expires && stored.auth.api_endpoint == auth.api_endpoint
            && stored.auth.machine_id == auth.machine_id && stored.auth.auth_type == auth.auth_type
            && (match (models[n - 1].supported_endpoints, stored.supported_endpoints) {
            (Some(theirs), Some(ours)) => theirs@.len() == ours@.len() && forall|i: int|
                0 <= i < ours@.len() ==> (#[trigger] ours@[i])@ == theirs@[i]@,
            (None, None) => true,
            _ => false,
        }) && notice@ == "Model set to: "@ + models[n - 1].id@),
        n == 0 || n > models.len() ==> (r matches Selection::Invalid(msg) && msg@
            == "Invalid selection."@),
{
    text::law_a_decimal_number_is_read_back(n);
    text::lemma_trimmed(text::decimal(n));
    text::law_trimming_takes_off_white_space_alone(text::decimal(n));
    text::lemma_trimmed_around(before, text::decimal(n), after);
    reveal_strlit("q");
    reveal_strlit("Q");
    assert(text::digits_value("q"@) is None && text::digits_value("Q"@) is None);
    text::law_decimals_count_tens_and_ones(n);
    if 1 <= n <= models.len() {
        let stored = r->Chosen_stored;
        if let (Some(theirs), Some(ours)) = (
            models[n - 1].supported_endpoints,
            stored.supported_endpoints,
        ) {
            assert(text::texts(ours@) == text::texts(theirs@));
            assert(text::texts(ours@).len() == text::texts(theirs@).len());
            assert forall|i: int| 0 <= i < ours@.len() implies (#[trigger] ours@[i])@
                == theirs@[i]@ by {
                assert(text::texts(ours@)[i] == text::texts(theirs@)[i]);
            }
        }
    }
}

/// What holds anything but digits is no number: it is no choice, and is not taken for one.
pub proof fn law_words_are_no_choice(
    r: Selection,
    auth: CopilotAuth,
    models: Seq<Model>,
    before: Seq<char>,
    word: Seq<char>,
    after: Seq<char>,
    i: int,
)
    requires
        is_selection(r, auth, models, before + word + after),
        text::is_blank(before),
        text::is_blank(after),
        text::is_trimmed(word),
        word != seq!['q'],
        word != seq!['Q'],
        0 <= i < word.len(),
        word[i] < '0' || word[i] > '9',
        i > 0 || word[i] != '+',
    ensures
        r matches Selection::Invalid(msg) && msg@ == "Invalid input."@,
{
    reveal_strlit("q");
    reveal_strlit("Q");
    assert("q"@ =~= seq!['q'] && "Q"@ =~= seq!['Q']);
    text::lemma_trimmed_around(before, word, after);
    if text::number_value(word) is Some {
        text::law_only_digits_are_a_number(word, i);
    }
}

/// With credentials, staged changes and an earlier commit, the work comes to the message that
/// Copilot gives, and that message is printed as it is, or written to the file with the hint
/// behind it.
pub proof fn law_the_message_is_delivered(
    task: Task,
    message: String,
    p1: Progress,
    p2: Progress,
    p3: Progress,
    p4: Progress,
    p5: Progress,
    p6: Progress,
)
    requires
        task == Task::Generate ==> goes_on(task, Step::Authenticate, StepResult::Done, p1)
            && goes_on(task, Step::CheckStaged, StepResult::Seen(true), p2) && goes_on(
            task,
            Step::CheckInitial,
            StepResult::Seen(false),
            p3,
        ),
        task == Task::Hook ==> goes_on(task, Step::CheckStaged, StepResult::Seen(true), p1)
            && goes_on(task, Step::CheckInitial, StepResult::Seen(false), p2) && goes_on(
            task,
            Step::Authenticate,
            StepResult::Done,
            p3,
        ),
        goes_on(task, Step::ReadDiff, StepResult::Done, p4),
        goes_on(task, Step::ReadStat, StepResult::Done, p5),
        goes_on(task, Step::Ask, StepResult::Message(message), p6),
    ensures
        plan(task)[0] == if task == Task::Generate {
            Step::Authenticate
        } else {
            Step::CheckStaged
        },
        p1 == Progress::Next(
            if task == Task::Generate {
                Step::CheckStaged
            } else {
                Step::CheckInitial
            },
        ),
        p2 == Progress::Next(
            if task == Task::Generate {
                Step::CheckInitial
            } else {
                Step::Authenticate
            },
        ),
        p3 == Progress::Next(Step::ReadDiff),
        p4 == Progress::Next(Step::ReadStat),
        p5 == Progress::Next(Step::Ask),
        task == Task::Generate ==> (p6 matches Progress::Over(Ending::Print(s)) && s@ == message@),
        task == Task::Hook ==> (p6 matches Progress::Over(Ending::Write(s)) && s@ == message@
            + "\n\n# To abort: delete all lines or exit with :cq (vim)\n"@),
{
}

/// Without staged changes nothing is printed or written; the first commit is named without
/// asking; and a step that fails ends the work with its reason.
pub proof fn law_when_the_work_ends_early(
    task: Task,
    step: Step,
    reason: String,
    unstaged: Progress,
    initial: Progress,
    failed: Progress,
)
    requires
        goes_on(task, Step::CheckStaged, StepResult::Seen(false), unstaged),
        goes_on(task, Step::CheckInitial, StepResult::Seen(true), initial),
        goes_on(task, step, StepResult::Failed(reason), failed),
    ensures
        task == Task::Hook ==> unstaged == Progress::Over(Ending::Untouched),
        task == Task::Generate ==> (unstaged matches Progress::Over(Ending::Notice(s)) && s@
            == "No staged changes found. Please stage your changes using 'git add'."@),
        task == Task::Generate ==> (initial matches Progress::Over(Ending::Print(s)) && s@
            == "Initial commit"@),
        task == Task::Hook ==> (initial matches Progress::Over(Ending::Write(s)) && s@
            == "Initial commit"@ + "\n\n# To abort: delete all lines or exit with :cq (vim)\n"@),
        failed == Progress::Over(Ending::Failed(reason)),
{
}

/// A step may fail; the two checks see something that is so or is not; asking gives a
/// message; and the other steps are just done.
pub proof fn law_what_a_step_can_come_to(step: Step, so: bool, message: String, reason: String)
    ensures
        can_result(step, StepResult::Failed(reason)),
        can_result(step, StepResult::Seen(so)) <==> step == Step::CheckStaged || step
            == Step::CheckInitial,
        can_result(step, StepResult::Message(message)) <==> step == Step::Ask,
        can_result(step, StepResult::Done) <==> step == Step::Authenticate || step
            == Step::ReadDiff || step == Step::ReadStat,
{
}

} // verus!
