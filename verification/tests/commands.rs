use ghcc::auth::{AuthError, CopilotAuth};
use ghcc::commands::{
    asks_for_model, cmd_login, cmd_models, cmd_status, endpoints_of_choice, first_step, next_step,
    select_model, status_at, Ending, Progress, Selection, Step, StepResult, Task, MODEL_QUESTION,
};
use ghcc::copilot::{Model, ModelCapabilities, ModelLimits};

fn credentials(expires: u64, model: Option<&str>) -> CopilotAuth {
    CopilotAuth {
        auth_type: "oauth".to_string(),
        refresh: "r".to_string(),
        access: "a".to_string(),
        expires,
        api_endpoint: Some("e".to_string()),
        model: model.map(|s| s.to_string()),
        machine_id: Some("m".to_string()),
        max_prompt_tokens: Some(1),
    }
}

fn model(id: &str, limit: Option<u64>) -> Model {
    Model {
        id: id.to_string(),
        name: format!("Name of {}", id),
        vendor: "Vendor".to_string(),
        model_picker_enabled: true,
        capabilities: limit.map(|l| ModelCapabilities {
            limits: Some(ModelLimits {
                max_prompt_tokens: Some(l),
            }),
        }),
        policy: None,
        supported_endpoints: None,
    }
}

fn models() -> Vec<Model> {
    let mut other = model("other", None);
    other.supported_endpoints = Some(vec!["/responses".to_string(), "/other".to_string()]);
    vec![model("gpt-4.1", Some(64_000)), other]
}

/// Runs a task with these results and gives the steps that were taken and how it ended.
fn run(task: Task, results: Vec<StepResult>) -> (Vec<Step>, Option<Ending>) {
    let mut steps = vec![first_step(task)];
    for result in results {
        match next_step(task, *steps.last().unwrap(), result) {
            Progress::Next(step) => steps.push(step),
            Progress::Over(ending) => return (steps, Some(ending)),
        }
    }
    (steps, None)
}

#[test]
fn a_login_is_reported() {
    assert_eq!(
        cmd_login("/data/auth.json"),
        ["Authentication successful!", "Token saved to: /data/auth.json"]
    );
}

#[test]
fn the_status_of_a_good_token_counts_minutes() {
    let lines = status_at(Ok(credentials(10_000_000, None)), 1_000_000, 1_000).unwrap();
    assert_eq!(
        lines,
        [
            "Authenticated: yes",
            "Token status: valid (150 minutes remaining)",
            "Selected model: gpt-4.1 (default)",
        ]
    );
}

#[test]
fn the_status_of_an_expired_token_says_so() {
    let lines = status_at(Ok(credentials(1_300_000, Some("x"))), 1_000_000, 1_000).unwrap();
    assert_eq!(
        lines,
        [
            "Authenticated: yes",
            "Token status: expired (will refresh on next use)",
            "Selected model: x",
        ]
    );
    let lines = status_at(Ok(credentials(1_300_001, Some("x"))), 1_000_000, 2_000).unwrap();
    assert_eq!(lines[1], "Token status: valid (0 minutes remaining)");
}

#[test]
fn the_status_goes_by_the_clock() {
    let lines = cmd_status(Ok(credentials(0, None))).unwrap();
    assert_eq!(lines[1], "Token status: expired (will refresh on next use)");
    let lines = cmd_status(Ok(credentials(u64::MAX, None))).unwrap();
    let minutes = lines[1]
        .strip_prefix("Token status: valid (")
        .and_then(|s| s.strip_suffix(" minutes remaining)"))
        .unwrap()
        .parse::<u64>()
        .unwrap();
    let all = u64::MAX / 1000 / 60;
    assert!(minutes < all - 25_000_000 && minutes > all - 100_000_000);
}

#[test]
fn the_status_without_credentials() {
    assert_eq!(
        status_at(Err(AuthError::NotFound), 0, 0).unwrap(),
        ["Authenticated: no", "Run 'ghcc login' to authenticate"]
    );
    assert_eq!(
        status_at(Err(AuthError::Parse("bad file".to_string())), 0, 0).unwrap(),
        [
            "Authenticated: unknown (auth file is invalid)",
            "bad file",
            "Run 'ghcc login' to refresh credentials",
        ]
    );
    assert!(matches!(
        status_at(Err(AuthError::FileSystem("x".to_string())), 0, 0),
        Err(AuthError::FileSystem(msg)) if msg == "x"
    ));
}

#[test]
fn models_are_listed_with_the_current_one_marked() {
    assert_eq!(
        cmd_models(&credentials(0, None), &models()),
        [
            "",
            "Available models:",
            "",
            " 1. * gpt-4.1              Name of gpt-4.1 (Vendor)",
            " 2.   other                Name of other (Vendor)",
            "",
            "Current: gpt-4.1",
            "",
        ]
    );
    assert_eq!(cmd_models(&credentials(0, Some("other")), &models())[6], "Current: other");
    assert_eq!(
        cmd_models(&credentials(0, None), &Vec::new()),
        ["No enabled models found."]
    );
    assert_eq!(MODEL_QUESTION, "Enter number to select (q to cancel): ");
}

#[test]
fn the_number_of_a_row_chooses_its_model() {
    match select_model(credentials(7, Some("other")), &models(), " 1\n") {
        Selection::Chosen { index, stored, notice } => {
            let auth = stored.auth;
            assert_eq!(stored.supported_endpoints, None);
            assert_eq!(index, 0);
            assert_eq!(notice, "Model set to: gpt-4.1");
            assert_eq!(auth.model.unwrap(), "gpt-4.1");
            assert_eq!(auth.max_prompt_tokens, Some(64_000));
            assert_eq!(auth.expires, 7);
            assert_eq!(auth.refresh, "r");
            assert_eq!(auth.machine_id.unwrap(), "m");
        }
        other => panic!("{:?}", other),
    }
    match select_model(credentials(7, None), &models(), "+2") {
        Selection::Chosen { index, stored, .. } => {
            let auth = stored.auth;
            assert_eq!(stored.supported_endpoints.unwrap(), ["/responses", "/other"]);
            assert_eq!(index, 1);
            assert_eq!(auth.model.unwrap(), "other");
            assert_eq!(auth.max_prompt_tokens, None);
        }
        other => panic!("{:?}", other),
    }
}

#[test]
fn the_endpoints_of_a_choice_are_those_of_its_model() {
    assert_eq!(endpoints_of_choice(&models(), 0), None);
    assert_eq!(endpoints_of_choice(&models(), 1).unwrap(), ["/responses", "/other"]);
}

#[test]
fn a_model_is_asked_for_where_there_is_one() {
    assert!(asks_for_model(&models()));
    assert!(!asks_for_model(&Vec::new()));
}

#[test]
fn a_choice_may_be_cancelled_or_wrong() {
    for input in ["q", "Q\n", "", " \n"] {
        assert!(matches!(
            select_model(credentials(0, None), &models(), input),
            Selection::Cancelled
        ));
    }
    for input in ["0", "3", "18446744073709551615"] {
        assert!(matches!(
            select_model(credentials(0, None), &models(), input),
            Selection::Invalid(msg) if msg == "Invalid selection."
        ));
    }
    for input in ["x", "-1", "1 2", "18446744073709551616", "qq"] {
        assert!(matches!(
            select_model(credentials(0, None), &models(), input),
            Selection::Invalid(msg) if msg == "Invalid input."
        ));
    }
}

#[test]
fn a_message_is_generated_step_by_step() {
    let (steps, ending) = run(
        Task::Generate,
        vec![
            StepResult::Done,
            StepResult::Seen(true),
            StepResult::Seen(false),
            StepResult::Done,
            StepResult::Done,
            StepResult::Message("fix: x".to_string()),
        ],
    );
    assert_eq!(
        steps,
        [
            Step::Authenticate,
            Step::CheckStaged,
            Step::CheckInitial,
            Step::ReadDiff,
            Step::ReadStat,
            Step::Ask,
        ]
    );
    assert!(matches!(ending, Some(Ending::Print(s)) if s == "fix: x"));
}

#[test]
fn the_hook_checks_before_it_authenticates() {
    let (steps, ending) = run(
        Task::Hook,
        vec![
            StepResult::Seen(true),
            StepResult::Seen(false),
            StepResult::Done,
            StepResult::Done,
            StepResult::Done,
            StepResult::Message("fix: x".to_string()),
        ],
    );
    assert_eq!(
        steps,
        [
            Step::CheckStaged,
            Step::CheckInitial,
            Step::Authenticate,
            Step::ReadDiff,
            Step::ReadStat,
            Step::Ask,
        ]
    );
    assert!(matches!(
        ending,
        Some(Ending::Write(s))
            if s == "fix: x\n\n# To abort: delete all lines or exit with :cq (vim)\n"
    ));
}

#[test]
fn the_first_commit_is_named_without_asking() {
    let (steps, ending) = run(Task::Hook, vec![StepResult::Seen(true), StepResult::Seen(true)]);
    assert_eq!(steps, [Step::CheckStaged, Step::CheckInitial]);
    assert!(matches!(
        ending,
        Some(Ending::Write(s))
            if s == "Initial commit\n\n# To abort: delete all lines or exit with :cq (vim)\n"
    ));
    let (_, ending) = run(
        Task::Generate,
        vec![StepResult::Done, StepResult::Seen(true), StepResult::Seen(true)],
    );
    assert!(matches!(ending, Some(Ending::Print(s)) if s == "Initial commit"));
}

#[test]
fn without_staged_changes_there_is_nothing_to_do() {
    let (_, ending) = run(Task::Hook, vec![StepResult::Seen(false)]);
    assert!(matches!(ending, Some(Ending::Untouched)));
    let (_, ending) = run(Task::Generate, vec![StepResult::Done, StepResult::Seen(false)]);
    assert!(matches!(
        ending,
        Some(Ending::Notice(s))
            if s == "No staged changes found. Please stage your changes using 'git add'."
    ));
}

#[test]
fn a_failure_ends_the_work() {
    for step in [
        Step::Authenticate,
        Step::CheckStaged,
        Step::CheckInitial,
        Step::ReadDiff,
        Step::ReadStat,
        Step::Ask,
    ] {
        assert!(matches!(
            next_step(Task::Hook, step, StepResult::Failed("no".to_string())),
            Progress::Over(Ending::Failed(e)) if e == "no"
        ));
    }
}
