use llm_term::cache::ResponseCache;
use llm_term::cli::{consents, CommandRun, Request, Stage, COMMAND_MODE};

fn cache_with(prompt: &str, command: &str) -> ResponseCache {
    let mut cache = ResponseCache::new();
    cache.put(COMMAND_MODE, prompt, command.to_string());
    cache
}

#[test]
fn only_y_consents() {
    for answer in ["y", "Y", " y\n", "\tY  "] {
        assert!(consents(answer), "{:?}", answer);
    }
    for answer in ["", "n", "yes", "yy", "y y", "sure", "\n"] {
        assert!(!consents(answer), "{:?}", answer);
    }
}

#[test]
fn commands_are_remembered_under_their_own_mode() {
    assert_eq!(COMMAND_MODE, "command");
}

#[test]
fn a_prompt_that_is_not_cached_goes_to_the_model() {
    let (run, request) = CommandRun::start("list files".to_string(), ResponseCache::new(), false);
    assert_eq!(request, Request::AskModel { prompt: "list files".to_string(), store: false });
    assert_eq!(run.stage, Stage::ModelAsked);
    assert_eq!(run.prompt, "list files");
}

#[test]
fn a_cached_command_is_offered() {
    let (run, request) = CommandRun::start("list files".to_string(), cache_with("list files", "ls"), false);
    assert_eq!(request, Request::OfferCached { command: "ls".to_string() });
    assert_eq!(run.stage, Stage::CachedOffered { command: "ls".to_string() });
}

#[test]
fn a_disabled_cache_is_not_asked() {
    let (run, request) = CommandRun::start("list files".to_string(), cache_with("list files", "ls"), true);
    assert_eq!(request, Request::AskModel { prompt: "list files".to_string(), store: false });
    assert_eq!(run.stage, Stage::ModelAsked);
    assert_eq!(run.cache.get(COMMAND_MODE, "list files"), Some("ls".to_string()));
}

#[test]
fn a_reply_cached_for_the_chat_is_no_cached_command() {
    let mut cache = ResponseCache::new();
    cache.put("unified", "list files", "Sure: `COMMAND: ls`".to_string());
    let (_, request) = CommandRun::start("list files".to_string(), cache, false);
    assert_eq!(request, Request::AskModel { prompt: "list files".to_string(), store: false });
}

#[test]
fn consent_runs_the_cached_command() {
    let (mut run, _) = CommandRun::start("list files".to_string(), cache_with("list files", "ls"), false);
    assert_eq!(run.answer("y\n"), Request::Run { command: "ls".to_string(), store: false });
    assert_eq!(run.stage, Stage::Finished);
    assert_eq!(run.cache.get(COMMAND_MODE, "list files"), Some("ls".to_string()));
}

#[test]
fn a_declined_cached_command_can_be_kept() {
    let (mut run, _) = CommandRun::start("list files".to_string(), cache_with("list files", "ls"), false);
    assert_eq!(run.answer("n\n"), Request::OfferInvalidation);
    assert_eq!(run.stage, Stage::InvalidationOffered);
    assert_eq!(run.answer("n\n"), Request::Cancel { store: false });
    assert_eq!(run.stage, Stage::Finished);
    assert_eq!(run.cache.get(COMMAND_MODE, "list files"), Some("ls".to_string()));
}

#[test]
fn a_declined_cached_command_can_be_forgotten_and_asked_anew() {
    let mut cache = cache_with("list files", "ls");
    cache.put(COMMAND_MODE, "other", "pwd".to_string());
    let (mut run, _) = CommandRun::start("list files".to_string(), cache, false);
    assert_eq!(run.answer("no"), Request::OfferInvalidation);
    assert_eq!(run.answer("Y"), Request::AskModel { prompt: "list files".to_string(), store: true });
    assert_eq!(run.stage, Stage::ModelAsked);
    assert_eq!(run.cache.get(COMMAND_MODE, "list files"), None);
    assert_eq!(run.cache.get(COMMAND_MODE, "other"), Some("pwd".to_string()));

    assert_eq!(
        run.model_result(Ok(Some("ls -la".to_string()))),
        Request::OfferFresh { command: "ls -la".to_string() }
    );
    assert_eq!(run.answer("y"), Request::Run { command: "ls -la".to_string(), store: true });
    assert_eq!(run.cache.get(COMMAND_MODE, "list files"), Some("ls -la".to_string()));
}

#[test]
fn a_fresh_command_is_offered_and_run_on_consent() {
    let (mut run, _) = CommandRun::start("disk usage".to_string(), ResponseCache::new(), false);
    let request = run.model_result(Ok(Some("df -h".to_string())));
    assert_eq!(request, Request::OfferFresh { command: "df -h".to_string() });
    assert_eq!(run.stage, Stage::FreshOffered { command: "df -h".to_string() });
    assert_eq!(run.cache.get(COMMAND_MODE, "disk usage"), None);
    assert_eq!(run.answer(" y "), Request::Run { command: "df -h".to_string(), store: true });
    assert_eq!(run.stage, Stage::Finished);
    assert_eq!(run.cache.get(COMMAND_MODE, "disk usage"), Some("df -h".to_string()));
}

#[test]
fn a_fresh_command_is_remembered_even_when_it_is_not_run() {
    let (mut run, _) = CommandRun::start("disk usage".to_string(), ResponseCache::new(), true);
    run.model_result(Ok(Some("df -h".to_string())));
    assert_eq!(run.answer("n"), Request::Cancel { store: true });
    assert_eq!(run.stage, Stage::Finished);
    assert_eq!(run.cache.get(COMMAND_MODE, "disk usage"), Some("df -h".to_string()));
}

#[test]
fn no_command_from_the_model_ends_the_run() {
    let (mut run, _) = CommandRun::start("hm".to_string(), ResponseCache::new(), false);
    assert_eq!(run.model_result(Ok(None)), Request::ReportNoCommand);
    assert_eq!(run.stage, Stage::Finished);
    assert!(run.cache.entries().is_empty());
}

#[test]
fn a_failure_of_the_model_is_reported_and_not_remembered() {
    let (mut run, _) = CommandRun::start("hm".to_string(), ResponseCache::new(), false);
    assert_eq!(
        run.model_result(Err("timeout".to_string())),
        Request::ReportFailure { message: "Error: timeout".to_string() }
    );
    assert_eq!(run.stage, Stage::Finished);
    assert!(run.cache.entries().is_empty());
}

#[test]
fn a_step_that_is_not_awaited_changes_nothing() {
    let (mut run, _) = CommandRun::start("hm".to_string(), ResponseCache::new(), false);
    assert_eq!(run.answer("y"), Request::Nothing);
    assert_eq!(run.stage, Stage::ModelAsked);
    run.model_result(Ok(None));
    assert_eq!(run.answer("y"), Request::Nothing);
    assert_eq!(run.model_result(Ok(Some("ls".to_string()))), Request::Nothing);
    assert_eq!(run.stage, Stage::Finished);

    let (mut run, _) = CommandRun::start("list".to_string(), cache_with("list", "ls"), false);
    assert_eq!(run.model_result(Ok(Some("pwd".to_string()))), Request::Nothing);
    assert_eq!(run.stage, Stage::CachedOffered { command: "ls".to_string() });
}
