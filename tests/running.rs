use release_watch::notify::ConfigError;
use release_watch::workflow::{Action, Event, RunError, Stage, Workflow};

/// Drives a run against in-memory collaborators, counting fetches and
/// notifications, and returns what it wrote and announced.
struct Fake {
    stored: String,
    fetched: String,
    config: Result<(), ConfigError>,
    fetches: usize,
    writes: Vec<String>,
    notes: Vec<String>,
}

fn drive(f: &mut Fake) -> Result<(), RunError> {
    let mut w = Workflow::new();
    let mut a = w.step(Event::Configured(f.config));
    loop {
        let e = match a {
            Action::EnsureStateFile => Event::StateFileReady,
            Action::Fetch => {
                f.fetches += 1;
                Event::Fetched(f.fetched.clone())
            }
            Action::ReadPrevious => Event::PreviousRead(f.stored.clone()),
            Action::Write(v) => {
                f.stored = v.clone();
                f.writes.push(v);
                Event::Persisted
            }
            Action::Notify(v) => {
                f.notes.push(v);
                Event::Notified
            }
            Action::Finish(r) => return r,
        };
        a = w.step(e);
    }
}

fn fake(stored: &str, fetched: &str) -> Fake {
    Fake {
        stored: stored.to_string(),
        fetched: fetched.to_string(),
        config: Ok(()),
        fetches: 0,
        writes: vec![],
        notes: vec![],
    }
}

#[test]
fn unchanged_version_does_nothing() {
    let mut f = fake("1.39.0", "1.39.0");
    assert_eq!(drive(&mut f), Ok(()));
    assert!(f.writes.is_empty());
    assert!(f.notes.is_empty());
    assert_eq!(f.stored, "1.39.0");
}

#[test]
fn fresh_state_new_release_written_and_announced() {
    let mut f = fake("", "1.39.1");
    assert_eq!(drive(&mut f), Ok(()));
    assert_eq!(f.writes, vec!["1.39.1".to_string()]);
    assert_eq!(f.notes, vec!["1.39.1".to_string()]);
    assert_eq!(f.stored, "1.39.1");
}

#[test]
fn pre_release_is_ignored() {
    for prev in ["", "1.39.0", "1.39.1-rc.1"] {
        let mut f = fake(prev, "1.39.1-rc.1");
        assert_eq!(drive(&mut f), Ok(()));
        assert!(f.writes.is_empty());
        assert!(f.notes.is_empty());
        assert_eq!(f.stored, prev);
    }
}

#[test]
fn missing_config_fails_before_fetching() {
    let mut f = fake("", "1.39.1");
    f.config = Err(ConfigError::MissingChatId);
    assert_eq!(drive(&mut f), Err(RunError::Config(ConfigError::MissingChatId)));
    assert_eq!(f.fetches, 0);
    assert!(f.notes.is_empty());
}

#[test]
fn failures_end_the_run() {
    let mut w = Workflow::new();
    assert_eq!(w.step(Event::Configured(Ok(()))), Action::EnsureStateFile);
    assert_eq!(w.step(Event::StateFileReady), Action::Fetch);
    assert_eq!(
        w.step(Event::Failed(RunError::Store)),
        Action::Finish(Err(RunError::Store))
    );
    assert_eq!(w.stage, Stage::Failed);
    assert_eq!(
        w.step(Event::Fetched("1.0.0".to_string())),
        Action::Finish(Err(RunError::UnexpectedEvent))
    );
}

#[test]
fn events_out_of_order_are_refused() {
    let mut w = Workflow::new();
    assert_eq!(w.step(Event::Persisted), Action::Finish(Err(RunError::UnexpectedEvent)));
    assert_eq!(w.stage, Stage::Failed);
}
