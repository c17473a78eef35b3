use vstd::prelude::*;

use crate::fetch::FetchError;
use crate::notify::ConfigError;
use crate::version::{is_release, is_release_version};

verus! {

/// Why a run failed.
#[derive(Debug, Clone, Copy, PartialEq, Eq, Structural)]
pub enum RunError {
    /// A required setting is absent.
    Config(ConfigError),
    /// The version could not be fetched.
    Fetch(FetchError),
    /// The stored version could not be created, read or written.
    Store,
    /// The notification could not be sent.
    Notify,
    /// An event came that the run was not waiting for.
    UnexpectedEvent,
}

/// Where a run stands.
#[derive(Debug, Clone, Copy, PartialEq, Eq, Structural)]
pub enum Stage {
    /// Waiting for the settings to be checked.
    Init,
    /// Waiting for the version file to exist.
    Preparing,
    /// Waiting for the fetched version.
    Fetching,
    /// Waiting for the stored version, to compare the fetched one with it.
    Comparing,
    /// Waiting for the new version to be stored.
    Persisting,
    /// Waiting for the notification to be sent.
    Notifying,
    /// Over, with success.
    Done,
    /// Over, with a failure.
    Failed,
}

/// What the outside world reports back to the run.
#[derive(Debug, PartialEq, Eq)]
pub enum Event {
    /// The settings were checked.
    Configured(Result<(), ConfigError>),
    /// The version file exists.
    StateFileReady,
    /// The fetched version.
    Fetched(String),
    /// The stored version; empty when none is known yet.
    PreviousRead(String),
    /// The new version was stored.
    Persisted,
    /// The notification was sent.
    Notified,
    /// The last action failed.
    Failed(RunError),
}

/// What the run asks the outside world to do next.
#[derive(Debug, PartialEq, Eq)]
pub enum Action {
    /// Create the version file, empty, unless it exists.
    EnsureStateFile,
    /// Fetch the latest version.
    Fetch,
    /// Read the stored version.
    ReadPrevious,
    /// Replace the stored version with this one.
    Write(String),
    /// Announce this new version.
    Notify(String),
    /// End the run with this result.
    Finish(Result<(), RunError>),
}

/// One run: check the settings, make sure the version file exists, fetch
/// the version, and, only for a release version that differs from the
/// stored one, store it and then announce it.
pub struct Workflow {
    pub stage: Stage,
    /// The fetched version, once it is known.
    pub version: String,
}

/// Whether a run in `stage` is over.
pub open spec fn is_over(stage: Stage) -> bool {
    stage is Done || stage is Failed
}

/// The run that follows `w` on event `e`, and the action it asks for.
pub open spec fn run_next(w: Workflow, e: Event) -> (Workflow, Action) {
    let failed = Workflow { stage: Stage::Failed, version: w.version };
    let done = Workflow { stage: Stage::Done, version: w.version };
    let unexpected = (failed, Action::Finish(Err(RunError::UnexpectedEvent)));
    match e {
        Event::Configured(Ok(())) => if w.stage is Init {
            (Workflow { stage: Stage::Preparing, version: w.version }, Action::EnsureStateFile)
        } else {
            unexpected
        },
        Event::Configured(Err(c)) => if w.stage is Init {
            (failed, Action::Finish(Err(RunError::Config(c))))
        } else {
            unexpected
        },
        Event::StateFileReady => if w.stage is Preparing {
            (Workflow { stage: Stage::Fetching, version: w.version }, Action::Fetch)
        } else {
            unexpected
        },
        Event::Fetched(v) => if w.stage is Fetching {
            if is_release(v@) {
                (Workflow { stage: Stage::Comparing, version: v }, Action::ReadPrevious)
            } else {
                (done, Action::Finish(Ok(())))
            }
        } else {
            unexpected
        },
        Event::PreviousRead(p) => if w.stage is Comparing {
            if p@ != w.version@ {
                (
                    Workflow { stage: Stage::Persisting, version: w.version },
                    Action::Write(w.version),
                )
            } else {
                (done, Action::Finish(Ok(())))
            }
        } else {
            unexpected
        },
        Event::Persisted => if w.stage is Persisting {
            (Workflow { stage: Stage::Notifying, version: w.version }, Action::Notify(w.version))
        } else {
            unexpected
        },
        Event::Notified => if w.stage is Notifying {
            (done, Action::Finish(Ok(())))
        } else {
            unexpected
        },
        Event::Failed(err) => if !is_over(w.stage) {
            (failed, Action::Finish(Err(err)))
        } else {
            unexpected
        },
    }
}

/// The actions that a run asks for on `events`, one each, starting at `w`.
pub open spec fn run_actions(w: Workflow, events: Seq<Event>) -> Seq<Action>
    decreases events.len(),
{
    if events.len() == 0 {
        Seq::empty()
    } else {
        let (next, action) = run_next(w, events[0]);
        seq![action] + run_actions(next, events.drop_first())
    }
}

/// An action that changes the stored version or announces one.
pub open spec fn writes_or_notifies(a: Action) -> bool {
    a is Write || a is Notify
}

/// A run on one event and then on the rest.
proof fn lemma_run_first(w: Workflow, e: Event, rest: Seq<Event>)
    ensures
        run_actions(w, seq![e] + rest) == seq![run_next(w, e).1] + run_actions(
            run_next(w, e).0,
            rest,
        ),
{
    let all = seq![e] + rest;
    assert(all[0] == e);
    assert(all.drop_first() =~= rest);
}

/// A run that is over asks only to finish, on every event.
proof fn lemma_over_only_finishes(w: Workflow, events: Seq<Event>)
    requires
        is_over(w.stage),
    ensures
        run_actions(w, events).len() == events.len(),
        forall|i: int| 0 <= i < events.len() ==> (#[trigger] run_actions(w, events)[i]) is Finish,
    decreases events.len(),
{
    if events.len() > 0 {
        let rest = events.drop_first();
        assert(events =~= seq![events[0]] + rest);
        lemma_run_first(w, events[0], rest);
        lemma_over_only_finishes(run_next(w, events[0]).0, rest);
        assert forall|i: int| 0 <= i < events.len() implies (#[trigger] run_actions(
            w,
            events,
        )[i]) is Finish by {
            if i > 0 {
                assert(run_actions(w, events)[i] == run_actions(run_next(w, events[0]).0, rest)[i
                    - 1]);
            }
        }
    }
}

/// A missing setting ends the run at once with that configuration error:
/// no later event leads to a fetch, a write or a notification.
pub proof fn lemma_missing_setting_stops(w: Workflow, c: ConfigError, rest: Seq<Event>)
    requires
        w.stage is Init,
    ensures
        run_actions(w, seq![Event::Configured(Err(c))] + rest)[0] == Action::Finish(
            Err(RunError::Config(c)),
        ),
        forall|i: int|
            0 <= i <= rest.len() ==> (#[trigger] run_actions(
                w,
                seq![Event::Configured(Err(c))] + rest,
            )[i]) is Finish,
{
    let (next, _) = run_next(w, Event::Configured(Err(c)));
    lemma_run_first(w, Event::Configured(Err(c)), rest);
    lemma_over_only_finishes(next, rest);
}

/// The first events of every run that gets as far as a fetch.
pub open spec fn until_fetched(v: String) -> Seq<Event> {
    seq![Event::Configured(Ok(())), Event::StateFileReady, Event::Fetched(v)]
}

/// The first actions of every run that gets as far as a fetch.
proof fn lemma_until_fetched(w: Workflow, v: String, rest: Seq<Event>)
    requires
        w.stage is Init,
    ensures
        run_actions(w, until_fetched(v) + rest) == seq![Action::EnsureStateFile, Action::Fetch]
            + run_actions(
            Workflow { stage: Stage::Fetching, version: w.version },
            seq![Event::Fetched(v)] + rest,
        ),
{
    let w1 = Workflow { stage: Stage::Preparing, version: w.version };
    let w2 = Workflow { stage: Stage::Fetching, version: w.version };
    let tail2 = seq![Event::Fetched(v)] + rest;
    let tail1 = seq![Event::StateFileReady] + tail2;
    assert(until_fetched(v) + rest =~= seq![Event::Configured(Ok(()))] + tail1);
    lemma_run_first(w, Event::Configured(Ok(())), tail1);
    lemma_run_first(w1, Event::StateFileReady, tail2);
    assert(seq![Action::EnsureStateFile] + (seq![Action::Fetch] + run_actions(w2, tail2)) =~= seq![
        Action::EnsureStateFile,
        Action::Fetch,
    ] + run_actions(w2, tail2));
}

/// A fetched version that is not a release ends the run with success,
/// whatever version is stored and whatever comes after: nothing is written
/// and nothing is announced.
pub proof fn lemma_non_release_ignored(w: Workflow, v: String, rest: Seq<Event>)
    requires
        w.stage is Init,
        !is_release(v@),
    ensures
        run_actions(w, until_fetched(v) + rest)[2] == Action::Finish(Ok(())),
        forall|i: int|
            0 <= i < rest.len() + 3 ==> !writes_or_notifies(
                #[trigger] run_actions(w, until_fetched(v) + rest)[i],
            ),
{
    let w2 = Workflow { stage: Stage::Fetching, version: w.version };
    lemma_until_fetched(w, v, rest);
    lemma_run_first(w2, Event::Fetched(v), rest);
    let w3 = run_next(w2, Event::Fetched(v)).0;
    lemma_over_only_finishes(w3, rest);
    let all = run_actions(w, until_fetched(v) + rest);
    assert forall|i: int| 0 <= i < rest.len() + 3 implies !writes_or_notifies(
        #[trigger] all[i],
    ) by {
        if i >= 3 {
            assert(all[i] == run_actions(w3, rest)[i - 3]);
        }
    }
}

/// A fetched release equal to the stored version ends the run with
/// success, whatever comes after: nothing is written and nothing is
/// announced.
pub proof fn lemma_same_version_ignored(w: Workflow, v: String, p: String, rest: Seq<Event>)
    requires
        w.stage is Init,
        is_release(v@),
        p@ == v@,
    ensures
        run_actions(w, until_fetched(v) + seq![Event::PreviousRead(p)] + rest)[3]
            == Action::Finish(Ok(())),
        forall|i: int|
            0 <= i < rest.len() + 4 ==> !writes_or_notifies(
                #[trigger] run_actions(w, until_fetched(v) + seq![Event::PreviousRead(p)] + rest)[i],
            ),
{
    let w2 = Workflow { stage: Stage::Fetching, version: w.version };
    let w3 = Workflow { stage: Stage::Comparing, version: v };
    let w4 = run_next(w3, Event::PreviousRead(p)).0;
    let tail = seq![Event::PreviousRead(p)] + rest;
    assert(until_fetched(v) + seq![Event::PreviousRead(p)] + rest =~= until_fetched(v) + tail);
    lemma_until_fetched(w, v, tail);
    lemma_run_first(w2, Event::Fetched(v), tail);
    lemma_run_first(w3, Event::PreviousRead(p), rest);
    lemma_over_only_finishes(w4, rest);
    let all = run_actions(w, until_fetched(v) + tail);
    assert forall|i: int| 0 <= i < rest.len() + 4 implies !writes_or_notifies(
        #[trigger] all[i],
    ) by {
        if i >= 4 {
            assert(all[i] == run_actions(w4, rest)[i - 4]);
        }
    }
}

/// A fetched release that differs from the stored version is written, then
/// announced exactly once, and the run ends with success.
pub proof fn lemma_new_release_announced(w: Workflow, v: String, p: String)
    requires
        w.stage is Init,
        is_release(v@),
        p@ != v@,
    ensures
        run_actions(
            w,
            until_fetched(v) + seq![Event::PreviousRead(p), Event::Persisted, Event::Notified],
        ) == seq![
            Action::EnsureStateFile,
            Action::Fetch,
            Action::ReadPrevious,
            Action::Write(v),
            Action::Notify(v),
            Action::Finish(Ok(())),
        ],
{
    let w2 = Workflow { stage: Stage::Fetching, version: w.version };
    let w3 = Workflow { stage: Stage::Comparing, version: v };
    let w4 = Workflow { stage: Stage::Persisting, version: v };
    let w5 = Workflow { stage: Stage::Notifying, version: v };
    let t5 = seq![Event::Notified];
    let t4 = seq![Event::Persisted] + t5;
    let t3 = seq![Event::PreviousRead(p)] + t4;
    assert(seq![Event::PreviousRead(p), Event::Persisted, Event::Notified] =~= t3);
    lemma_until_fetched(w, v, t3);
    lemma_run_first(w2, Event::Fetched(v), t3);
    lemma_run_first(w3, Event::PreviousRead(p), t4);
    lemma_run_first(w4, Event::Persisted, t5);
    lemma_run_first(w5, Event::Notified, Seq::empty());
    assert(seq![Event::Notified] + Seq::<Event>::empty() =~= t5);
    let done = Workflow { stage: Stage::Done, version: v };
    assert(run_actions(done, Seq::empty()) =~= Seq::<Action>::empty());
    assert(run_actions(w, until_fetched(v) + t3) =~= seq![
        Action::EnsureStateFile,
        Action::Fetch,
        Action::ReadPrevious,
        Action::Write(v),
        Action::Notify(v),
        Action::Finish(Ok(())),
    ]);
}

impl Workflow {
    /// A run that has not begun.
    pub fn new() -> (w: Workflow)
        ensures
            w.stage == Stage::Init,
            w.version@ == Seq::<char>::empty(),
    {
        Workflow { stage: Stage::Init, version: String::new() }
    }

    /// Takes in what the last action brought and says what comes next.
    pub fn step(&mut self, e: Event) -> (a: Action)
        ensures
            (*final(self), a) == run_next(*old(self), e),
    {
        let unexpected = Action::Finish(Err(RunError::UnexpectedEvent));
        match e {
            Event::Configured(Ok(())) => {
                if self.stage == Stage::Init {
                    self.stage = Stage::Preparing;
                    Action::EnsureStateFile
                } else {
                    self.stage = Stage::Failed;
                    unexpected
                }
            },
            Event::Configured(Err(c)) => {
                let init = self.stage == Stage::Init;
                self.stage = Stage::Failed;
                if init {
                    Action::Finish(Err(RunError::Config(c)))
                } else {
                    unexpected
                }
            },
            Event::StateFileReady => {
                if self.stage == Stage::Preparing {
                    self.stage = Stage::Fetching;
                    Action::Fetch
                } else {
                    self.stage = Stage::Failed;
                    unexpected
                }
            },
            Event::Fetched(v) => {
                if self.stage == Stage::Fetching {
                    if is_release_version(v.as_str()) {
                        self.stage = Stage::Comparing;
                        self.version = v;
                        Action::ReadPrevious
                    } else {
                        self.stage = Stage::Done;
                        Action::Finish(Ok(()))
                    }
                } else {
                    self.stage = Stage::Failed;
                    unexpected
                }
            },
            Event::PreviousRead(p) => {
                if self.stage == Stage::Comparing {
                    if p != self.version {
                        self.stage = Stage::Persisting;
                        Action::Write(self.version.clone())
                    } else {
                        self.stage = Stage::Done;
                        Action::Finish(Ok(()))
                    }
                } else {
                    self.stage = Stage::Failed;
                    unexpected
                }
            },
            Event::Persisted => {
                if self.stage == Stage::Persisting {
                    self.stage = Stage::Notifying;
                    Action::Notify(self.version.clone())
                } else {
                    self.stage = Stage::Failed;
                    unexpected
                }
            },
            Event::Notified => {
                if self.stage == Stage::Notifying {
                    self.stage = Stage::Done;
                    Action::Finish(Ok(()))
                } else {
                    self.stage = Stage::Failed;
                    unexpected
                }
            },
            Event::Failed(err) => {
                let over = self.stage == Stage::Done || self.stage == Stage::Failed;
                self.stage = Stage::Failed;
                if !over {
                    Action::Finish(Err(err))
                } else {
                    unexpected
                }
            },
        }
    }
}

} // verus!
