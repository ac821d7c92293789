//! Reloading the configuration while it is live.

use vstd::prelude::*;

use crate::config::load::{config_view, ConfigError, ConfigErrorV, SourceFile, Surroundings};
use crate::config::read::{checked, config_read, dir_loads, load_dir, load_file, toml_read};
use crate::config::{Config, ConfigV};
use crate::text::opt_view;

verus! {

/// Where the live configuration came from.
#[derive(Clone, PartialEq, Eq, Debug)]
pub enum ConfigSource {
    File(String),
    Dir(String),
}

/// What reading the source of a configuration gave: a file's text, or the reason why
/// it could not be read; a directory's settings file and the files of its routes and
/// listeners.
#[derive(PartialEq, Debug)]
pub enum Found {
    File(Result<String, String>),
    Dir { gateway: Option<SourceFile>, routes: Vec<SourceFile>, listeners: Vec<SourceFile> },
}

impl ConfigSource {
    /// Loads the configuration again from what was found at its source.
    pub fn reload(&self, found: Found, env: &Surroundings) -> (r: Result<Config, ConfigError>)
        requires
            self is File <==> found is File,
        ensures
            match found {
                Found::File(Ok(text)) => config_view(r) == checked(config_read(toml_read(text@)), env@),
                Found::File(Err(why)) => config_view(r) == Err::<ConfigV, ConfigErrorV>(
                    ConfigErrorV::Io(why@),
                ),
                Found::Dir { gateway, routes, listeners } => dir_loads(
                    opt_view(gateway),
                    routes@,
                    listeners@,
                    env@,
                    config_view(r),
                ),
            },
    {
        match found {
            Found::File(text) => load_file(text, env),
            Found::Dir { gateway, routes, listeners } => load_dir(gateway, routes, listeners, env),
        }
    }

    /// The path to watch for changes.
    pub fn watch_path(&self) -> (r: &str)
        ensures
            match self {
                ConfigSource::File(path) => r@ == path@,
                ConfigSource::Dir(dir) => r@ == dir@,
            },
    {
        match self {
            ConfigSource::File(path) => path.as_str(),
            ConfigSource::Dir(dir) => dir.as_str(),
        }
    }
}

/// Where a configuration comes from: the directory, where one is given, else the
/// file.
pub fn source_of(config: &str, config_dir: Option<&str>) -> (r: ConfigSource)
    ensures
        match config_dir {
            Some(dir) => r matches ConfigSource::Dir(d) && d@ == dir@,
            None => r matches ConfigSource::File(f) && f@ == config@,
        },
{
    match config_dir {
        Some(dir) => ConfigSource::Dir(dir.to_owned()),
        None => ConfigSource::File(config.to_owned()),
    }
}

/// Takes a reloaded configuration over, if it is one. A failed reload leaves the
/// live configuration as it was and hands the error back.
pub fn apply_reload(live: &mut Config, reloaded: Result<Config, ConfigError>) -> (r: Result<
    (),
    ConfigError,
>)
    ensures
        match reloaded {
            Ok(cfg) => r is Ok && *final(live) == cfg,
            Err(e) => *final(live) == *old(live) && r == Err::<(), ConfigError>(e),
        },
{
    match reloaded {
        Ok(cfg) => {
            *live = cfg;
            Ok(())
        },
        Err(e) => Err(e),
    }
}

/// What a watcher hears of: a change, an error, quiet for the whole window, or
/// that nobody is left to report.
#[derive(Clone, Copy, PartialEq, Eq, Structural, Debug)]
pub enum WatchEvent {
    Changed,
    Failed,
    Quiet,
    Closed,
}

/// Where a watcher stands: waiting for a change, waiting for changes to settle, or
/// finished.
#[derive(Clone, Copy, PartialEq, Eq, Structural, Debug)]
pub enum WatchState {
    Idle,
    Settling,
    Finished,
}

/// What a watcher does next.
#[derive(Clone, Copy, PartialEq, Eq, Structural, Debug)]
pub enum WatchAction {
    /// Wait for the next event, however long it takes.
    Wait,
    /// Report the failed event, and wait for the next.
    Warn,
    /// Wait for the next event, at most for the window.
    WaitForQuiet,
    /// Reload the configuration, and wait for the next event.
    Reload,
    Stop,
}

/// The state after an event, and what to do.
pub open spec fn watch_step(state: WatchState, event: WatchEvent) -> (WatchState, WatchAction) {
    match (state, event) {
        (WatchState::Finished, _) => (WatchState::Finished, WatchAction::Stop),
        (_, WatchEvent::Closed) => (WatchState::Finished, WatchAction::Stop),
        (WatchState::Idle, WatchEvent::Changed) => (WatchState::Settling, WatchAction::WaitForQuiet),
        (WatchState::Idle, WatchEvent::Failed) => (WatchState::Idle, WatchAction::Warn),
        (WatchState::Idle, WatchEvent::Quiet) => (WatchState::Idle, WatchAction::Wait),
        (WatchState::Settling, WatchEvent::Quiet) => (WatchState::Idle, WatchAction::Reload),
        (WatchState::Settling, _) => (WatchState::Settling, WatchAction::WaitForQuiet),
    }
}

impl WatchState {
    /// Takes an event, and says what to do.
    pub fn next(&mut self, event: WatchEvent) -> (r: WatchAction)
        ensures
            (*final(self), r) == watch_step(*old(self), event),
    {
        match *self {
            WatchState::Finished => WatchAction::Stop,
            WatchState::Idle => match event {
                WatchEvent::Changed => {
                    *self = WatchState::Settling;
                    WatchAction::WaitForQuiet
                },
                WatchEvent::Failed => WatchAction::Warn,
                WatchEvent::Quiet => WatchAction::Wait,
                WatchEvent::Closed => {
                    *self = WatchState::Finished;
                    WatchAction::Stop
                },
            },
            WatchState::Settling => match event {
                WatchEvent::Quiet => {
                    *self = WatchState::Idle;
                    WatchAction::Reload
                },
                WatchEvent::Closed => {
                    *self = WatchState::Finished;
                    WatchAction::Stop
                },
                _ => WatchAction::WaitForQuiet,
            },
        }
    }
}

/// The state after some events, and how many reloads they made.
pub open spec fn watched(state: WatchState, events: Seq<WatchEvent>) -> (WatchState, nat)
    decreases events.len(),
{
    if events.len() == 0 {
        (state, 0)
    } else {
        let (before, reloads) = watched(state, events.drop_last());
        let (after, action) = watch_step(before, events.last());
        (
            after,
            if action == WatchAction::Reload {
                reloads + 1
            } else {
                reloads
            },
        )
    }
}

proof fn lemma_burst(events: Seq<WatchEvent>)
    requires
        events.len() > 0,
        events[0] == WatchEvent::Changed,
        forall|i: int|
            0 <= i < events.len() ==> (#[trigger] events[i]) == WatchEvent::Changed || events[i]
                == WatchEvent::Failed,
    ensures
        watched(WatchState::Idle, events) == (WatchState::Settling, 0nat),
    decreases events.len(),
{
    let rest = events.drop_last();
    if rest.len() > 0 {
        assert(rest[0] == events[0]);
        assert forall|i: int| 0 <= i < rest.len() implies (#[trigger] rest[i]) == WatchEvent::Changed
            || rest[i] == WatchEvent::Failed by {
            assert(rest[i] == events[i]);
        }
        lemma_burst(rest);
        assert(events[events.len() - 1] == events.last());
    } else {
        assert(watched(WatchState::Idle, rest) == (WatchState::Idle, 0nat));
        assert(events.last() == events[0]);
    }
}

/// A burst of changes, however long, makes one reload once it has gone quiet, and
/// the watcher is ready for the next.
pub proof fn law_burst_reloads_once(burst: Seq<WatchEvent>)
    requires
        burst.len() > 0,
        burst[0] == WatchEvent::Changed,
        forall|i: int|
            0 <= i < burst.len() ==> (#[trigger] burst[i]) == WatchEvent::Changed || burst[i]
                == WatchEvent::Failed,
    ensures
        watched(WatchState::Idle, burst.push(WatchEvent::Quiet)) == (WatchState::Idle, 1nat),
{
    lemma_burst(burst);
    assert(burst.push(WatchEvent::Quiet).drop_last() == burst);
}

} // verus!
