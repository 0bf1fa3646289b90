//! The install batch: the decisions of one install command over all its environments, as a
//! state machine driven by the outcome of each outside action.
use crate::entries::{entries_view, Entry};
use crate::exposure::{exposure_plan, plan_exposure, prefix_view, AutoExposed, InstalledPackage};
use crate::manifest::{
    copy_option, has_env, opt_view, redefined, with_exposed, EnvironmentModel, Manifest,
};
use crate::targets::{
    request_names, requests_for, requests_view, resolve_environment_names, resolved_names,
    select_requests, InstallError, PackageRequest, Stage,
};
use crate::task::{copy_strings, views};
use vstd::prelude::*;

verus! {

/// What the caller of a [`Batch`] does next, and reports back as an [`Event`].
#[derive(Debug)]
pub enum Action {
    /// Solve, fetch and link the packages of the environment.
    Install(String),
    /// List the packages installed in the environment and the executables each ships.
    Inspect(String),
    /// Publish the exposed names of the environment as the manifest now has them, and warn of
    /// each name that was exposed from another package than the requested one.
    Publish(String, Vec<AutoExposed>),
    /// Restore the environment as the original manifest defines it.
    Revert(String),
    /// Write the manifest.
    Save,
    /// The batch is over, with this outcome.
    Finish(Result<(), InstallError>),
}

/// How the last action went.
#[derive(Debug, Clone)]
pub enum Event {
    Succeeded,
    /// An inspection succeeded and found these packages.
    Inspected(Vec<InstalledPackage>),
    Failed,
}

/// Where a batch stands.
#[derive(Debug, Clone, Copy, PartialEq, Eq, Structural)]
pub enum Phase {
    Installing,
    Inspecting,
    Publishing,
    /// Restoring an environment after the stage failed.
    Reverting(Stage),
    Saving,
    Finished,
}

/// One run of the install command over all its target environments, in order. The manifest
/// is worked on in memory and written once, at the end, only if every environment succeeded.
#[derive(Debug, Clone)]
pub struct Batch {
    /// The manifest as it was before the batch: the source of every revert.
    pub original: Manifest,
    /// The manifest as the batch has changed it so far.
    pub manifest: Manifest,
    pub env_names: Vec<String>,
    pub requests: Vec<PackageRequest>,
    pub channels: Vec<String>,
    pub platform: Option<String>,
    /// Explicit mappings; where there are none, executables are discovered.
    pub expose: Vec<Entry>,
    /// The position in `env_names` of the environment being installed.
    pub current: usize,
    pub phase: Phase,
}

/// Where a phase works on one environment, that environment is the last of the manifest.
pub open spec fn works_on_env(p: Phase) -> bool {
    p is Installing || p is Inspecting || p is Publishing || p is Reverting
}

impl Batch {
    pub open spec fn current_env(&self) -> Seq<char> {
        self.env_names@[self.current as int]@
    }

    pub open spec fn wf(&self) -> bool {
        &&& works_on_env(self.phase) ==> self.current < self.env_names.len()
        &&& (self.phase is Installing || self.phase is Inspecting || self.phase is Publishing)
            ==> self.manifest@.len() > 0 && self.manifest@.last().name == self.current_env()
    }

    /// The state after the stage `st` failed for the current environment: it is restored
    /// where the original manifest holds it, else the batch ends with the failure.
    pub open spec fn failed(old: &Batch, new: &Batch, st: Stage, r: Action) -> bool {
        &&& new.manifest@ == old.manifest@
        &&& new.current == old.current
        &&& if has_env(old.original@, old.current_env()) {
            new.phase == Phase::Reverting(st) && r is Revert && r->Revert_0@ == old.current_env()
        } else {
            new.phase == Phase::Finished && r == Action::Finish(Err(InstallError::Failed(st)))
        }
    }

    /// The manifest once the environment at `i` of `env_names` is defined anew.
    pub open spec fn begun(&self, m: Seq<EnvironmentModel>, i: int) -> Seq<EnvironmentModel> {
        redefined(
            m,
            self.env_names@[i]@,
            views(self.channels@),
            opt_view(self.platform),
            requests_for(
                requests_view(self.requests@),
                self.env_names@[i]@,
                self.env_names.len() > 1,
            ),
        )
    }

    /// Defines the current environment anew in the manifest.
    fn begin_environment(&mut self)
        requires
            old(self).current < old(self).env_names.len(),
        ensures
            final(self).manifest@ == old(self).begun(old(self).manifest@, old(self).current as int),
            old(self).manifest.wf() ==> final(self).manifest.wf(),
            final(self).original@ == old(self).original@,
            final(self).env_names@ == old(self).env_names@,
            final(self).requests@ == old(self).requests@,
            final(self).channels@ == old(self).channels@,
            final(self).platform == old(self).platform,
            final(self).expose@ == old(self).expose@,
            final(self).current == old(self).current,
            final(self).phase == old(self).phase,
    {
        let multiple = self.env_names.len() > 1;
        let name = &self.env_names[self.current];
        let selected = select_requests(&self.requests, name, multiple);
        let channels = copy_strings(&self.channels);
        let platform = copy_option(&self.platform);
        self.manifest.define_environment(name, channels, platform, &selected);
    }

    /// Starts a batch: resolves the target environments, then defines the first one.
    /// `channels` are the requested ones; where there are none, `default_channels` are used.
    pub fn start(
        manifest: Manifest,
        requests: Vec<PackageRequest>,
        environment: Option<String>,
        channels: Vec<String>,
        default_channels: Vec<String>,
        platform: Option<String>,
        expose: Vec<Entry>,
    ) -> (r: (Batch, Action))
        ensures
            r.0.wf(),
            manifest.wf() ==> r.0.manifest.wf(),
            r.0.original@ == manifest@,
            r.0.requests@ == requests@,
            r.0.expose@ == expose@,
            r.0.platform == platform,
            r.0.current == 0,
            views(r.0.channels@) == if channels.len() == 0 {
                views(default_channels@)
            } else {
                views(channels@)
            },
            match resolved_names(requests_view(requests@), opt_view(environment), expose.len() > 0) {
                Err(e) => {
                    &&& r.1 == Action::Finish(Err(e))
                    &&& r.0.phase == Phase::Finished
                    &&& r.0.manifest@ == manifest@
                },
                Ok(names) => {
                    &&& views(r.0.env_names@) == names
                    &&& if names.len() == 0 {
                        r.0.phase == Phase::Saving && r.1 is Save && r.0.manifest@ == manifest@
                    } else {
                        &&& r.0.phase == Phase::Installing
                        &&& r.1 is Install
                        &&& r.1->Install_0@ == names[0]
                        &&& r.0.manifest@ == r.0.begun(manifest@, 0)
                    }
                },
            },
    {
        let resolved = resolve_environment_names(&requests, &environment, expose.len() > 0);
        let channels = if channels.len() == 0 {
            default_channels
        } else {
            channels
        };
        let original = manifest.duplicate();
        match resolved {
            Err(e) => {
                let b = Batch {
                    original,
                    manifest,
                    env_names: Vec::new(),
                    requests,
                    channels,
                    platform,
                    expose,
                    current: 0,
                    phase: Phase::Finished,
                };
                (b, Action::Finish(Err(e)))
            },
            Ok(env_names) => {
                let none = env_names.len() == 0;
                let mut b = Batch {
                    original,
                    manifest,
                    env_names,
                    requests,
                    channels,
                    platform,
                    expose,
                    current: 0,
                    phase: Phase::Saving,
                };
                if none {
                    (b, Action::Save)
                } else {
                    b.begin_environment();
                    b.phase = Phase::Installing;
                    let env = b.env_names[0].clone();
                    (b, Action::Install(env))
                }
            },
        }
    }

    /// Handles the failure of the stage `st` for the current environment.
    fn fail(&mut self, st: Stage) -> (r: Action)
        requires
            old(self).current < old(self).env_names.len(),
        ensures
            Batch::failed(old(self), final(self), st, r),
            final(self).original@ == old(self).original@,
            final(self).env_names@ == old(self).env_names@,
            final(self).requests@ == old(self).requests@,
            final(self).channels@ == old(self).channels@,
            final(self).platform == old(self).platform,
            final(self).expose@ == old(self).expose@,
            final(self).wf(),
    {
        let env = self.env_names[self.current].clone();
        if self.original.has_environment(&env) {
            self.phase = Phase::Reverting(st);
            Action::Revert(env)
        } else {
            self.phase = Phase::Finished;
            Action::Finish(Err(InstallError::Failed(st)))
        }
    }

    /// The requests that go to the current environment.
    pub open spec fn current_requests(&self) -> Seq<(Seq<char>, Seq<char>)> {
        requests_for(requests_view(self.requests@), self.current_env(), self.env_names.len() > 1)
    }

    /// Takes the outcome of the last action and says what to do next.
    pub fn step(&mut self, event: Event) -> (r: Action)
        requires
            old(self).wf(),
            !(old(self).phase is Finished),
        ensures
            final(self).wf(),
            old(self).manifest.wf() ==> final(self).manifest.wf(),
            final(self).original@ == old(self).original@,
            final(self).env_names@ == old(self).env_names@,
            final(self).requests@ == old(self).requests@,
            final(self).channels@ == old(self).channels@,
            final(self).platform == old(self).platform,
            final(self).expose@ == old(self).expose@,
            match old(self).phase {
                Phase::Installing => if event is Failed {
                    Batch::failed(old(self), final(self), Stage::Install, r)
                } else if old(self).expose.len() == 0 {
                    &&& final(self).phase == Phase::Inspecting
                    &&& final(self).manifest@ == old(self).manifest@
                    &&& final(self).current == old(self).current
                    &&& r is Inspect
                    &&& r->Inspect_0@ == old(self).current_env()
                } else {
                    &&& final(self).phase == Phase::Publishing
                    &&& final(self).manifest@ == with_exposed(
                        old(self).manifest@,
                        old(self).manifest@.len() - 1,
                        entries_view(old(self).expose@),
                    )
                    &&& final(self).current == old(self).current
                    &&& r is Publish
                    &&& r->Publish_0@ == old(self).current_env()
                    &&& r->Publish_1.len() == 0
                },
                Phase::Inspecting => {
                    let listing = match event {
                        Event::Inspected(p) => prefix_view(p@),
                        _ => Seq::empty(),
                    };
                    let plan = exposure_plan(listing, request_names(old(self).current_requests()));
                    if event is Failed || plan is None {
                        Batch::failed(old(self), final(self), Stage::Discovery, r)
                    } else {
                        &&& final(self).phase == Phase::Publishing
                        &&& final(self).manifest@ == with_exposed(
                            old(self).manifest@,
                            old(self).manifest@.len() - 1,
                            plan.unwrap().0,
                        )
                        &&& final(self).current == old(self).current
                        &&& r is Publish
                        &&& r->Publish_0@ == old(self).current_env()
                        &&& r->Publish_1@.map_values(|w: AutoExposed| w@) == plan.unwrap().1
                    }
                },
                Phase::Publishing => if event is Failed {
                    Batch::failed(old(self), final(self), Stage::Publish, r)
                } else if old(self).current + 1 < old(self).env_names.len() {
                    &&& final(self).phase == Phase::Installing
                    &&& final(self).current == old(self).current + 1
                    &&& final(self).manifest@ == old(self).begun(
                        old(self).manifest@,
                        old(self).current + 1,
                    )
                    &&& r is Install
                    &&& r->Install_0@ == final(self).current_env()
                } else {
                    &&& final(self).phase == Phase::Saving
                    &&& final(self).manifest@ == old(self).manifest@
                    &&& r is Save
                },
                Phase::Reverting(st) => {
                    &&& final(self).phase == Phase::Finished
                    &&& final(self).manifest@ == old(self).manifest@
                    &&& r == Action::Finish(
                        Err(
                            if event is Failed {
                                InstallError::RevertFailed(st)
                            } else {
                                InstallError::Failed(st)
                            },
                        ),
                    )
                },
                Phase::Saving => {
                    &&& final(self).phase == Phase::Finished
                    &&& final(self).manifest@ == old(self).manifest@
                    &&& r == Action::Finish(
                        if event is Failed {
                            Err(InstallError::Failed(Stage::Save))
                        } else {
                            Ok(())
                        },
                    )
                },
                Phase::Finished => true,
            },
    {
        let failed = match event {
            Event::Failed => true,
            _ => false,
        };
        match self.phase {
            Phase::Installing => {
                if failed {
                    self.fail(Stage::Install)
                } else if self.expose.len() == 0 {
                    self.phase = Phase::Inspecting;
                    Action::Inspect(self.env_names[self.current].clone())
                } else {
                    let last = self.manifest.environments.len() - 1;
                    self.manifest.add_exposed_mappings(last, &self.expose);
                    self.phase = Phase::Publishing;
                    Action::Publish(self.env_names[self.current].clone(), Vec::new())
                }
            },
            Phase::Inspecting => {
                let listing = match event {
                    Event::Inspected(p) => p,
                    _ => Vec::new(),
                };
                if failed {
                    return self.fail(Stage::Discovery);
                }
                let multiple = self.env_names.len() > 1;
                let selected = select_requests(&self.requests, &self.env_names[self.current], multiple);
                match plan_exposure(&selected, &listing) {
                    None => self.fail(Stage::Discovery),
                    Some(plan) => {
                        let last = self.manifest.environments.len() - 1;
                        self.manifest.add_exposed_mappings(last, &plan.mappings);
                        self.phase = Phase::Publishing;
                        Action::Publish(self.env_names[self.current].clone(), plan.auto_exposed)
                    },
                }
            },
            Phase::Publishing => {
                if failed {
                    self.fail(Stage::Publish)
                } else if self.current + 1 < self.env_names.len() {
                    self.current = self.current + 1;
                    self.begin_environment();
                    self.phase = Phase::Installing;
                    Action::Install(self.env_names[self.current].clone())
                } else {
                    self.phase = Phase::Saving;
                    Action::Save
                }
            },
            Phase::Reverting(st) => {
                self.phase = Phase::Finished;
                if failed {
                    Action::Finish(Err(InstallError::RevertFailed(st)))
                } else {
                    Action::Finish(Err(InstallError::Failed(st)))
                }
            },
            Phase::Saving => {
                self.phase = Phase::Finished;
                if failed {
                    Action::Finish(Err(InstallError::Failed(Stage::Save)))
                } else {
                    Action::Finish(Ok(()))
                }
            },
            Phase::Finished => Action::Finish(Ok(())),
        }
    }
}

} // verus!
