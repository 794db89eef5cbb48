//! One publishing run as a state machine: each step takes what the last
//! outside operation reported and decides the next operation. The program
//! performs the operations; every decision, and its order, is made here.

use vstd::prelude::*;
use crate::adc::{kind_can_sign, AdcKind};
use crate::cli::{expiry_from, secs_duration, spec_expiry, Cli, DEFAULT_EXPIRES_SECS};
use crate::config::Config;
use crate::errors::{cannot_sign, cannot_sign_text};
use crate::manifest::{
    is_lower_alnum, manifest_wf, random_suffix, run_id, spec_run_id, Manifest, MAX_UTC_SECS,
    MIN_UTC_SECS,
};
use crate::text::opt_chars;
use crate::upload::{
    landing_path, landing_relative, object_names, spec_object_names, spec_object_path,
};
use crate::verify::{explain_failure, failure_text, status_ok, Probe};
use std::time::Duration;

verus! {

/// Where a run stands.
pub enum Stage {
    /// Nothing done yet.
    Start,
    /// Waiting for the files to publish to be found.
    Scanning,
    /// Waiting for the kind of credentials in play.
    Checking,
    /// Waiting for the time the run starts at.
    Naming,
    /// Waiting for the landing object's URL to be signed.
    Signing,
    /// Waiting for the files to be uploaded.
    Uploading,
    /// Waiting for the signed URL to be fetched.
    Probing,
    /// Over: the link was printed, or the run stopped.
    Finished,
}

/// A run: the configuration, where it stands, and what it has learnt.
pub struct Run {
    pub bucket: String,
    pub prefix: String,
    pub stage: Stage,
    pub ttl: Option<Duration>,
    pub manifest: Option<Manifest>,
    pub run_id: Option<String>,
    pub url: Option<String>,
}

/// What the last outside operation reported.
pub enum Event {
    /// The run begins, with the requested link lifetime (if any).
    Begin { expires: Option<String> },
    /// The files to publish were found.
    Scanned(Manifest),
    /// The credentials in play are of this kind.
    Checked(AdcKind),
    /// The run starts now, this many seconds after the Unix epoch.
    Clock { now_secs: i64 },
    /// The landing object's URL was signed.
    Signed(String),
    /// Every file was uploaded.
    Uploaded,
    /// The signed URL was fetched with no credentials.
    Probed(Probe),
    /// The last outside operation failed; the program holds its error.
    Failed,
}

/// Why a run stopped without printing a link.
pub enum Stop {
    /// An error that advice may be added to.
    Advice(String),
    /// A complete explanation; nothing is added to it.
    Final(String),
    /// The outside operation's own error.
    Outside,
}

/// The operation to perform next.
pub enum Action {
    /// Find the files to publish.
    Scan,
    /// Find out which credentials are in play.
    CheckCredentials,
    /// Read the clock.
    ReadClock,
    /// Sign a URL for `object`, lasting `ttl`.
    Sign { object: String, ttl: Duration },
    /// Upload the manifest's entries as `names`, in order.
    Upload { manifest: Manifest, names: Vec<String> },
    /// Fetch the signed URL with no credentials.
    Fetch { url: String },
    /// Print the link: the run succeeded.
    Print { url: String },
    /// Stop without printing a link.
    Stop(Stop),
}

/// What each stage holds: the lifetime once the run has begun, a manifest as
/// uploads need it from the scan until the upload, the run's name from the
/// naming until the end, the URL once signed.
pub open spec fn run_wf(r: Run) -> bool {
    match r.stage {
        Stage::Start => true,
        Stage::Scanning => r.ttl is Some,
        Stage::Checking | Stage::Naming => r.ttl is Some && r.manifest is Some && manifest_wf(
            r.manifest->0@,
        ),
        Stage::Signing => r.ttl is Some && r.manifest is Some && manifest_wf(r.manifest->0@)
            && r.run_id is Some,
        Stage::Uploading => r.run_id is Some && r.url is Some,
        Stage::Probing => r.url is Some,
        Stage::Finished => true,
    }
}

/// The events a run accepts where it stands: the one its last operation
/// reports (a manifest as uploads need it; a time `chrono` can represent), or
/// a failure of that operation.
pub open spec fn accepts(r: Run, e: Event) -> bool {
    match r.stage {
        Stage::Start => e is Begin,
        Stage::Scanning => e is Failed || (e is Scanned && manifest_wf(e->Scanned_0@)),
        Stage::Checking => e is Failed || e is Checked,
        Stage::Naming => e is Failed || (e is Clock && MIN_UTC_SECS <= e->now_secs
            <= MAX_UTC_SECS),
        Stage::Signing => e is Failed || e is Signed,
        Stage::Uploading => e is Failed || e is Uploaded,
        Stage::Probing => e is Failed || e is Probed,
        Stage::Finished => false,
    }
}

/// One step of a run, exactly: a failure stops it with the operation's own
/// error; otherwise the run reads the lifetime (stopping with its error),
/// then scans, checks the credentials (stopping with advice when they cannot
/// sign), reads the clock and names the run with a random suffix, signs the
/// landing object, uploads every entry under its object name, fetches the
/// signed URL, and prints it when the fetch returned 2xx, else stops with
/// the explanation.
pub open spec fn step_relation(old: Run, e: Event, new: Run, a: Action) -> bool {
    &&& new.bucket == old.bucket
    &&& new.prefix == old.prefix
    &&& match e {
        Event::Failed => new.stage is Finished && a matches Action::Stop(Stop::Outside),
        Event::Begin { expires } => match spec_expiry(opt_chars(expires)) {
            Err(m) => new.stage is Finished && (a matches Action::Stop(Stop::Advice(s)) && s@ == m),
            Ok(n) => new.stage is Scanning && new.ttl == Some(secs_duration(n)) && a is Scan,
        },
        Event::Scanned(m) => new.stage is Checking && new.ttl == old.ttl && new.manifest == Some(
            m,
        ) && a is CheckCredentials,
        Event::Checked(k) => if kind_can_sign(k@) {
            new.stage is Naming && new.ttl == old.ttl && new.manifest == old.manifest
                && a is ReadClock
        } else {
            new.stage is Finished && (a matches Action::Stop(Stop::Advice(s)) && s@
                == cannot_sign_text(k@))
        },
        Event::Clock { now_secs } => {
            &&& new.stage is Signing
            &&& new.ttl == old.ttl
            &&& new.manifest == old.manifest
            &&& new.run_id is Some
            &&& exists|suffix: Seq<char>|
                {
                    &&& suffix.len() == 8
                    &&& forall|i: int| 0 <= i < 8 ==> is_lower_alnum(#[trigger] suffix[i])
                    &&& new.run_id->0@ == spec_run_id(now_secs, suffix)
                }
            &&& a matches Action::Sign { object, ttl } && ttl == old.ttl->0 && object@
                == spec_object_path(old.prefix@, new.run_id->0@, landing_relative(old.manifest->0@))
        },
        Event::Signed(url) => {
            &&& new.stage is Uploading
            &&& new.run_id == old.run_id
            &&& new.url == Some(url)
            &&& a matches Action::Upload { manifest, names } && manifest == old.manifest->0
                && names@.map_values(|s: String| s@) == spec_object_names(
                old.prefix@,
                old.run_id->0@,
                manifest@.entries,
            )
        },
        Event::Uploaded => new.stage is Probing && new.url == old.url && (a matches Action::Fetch {
            url,
        } && url == old.url->0),
        Event::Probed(p) => new.stage is Finished && if status_ok(p.status) {
            (a matches Action::Print { url } && url == old.url->0)
        } else {
            (a matches Action::Stop(Stop::Final(s)) && s@ == failure_text(
                p.status,
                opt_chars(p.body),
                old.bucket@,
            ))
        },
    }
}

impl Run {
    /// A run that has not begun, for the configuration `cfg`.
    pub fn new(cfg: Config) -> (r: Run)
        ensures
            r.stage is Start,
            r.bucket == cfg.bucket,
            r.prefix == cfg.prefix,
            run_wf(r),
    {
        Run {
            bucket: cfg.bucket,
            prefix: cfg.prefix,
            stage: Stage::Start,
            ttl: None,
            manifest: None,
            run_id: None,
            url: None,
        }
    }

    /// Takes what the last operation reported and decides the next one.
    pub fn step(&mut self, event: Event) -> (a: Action)
        requires
            run_wf(*old(self)),
            accepts(*old(self), event),
        ensures
            run_wf(*final(self)),
            step_relation(*old(self), event, *final(self), a),
    {
        match event {
            Event::Failed => {
                self.stage = Stage::Finished;
                Action::Stop(Stop::Outside)
            },
            Event::Begin { expires } => {
                let cli = Cli { path: String::new(), expires };
                match expiry_from(&cli) {
                    Err(m) => {
                        self.stage = Stage::Finished;
                        Action::Stop(Stop::Advice(m))
                    },
                    Ok(d) => {
                        self.ttl = Some(d);
                        self.stage = Stage::Scanning;
                        Action::Scan
                    },
                }
            },
            Event::Scanned(m) => {
                self.manifest = Some(m);
                self.stage = Stage::Checking;
                Action::CheckCredentials
            },
            Event::Checked(k) => {
                if k.can_sign() {
                    self.stage = Stage::Naming;
                    Action::ReadClock
                } else {
                    self.stage = Stage::Finished;
                    Action::Stop(Stop::Advice(cannot_sign(&k)))
                }
            },
            Event::Clock { now_secs } => {
                let suffix = random_suffix();
                let id = run_id(now_secs, suffix.as_str());
                let ttl = match self.ttl {
                    Some(d) => d,
                    None => {
                        return Action::Stop(Stop::Outside);
                    },
                };
                let object = match &self.manifest {
                    Some(m) => landing_path(self.prefix.as_str(), id.as_str(), m),
                    None => {
                        return Action::Stop(Stop::Outside);
                    },
                };
                self.run_id = Some(id);
                self.stage = Stage::Signing;
                Action::Sign { object, ttl }
            },
            Event::Signed(url) => {
                let manifest = match self.manifest.take() {
                    Some(m) => m,
                    None => {
                        return Action::Stop(Stop::Outside);
                    },
                };
                let names = match &self.run_id {
                    Some(id) => object_names(self.prefix.as_str(), id.as_str(), &manifest),
                    None => {
                        return Action::Stop(Stop::Outside);
                    },
                };
                self.url = Some(url);
                self.stage = Stage::Uploading;
                Action::Upload { manifest, names }
            },
            Event::Uploaded => {
                let url = match &self.url {
                    Some(u) => u.clone(),
                    None => {
                        return Action::Stop(Stop::Outside);
                    },
                };
                self.stage = Stage::Probing;
                Action::Fetch { url }
            },
            Event::Probed(p) => {
                self.stage = Stage::Finished;
                if p.is_ok() {
                    let url = match &self.url {
                        Some(u) => u.clone(),
                        None => {
                            return Action::Stop(Stop::Outside);
                        },
                    };
                    Action::Print { url }
                } else {
                    let body = match &p.body {
                        Some(b) => Some(b.as_str()),
                        None => None,
                    };
                    Action::Stop(Stop::Final(explain_failure(p.status, body, self.bucket.as_str())))
                }
            },
        }
    }
}

/// A run from its start: `runs[j]` becomes `runs[j + 1]` on `events[j]`,
/// which it accepts, deciding `actions[j]`.
pub open spec fn is_trace(runs: Seq<Run>, events: Seq<Event>, actions: Seq<Action>) -> bool {
    &&& runs.len() == events.len() + 1
    &&& actions.len() == events.len()
    &&& runs[0].stage is Start
    &&& forall|j: int|
        0 <= j < events.len() ==> accepts(#[trigger] runs[j], events[j]) && step_relation(
            runs[j],
            events[j],
            runs[j + 1],
            actions[j],
        )
}

/// Before step `j`, credentials that can sign were reported.
pub open spec fn signing_checked_before(events: Seq<Event>, j: int) -> bool {
    exists|k: int| 0 <= k < j && #[trigger] events[k] is Checked && kind_can_sign(events[k]->Checked_0@)
}

/// Before step `j`, the URL `u` was reported signed.
pub open spec fn signed_before(events: Seq<Event>, j: int, u: String) -> bool {
    exists|k: int| 0 <= k < j && #[trigger] events[k] == Event::Signed(u)
}

proof fn lemma_history(runs: Seq<Run>, events: Seq<Event>, actions: Seq<Action>, j: int)
    requires
        is_trace(runs, events, actions),
        0 <= j < runs.len(),
    ensures
        (runs[j].stage is Naming || runs[j].stage is Signing || runs[j].stage is Uploading
            || runs[j].stage is Probing) ==> signing_checked_before(events, j),
        (runs[j].stage is Uploading || runs[j].stage is Probing) ==> (runs[j].url is Some
            && signed_before(events, j, runs[j].url->0)),
    decreases j,
{
    if j > 0 {
        let i = j - 1;
        lemma_history(runs, events, actions, i);
        assert(accepts(runs[i], events[i]) && step_relation(runs[i], events[i], runs[j], actions[i]));
        if runs[j].stage is Naming {
            assert(events[i] is Checked);
        }
        if runs[j].stage is Uploading {
            let u = events[i]->Signed_0;
            assert(events[i] == Event::Signed(u));
            assert(runs[j].url == Some(u));
        }
    }
}

/// Nothing is uploaded unless credentials that can sign were reported
/// earlier and the landing object's URL has just been signed: a run that
/// cannot produce a link leaves nothing in the bucket.
pub proof fn lemma_upload_needs_a_signed_link(
    runs: Seq<Run>,
    events: Seq<Event>,
    actions: Seq<Action>,
    i: int,
)
    requires
        is_trace(runs, events, actions),
        0 <= i < actions.len(),
        actions[i] is Upload,
    ensures
        signing_checked_before(events, i),
        events[i] is Signed,
{
    assert(accepts(runs[i], events[i]) && step_relation(runs[i], events[i], runs[i + 1], actions[i]));
    lemma_history(runs, events, actions, i);
}

/// A link is printed only right after fetching it with no credentials
/// returned a 2xx status, and the printed link is one that was signed.
pub proof fn lemma_print_needs_a_working_link(
    runs: Seq<Run>,
    events: Seq<Event>,
    actions: Seq<Action>,
    i: int,
)
    requires
        is_trace(runs, events, actions),
        0 <= i < actions.len(),
        actions[i] is Print,
    ensures
        events[i] is Probed && status_ok(events[i]->Probed_0.status),
        signed_before(events, i, actions[i]->Print_url),
        signing_checked_before(events, i),
{
    assert(accepts(runs[i], events[i]) && step_relation(runs[i], events[i], runs[i + 1], actions[i]));
    lemma_history(runs, events, actions, i);
}

proof fn lemma_landing_is_uploaded(prefix: Seq<char>, run_id: Seq<char>, m: crate::manifest::ManifestView)
    requires
        manifest_wf(m),
    ensures
        spec_object_names(prefix, run_id, m.entries).contains(
            spec_object_path(prefix, run_id, landing_relative(m)),
        ),
{
    let names = spec_object_names(prefix, run_id, m.entries);
    let w = if m.index is Some {
        choose|w: int| 0 <= w < m.entries.len() && (#[trigger] m.entries[w]).relative == m.index->0
    } else {
        0
    };
    assert(names[w] == spec_object_path(prefix, run_id, landing_relative(m)));
}

/// An upload comes right after signing, and the object whose URL was
/// signed is one of the objects uploaded.
pub proof fn lemma_signed_object_is_uploaded(
    runs: Seq<Run>,
    events: Seq<Event>,
    actions: Seq<Action>,
    k: int,
)
    requires
        is_trace(runs, events, actions),
        0 <= k < actions.len(),
        actions[k] is Upload,
    ensures
        k > 0,
        actions[k - 1] is Sign,
        actions[k]->Upload_names@.map_values(|s: String| s@).contains(actions[k - 1]->Sign_object@),
{
    assert(accepts(runs[k], events[k]) && step_relation(runs[k], events[k], runs[k + 1], actions[k]));
    assert(runs[k].stage is Signing);
    assert(k > 0) by {
        if k == 0 {
            assert(runs[0].stage is Start);
        }
    }
    let i = k - 1;
    assert(accepts(runs[i], events[i]) && step_relation(runs[i], events[i], runs[k], actions[i]));
    assert(events[i] is Clock);
    let m = runs[i].manifest->0;
    assert(runs[k].manifest == runs[i].manifest);
    assert(runs[k].prefix == runs[i].prefix);
    lemma_landing_is_uploaded(runs[i].prefix@, runs[k].run_id->0@, m@);
}

/// A run that begins with no requested lifetime holds the default of
/// [`DEFAULT_EXPIRES_SECS`] seconds (one hour) and goes on to scan.
pub proof fn lemma_default_lifetime(old: Run, new: Run, a: Action)
    requires
        step_relation(old, Event::Begin { expires: None }, new, a),
    ensures
        new.ttl == Some(secs_duration(DEFAULT_EXPIRES_SECS)),
        new.stage is Scanning,
        a is Scan,
{
}

proof fn lemma_lifetime_kept(runs: Seq<Run>, events: Seq<Event>, actions: Seq<Action>, j: int)
    requires
        is_trace(runs, events, actions),
        events.len() > 0,
        events[0] == (Event::Begin { expires: None }),
        1 <= j < runs.len(),
    ensures
        !(runs[j].stage is Start),
        (runs[j].stage is Scanning || runs[j].stage is Checking || runs[j].stage is Naming
            || runs[j].stage is Signing) ==> runs[j].ttl == Some(
            secs_duration(DEFAULT_EXPIRES_SECS),
        ),
    decreases j,
{
    let i = j - 1;
    assert(accepts(runs[i], events[i]) && step_relation(runs[i], events[i], runs[j], actions[i]));
    if i > 0 {
        lemma_lifetime_kept(runs, events, actions, i);
    }
}

/// When a run begins with no requested lifetime, every URL it signs is
/// signed for the one-hour default, [`DEFAULT_EXPIRES_SECS`] seconds.
pub proof fn lemma_default_lifetime_is_signed(
    runs: Seq<Run>,
    events: Seq<Event>,
    actions: Seq<Action>,
    i: int,
)
    requires
        is_trace(runs, events, actions),
        events.len() > 0,
        events[0] == (Event::Begin { expires: None }),
        0 <= i < actions.len(),
        actions[i] is Sign,
    ensures
        actions[i]->Sign_ttl == secs_duration(DEFAULT_EXPIRES_SECS),
{
    assert(accepts(runs[i], events[i]) && step_relation(runs[i], events[i], runs[i + 1], actions[i]));
    if i == 0 {
        assert(runs[0].stage is Start);
    } else {
        lemma_lifetime_kept(runs, events, actions, i);
    }
}

} // verus!
