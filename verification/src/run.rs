//! The program's course: publish the assets, read them back, open the scene,
//! and animate it until something fails.
use crate::asset::{DemoAsset, PreparedAsset};
use crate::bits::bytes_equal;
#[allow(unused_imports)]
use crate::bits::bytes_of;
use crate::database::{publication, CatalogLoader, DatabasePreparedCatalog, OBJECT_COUNT};
#[allow(unused_imports)]
use crate::database::{
    catalog_key, lemma_published_catalog_is_read_back, loaded, lookup, names_distinct, object_bytes,
    prepared_contents, published, AssetContents, Contents, LoadProgress,
};
use crate::error::GeometryProbeError;
use vstd::prelude::*;

verus! {

/// The pause between two frames.
pub const FRAME_PAUSE_MILLIS: u64 = 16;

/// The call whose answer the program waits for.
#[derive(Clone, Copy, Debug, PartialEq, Eq, Structural)]
pub enum RunPhase {
    Create,
    PutSource,
    ReadSource,
    PutPrepared,
    ReadPrepared,
    Open,
    FirstFrame,
    Backoff,
    StartClock,
    Poll,
    Render,
    Presentation,
    Sleep,
    Stopped,
}

/// Why the program stopped.
#[derive(Clone, Copy, Debug, PartialEq, Eq)]
pub enum RunStop {
    DatabaseUnavailable,
    SourceRejected { slot: usize },
    SourceMismatch { slot: usize },
    SourceUnreadable { slot: usize },
    PreparedRejected,
    PreparedMissing,
    PreparedUnreadable,
    SetupFailed(GeometryProbeError),
    AnimationFailed(GeometryProbeError),
    PresentationFailed(GeometryProbeError),
}

/// A database call failed; the database keeps the reason.
#[derive(Clone, Copy, Debug, PartialEq, Eq, Structural)]
pub struct DatabaseFailure;

/// The answer to a call of the program.
pub enum RunEvent {
    DatabaseCreated(Result<(), DatabaseFailure>),
    SourcePut(Result<(), DatabaseFailure>),
    SourceRead(Result<Option<Vec<u8>>, DatabaseFailure>),
    PreparedPut(Result<(), DatabaseFailure>),
    PreparedRead(Result<Option<Vec<u8>>, DatabaseFailure>),
    Opened(Result<(), GeometryProbeError>),
    FirstFrame(Result<bool, GeometryProbeError>),
    BackedOff,
    ClockStarted(u64),
    Polled(u64),
    Rendered(Result<bool, GeometryProbeError>),
    PresentationTaken(Result<bool, GeometryProbeError>),
    Slept,
}

/// The call to make next, or why the program stopped.
pub enum RunAction {
    CreateDatabase,
    PutSource { slot: usize },
    ReadSource { slot: usize },
    PutPrepared { key: String, bytes: Vec<u8> },
    ReadPrepared { key: String },
    /// Open the scene over what was read back.
    Open { catalog: DatabasePreparedCatalog, source_bytes: usize },
    RenderFirst,
    /// Serve the system and pause before the first frame is tried again.
    Backoff,
    StartClock,
    Poll,
    Render { elapsed_millis: u64 },
    TakePresentation,
    Sleep { millis: u64, first_presentation: bool },
    Stop(RunStop),
}

/// [`RunAction`], over the contents of what it carries.
pub enum RunCall {
    CreateDatabase,
    PutSource { slot: int },
    ReadSource { slot: int },
    PutPrepared { key: Seq<char>, bytes: Seq<u8> },
    ReadPrepared { key: Seq<char> },
    Open { catalog: Seq<AssetContents>, source_bytes: int },
    RenderFirst,
    Backoff,
    StartClock,
    Poll,
    Render { elapsed_millis: u64 },
    TakePresentation,
    Sleep { millis: u64, first_presentation: bool },
    Stop(RunStop),
}

impl View for RunAction {
    type V = RunCall;

    open spec fn view(&self) -> RunCall {
        match self {
            RunAction::CreateDatabase => RunCall::CreateDatabase,
            RunAction::PutSource { slot } => RunCall::PutSource { slot: *slot as int },
            RunAction::ReadSource { slot } => RunCall::ReadSource { slot: *slot as int },
            RunAction::PutPrepared { key, bytes } => RunCall::PutPrepared {
                key: key@,
                bytes: bytes@,
            },
            RunAction::ReadPrepared { key } => RunCall::ReadPrepared { key: key@ },
            RunAction::Open { catalog, source_bytes } => RunCall::Open {
                catalog: catalog@,
                source_bytes: *source_bytes as int,
            },
            RunAction::RenderFirst => RunCall::RenderFirst,
            RunAction::Backoff => RunCall::Backoff,
            RunAction::StartClock => RunCall::StartClock,
            RunAction::Poll => RunCall::Poll,
            RunAction::Render { elapsed_millis } => RunCall::Render {
                elapsed_millis: *elapsed_millis,
            },
            RunAction::TakePresentation => RunCall::TakePresentation,
            RunAction::Sleep { millis, first_presentation } => RunCall::Sleep {
                millis: *millis,
                first_presentation: *first_presentation,
            },
            RunAction::Stop(stop) => RunCall::Stop(*stop),
        }
    }
}

/// How far the program has come.
#[verifier::ext_equal]
pub struct RunProgress {
    pub phase: RunPhase,
    /// The source or asset that is being published.
    pub slot: int,
    /// The object of the asset that is being published.
    pub object: int,
    pub source_bytes: int,
    pub load: LoadProgress,
    pub presented: bool,
    pub start_millis: u64,
}

/// What the program works on.
pub struct RunInputs<'a> {
    pub sources: &'a [DemoAsset],
    pub assets: &'a [PreparedAsset],
}

impl RunProgress {
    pub open spec fn start() -> RunProgress {
        RunProgress {
            phase: RunPhase::Create,
            slot: 0,
            object: 0,
            source_bytes: 0,
            load: LoadProgress::start(),
            presented: false,
            start_millis: 0,
        }
    }

    pub open spec fn stopped(self, stop: RunStop) -> (RunProgress, RunCall) {
        (RunProgress { phase: RunPhase::Stopped, ..self }, RunCall::Stop(stop))
    }

    /// Publish the source in a slot; after the last, the prepared assets.
    pub open spec fn to_source(self, slot: int, inputs: RunInputs) -> (RunProgress, RunCall) {
        if slot < inputs.sources@.len() {
            (
                RunProgress { phase: RunPhase::PutSource, slot, ..self },
                RunCall::PutSource { slot },
            )
        } else {
            self.to_prepared(0, 0, inputs)
        }
    }

    /// Publish an object of an asset; after the last, read everything back.
    pub open spec fn to_prepared(self, slot: int, object: int, inputs: RunInputs) -> (
        RunProgress,
        RunCall,
    ) {
        if slot < inputs.assets@.len() {
            (
                RunProgress { phase: RunPhase::PutPrepared, slot, object, ..self },
                RunCall::PutPrepared {
                    key: catalog_key(inputs.assets@, slot, object),
                    bytes: object_bytes(inputs.assets@[slot], object),
                },
            )
        } else {
            RunProgress { slot, object, ..self }.to_load(inputs)
        }
    }

    /// Read the next object back; once all are there, open the scene.
    pub open spec fn to_load(self, inputs: RunInputs) -> (RunProgress, RunCall) {
        if self.load.missing {
            RunProgress { load: LoadProgress::start(), ..self }.stopped(RunStop::PreparedMissing)
        } else if self.load.done.len() < inputs.assets@.len() {
            (
                RunProgress { phase: RunPhase::ReadPrepared, ..self },
                RunCall::ReadPrepared {
                    key: catalog_key(
                        inputs.assets@,
                        self.load.done.len() as int,
                        self.load.fetched.len() as int,
                    ),
                },
            )
        } else {
            (
                RunProgress { phase: RunPhase::Open, load: LoadProgress::start(), ..self },
                RunCall::Open { catalog: self.load.done, source_bytes: self.source_bytes },
            )
        }
    }

    /// Pause before the next frame.
    pub open spec fn to_sleep(self, first_presentation: bool) -> (RunProgress, RunCall) {
        (
            RunProgress {
                phase: RunPhase::Sleep,
                presented: self.presented || first_presentation,
                ..self
            },
            RunCall::Sleep { millis: FRAME_PAUSE_MILLIS, first_presentation },
        )
    }

    /// Whether an event answers the call that the program waits for.
    pub open spec fn awaits(self, event: RunEvent) -> bool {
        match self.phase {
            RunPhase::Create => event is DatabaseCreated,
            RunPhase::PutSource => event is SourcePut,
            RunPhase::ReadSource => event is SourceRead,
            RunPhase::PutPrepared => event is PreparedPut,
            RunPhase::ReadPrepared => event is PreparedRead,
            RunPhase::Open => event is Opened,
            RunPhase::FirstFrame => event is FirstFrame,
            RunPhase::Backoff => event is BackedOff,
            RunPhase::StartClock => event is ClockStarted,
            RunPhase::Poll => event is Polled,
            RunPhase::Render => event is Rendered,
            RunPhase::Presentation => event is PresentationTaken,
            RunPhase::Sleep => event is Slept,
            RunPhase::Stopped => false,
        }
    }

    /// The progress and the call that follow an answer.
    pub open spec fn next(self, event: RunEvent, inputs: RunInputs) -> (RunProgress, RunCall) {
        match event {
            RunEvent::DatabaseCreated(Err(_)) => self.stopped(RunStop::DatabaseUnavailable),
            RunEvent::DatabaseCreated(Ok(_)) => self.to_source(0, inputs),
            RunEvent::SourcePut(Err(_)) => self.stopped(
                RunStop::SourceRejected { slot: self.slot as usize },
            ),
            RunEvent::SourcePut(Ok(_)) => (
                RunProgress { phase: RunPhase::ReadSource, ..self },
                RunCall::ReadSource { slot: self.slot },
            ),
            RunEvent::SourceRead(Err(_)) => self.stopped(
                RunStop::SourceUnreadable { slot: self.slot as usize },
            ),
            RunEvent::SourceRead(Ok(found)) => if bytes_of(found) == Some(
                inputs.sources@[self.slot].bytes@,
            ) {
                RunProgress {
                    source_bytes: self.source_bytes + inputs.sources@[self.slot].bytes@.len(),
                    ..self
                }.to_source(self.slot + 1, inputs)
            } else {
                self.stopped(RunStop::SourceMismatch { slot: self.slot as usize })
            },
            RunEvent::PreparedPut(Err(_)) => self.stopped(RunStop::PreparedRejected),
            RunEvent::PreparedPut(Ok(_)) => if self.object + 1 < OBJECT_COUNT {
                self.to_prepared(self.slot, self.object + 1, inputs)
            } else {
                self.to_prepared(self.slot + 1, 0, inputs)
            },
            RunEvent::PreparedRead(Err(_)) => self.stopped(RunStop::PreparedUnreadable),
            RunEvent::PreparedRead(Ok(found)) => RunProgress {
                load: self.load.after(bytes_of(found)),
                ..self
            }.to_load(inputs),
            RunEvent::Opened(Err(error)) => self.stopped(RunStop::SetupFailed(error)),
            RunEvent::Opened(Ok(_)) => (
                RunProgress { phase: RunPhase::FirstFrame, ..self },
                RunCall::RenderFirst,
            ),
            RunEvent::FirstFrame(Err(error)) => self.stopped(RunStop::SetupFailed(error)),
            RunEvent::FirstFrame(Ok(rendered)) => if rendered {
                (RunProgress { phase: RunPhase::StartClock, ..self }, RunCall::StartClock)
            } else {
                (RunProgress { phase: RunPhase::Backoff, ..self }, RunCall::Backoff)
            },
            RunEvent::BackedOff => (
                RunProgress { phase: RunPhase::FirstFrame, ..self },
                RunCall::RenderFirst,
            ),
            RunEvent::ClockStarted(now) => (
                RunProgress { phase: RunPhase::Poll, start_millis: now, ..self },
                RunCall::Poll,
            ),
            RunEvent::Polled(now) => (
                RunProgress { phase: RunPhase::Render, ..self },
                RunCall::Render {
                    elapsed_millis: if now >= self.start_millis {
                        (now - self.start_millis) as u64
                    } else {
                        0
                    },
                },
            ),
            RunEvent::Rendered(Err(error)) => self.stopped(RunStop::AnimationFailed(error)),
            RunEvent::Rendered(Ok(_)) => if self.presented {
                self.to_sleep(false)
            } else {
                (
                    RunProgress { phase: RunPhase::Presentation, ..self },
                    RunCall::TakePresentation,
                )
            },
            RunEvent::PresentationTaken(Err(error)) => self.stopped(
                RunStop::PresentationFailed(error),
            ),
            RunEvent::PresentationTaken(Ok(presented)) => self.to_sleep(presented),
            RunEvent::Slept => (RunProgress { phase: RunPhase::Poll, ..self }, RunCall::Poll),
        }
    }

    pub open spec fn wf(self, inputs: RunInputs) -> bool {
        &&& 0 <= self.source_bytes <= usize::MAX
        &&& self.load.fetched.len() < OBJECT_COUNT
        &&& self.phase == RunPhase::PutSource || self.phase == RunPhase::ReadSource ==> 0
            <= self.slot < inputs.sources@.len()
        &&& self.phase == RunPhase::PutPrepared ==> 0 <= self.slot < inputs.assets@.len() && 0
            <= self.object < OBJECT_COUNT
        &&& self.phase == RunPhase::Presentation ==> !self.presented
    }

    /// Whether the sizes of the sources that were read back still add up to a
    /// size.
    pub open spec fn admits(self, event: RunEvent, inputs: RunInputs) -> bool {
        event is SourceRead ==> self.source_bytes + inputs.sources@[self.slot].bytes@.len()
            <= usize::MAX
    }
}

/// The program in progress.
pub struct BoatRun<'a> {
    inputs: RunInputs<'a>,
    phase: RunPhase,
    slot: usize,
    object: usize,
    source_bytes: usize,
    loader: CatalogLoader,
    presented: bool,
    start_millis: u64,
}

impl<'a> View for BoatRun<'a> {
    type V = RunProgress;

    closed spec fn view(&self) -> RunProgress {
        RunProgress {
            phase: self.phase,
            slot: self.slot as int,
            object: self.object as int,
            source_bytes: self.source_bytes as int,
            load: self.loader@,
            presented: self.presented,
            start_millis: self.start_millis,
        }
    }
}

impl<'a> BoatRun<'a> {
    pub closed spec fn inputs(self) -> RunInputs<'a> {
        self.inputs
    }

    pub closed spec fn wf(self) -> bool {
        self.loader.wf() && self@.wf(self.inputs)
    }

    /// The program's progress is one that its inputs allow.
    pub proof fn lemma_wf(self)
        ensures
            self.wf() ==> self@.wf(self.inputs()),
    {
    }

    /// The program before its first call.
    pub fn new(sources: &'a [DemoAsset], assets: &'a [PreparedAsset]) -> (started: (
        BoatRun<'a>,
        RunAction,
    ))
        ensures
            started.0.wf(),
            started.0.inputs() == (RunInputs { sources, assets }),
            started.0@ == RunProgress::start(),
            started.1@ == RunCall::CreateDatabase,
    {
        let loader = CatalogLoader::new();
        let run = BoatRun {
            inputs: RunInputs { sources, assets },
            phase: RunPhase::Create,
            slot: 0,
            object: 0,
            source_bytes: 0,
            loader,
            presented: false,
            start_millis: 0,
        };
        (run, RunAction::CreateDatabase)
    }

    fn stop(&mut self, stop: RunStop) -> (action: RunAction)
        requires
            old(self).wf(),
        ensures
            final(self).wf(),
            final(self).inputs() == old(self).inputs(),
            (final(self)@, action@) == old(self)@.stopped(stop),
    {
        self.phase = RunPhase::Stopped;
        RunAction::Stop(stop)
    }

    fn go_to_source(&mut self, slot: usize) -> (action: RunAction)
        requires
            old(self).loader.wf(),
        ensures
            final(self).wf(),
            final(self).inputs() == old(self).inputs(),
            (final(self)@, action@) == old(self)@.to_source(slot as int, old(self).inputs()),
    {
        proof {
            self.loader.lemma_wf();
        }
        if slot < self.inputs.sources.len() {
            self.slot = slot;
            self.phase = RunPhase::PutSource;
            RunAction::PutSource { slot }
        } else {
            self.go_to_prepared(0, 0)
        }
    }

    fn go_to_prepared(&mut self, slot: usize, object: usize) -> (action: RunAction)
        requires
            old(self).loader.wf(),
            object < OBJECT_COUNT,
        ensures
            final(self).wf(),
            final(self).inputs() == old(self).inputs(),
            (final(self)@, action@) == old(self)@.to_prepared(
                slot as int,
                object as int,
                old(self).inputs(),
            ),
    {
        proof {
            self.loader.lemma_wf();
        }
        self.slot = slot;
        self.object = object;
        if slot < self.inputs.assets.len() {
            self.phase = RunPhase::PutPrepared;
            let publication = publication(&self.inputs.assets[slot], object);
            RunAction::PutPrepared { key: publication.key, bytes: publication.bytes }
        } else {
            self.go_to_load()
        }
    }

    fn go_to_load(&mut self) -> (action: RunAction)
        requires
            old(self).loader.wf(),
        ensures
            final(self).wf(),
            final(self).inputs() == old(self).inputs(),
            (final(self)@, action@) == old(self)@.to_load(old(self).inputs()),
    {
        proof {
            self.loader.lemma_wf();
        }
        match self.loader.next_key(self.inputs.assets) {
            Some(key) => {
                self.phase = RunPhase::ReadPrepared;
                RunAction::ReadPrepared { key }
            },
            None => {
                let mut loader = CatalogLoader::new();
                proof {
                    loader.lemma_wf();
                }
                std::mem::swap(&mut loader, &mut self.loader);
                match loader.finish() {
                    Some(catalog) => {
                        self.phase = RunPhase::Open;
                        RunAction::Open { catalog, source_bytes: self.source_bytes }
                    },
                    None => {
                        self.phase = RunPhase::Stopped;
                        RunAction::Stop(RunStop::PreparedMissing)
                    },
                }
            },
        }
    }

    fn go_to_sleep(&mut self, first_presentation: bool) -> (action: RunAction)
        requires
            old(self).wf(),
        ensures
            final(self).wf(),
            final(self).inputs() == old(self).inputs(),
            (final(self)@, action@) == old(self)@.to_sleep(first_presentation),
    {
        self.phase = RunPhase::Sleep;
        self.presented = self.presented || first_presentation;
        RunAction::Sleep { millis: FRAME_PAUSE_MILLIS, first_presentation }
    }

    /// Take the answer to the last call and tell the next one.
    pub fn advance(&mut self, event: RunEvent) -> (action: RunAction)
        requires
            old(self).wf(),
            old(self)@.awaits(event),
            old(self)@.admits(event, old(self).inputs()),
        ensures
            final(self).wf(),
            final(self).inputs() == old(self).inputs(),
            (final(self)@, action@) == old(self)@.next(event, old(self).inputs()),
    {
        proof {
            self.loader.lemma_wf();
        }
        match event {
            RunEvent::DatabaseCreated(Err(_)) => self.stop(RunStop::DatabaseUnavailable),
            RunEvent::DatabaseCreated(Ok(_)) => self.go_to_source(0),
            RunEvent::SourcePut(Err(_)) => {
                let slot: usize = self.slot;
                self.stop(RunStop::SourceRejected { slot })
            },
            RunEvent::SourcePut(Ok(_)) => {
                self.phase = RunPhase::ReadSource;
                RunAction::ReadSource { slot: self.slot }
            },
            RunEvent::SourceRead(Err(_)) => {
                let slot: usize = self.slot;
                self.stop(RunStop::SourceUnreadable { slot })
            },
            RunEvent::SourceRead(Ok(found)) => {
                let slot: usize = self.slot;
                let source = self.inputs.sources[slot].bytes;
                let unchanged = match &found {
                    Some(stored) => bytes_equal(stored, source),
                    None => false,
                };
                if unchanged {
                    self.source_bytes = self.source_bytes + source.len();
                    self.go_to_source(slot + 1)
                } else {
                    self.stop(RunStop::SourceMismatch { slot })
                }
            },
            RunEvent::PreparedPut(Err(_)) => self.stop(RunStop::PreparedRejected),
            RunEvent::PreparedPut(Ok(_)) => {
                let slot: usize = self.slot;
                let object: usize = self.object;
                let count: usize = self.inputs.assets.len();
                assert(slot < count);
                if object + 1 < OBJECT_COUNT {
                    self.go_to_prepared(slot, object + 1)
                } else {
                    self.go_to_prepared(slot + 1, 0)
                }
            },
            RunEvent::PreparedRead(Err(_)) => self.stop(RunStop::PreparedUnreadable),
            RunEvent::PreparedRead(Ok(found)) => {
                self.loader.supply(found);
                self.go_to_load()
            },
            RunEvent::Opened(Err(error)) => self.stop(RunStop::SetupFailed(error)),
            RunEvent::Opened(Ok(_)) => {
                self.phase = RunPhase::FirstFrame;
                RunAction::RenderFirst
            },
            RunEvent::FirstFrame(Err(error)) => self.stop(RunStop::SetupFailed(error)),
            RunEvent::FirstFrame(Ok(rendered)) => {
                if rendered {
                    self.phase = RunPhase::StartClock;
                    RunAction::StartClock
                } else {
                    self.phase = RunPhase::Backoff;
                    RunAction::Backoff
                }
            },
            RunEvent::BackedOff => {
                self.phase = RunPhase::FirstFrame;
                RunAction::RenderFirst
            },
            RunEvent::ClockStarted(now) => {
                self.start_millis = now;
                self.phase = RunPhase::Poll;
                RunAction::Poll
            },
            RunEvent::Polled(now) => {
                self.phase = RunPhase::Render;
                RunAction::Render { elapsed_millis: now.saturating_sub(self.start_millis) }
            },
            RunEvent::Rendered(Err(error)) => self.stop(RunStop::AnimationFailed(error)),
            RunEvent::Rendered(Ok(_)) => {
                if self.presented {
                    self.go_to_sleep(false)
                } else {
                    self.phase = RunPhase::Presentation;
                    RunAction::TakePresentation
                }
            },
            RunEvent::PresentationTaken(Err(error)) => self.stop(
                RunStop::PresentationFailed(error),
            ),
            RunEvent::PresentationTaken(Ok(presented)) => self.go_to_sleep(presented),
            RunEvent::Slept => {
                self.phase = RunPhase::Poll;
                RunAction::Poll
            },
        }
    }
}

/// The times that the first presentation is reported while events come in.
pub open spec fn reports(progress: RunProgress, events: Seq<RunEvent>, inputs: RunInputs) -> nat
    decreases events.len(),
{
    if events.len() == 0 {
        0
    } else {
        let (next, call) = progress.next(events.first(), inputs);
        let now: nat = match call {
            RunCall::Sleep { first_presentation: true, .. } => 1,
            _ => 0,
        };
        now + reports(next, events.drop_first(), inputs)
    }
}

/// Whether each of the events answers the call that the program then waits for.
pub open spec fn expected(progress: RunProgress, events: Seq<RunEvent>, inputs: RunInputs) -> bool
    decreases events.len(),
{
    events.len() == 0 || {
        &&& progress.awaits(events.first())
        &&& progress.admits(events.first(), inputs)
        &&& expected(progress.next(events.first(), inputs).0, events.drop_first(), inputs)
    }
}

/// The first presentation is reported at most once, and never after it was.
pub proof fn lemma_presentation_is_reported_once(
    progress: RunProgress,
    events: Seq<RunEvent>,
    inputs: RunInputs,
)
    requires
        progress.wf(inputs),
        expected(progress, events, inputs),
    ensures
        reports(progress, events, inputs) <= 1,
        progress.presented ==> reports(progress, events, inputs) == 0,
    decreases events.len(),
{
    if events.len() > 0 {
        let next = progress.next(events.first(), inputs).0;
        lemma_presentation_is_reported_once(next, events.drop_first(), inputs);
    }
}

/// Once the scene is open, only a failed frame or a failed presentation ends
/// the animation.
pub proof fn lemma_only_failures_end_the_animation(
    progress: RunProgress,
    event: RunEvent,
    inputs: RunInputs,
)
    requires
        progress.awaits(event),
        progress.phase == RunPhase::FirstFrame || progress.phase == RunPhase::Backoff
            || progress.phase == RunPhase::StartClock || progress.phase == RunPhase::Poll
            || progress.phase == RunPhase::Render || progress.phase == RunPhase::Presentation
            || progress.phase == RunPhase::Sleep,
    ensures
        progress.next(event, inputs).1 is Stop <==> {
            ||| event matches RunEvent::FirstFrame(Err(_))
            ||| event matches RunEvent::Rendered(Err(_))
            ||| event matches RunEvent::PresentationTaken(Err(_))
        },
{
}

/// The program together with the database that it works on.
#[verifier::ext_equal]
pub struct Session {
    pub progress: RunProgress,
    pub call: RunCall,
    pub database: Contents,
}

impl Session {
    pub open spec fn start(database: Contents) -> Session {
        Session { progress: RunProgress::start(), call: RunCall::CreateDatabase, database }
    }

    /// Whether an event is a sound database's answer to the call.
    pub open spec fn answers(self, event: RunEvent, inputs: RunInputs) -> bool {
        match self.call {
            RunCall::CreateDatabase => event == RunEvent::DatabaseCreated(Ok(())),
            RunCall::PutSource { .. } => event == RunEvent::SourcePut(Ok(())),
            RunCall::ReadSource { slot } => event matches RunEvent::SourceRead(Ok(found))
                && bytes_of(found) == lookup(self.database, inputs.sources@[slot].name@),
            RunCall::PutPrepared { .. } => event == RunEvent::PreparedPut(Ok(())),
            RunCall::ReadPrepared { key } => event matches RunEvent::PreparedRead(Ok(found))
                && bytes_of(found) == lookup(self.database, key),
            _ => false,
        }
    }

    /// The session after the call was carried out and answered.
    pub open spec fn after(self, event: RunEvent, inputs: RunInputs) -> Session {
        let (progress, call) = self.progress.next(event, inputs);
        let database = match self.call {
            RunCall::PutSource { slot } => self.database.insert(
                inputs.sources@[slot].name@,
                inputs.sources@[slot].bytes@,
            ),
            RunCall::PutPrepared { key, bytes } => self.database.insert(key, bytes),
            _ => self.database,
        };
        Session { progress, call, database }
    }

    /// The session after a number of answers.
    pub open spec fn run(database: Contents, events: Seq<RunEvent>, inputs: RunInputs) -> Session
        decreases events.len(),
    {
        if events.len() == 0 {
            Session::start(database)
        } else {
            Session::run(database, events.drop_last(), inputs).after(events.last(), inputs)
        }
    }

    /// Whether each answer is a sound database's.
    pub open spec fn sound(database: Contents, events: Seq<RunEvent>, inputs: RunInputs) -> bool
        decreases events.len(),
    {
        events.len() == 0 || {
            &&& Session::sound(database, events.drop_last(), inputs)
            &&& Session::run(database, events.drop_last(), inputs).answers(events.last(), inputs)
        }
    }
}

/// The total size of the first sources.
pub open spec fn source_total(sources: Seq<DemoAsset>, count: nat) -> nat
    decreases count,
{
    if count == 0 {
        0
    } else {
        source_total(sources, (count - 1) as nat) + sources[count - 1].bytes@.len()
    }
}

/// The answers that it takes until the scene is opened: the database, two for
/// each source, and two for each prepared object.
pub open spec fn answers_until_open(inputs: RunInputs) -> nat {
    1 + 2 * inputs.sources@.len() + 2 * (OBJECT_COUNT * inputs.assets@.len()) as nat
}

/// Where a session stands after a number of a sound database's answers.
spec fn stands(session: Session, count: int, inputs: RunInputs) -> bool {
    let sources = inputs.sources@;
    let assets = inputs.assets@;
    let progress = session.progress;
    let writes = 8 * assets.len();
    let step = count - 1 - 2 * sources.len();
    if count == 0 {
        session.call is CreateDatabase && progress == RunProgress::start()
    } else if step < 0 {
        let slot = (count - 1) / 2;
        &&& progress.slot == slot
        &&& progress.load == LoadProgress::start()
        &&& progress.source_bytes == source_total(sources, slot as nat)
        &&& if (count - 1) % 2 == 0 {
            session.call == RunCall::PutSource { slot }
        } else {
            &&& session.call == RunCall::ReadSource { slot }
            &&& lookup(session.database, sources[slot].name@) == Some(sources[slot].bytes@)
        }
    } else if step < writes {
        &&& progress.slot == step / 8
        &&& progress.object == step % 8
        &&& progress.load == LoadProgress::start()
        &&& progress.source_bytes == source_total(sources, sources.len())
        &&& session.call == RunCall::PutPrepared {
            key: catalog_key(assets, step / 8, step % 8),
            bytes: object_bytes(assets[step / 8], step % 8),
        }
        &&& exists|database: Contents|
            session.database == #[trigger] published(database, assets, step as nat)
    } else {
        &&& progress.source_bytes == source_total(sources, sources.len())
        &&& if step < 2 * writes {
            let load = progress.load;
            &&& !load.missing
            &&& load.fetched.len() < OBJECT_COUNT
            &&& 8 * load.done.len() + load.fetched.len() == step - writes
            &&& session.call == RunCall::ReadPrepared {
                key: catalog_key(assets, load.done.len() as int, load.fetched.len() as int),
            }
            &&& exists|database: Contents|
                session.database == #[trigger] published(database, assets, writes)
            &&& loaded(load, assets, session.database) == loaded(
                LoadProgress::start(),
                assets,
                session.database,
            )
        } else {
            session.call == RunCall::Open {
                catalog: assets.map_values(|asset: PreparedAsset| prepared_contents(asset)),
                source_bytes: source_total(sources, sources.len()) as int,
            }
        }
    }
}

proof fn lemma_stands(database: Contents, events: Seq<RunEvent>, inputs: RunInputs)
    requires
        names_distinct(inputs.assets@),
        Session::sound(database, events, inputs),
        events.len() <= answers_until_open(inputs),
    ensures
        stands(Session::run(database, events, inputs), events.len() as int, inputs),
    decreases events.len(),
{
    if events.len() > 0 {
        lemma_stands(database, events.drop_last(), inputs);
        let before = Session::run(database, events.drop_last(), inputs);
        lemma_stands_after(before, events.last(), events.len() - 1, inputs);
    }
}

/// Publishing done, the first key is read, or the scene opened where there is
/// no asset.
proof fn lemma_stands_at_load(session: Session, inputs: RunInputs)
    requires
        names_distinct(inputs.assets@),
        session.progress.load == LoadProgress::start(),
        session.progress.source_bytes == source_total(inputs.sources@, inputs.sources@.len()),
        exists|database: Contents|
            session.database == #[trigger] published(
                database,
                inputs.assets@,
                8 * inputs.assets@.len(),
            ),
    ensures
        ({
            let (progress, call) = session.progress.to_load(inputs);
            stands(
                Session { progress, call, database: session.database },
                (1 + 2 * inputs.sources@.len() + 8 * inputs.assets@.len()) as int,
                inputs,
            )
        }),
{
    let assets = inputs.assets@;
    if assets.len() == 0 {
        assert(assets.map_values(|asset: PreparedAsset| prepared_contents(asset)) =~= Seq::empty());
    }
}

proof fn lemma_stands_after(before: Session, event: RunEvent, count: int, inputs: RunInputs)
    requires
        names_distinct(inputs.assets@),
        0 <= count < answers_until_open(inputs),
        stands(before, count, inputs),
        before.answers(event, inputs),
    ensures
        stands(before.after(event, inputs), count + 1, inputs),
{
    let sources = inputs.sources@;
    let assets = inputs.assets@;
    let after = before.after(event, inputs);
    let writes = 8 * assets.len();
    let step = count - 1 - 2 * sources.len();
    if step < 0 {
        if step == -1 {
            assert(after.database == published(after.database, assets, 0));
            if assets.len() == 0 {
                lemma_stands_at_load(
                    Session {
                        progress: RunProgress {
                            slot: 0,
                            object: 0,
                            source_bytes: after.progress.source_bytes,
                            ..before.progress
                        },
                        ..after
                    },
                    inputs,
                );
            }
        }
    } else if step < writes {
        let base = choose|database: Contents|
            before.database == #[trigger] published(database, assets, step as nat);
        assert(after.database == published(base, assets, (step + 1) as nat));
        if step + 1 == writes {
            lemma_stands_at_load(
                Session {
                    progress: RunProgress {
                        slot: before.progress.slot + 1,
                        object: 0,
                        ..before.progress
                    },
                    ..after
                },
                inputs,
            );
        }
    } else {
        let base = choose|database: Contents|
            before.database == #[trigger] published(database, assets, writes);
        lemma_published_catalog_is_read_back(base, assets);
        let load = before.progress.load;
        let key = catalog_key(assets, load.done.len() as int, load.fetched.len() as int);
        let next = load.after(lookup(before.database, key));
        assert(!loaded(load, assets, before.database).missing);
        assert(!load.ended(assets.len() as int));
        assert(!next.missing);
        assert(loaded(next, assets, before.database) == loaded(load, assets, before.database));
        if step + 1 == 2 * writes {
            assert(next.done.len() == assets.len());
            assert(next.done == assets.map_values(|asset: PreparedAsset| prepared_contents(asset)));
        }
    }
}

/// Against a sound database the program publishes every source and every
/// prepared object, and opens the scene over exactly the prepared assets and
/// the total size of the sources: it never stops before.
pub proof fn lemma_scene_opens_over_the_prepared_assets(
    database: Contents,
    events: Seq<RunEvent>,
    inputs: RunInputs,
)
    requires
        names_distinct(inputs.assets@),
        Session::sound(database, events, inputs),
        events.len() <= answers_until_open(inputs),
    ensures
        Session::run(database, events, inputs).call !is Stop,
        events.len() == answers_until_open(inputs) ==> Session::run(database, events, inputs).call
            == (RunCall::Open {
            catalog: inputs.assets@.map_values(|asset: PreparedAsset| prepared_contents(asset)),
            source_bytes: source_total(inputs.sources@, inputs.sources@.len()) as int,
        }),
{
    lemma_stands(database, events, inputs);
}

/// The program publishes each source and reads it back before the next; one
/// that does not come back byte for byte stops it.  Then it publishes the
/// objects of each asset in turn.
pub proof fn lemma_how_sources_are_published(
    progress: RunProgress,
    found: Option<Vec<u8>>,
    inputs: RunInputs,
)
    requires
        0 <= progress.slot < inputs.sources@.len(),
    ensures
        ({
            let (after, call) = progress.next(RunEvent::SourceRead(Ok(found)), inputs);
            let source = inputs.sources@[progress.slot].bytes@;
            let same = found is Some && found->Some_0@ == source;
            &&& !same ==> {
                &&& call == RunCall::Stop(
                    RunStop::SourceMismatch { slot: progress.slot as usize },
                )
                &&& after == (RunProgress { phase: RunPhase::Stopped, ..progress })
            }
            &&& same ==> after.source_bytes == progress.source_bytes + source.len()
            &&& same && progress.slot + 1 < inputs.sources@.len() ==> {
                &&& call == (RunCall::PutSource { slot: progress.slot + 1 })
                &&& after == (RunProgress {
                    phase: RunPhase::PutSource,
                    slot: progress.slot + 1,
                    source_bytes: progress.source_bytes + source.len(),
                    ..progress
                })
            }
            &&& same && progress.slot + 1 == inputs.sources@.len() && inputs.assets@.len() > 0 ==> {
                &&& call == (RunCall::PutPrepared {
                    key: crate::database::key_of(
                        inputs.assets@[0].name@,
                        crate::database::object_text(0),
                    ),
                    bytes: inputs.assets@[0].vertices@,
                })
                &&& after == (RunProgress {
                    phase: RunPhase::PutPrepared,
                    slot: 0,
                    object: 0,
                    source_bytes: progress.source_bytes + source.len(),
                    ..progress
                })
            }
        }),
        progress.next(RunEvent::SourcePut(Ok(())), inputs) == (
            RunProgress { phase: RunPhase::ReadSource, ..progress },
            RunCall::ReadSource { slot: progress.slot },
        ),
        progress.next(RunEvent::DatabaseCreated(Ok(())), inputs) == (
            RunProgress { phase: RunPhase::PutSource, slot: 0, ..progress },
            RunCall::PutSource { slot: 0 },
        ),
{
}

/// The objects of an asset are published in order, and after the eighth those
/// of the next asset; after the last asset the reading begins.
pub proof fn lemma_how_assets_are_published(progress: RunProgress, inputs: RunInputs)
    requires
        0 <= progress.slot < inputs.assets@.len(),
        0 <= progress.object < 8,
    ensures
        ({
            let (after, call) = progress.next(RunEvent::PreparedPut(Ok(())), inputs);
            let (slot, object) = if progress.object < 7 {
                (progress.slot, progress.object + 1)
            } else {
                (progress.slot + 1, 0int)
            };
            &&& slot < inputs.assets@.len() ==> {
                &&& after == (RunProgress {
                    phase: RunPhase::PutPrepared,
                    slot,
                    object,
                    ..progress
                })
                &&& call == (RunCall::PutPrepared {
                    key: crate::database::key_of(
                        inputs.assets@[slot].name@,
                        crate::database::object_text(object),
                    ),
                    bytes: object_bytes(inputs.assets@[slot], object),
                })
            }
            &&& slot == inputs.assets@.len() && !progress.load.missing && progress.load.done.len()
                < inputs.assets@.len() ==> {
                &&& after == (RunProgress {
                    phase: RunPhase::ReadPrepared,
                    slot,
                    object,
                    ..progress
                })
                &&& call is ReadPrepared
            }
        }),
{
}

/// Every answer takes the reading on, under the next key; a missing object
/// stops the program, and once every asset is there the scene is opened over
/// exactly what was read.
pub proof fn lemma_how_assets_are_read_back(
    progress: RunProgress,
    found: Option<Vec<u8>>,
    inputs: RunInputs,
)
    requires
        progress.load.fetched.len() < 8,
    ensures
        ({
            let (after, call) = progress.next(RunEvent::PreparedRead(Ok(found)), inputs);
            let load = progress.load.after(
                match found {
                    Some(bytes) => Some(bytes@),
                    None => None,
                },
            );
            &&& load.missing ==> call == RunCall::Stop(RunStop::PreparedMissing) && after.phase
                == RunPhase::Stopped
            &&& !load.missing && load.done.len() < inputs.assets@.len() ==> {
                &&& after == (RunProgress { phase: RunPhase::ReadPrepared, load, ..progress })
                &&& call == (RunCall::ReadPrepared {
                    key: crate::database::key_of(
                        inputs.assets@[load.done.len() as int].name@,
                        crate::database::object_text(load.fetched.len() as int),
                    ),
                })
            }
            &&& !load.missing && load.done.len() >= inputs.assets@.len() ==> {
                &&& after.phase == RunPhase::Open
                &&& call == (RunCall::Open {
                    catalog: load.done,
                    source_bytes: progress.source_bytes,
                })
            }
        }),
{
}

/// The first frame is tried again until it is rendered; then the clock starts,
/// and from then on each frame is told how long ago that was, or nothing where
/// the clock ran backwards.
pub proof fn lemma_how_the_animation_runs(progress: RunProgress, now: u64, inputs: RunInputs)
    ensures
        progress.next(RunEvent::Opened(Ok(())), inputs) == (
            RunProgress { phase: RunPhase::FirstFrame, ..progress },
            RunCall::RenderFirst,
        ),
        progress.next(RunEvent::FirstFrame(Ok(false)), inputs) == (
            RunProgress { phase: RunPhase::Backoff, ..progress },
            RunCall::Backoff,
        ),
        progress.next(RunEvent::BackedOff, inputs) == (
            RunProgress { phase: RunPhase::FirstFrame, ..progress },
            RunCall::RenderFirst,
        ),
        progress.next(RunEvent::FirstFrame(Ok(true)), inputs) == (
            RunProgress { phase: RunPhase::StartClock, ..progress },
            RunCall::StartClock,
        ),
        progress.next(RunEvent::ClockStarted(now), inputs) == (
            RunProgress { phase: RunPhase::Poll, start_millis: now, ..progress },
            RunCall::Poll,
        ),
        progress.next(RunEvent::Slept, inputs) == (
            RunProgress { phase: RunPhase::Poll, ..progress },
            RunCall::Poll,
        ),
        ({
            let (after, call) = progress.next(RunEvent::Polled(now), inputs);
            &&& after == (RunProgress { phase: RunPhase::Render, ..progress })
            &&& call matches RunCall::Render { elapsed_millis } && (if now
                >= progress.start_millis {
                progress.start_millis + elapsed_millis == now
            } else {
                elapsed_millis == 0
            })
        }),
{
}

/// After every frame, rendered or deferred, the program asks for the first
/// presentation until it was reported, and pauses for sixteen milliseconds
/// before the next frame.
pub proof fn lemma_how_frames_are_paced(
    progress: RunProgress,
    rendered: bool,
    presented: bool,
    inputs: RunInputs,
)
    ensures
        ({
            let (after, call) = progress.next(RunEvent::Rendered(Ok(rendered)), inputs);
            &&& progress.presented ==> {
                &&& after == (RunProgress { phase: RunPhase::Sleep, ..progress })
                &&& call == (RunCall::Sleep { millis: 16, first_presentation: false })
            }
            &&& !progress.presented ==> {
                &&& after == (RunProgress { phase: RunPhase::Presentation, ..progress })
                &&& call == RunCall::TakePresentation
            }
        }),
        ({
            let (after, call) = progress.next(RunEvent::PresentationTaken(Ok(presented)), inputs);
            &&& after == (RunProgress {
                phase: RunPhase::Sleep,
                presented: progress.presented || presented,
                ..progress
            })
            &&& call == (RunCall::Sleep { millis: 16, first_presentation: presented })
        }),
{
}

/// Every failure stops the program, each for its own reason.
pub proof fn lemma_why_the_program_stops(
    progress: RunProgress,
    failure: DatabaseFailure,
    error: GeometryProbeError,
    inputs: RunInputs,
)
    ensures
        ({
            let stops = |event: RunEvent, stop: RunStop|
                progress.next(event, inputs) == (
                    RunProgress { phase: RunPhase::Stopped, ..progress },
                    RunCall::Stop(stop),
                );
            let slot = progress.slot as usize;
            &&& stops(RunEvent::DatabaseCreated(Err(failure)), RunStop::DatabaseUnavailable)
            &&& stops(RunEvent::SourcePut(Err(failure)), RunStop::SourceRejected { slot })
            &&& stops(RunEvent::SourceRead(Err(failure)), RunStop::SourceUnreadable { slot })
            &&& stops(RunEvent::PreparedPut(Err(failure)), RunStop::PreparedRejected)
            &&& stops(RunEvent::PreparedRead(Err(failure)), RunStop::PreparedUnreadable)
            &&& stops(RunEvent::Opened(Err(error)), RunStop::SetupFailed(error))
            &&& stops(RunEvent::FirstFrame(Err(error)), RunStop::SetupFailed(error))
            &&& stops(RunEvent::Rendered(Err(error)), RunStop::AnimationFailed(error))
            &&& stops(
                RunEvent::PresentationTaken(Err(error)),
                RunStop::PresentationFailed(error),
            )
        }),
{
}

/// The program waits for the answer to the call that it made last.
pub proof fn lemma_what_the_program_waits_for(progress: RunProgress, event: RunEvent)
    ensures
        progress.awaits(event) <==> match event {
            RunEvent::DatabaseCreated(_) => progress.phase == RunPhase::Create,
            RunEvent::SourcePut(_) => progress.phase == RunPhase::PutSource,
            RunEvent::SourceRead(_) => progress.phase == RunPhase::ReadSource,
            RunEvent::PreparedPut(_) => progress.phase == RunPhase::PutPrepared,
            RunEvent::PreparedRead(_) => progress.phase == RunPhase::ReadPrepared,
            RunEvent::Opened(_) => progress.phase == RunPhase::Open,
            RunEvent::FirstFrame(_) => progress.phase == RunPhase::FirstFrame,
            RunEvent::BackedOff => progress.phase == RunPhase::Backoff,
            RunEvent::ClockStarted(_) => progress.phase == RunPhase::StartClock,
            RunEvent::Polled(_) => progress.phase == RunPhase::Poll,
            RunEvent::Rendered(_) => progress.phase == RunPhase::Render,
            RunEvent::PresentationTaken(_) => progress.phase == RunPhase::Presentation,
            RunEvent::Slept => progress.phase == RunPhase::Sleep,
        },
{
}

/// The program begins with nothing done; without sources it begins with the
/// first object of the first asset, and without assets it opens the scene over
/// nothing.
pub proof fn lemma_where_the_program_begins(progress: RunProgress, inputs: RunInputs)
    ensures
        ({
            let start = RunProgress::start();
            &&& start.phase == RunPhase::Create
            &&& start.source_bytes == 0
            &&& start.load.done.len() == 0
            &&& start.load.fetched.len() == 0
            &&& !start.load.missing
            &&& !start.presented
        }),
        inputs.sources@.len() == 0 && inputs.assets@.len() > 0 ==> progress.next(
            RunEvent::DatabaseCreated(Ok(())),
            inputs,
        ) == (
            RunProgress { phase: RunPhase::PutPrepared, slot: 0, object: 0, ..progress },
            RunCall::PutPrepared {
                key: crate::database::key_of(
                    inputs.assets@[0].name@,
                    crate::database::object_text(0),
                ),
                bytes: inputs.assets@[0].vertices@,
            },
        ),
        inputs.sources@.len() == 0 && inputs.assets@.len() == 0 && !progress.load.missing ==> {
            let (after, call) = progress.next(RunEvent::DatabaseCreated(Ok(())), inputs);
            &&& after.phase == RunPhase::Open
            &&& call == (RunCall::Open {
                catalog: progress.load.done,
                source_bytes: progress.source_bytes,
            })
        },
{
}

/// Once the last object of the last asset is published, the first object that
/// was not read yet is read.
pub proof fn lemma_reading_follows_publishing(progress: RunProgress, inputs: RunInputs)
    requires
        progress.slot + 1 == inputs.assets@.len(),
        progress.object == 7,
        !progress.load.missing,
        progress.load.done.len() < inputs.assets@.len(),
    ensures
        progress.next(RunEvent::PreparedPut(Ok(())), inputs).1 == (RunCall::ReadPrepared {
            key: crate::database::key_of(
                inputs.assets@[progress.load.done.len() as int].name@,
                crate::database::object_text(progress.load.fetched.len() as int),
            ),
        }),
{
}

/// Only the sum of the sources' sizes limits which answers can be taken.
pub proof fn lemma_which_answers_can_be_taken(
    progress: RunProgress,
    event: RunEvent,
    inputs: RunInputs,
)
    ensures
        !(event is SourceRead) ==> progress.admits(event, inputs),
        event is SourceRead ==> (progress.admits(event, inputs) <==> progress.source_bytes
            + inputs.sources@[progress.slot].bytes@.len() <= usize::MAX),
{
}

/// A call is seen as it is.
pub proof fn lemma_calls_are_seen_as_they_are(action: RunAction)
    ensures
        match action {
            RunAction::CreateDatabase => action@ is CreateDatabase,
            RunAction::PutSource { slot } => action@ == (RunCall::PutSource { slot: slot as int }),
            RunAction::ReadSource { slot } => action@ == (RunCall::ReadSource {
                slot: slot as int,
            }),
            RunAction::PutPrepared { key, bytes } => action@ == (RunCall::PutPrepared {
                key: key@,
                bytes: bytes@,
            }),
            RunAction::ReadPrepared { key } => action@ == (RunCall::ReadPrepared { key: key@ }),
            RunAction::Open { catalog, source_bytes } => action@ == (RunCall::Open {
                catalog: catalog@,
                source_bytes: source_bytes as int,
            }),
            RunAction::RenderFirst => action@ is RenderFirst,
            RunAction::Backoff => action@ is Backoff,
            RunAction::StartClock => action@ is StartClock,
            RunAction::Poll => action@ is Poll,
            RunAction::Render { elapsed_millis } => action@ == (RunCall::Render {
                elapsed_millis,
            }),
            RunAction::TakePresentation => action@ is TakePresentation,
            RunAction::Sleep { millis, first_presentation } => action@ == (RunCall::Sleep {
                millis,
                first_presentation,
            }),
            RunAction::Stop(stop) => action@ == RunCall::Stop(stop),
        },
{
}

} // verus!
