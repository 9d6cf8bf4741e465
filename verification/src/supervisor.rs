//! The retry/timeout supervisor: one generation request as a state machine.
//! A driver performs the outside work (probing the input, creating the
//! output directory, running attempts, sleeping, racing the deadline) and
//! feeds each observation back; every decision between observations is made
//! and proved here.

use vstd::prelude::*;

use crate::errors::ThumbnailError;
use crate::thumbnail::{GenerationOutcome, GenerationRequest, ThumbnailStrategy};

verus! {

/// Where a supervised request stands.
#[derive(Debug)]
pub enum Phase {
    /// Waiting to learn whether the input file exists.
    CheckingInput,
    /// Waiting for the output path's parent directory to be ready.
    PreparingOutput,
    /// Attempt number `attempt` is running (counted from zero).
    Running { attempt: u32 },
    /// Attempt number `attempt` failed; the backoff sleep is running.
    Backoff { attempt: u32, last_error: ThumbnailError },
    /// Retries are exhausted; the fallback generator is running.
    FallingBack { last_error: ThumbnailError },
    /// The request is settled.
    Finished { outcome: GenerationOutcome },
}

/// What the driver must do next.
#[derive(Debug)]
pub enum Command {
    /// Find out whether the input file exists.
    ProbeInput,
    /// Create the output path's parent directory if it is absent.
    PrepareOutput,
    /// Run one generation attempt with the given strategy.
    RunAttempt { strategy: ThumbnailStrategy },
    /// Sleep this many milliseconds, then report back.
    Sleep { millis: u64 },
    /// Run the fallback generator.
    RunFallback,
    /// Stop: the phase is `Finished` and holds the outcome.
    Stop,
}

/// What the driver observed.
#[derive(Debug)]
pub enum Event {
    /// Whether the input file exists.
    InputChecked { exists: bool },
    /// The output directory is ready, or could not be created.
    OutputPrepared { error: Option<String> },
    /// One generation attempt finished.
    AttemptFinished { result: Result<(), ThumbnailError> },
    /// The backoff sleep elapsed.
    SleepElapsed,
    /// The fallback generator finished.
    FallbackFinished { result: Result<(), ThumbnailError> },
    /// The overall deadline elapsed while waiting.
    DeadlineExpired,
}

/// Does the phase wait for exactly this kind of event?  The deadline can
/// expire at any point of the retry sequence.
pub open spec fn expects(phase: Phase, ev: Event) -> bool {
    match (phase, ev) {
        (Phase::CheckingInput, Event::InputChecked { .. }) => true,
        (Phase::PreparingOutput, Event::OutputPrepared { .. }) => true,
        (Phase::Running { .. }, Event::AttemptFinished { .. }) => true,
        (Phase::Running { .. }, Event::DeadlineExpired) => true,
        (Phase::Backoff { .. }, Event::SleepElapsed) => true,
        (Phase::Backoff { .. }, Event::DeadlineExpired) => true,
        (Phase::FallingBack { .. }, Event::FallbackFinished { .. }) => true,
        (Phase::FallingBack { .. }, Event::DeadlineExpired) => true,
        _ => false,
    }
}

/// The attempt counters never pass the retry budget.
pub open spec fn phase_wf(phase: Phase, max_retries: u32) -> bool {
    match phase {
        Phase::Running { attempt } => attempt <= max_retries,
        Phase::Backoff { attempt, .. } => attempt < max_retries,
        _ => true,
    }
}

/// The transition relation of the supervisor, one observed event at a time.
///
/// * A missing input settles the request at once as `FileAccess`; nothing is
///   retried and no backoff is ordered.
/// * A directory failure settles it as `IoError`.
/// * A successful attempt settles it as the output path.
/// * A failed attempt backs off `1000 * (attempt + 1)` milliseconds while
///   retries remain; when they are exhausted the fallback runs if enabled,
///   else the request settles as the last attempt's error.
/// * The fallback's result is the request's result: success settles as the
///   output path, and a fallback failure settles as the fallback's own
///   error.
/// * An expired deadline settles as `Timeout` at once.
/// * A settled request never moves again and orders nothing but `Stop`.
pub open spec fn spec_step(
    req: GenerationRequest,
    strategy: ThumbnailStrategy,
    phase: Phase,
    ev: Event,
) -> (Phase, Command) {
    match (phase, ev) {
        (Phase::CheckingInput, Event::InputChecked { exists }) => {
            if exists {
                (Phase::PreparingOutput, Command::PrepareOutput)
            } else {
                (
                    Phase::Finished {
                        outcome: Err(ThumbnailError::FileAccess(req.input_path)),
                    },
                    Command::Stop,
                )
            }
        },
        (Phase::PreparingOutput, Event::OutputPrepared { error }) => {
            match error {
                None => (Phase::Running { attempt: 0 }, Command::RunAttempt { strategy }),
                Some(detail) => (
                    Phase::Finished { outcome: Err(ThumbnailError::IoError(detail)) },
                    Command::Stop,
                ),
            }
        },
        (Phase::Running { attempt }, Event::AttemptFinished { result }) => {
            match result {
                Ok(_) => (Phase::Finished { outcome: Ok(req.output_path) }, Command::Stop),
                Err(e) => {
                    if attempt < req.config.max_retries {
                        (
                            Phase::Backoff { attempt, last_error: e },
                            Command::Sleep { millis: (1000 * (attempt + 1)) as u64 },
                        )
                    } else if req.config.fallback_enabled {
                        (Phase::FallingBack { last_error: e }, Command::RunFallback)
                    } else {
                        (Phase::Finished { outcome: Err(e) }, Command::Stop)
                    }
                },
            }
        },
        (Phase::Running { attempt }, Event::DeadlineExpired) => (
            Phase::Finished { outcome: Err(ThumbnailError::Timeout) },
            Command::Stop,
        ),
        (Phase::Backoff { attempt, last_error }, Event::SleepElapsed) => (
            Phase::Running { attempt: (attempt + 1) as u32 },
            Command::RunAttempt { strategy },
        ),
        (Phase::Backoff { attempt, last_error }, Event::DeadlineExpired) => (
            Phase::Finished { outcome: Err(ThumbnailError::Timeout) },
            Command::Stop,
        ),
        (Phase::FallingBack { last_error }, Event::FallbackFinished { result }) => {
            match result {
                Ok(_) => (Phase::Finished { outcome: Ok(req.output_path) }, Command::Stop),
                Err(e) => (Phase::Finished { outcome: Err(e) }, Command::Stop),
            }
        },
        (Phase::FallingBack { last_error }, Event::DeadlineExpired) => (
            Phase::Finished { outcome: Err(ThumbnailError::Timeout) },
            Command::Stop,
        ),
        (p, _) => (p, Command::Stop),
    }
}

/// One supervised generation request: the request itself, the strategy the
/// generator held when it was made, and where the run stands.
#[derive(Debug)]
pub struct Supervisor {
    pub request: GenerationRequest,
    pub strategy: ThumbnailStrategy,
    pub phase: Phase,
}

impl Supervisor {
    pub open spec fn wf(&self) -> bool {
        &&& self.request.config.valid()
        &&& phase_wf(self.phase, self.request.config.max_retries)
    }

    /// Begins supervising one request.  The first duty is the input check:
    /// it comes before any attempt, so a missing file is never retried.
    pub fn begin(request: GenerationRequest, strategy: ThumbnailStrategy) -> (r: (
        Supervisor,
        Command,
    ))
        requires
            request.config.valid(),
        ensures
            r.0.wf(),
            r.0.request == request,
            r.0.strategy == strategy,
            r.0.phase == Phase::CheckingInput,
            r.1 == Command::ProbeInput,
    {
        (Supervisor { request, strategy, phase: Phase::CheckingInput }, Command::ProbeInput)
    }

    /// Consumes one observation and answers with the next duty, exactly as
    /// the transition relation says.
    pub fn step(&mut self, ev: Event) -> (cmd: Command)
        requires
            old(self).wf(),
            expects(old(self).phase, ev),
        ensures
            final(self).wf(),
            final(self).request == old(self).request,
            final(self).strategy == old(self).strategy,
            (final(self).phase, cmd) == spec_step(
                old(self).request,
                old(self).strategy,
                old(self).phase,
                ev,
            ),
    {
        let mut phase = Phase::CheckingInput;
        core::mem::swap(&mut self.phase, &mut phase);
        let (next, cmd) = transition(&self.request, self.strategy, phase, ev);
        self.phase = next;
        cmd
    }

    /// The outcome, once the run has settled.
    pub fn outcome(self) -> (r: GenerationOutcome)
        requires
            self.phase matches Phase::Finished { .. },
        ensures
            self.phase matches Phase::Finished { outcome } && r == outcome,
    {
        match self.phase {
            Phase::Finished { outcome } => outcome,
            _ => Err(ThumbnailError::TaskCancelled),
        }
    }
}

/// Carries out one transition on owned values.
fn transition(
    req: &GenerationRequest,
    strategy: ThumbnailStrategy,
    phase: Phase,
    ev: Event,
) -> (r: (Phase, Command))
    requires
        req.config.valid(),
        phase_wf(phase, req.config.max_retries),
        expects(phase, ev),
    ensures
        r == spec_step(*req, strategy, phase, ev),
        phase_wf(r.0, req.config.max_retries),
{
    match (phase, ev) {
        (Phase::CheckingInput, Event::InputChecked { exists }) => {
            if exists {
                (Phase::PreparingOutput, Command::PrepareOutput)
            } else {
                (
                    Phase::Finished {
                        outcome: Err(ThumbnailError::FileAccess(req.input_path.clone())),
                    },
                    Command::Stop,
                )
            }
        },
        (Phase::PreparingOutput, Event::OutputPrepared { error }) => {
            match error {
                None => (Phase::Running { attempt: 0 }, Command::RunAttempt { strategy }),
                Some(detail) => (
                    Phase::Finished { outcome: Err(ThumbnailError::IoError(detail)) },
                    Command::Stop,
                ),
            }
        },
        (Phase::Running { attempt }, Event::AttemptFinished { result }) => {
            match result {
                Ok(_) => (
                    Phase::Finished { outcome: Ok(req.output_path.clone()) },
                    Command::Stop,
                ),
                Err(e) => {
                    if attempt < req.config.max_retries {
                        (
                            Phase::Backoff { attempt, last_error: e },
                            Command::Sleep { millis: 1000 * (attempt as u64 + 1) },
                        )
                    } else if req.config.fallback_enabled {
                        (Phase::FallingBack { last_error: e }, Command::RunFallback)
                    } else {
                        (Phase::Finished { outcome: Err(e) }, Command::Stop)
                    }
                },
            }
        },
        (Phase::Running { attempt: _ }, Event::DeadlineExpired) => (
            Phase::Finished { outcome: Err(ThumbnailError::Timeout) },
            Command::Stop,
        ),
        (Phase::Backoff { attempt, last_error: _ }, Event::SleepElapsed) => (
            Phase::Running { attempt: attempt + 1 },
            Command::RunAttempt { strategy },
        ),
        (Phase::Backoff { attempt: _, last_error: _ }, Event::DeadlineExpired) => (
            Phase::Finished { outcome: Err(ThumbnailError::Timeout) },
            Command::Stop,
        ),
        (Phase::FallingBack { last_error: _ }, Event::FallbackFinished { result }) => {
            match result {
                Ok(_) => (
                    Phase::Finished { outcome: Ok(req.output_path.clone()) },
                    Command::Stop,
                ),
                Err(e) => (Phase::Finished { outcome: Err(e) }, Command::Stop),
            }
        },
        (Phase::FallingBack { last_error: _ }, Event::DeadlineExpired) => (
            Phase::Finished { outcome: Err(ThumbnailError::Timeout) },
            Command::Stop,
        ),
        (p, _) => (p, Command::Stop),
    }
}

/// The phase reached after consuming `events`, one step at a time.
pub open spec fn run_phase(
    req: GenerationRequest,
    strategy: ThumbnailStrategy,
    phase: Phase,
    events: Seq<Event>,
) -> Phase
    decreases events.len(),
{
    if events.len() == 0 {
        phase
    } else {
        run_phase(
            req,
            strategy,
            spec_step(req, strategy, phase, events[0]).0,
            events.drop_first(),
        )
    }
}

/// The commands issued while consuming `events`, in order.
pub open spec fn run_commands(
    req: GenerationRequest,
    strategy: ThumbnailStrategy,
    phase: Phase,
    events: Seq<Event>,
) -> Seq<Command>
    decreases events.len(),
{
    if events.len() == 0 {
        Seq::empty()
    } else {
        seq![spec_step(req, strategy, phase, events[0]).1] + run_commands(
            req,
            strategy,
            spec_step(req, strategy, phase, events[0]).0,
            events.drop_first(),
        )
    }
}

/// How many of `cmds` start a generation attempt.
pub open spec fn count_attempts(cmds: Seq<Command>) -> nat
    decreases cmds.len(),
{
    if cmds.len() == 0 {
        0
    } else {
        (if cmds[0] matches Command::RunAttempt { .. } {
            1nat
        } else {
            0nat
        }) + count_attempts(cmds.drop_first())
    }
}

/// How many of `cmds` order a backoff sleep.
pub open spec fn count_sleeps(cmds: Seq<Command>) -> nat
    decreases cmds.len(),
{
    if cmds.len() == 0 {
        0
    } else {
        (if cmds[0] matches Command::Sleep { .. } {
            1nat
        } else {
            0nat
        }) + count_sleeps(cmds.drop_first())
    }
}

/// The observations of a retry sequence whose every attempt fails with the
/// corresponding error: each failure, with the finished backoff sleep
/// between consecutive ones.
pub open spec fn failing_events(errs: Seq<ThumbnailError>) -> Seq<Event>
    decreases errs.len(),
{
    if errs.len() == 0 {
        Seq::empty()
    } else if errs.len() == 1 {
        seq![Event::AttemptFinished { result: Err(errs[0]) }]
    } else {
        seq![
            Event::AttemptFinished { result: Err(errs[0]) },
            Event::SleepElapsed,
        ] + failing_events(errs.drop_first())
    }
}

/// A settled request never moves again, and the only command it ever issues
/// again is `Stop`: in particular it never sleeps and never starts another
/// attempt.
pub proof fn lemma_finished_is_final(
    req: GenerationRequest,
    strategy: ThumbnailStrategy,
    outcome: GenerationOutcome,
    events: Seq<Event>,
)
    ensures
        run_phase(req, strategy, Phase::Finished { outcome }, events) == (Phase::Finished {
            outcome,
        }),
        count_sleeps(run_commands(req, strategy, Phase::Finished { outcome }, events)) == 0,
        count_attempts(run_commands(req, strategy, Phase::Finished { outcome }, events)) == 0,
    decreases events.len(),
{
    if events.len() > 0 {
        lemma_finished_is_final(req, strategy, outcome, events.drop_first());
        let settled = Phase::Finished { outcome };
        let cmds = run_commands(req, strategy, settled, events);
        assert(spec_step(req, strategy, settled, events[0]).0 == settled);
        assert(cmds == seq![spec_step(req, strategy, settled, events[0]).1] + run_commands(
            req,
            strategy,
            settled,
            events.drop_first(),
        ));
        assert(cmds[0] == Command::Stop);
        assert(cmds.drop_first() =~= run_commands(req, strategy, settled, events.drop_first()));
        assert(count_sleeps(cmds) == count_sleeps(cmds.drop_first()));
        assert(count_attempts(cmds) == count_attempts(cmds.drop_first()));
    }
}

/// A request whose input file does not exist settles at once as
/// `FileAccess` naming that input, and the supervisor never orders a
/// backoff sleep and never starts an attempt, whatever else the driver
/// reports afterwards.
pub proof fn lemma_missing_input_fails_fast(
    req: GenerationRequest,
    strategy: ThumbnailStrategy,
    later: Seq<Event>,
)
    ensures
        ({
            let events = seq![Event::InputChecked { exists: false }] + later;
            let settled = Phase::Finished {
                outcome: Err(ThumbnailError::FileAccess(req.input_path)),
            };
            &&& run_phase(req, strategy, Phase::CheckingInput, events) == settled
            &&& count_sleeps(run_commands(req, strategy, Phase::CheckingInput, events)) == 0
            &&& count_attempts(run_commands(req, strategy, Phase::CheckingInput, events)) == 0
        }),
{
    let events = seq![Event::InputChecked { exists: false }] + later;
    let outcome = Err(ThumbnailError::FileAccess(req.input_path));
    assert(events[0] == Event::InputChecked { exists: false });
    assert(events.drop_first() =~= later);
    assert(spec_step(req, strategy, Phase::CheckingInput, events[0]).0 == (Phase::Finished {
        outcome,
    }));
    lemma_finished_is_final(req, strategy, outcome, later);
    let settled = Phase::Finished { outcome };
    let cmds = run_commands(req, strategy, Phase::CheckingInput, events);
    assert(run_phase(req, strategy, Phase::CheckingInput, events) == run_phase(
        req,
        strategy,
        settled,
        later,
    ));
    assert(cmds == seq![Command::Stop] + run_commands(req, strategy, settled, later));
    assert(cmds.drop_first() =~= run_commands(req, strategy, settled, later));
    assert(count_sleeps(cmds) == count_sleeps(cmds.drop_first()));
    assert(count_attempts(cmds) == count_attempts(cmds.drop_first()));
}

/// The heart of the exhaustion law, by induction over the remaining
/// failures: from attempt number `attempt` with `errs.len()` failures left
/// (filling the retry budget exactly), the run starts one attempt per
/// elapsed sleep, and ends turning to the fallback when it is enabled, or
/// settled at the last error when it is not.
proof fn lemma_failing_run(
    req: GenerationRequest,
    strategy: ThumbnailStrategy,
    attempt: u32,
    errs: Seq<ThumbnailError>,
)
    requires
        errs.len() >= 1,
        attempt + errs.len() == req.config.max_retries + 1,
    ensures
        ({
            let events = failing_events(errs);
            let from = Phase::Running { attempt };
            let cmds = run_commands(req, strategy, from, events);
            &&& count_attempts(cmds) == errs.len() - 1
            &&& count_sleeps(cmds) == errs.len() - 1
            &&& run_phase(req, strategy, from, events) == if req.config.fallback_enabled {
                Phase::FallingBack { last_error: errs.last() }
            } else {
                Phase::Finished { outcome: Err(errs.last()) }
            }
        }),
    decreases errs.len(),
{
    let events = failing_events(errs);
    let from = Phase::Running { attempt };
    if errs.len() == 1 {
        assert(attempt == req.config.max_retries);
        assert(events =~= seq![Event::AttemptFinished { result: Err(errs[0]) }]);
        assert(events.drop_first() =~= Seq::<Event>::empty());
        let c0 = spec_step(req, strategy, from, events[0]).1;
        let cmds = run_commands(req, strategy, from, events);
        assert(cmds == seq![c0] + run_commands(
            req,
            strategy,
            spec_step(req, strategy, from, events[0]).0,
            events.drop_first(),
        ));
        assert(run_commands(
            req,
            strategy,
            spec_step(req, strategy, from, events[0]).0,
            events.drop_first(),
        ) =~= Seq::<Command>::empty());
        assert(cmds =~= seq![c0]);
        assert(cmds.drop_first() =~= Seq::<Command>::empty());
        assert(!(c0 matches Command::RunAttempt { .. }));
        assert(!(c0 matches Command::Sleep { .. }));
        assert(count_attempts(Seq::<Command>::empty()) == 0);
        assert(count_sleeps(Seq::<Command>::empty()) == 0);
        assert(cmds.drop_first() == Seq::<Command>::empty());
        assert(count_attempts(cmds) == count_attempts(cmds.drop_first()));
        assert(count_sleeps(cmds) == count_sleeps(cmds.drop_first()));
        assert(count_attempts(cmds) == 0);
        assert(count_sleeps(cmds) == 0);
        assert(errs.last() == errs[0]);
        assert(run_phase(req, strategy, from, events) == run_phase(
            req,
            strategy,
            spec_step(req, strategy, from, events[0]).0,
            events.drop_first(),
        ));
    } else {
        assert(attempt < req.config.max_retries);
        let e0 = Event::AttemptFinished { result: Err(errs[0]) };
        let mid = Phase::Backoff { attempt, last_error: errs[0] };
        let after = Phase::Running { attempt: (attempt + 1) as u32 };
        let rest = failing_events(errs.drop_first());
        assert(events == seq![e0, Event::SleepElapsed] + rest);
        assert(events[0] == e0);
        assert(spec_step(req, strategy, from, e0).0 == mid);
        assert(spec_step(req, strategy, from, e0).1 == (Command::Sleep {
            millis: (1000 * (attempt + 1)) as u64,
        }));
        let tail1 = events.drop_first();
        assert(tail1 =~= seq![Event::SleepElapsed] + rest);
        assert(tail1[0] == Event::SleepElapsed);
        assert(spec_step(req, strategy, mid, Event::SleepElapsed).0 == after);
        assert(spec_step(req, strategy, mid, Event::SleepElapsed).1 == (Command::RunAttempt {
            strategy,
        }));
        let tail2 = tail1.drop_first();
        assert(tail2 =~= rest);
        lemma_failing_run(req, strategy, (attempt + 1) as u32, errs.drop_first());
        assert(errs.drop_first().last() == errs.last());
        let cmds = run_commands(req, strategy, from, events);
        let inner = run_commands(req, strategy, after, rest);
        assert(cmds == seq![spec_step(req, strategy, from, e0).1] + run_commands(
            req,
            strategy,
            mid,
            tail1,
        ));
        assert(run_commands(req, strategy, mid, tail1) == seq![
            Command::RunAttempt { strategy },
        ] + inner);
        assert(cmds.drop_first() =~= seq![Command::RunAttempt { strategy }] + inner);
        assert(cmds.drop_first().drop_first() =~= inner);
        assert(count_attempts(cmds) == count_attempts(cmds.drop_first()));
        assert(count_attempts(cmds.drop_first()) == 1 + count_attempts(inner));
        assert(count_sleeps(cmds) == 1 + count_sleeps(cmds.drop_first()));
        assert(count_sleeps(cmds.drop_first()) == count_sleeps(inner));
        assert(run_phase(req, strategy, from, events) == run_phase(req, strategy, mid, tail1));
        assert(run_phase(req, strategy, mid, tail1) == run_phase(req, strategy, after, tail2));
        assert(tail2 == rest);
    }
}

/// A decode path that always fails consumes exactly `max_retries + 1`
/// attempts — one more than the retry budget — before the supervisor turns
/// to the fallback; with the fallback disabled, the run settles at exactly
/// the last attempt's error.  `errs` are the failures the driver reports,
/// one per attempt, after it has confirmed the input and the output
/// directory.
pub proof fn lemma_retries_exhausted(
    req: GenerationRequest,
    strategy: ThumbnailStrategy,
    errs: Seq<ThumbnailError>,
)
    requires
        errs.len() == req.config.max_retries + 1,
    ensures
        ({
            let events = seq![
                Event::InputChecked { exists: true },
                Event::OutputPrepared { error: None },
            ] + failing_events(errs);
            let cmds = run_commands(req, strategy, Phase::CheckingInput, events);
            &&& count_attempts(cmds) == req.config.max_retries + 1
            &&& run_phase(req, strategy, Phase::CheckingInput, events)
                == if req.config.fallback_enabled {
                Phase::FallingBack { last_error: errs.last() }
            } else {
                Phase::Finished { outcome: Err(errs.last()) }
            }
        }),
{
    let events = seq![
        Event::InputChecked { exists: true },
        Event::OutputPrepared { error: None },
    ] + failing_events(errs);
    let fails = failing_events(errs);
    assert(events[0] == Event::InputChecked { exists: true });
    assert(spec_step(req, strategy, Phase::CheckingInput, events[0]).0
        == Phase::PreparingOutput);
    let tail1 = events.drop_first();
    assert(tail1 =~= seq![Event::OutputPrepared { error: None }] + fails);
    assert(tail1[0] == Event::OutputPrepared { error: None });
    assert(spec_step(req, strategy, Phase::PreparingOutput, tail1[0]).0 == (Phase::Running {
        attempt: 0,
    }));
    assert(spec_step(req, strategy, Phase::PreparingOutput, tail1[0]).1
        == (Command::RunAttempt { strategy }));
    let tail2 = tail1.drop_first();
    assert(tail2 =~= fails);
    lemma_failing_run(req, strategy, 0, errs);
    let cmds = run_commands(req, strategy, Phase::CheckingInput, events);
    let inner = run_commands(req, strategy, Phase::Running { attempt: 0 }, fails);
    assert(cmds == seq![Command::PrepareOutput] + run_commands(
        req,
        strategy,
        Phase::PreparingOutput,
        tail1,
    ));
    assert(run_commands(req, strategy, Phase::PreparingOutput, tail1) == seq![
        Command::RunAttempt { strategy },
    ] + inner);
    assert(cmds.drop_first() =~= seq![Command::RunAttempt { strategy }] + inner);
    assert(cmds.drop_first().drop_first() =~= inner);
    assert(count_attempts(cmds) == count_attempts(cmds.drop_first()));
    assert(count_attempts(cmds.drop_first()) == 1 + count_attempts(inner));
    assert(run_phase(req, strategy, Phase::CheckingInput, events) == run_phase(
        req,
        strategy,
        Phase::PreparingOutput,
        tail1,
    ));
    assert(run_phase(req, strategy, Phase::PreparingOutput, tail1) == run_phase(
        req,
        strategy,
        Phase::Running { attempt: 0 },
        tail2,
    ));
    assert(tail2 == fails);
}

} // verus!
