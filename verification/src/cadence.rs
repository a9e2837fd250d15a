//! The frame loop's decisions.
//!
//! The loop itself belongs to whoever owns the window, the audio sink and
//! the machine. A [`Presenter`] tells it what to do next: it hands out one
//! [`Action`] at a time and takes back the [`Event`] that the action gave.
//! One frame is one round of seven actions: sample the input, deliver the
//! key mask, fetch the frame, present its picture, tick the machine once,
//! ask for the sound flag, and switch the tone.

use vstd::prelude::*;
use crate::config::Config;
use crate::config::FRAME_BYTES;
use crate::config::SOURCE_WIDTH;
use crate::config::lemma_machine_frame_shape;
use crate::keypad::PhysicalKey;
use crate::keypad::key_mask;
use crate::keypad::sample_keys;
use crate::raster::expand;

verus! {

/// Where in a frame the loop stands: what the presenter waits for.
#[derive(Clone, Copy, Debug, PartialEq, Eq, Structural)]
pub enum Phase {
    /// The input was asked for.
    AwaitInput,
    /// The key mask was handed to the machine.
    AwaitKeysDelivered,
    /// The machine's frame was asked for.
    AwaitFrame,
    /// The picture was handed to the window.
    AwaitPresented,
    /// The machine was told to tick.
    AwaitTicked,
    /// The machine's sound flag was asked for.
    AwaitSound,
    /// The tone was appended or stopped.
    AwaitToneSwitched,
    /// The loop has ended.
    Stopped,
}

/// Why the loop ended without being asked to.
#[derive(Clone, Copy, Debug, PartialEq, Eq, Structural)]
pub enum Fault {
    /// The event does not answer the action that was handed out.
    UnexpectedEvent,
    /// The machine's frame has not the length of a packed frame.
    MalformedFrame,
    /// The window did not take the picture.
    PresentFailed,
}

/// What an action gave.
#[derive(Debug, PartialEq, Eq)]
pub enum Event {
    /// The state of the window and the keyboard.
    Input {
        /// The window is open.
        open: bool,
        /// The key that ends the loop is held.
        exit_key: bool,
        /// The keys of the pad that are held.
        held: Vec<PhysicalKey>,
    },
    /// An action that gives nothing back was performed.
    Done,
    /// The machine's packed frame.
    Frame(Vec<u8>),
    /// Whether the window took the picture.
    Presented(bool),
    /// Whether the machine's tick succeeded.
    Ticked(bool),
    /// The machine's sound flag.
    Sound(bool),
}

/// An event as a plain value: [`Event`] with sequences for its vectors.
pub enum EventView {
    Input { open: bool, exit_key: bool, held: Seq<PhysicalKey> },
    Done,
    Frame(Seq<u8>),
    Presented(bool),
    Ticked(bool),
    Sound(bool),
}

impl View for Event {
    type V = EventView;

    open spec fn view(&self) -> EventView {
        match *self {
            Event::Input { open, exit_key, held } => EventView::Input {
                open,
                exit_key,
                held: held@,
            },
            Event::Done => EventView::Done,
            Event::Frame(bytes) => EventView::Frame(bytes@),
            Event::Presented(ok) => EventView::Presented(ok),
            Event::Ticked(ok) => EventView::Ticked(ok),
            Event::Sound(playing) => EventView::Sound(playing),
        }
    }
}

/// What the loop is to do next.
#[derive(Debug, PartialEq, Eq)]
pub enum Action {
    /// Read whether the window is open, whether the exit key is held, and
    /// which keys of the pad are held.
    PollInput,
    /// Hand the key mask to the machine.
    SetKeysMask(u16),
    /// Read the machine's packed frame.
    FetchFrame,
    /// Hand the picture to the window.
    Present {
        /// The picture, row-major.
        pixels: Vec<u32>,
        /// The window's width in pixels.
        width: usize,
        /// The window's height in pixels.
        height: usize,
    },
    /// Advance the machine.
    Tick {
        /// The number of steps to advance it by.
        cycles: u32,
    },
    /// Read the machine's sound flag.
    QuerySound,
    /// Append the continuous tone to the audio sink.
    AppendTone,
    /// Stop the audio sink.
    StopSink,
    /// Leave the loop.
    Exit,
}

/// An action as a plain value: [`Action`] with a sequence for its vector.
pub enum ActionView {
    PollInput,
    SetKeysMask(u16),
    FetchFrame,
    Present { pixels: Seq<u32>, width: usize, height: usize },
    Tick { cycles: u32 },
    QuerySound,
    AppendTone,
    StopSink,
    Exit,
}

impl View for Action {
    type V = ActionView;

    open spec fn view(&self) -> ActionView {
        match *self {
            Action::PollInput => ActionView::PollInput,
            Action::SetKeysMask(mask) => ActionView::SetKeysMask(mask),
            Action::FetchFrame => ActionView::FetchFrame,
            Action::Present { pixels, width, height } => ActionView::Present {
                pixels: pixels@,
                width,
                height,
            },
            Action::Tick { cycles } => ActionView::Tick { cycles },
            Action::QuerySound => ActionView::QuerySound,
            Action::AppendTone => ActionView::AppendTone,
            Action::StopSink => ActionView::StopSink,
            Action::Exit => ActionView::Exit,
        }
    }
}

/// The presenter's answer to an event: the next action, or the fault that
/// ended the loop.
pub type Answer = Result<ActionView, Fault>;

/// The answer as a plain value.
pub open spec fn answer_view(answer: Result<Action, Fault>) -> Answer {
    match answer {
        Ok(action) => Ok(action@),
        Err(fault) => Err(fault),
    }
}

/// The loop's rule: the phase that follows and the answer to give, for an
/// event that comes in a phase.
///
/// An event that does not answer the action of the phase is a fault, and so
/// is a frame of the wrong length and a picture that the window did not
/// take. A fault ends the loop. A failed tick does not: the round goes on.
pub open spec fn transition(config: Config, phase: Phase, event: EventView) -> (Phase, Answer) {
    match (phase, event) {
        (Phase::AwaitInput, EventView::Input { open, exit_key, held }) => {
            if open && !exit_key {
                (Phase::AwaitKeysDelivered, Ok(ActionView::SetKeysMask(key_mask(held))))
            } else {
                (Phase::Stopped, Ok(ActionView::Exit))
            }
        },
        (Phase::AwaitKeysDelivered, EventView::Done) => (
            Phase::AwaitFrame,
            Ok(ActionView::FetchFrame),
        ),
        (Phase::AwaitFrame, EventView::Frame(bytes)) => {
            if bytes.len() == FRAME_BYTES {
                (
                    Phase::AwaitPresented,
                    Ok(
                        ActionView::Present {
                            pixels: config.picture(bytes),
                            width: config.window_width,
                            height: config.window_height,
                        },
                    ),
                )
            } else {
                (Phase::Stopped, Err(Fault::MalformedFrame))
            }
        },
        (Phase::AwaitPresented, EventView::Presented(ok)) => {
            if ok {
                (Phase::AwaitTicked, Ok(ActionView::Tick { cycles: 1 }))
            } else {
                (Phase::Stopped, Err(Fault::PresentFailed))
            }
        },
        (Phase::AwaitTicked, EventView::Ticked(_)) => (
            Phase::AwaitSound,
            Ok(ActionView::QuerySound),
        ),
        (Phase::AwaitSound, EventView::Sound(playing)) => (
            Phase::AwaitToneSwitched,
            Ok(
                if playing {
                    ActionView::AppendTone
                } else {
                    ActionView::StopSink
                },
            ),
        ),
        (Phase::AwaitToneSwitched, EventView::Done) => (
            Phase::AwaitInput,
            Ok(ActionView::PollInput),
        ),
        _ => (Phase::Stopped, Err(Fault::UnexpectedEvent)),
    }
}

/// The decisions of one frame loop.
pub struct Presenter {
    config: Config,
    scale: usize,
    phase: Phase,
}

impl Presenter {
    /// The presenter's invariant: the scale it keeps is the scale of its
    /// window, and the picture at that scale fits a buffer.
    #[verifier::type_invariant]
    spec fn well_formed(self) -> bool {
        &&& self.scale == self.config.scale()
        &&& self.config.fits()
    }

    /// The configuration that the presenter was started with.
    pub closed spec fn config(&self) -> Config {
        self.config
    }

    /// What the presenter waits for.
    pub closed spec fn phase(&self) -> Phase {
        self.phase
    }

    /// Starts a loop: the presenter, and the first action, which is to
    /// sample the input. There is none where the picture would not fit a
    /// buffer.
    pub fn start(config: Config) -> (started: Option<(Presenter, Action)>)
        ensures
            started is Some <==> config.fits(),
            started matches Some((presenter, action)) ==> {
                &&& presenter.config() == config
                &&& presenter.phase() == Phase::AwaitInput
                &&& action@ == ActionView::PollInput
            },
    {
        match config.checked_scale() {
            Some(scale) => Some(
                (Presenter { config, scale, phase: Phase::AwaitInput }, Action::PollInput),
            ),
            None => None,
        }
    }

    /// The configuration that the presenter was started with.
    pub fn configuration(&self) -> (config: Config)
        ensures
            config == self.config(),
    {
        self.config
    }

    /// What the presenter waits for.
    pub fn current_phase(&self) -> (phase: Phase)
        ensures
            phase == self.phase(),
    {
        self.phase
    }

    /// The magnification factor of the presenter's window.
    pub fn scale(&self) -> (scale: usize)
        ensures
            scale == self.config().scale(),
            self.config().fits(),
    {
        proof {
            use_type_invariant(self);
        }
        self.scale
    }

    /// The picture of a packed frame in the presenter's window.
    pub fn render(&self, frame: &[u8]) -> (pixels: Vec<u32>)
        requires
            frame@.len() == FRAME_BYTES,
        ensures
            pixels@ == self.config().picture(frame@),
    {
        proof {
            use_type_invariant(self);
            lemma_machine_frame_shape(frame@);
        }
        expand(frame, self.scale, SOURCE_WIDTH, self.config.palette)
    }

    /// Takes the event that the last action gave and decides what the loop
    /// does next, as [`transition`] says.
    pub fn step(&mut self, event: Event) -> (answer: Result<Action, Fault>)
        ensures
            final(self).config() == old(self).config(),
            final(self).phase() == transition(old(self).config(), old(self).phase(), event@).0,
            answer_view(answer) == transition(old(self).config(), old(self).phase(), event@).1,
    {
        proof {
            use_type_invariant(&*self);
        }
        let (next, answer): (Phase, Result<Action, Fault>) = match event {
            Event::Input { open, exit_key, held } => match self.phase {
                Phase::AwaitInput => {
                    if open && !exit_key {
                        (
                            Phase::AwaitKeysDelivered,
                            Ok(Action::SetKeysMask(sample_keys(held.as_slice()))),
                        )
                    } else {
                        (Phase::Stopped, Ok(Action::Exit))
                    }
                },
                _ => (Phase::Stopped, Err(Fault::UnexpectedEvent)),
            },
            Event::Done => match self.phase {
                Phase::AwaitKeysDelivered => (Phase::AwaitFrame, Ok(Action::FetchFrame)),
                Phase::AwaitToneSwitched => (Phase::AwaitInput, Ok(Action::PollInput)),
                _ => (Phase::Stopped, Err(Fault::UnexpectedEvent)),
            },
            Event::Frame(bytes) => match self.phase {
                Phase::AwaitFrame => {
                    if bytes.len() == FRAME_BYTES {
                        (
                            Phase::AwaitPresented,
                            Ok(
                                Action::Present {
                                    pixels: self.render(bytes.as_slice()),
                                    width: self.config.window_width,
                                    height: self.config.window_height,
                                },
                            ),
                        )
                    } else {
                        (Phase::Stopped, Err(Fault::MalformedFrame))
                    }
                },
                _ => (Phase::Stopped, Err(Fault::UnexpectedEvent)),
            },
            Event::Presented(ok) => match self.phase {
                Phase::AwaitPresented => {
                    if ok {
                        (Phase::AwaitTicked, Ok(Action::Tick { cycles: 1 }))
                    } else {
                        (Phase::Stopped, Err(Fault::PresentFailed))
                    }
                },
                _ => (Phase::Stopped, Err(Fault::UnexpectedEvent)),
            },
            Event::Ticked(_) => match self.phase {
                Phase::AwaitTicked => (Phase::AwaitSound, Ok(Action::QuerySound)),
                _ => (Phase::Stopped, Err(Fault::UnexpectedEvent)),
            },
            Event::Sound(playing) => match self.phase {
                Phase::AwaitSound => {
                    if playing {
                        (Phase::AwaitToneSwitched, Ok(Action::AppendTone))
                    } else {
                        (Phase::AwaitToneSwitched, Ok(Action::StopSink))
                    }
                },
                _ => (Phase::Stopped, Err(Fault::UnexpectedEvent)),
            },
        };
        self.phase = next;
        answer
    }
}

/// The phase reached and the answers given when the events come one after
/// another, the first in `phase`.
pub open spec fn run(config: Config, phase: Phase, events: Seq<EventView>) -> (Phase, Seq<Answer>)
    decreases events.len(),
{
    if events.len() == 0 {
        (phase, Seq::empty())
    } else {
        let (reached, answers) = run(config, phase, events.drop_last());
        let (next, answer) = transition(config, reached, events.last());
        (next, answers.push(answer))
    }
}

/// The tone follows the machine's sound flag in the frame in which the flag
/// was read: the answer to a raised flag is to append the tone, the answer
/// to a lowered flag is to stop the sink.
pub proof fn lemma_tone_follows_flag(config: Config, playing: bool)
    ensures
        transition(config, Phase::AwaitSound, EventView::Sound(playing)).1 == Ok::<
            ActionView,
            Fault,
        >(
            if playing {
                ActionView::AppendTone
            } else {
                ActionView::StopSink
            },
        ),
        transition(config, Phase::AwaitSound, EventView::Sound(playing)).0
            == Phase::AwaitToneSwitched,
{
}

/// The sound flag is asked for after every tick, whether the tick succeeded
/// or not.
pub proof fn lemma_failed_tick_goes_on(config: Config, ok: bool)
    ensures
        transition(config, Phase::AwaitTicked, EventView::Ticked(ok)) == (
            Phase::AwaitSound,
            Ok::<ActionView, Fault>(ActionView::QuerySound),
        ),
{
}

/// A tick comes last of four: whenever the presenter asks for a tick, its
/// three answers before that were, in this order, to deliver the mask of the
/// keys that the input just sampled holds, to fetch the machine's frame, and
/// to present the picture of the frame that was fetched. So the machine
/// steps on the input sampled before the step, and the picture shown is of
/// the frame as it was before the step.
pub proof fn lemma_tick_comes_last(
    config: Config,
    phase: Phase,
    first: EventView,
    second: EventView,
    third: EventView,
    fourth: EventView,
)
    requires
        run(config, phase, seq![first, second, third, fourth]).1[3] is Ok,
        run(config, phase, seq![first, second, third, fourth]).1[3]->Ok_0 is Tick,
    ensures
        phase == Phase::AwaitInput,
        first matches EventView::Input { open, exit_key, held } && open && !exit_key && run(
            config,
            phase,
            seq![first, second, third, fourth],
        ).1[0] == Ok::<ActionView, Fault>(ActionView::SetKeysMask(key_mask(held))),
        run(config, phase, seq![first, second, third, fourth]).1[1] == Ok::<ActionView, Fault>(
            ActionView::FetchFrame,
        ),
        third matches EventView::Frame(bytes) && bytes.len() == FRAME_BYTES && run(
            config,
            phase,
            seq![first, second, third, fourth],
        ).1[2] == Ok::<ActionView, Fault>(
            ActionView::Present {
                pixels: config.picture(bytes),
                width: config.window_width,
                height: config.window_height,
            },
        ),
        run(config, phase, seq![first, second, third, fourth]).1[3] == Ok::<ActionView, Fault>(
            ActionView::Tick { cycles: 1 },
        ),
{
    let events: Seq<EventView> = seq![first, second, third, fourth];
    lemma_run_unfolds(config, phase, events, 4);
    lemma_run_unfolds(config, phase, events, 3);
    lemma_run_unfolds(config, phase, events, 2);
    lemma_run_unfolds(config, phase, events, 1);
    assert(events.take(4) =~= events);
    assert(events.take(0) =~= Seq::<EventView>::empty());
}

/// The run over the first `n` events is the run over the first `n - 1` and
/// one transition more.
proof fn lemma_run_unfolds(config: Config, phase: Phase, events: Seq<EventView>, n: int)
    requires
        0 < n <= events.len(),
    ensures
        run(config, phase, events.take(n)) == ({
            let (reached, answers) = run(config, phase, events.take(n - 1));
            let (next, answer) = transition(config, reached, events[n - 1]);
            (next, answers.push(answer))
        }),
        run(config, phase, events.take(n - 1)).1.len() == n - 1 ==> run(
            config,
            phase,
            events.take(n),
        ).1.len() == n,
{
    assert(events.take(n).drop_last() =~= events.take(n - 1));
    assert(events.take(n).last() == events[n - 1]);
}

/// One frame, from the input to the next request for input: the seven
/// answers of a round in which the window stays open and takes the picture.
/// The round ends where it began, so every frame runs in this order.
pub proof fn lemma_frame_order(
    config: Config,
    held: Seq<PhysicalKey>,
    frame: Seq<u8>,
    ticked: bool,
    playing: bool,
)
    requires
        frame.len() == FRAME_BYTES,
    ensures
        run(
            config,
            Phase::AwaitInput,
            seq![
                EventView::Input { open: true, exit_key: false, held },
                EventView::Done,
                EventView::Frame(frame),
                EventView::Presented(true),
                EventView::Ticked(ticked),
                EventView::Sound(playing),
                EventView::Done,
            ],
        ) == (
            Phase::AwaitInput,
            seq![
                Ok::<ActionView, Fault>(ActionView::SetKeysMask(key_mask(held))),
                Ok::<ActionView, Fault>(ActionView::FetchFrame),
                Ok::<ActionView, Fault>(
                    ActionView::Present {
                        pixels: config.picture(frame),
                        width: config.window_width,
                        height: config.window_height,
                    },
                ),
                Ok::<ActionView, Fault>(ActionView::Tick { cycles: 1 }),
                Ok::<ActionView, Fault>(ActionView::QuerySound),
                Ok::<ActionView, Fault>(
                    if playing {
                        ActionView::AppendTone
                    } else {
                        ActionView::StopSink
                    },
                ),
                Ok::<ActionView, Fault>(ActionView::PollInput),
            ],
        ),
{
    let events: Seq<EventView> = seq![
        EventView::Input { open: true, exit_key: false, held },
        EventView::Done,
        EventView::Frame(frame),
        EventView::Presented(true),
        EventView::Ticked(ticked),
        EventView::Sound(playing),
        EventView::Done,
    ];
    assert(events.take(0) =~= Seq::<EventView>::empty());
    lemma_run_unfolds(config, Phase::AwaitInput, events, 1);
    lemma_run_unfolds(config, Phase::AwaitInput, events, 2);
    lemma_run_unfolds(config, Phase::AwaitInput, events, 3);
    lemma_run_unfolds(config, Phase::AwaitInput, events, 4);
    lemma_run_unfolds(config, Phase::AwaitInput, events, 5);
    lemma_run_unfolds(config, Phase::AwaitInput, events, 6);
    lemma_run_unfolds(config, Phase::AwaitInput, events, 7);
    assert(events.take(7) =~= events);
    let answers: Seq<Answer> = run(config, Phase::AwaitInput, events).1;
    assert(answers =~= seq![
        Ok::<ActionView, Fault>(ActionView::SetKeysMask(key_mask(held))),
        Ok::<ActionView, Fault>(ActionView::FetchFrame),
        Ok::<ActionView, Fault>(
            ActionView::Present {
                pixels: config.picture(frame),
                width: config.window_width,
                height: config.window_height,
            },
        ),
        Ok::<ActionView, Fault>(ActionView::Tick { cycles: 1 }),
        Ok::<ActionView, Fault>(ActionView::QuerySound),
        Ok::<ActionView, Fault>(
            if playing {
                ActionView::AppendTone
            } else {
                ActionView::StopSink
            },
        ),
        Ok::<ActionView, Fault>(ActionView::PollInput),
    ]);
}

/// The loop ends when the window is closed or the exit key is held, and on
/// nothing else that the input holds.
pub proof fn lemma_exit_on_request(
    config: Config,
    open: bool,
    exit_key: bool,
    held: Seq<PhysicalKey>,
)
    ensures
        transition(config, Phase::AwaitInput, EventView::Input { open, exit_key, held }).1
            == Ok::<ActionView, Fault>(ActionView::Exit) <==> !open || exit_key,
{
}

/// Once the loop has ended, it stays ended: every event is a fault.
pub proof fn lemma_stopped_stays(config: Config, event: EventView)
    ensures
        transition(config, Phase::Stopped, event) == (
            Phase::Stopped,
            Err::<ActionView, Fault>(Fault::UnexpectedEvent),
        ),
{
}

} // verus!
