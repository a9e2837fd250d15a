//! The machine itself, as far as the presentation touches it: its frame, its
//! keys and its sound flag.
//!
//! The machine is `chip8sys::chip8::Chip8Sys`. Nothing inside it is visible
//! to the verifier, so what its frame, its keys and its sound flag are is
//! given a name each, and what its three accessors do is stated over those
//! names and believed. Everything else here is proved from that.
//!
//! A tick of the machine is not among them: on some states of the machine,
//! which cannot be described from outside, a tick stops the program. So
//! whoever runs the loop makes that call.

use vstd::prelude::*;
use vstd::slice::slice_to_vec;
use chip8sys::chip8::Chip8Sys;
use crate::cadence::Action;
use crate::cadence::ActionView;
use crate::cadence::Answer;
use crate::cadence::Event;
use crate::cadence::EventView;
use crate::cadence::Fault;
use crate::cadence::Phase;
use crate::cadence::Presenter;
use crate::cadence::answer_view;
use crate::cadence::transition;
use crate::config::Config;
use crate::config::FRAME_BYTES;
use crate::config::HEIGHT;
use crate::config::PIXEL_COLOR_OFF;
use crate::config::PIXEL_COLOR_ON;
use crate::config::SOURCE_HEIGHT;
use crate::config::SOURCE_WIDTH;
use crate::config::WIDTH;
use crate::config::lemma_exact_cover;
use crate::config::lemma_machine_frame_shape;
use crate::config::lemma_standard_window;
use crate::keypad::PhysicalKey;
use crate::keypad::key_mask;
use crate::keypad::sample_keys;
use crate::raster::Palette;
use crate::raster::expand;
use crate::raster::expansion;
use crate::scale::compute_scale;

verus! {

/// The machine, `chip8sys::chip8::Chip8Sys`.
#[verifier::external_type_specification]
#[verifier::external_body]
pub struct ExChip8Sys(Chip8Sys);

/// The packed frame that a machine holds: what
/// `Chip8Sys::framebuffer_packed` returns.
pub uninterp spec fn machine_frame(machine: Chip8Sys) -> Seq<u8>;

/// The key mask that a machine holds, bit `i` set where the machine takes
/// its key `i` to be down: what `Chip8Sys::keys_mask` returns.
pub uninterp spec fn machine_keys(machine: Chip8Sys) -> u16;

/// Whether a machine's sound is playing: what `Chip8Sys::is_sound_playing`
/// returns.
pub uninterp spec fn machine_sound(machine: Chip8Sys) -> bool;

/// `Chip8Sys::framebuffer_packed`: a view of the frame that the machine
/// holds. The frame is an array of 256 bytes inside the machine, and the
/// method returns it whole and changes nothing. This is believed, not
/// proved.
#[verifier::external_body]
fn packed_frame(machine: &Chip8Sys) -> (frame: &[u8])
    ensures
        frame@ == machine_frame(*machine),
        frame@.len() == FRAME_BYTES,
{
    machine.framebuffer_packed()
}

/// `Chip8Sys::set_keys_mask`: sets each of the machine's sixteen keys from
/// its bit of the mask, so that the mask the machine then holds is the one
/// given. It writes the keys and nothing else: the frame and the sound flag
/// stay. This is believed, not proved.
#[verifier::external_body]
fn deliver_keys(machine: &mut Chip8Sys, mask: u16)
    ensures
        machine_keys(*final(machine)) == mask,
        machine_frame(*final(machine)) == machine_frame(*old(machine)),
        machine_sound(*final(machine)) == machine_sound(*old(machine)),
{
    machine.set_keys_mask(mask);
}

/// `Chip8Sys::is_sound_playing`: the machine's sound flag, read and not
/// changed. This is believed, not proved.
#[verifier::external_body]
fn sound_flag(machine: &Chip8Sys) -> (playing: bool)
    ensures
        playing == machine_sound(*machine),
{
    machine.is_sound_playing()
}

/// Folds the held keys of the keyboard into the key mask and hands the mask
/// to the machine. The machine's frame and sound flag stay as they were.
pub fn check_key_input(chip8: &mut Chip8Sys, held: &[PhysicalKey])
    ensures
        machine_keys(*final(chip8)) == key_mask(held@),
        machine_frame(*final(chip8)) == machine_frame(*old(chip8)),
        machine_sound(*final(chip8)) == machine_sound(*old(chip8)),
{
    deliver_keys(chip8, sample_keys(held));
}

/// The machine's frame as the default window shows it: magnified twenty
/// times in the default colours, one pixel of the picture for each pixel of
/// the window.
pub fn display_buffer(chip8: &Chip8Sys) -> (pixels: Vec<u32>)
    ensures
        pixels@ == Config::standard().picture(machine_frame(*chip8)),
        pixels@ == expansion(
            machine_frame(*chip8),
            20,
            SOURCE_WIDTH as nat,
            Palette { on: PIXEL_COLOR_ON, off: PIXEL_COLOR_OFF },
        ),
        pixels@.len() == WIDTH * HEIGHT,
{
    let frame: &[u8] = packed_frame(chip8);
    let scale: usize = compute_scale(WIDTH, HEIGHT, SOURCE_WIDTH, SOURCE_HEIGHT).unwrap();
    proof {
        lemma_standard_window();
        lemma_machine_frame_shape(frame@);
        lemma_exact_cover(Config::standard(), 20, frame@);
    }
    expand(frame, scale, SOURCE_WIDTH, Palette { on: PIXEL_COLOR_ON, off: PIXEL_COLOR_OFF })
}

/// What performing an action on a machine gives and does to it, where the
/// action is one of the three that only touch the machine: to deliver the
/// key mask, to fetch the frame, and to ask for the sound flag.
pub open spec fn performed(
    before: Chip8Sys,
    action: ActionView,
    event: EventView,
    after: Chip8Sys,
) -> bool {
    match action {
        ActionView::SetKeysMask(mask) => {
            &&& event == EventView::Done
            &&& machine_keys(after) == mask
            &&& machine_frame(after) == machine_frame(before)
            &&& machine_sound(after) == machine_sound(before)
        },
        ActionView::FetchFrame => {
            &&& event == EventView::Frame(machine_frame(before))
            &&& machine_frame(before).len() == FRAME_BYTES
            &&& after == before
        },
        ActionView::QuerySound => {
            &&& event == EventView::Sound(machine_sound(before))
            &&& after == before
        },
        _ => false,
    }
}

/// Whether an action touches the machine alone, so that [`perform`]
/// performs it.
pub open spec fn for_machine(action: ActionView) -> bool {
    action is SetKeysMask || action is FetchFrame || action is QuerySound
}

/// Performs an action on the machine where the action touches the machine
/// alone, and gives back the event for the presenter. Every other action is
/// left to the caller, and the machine as it was.
pub fn perform(chip8: &mut Chip8Sys, action: &Action) -> (event: Option<Event>)
    ensures
        event is Some <==> for_machine(action@),
        event matches Some(given) ==> performed(*old(chip8), action@, given@, *final(chip8)),
        event is None ==> *final(chip8) == *old(chip8),
{
    match action {
        Action::SetKeysMask(mask) => {
            deliver_keys(chip8, *mask);
            Some(Event::Done)
        },
        Action::FetchFrame => {
            let frame: &[u8] = packed_frame(chip8);
            Some(Event::Frame(slice_to_vec(frame)))
        },
        Action::QuerySound => Some(Event::Sound(sound_flag(chip8))),
        _ => None,
    }
}

/// What [`advance`] makes of an event: where the presenter's first answer
/// is an action on the machine, the action is performed, and so is the next
/// if that touches the machine too, until the presenter asks for something
/// that the machine cannot give.
///
/// So an input that does not end the loop has the mask of its held keys
/// delivered and is answered by the picture of the frame that the machine
/// holds, which the delivery of the keys left as it was; and a tick is
/// answered by the tone action that the machine's sound flag calls for.
pub open spec fn advanced(
    config: Config,
    phase: Phase,
    event: EventView,
    before: Chip8Sys,
    reached: Phase,
    answer: Answer,
    after: Chip8Sys,
) -> bool {
    let (next, first) = transition(config, phase, event);
    let present = Ok::<ActionView, Fault>(
        ActionView::Present {
            pixels: config.picture(machine_frame(before)),
            width: config.window_width,
            height: config.window_height,
        },
    );
    match first {
        Ok(ActionView::SetKeysMask(mask)) => {
            &&& machine_keys(after) == mask
            &&& machine_frame(after) == machine_frame(before)
            &&& machine_sound(after) == machine_sound(before)
            &&& reached == Phase::AwaitPresented
            &&& answer == present
        },
        Ok(ActionView::FetchFrame) => {
            &&& after == before
            &&& reached == Phase::AwaitPresented
            &&& answer == present
        },
        Ok(ActionView::QuerySound) => {
            &&& after == before
            &&& reached == Phase::AwaitToneSwitched
            &&& answer == Ok::<ActionView, Fault>(
                if machine_sound(before) {
                    ActionView::AppendTone
                } else {
                    ActionView::StopSink
                },
            )
        },
        _ => {
            &&& after == before
            &&& reached == next
            &&& answer == first
        },
    }
}

/// Takes an event as [`Presenter::step`] does, performs on the machine what
/// the presenter then asks of the machine, and gives back the first action
/// that is not the machine's: to sample the input, to present a picture, to
/// tick, to switch the tone, or to leave.
pub fn advance(presenter: &mut Presenter, chip8: &mut Chip8Sys, event: Event) -> (answer: Result<
    Action,
    Fault,
>)
    ensures
        final(presenter).config() == old(presenter).config(),
        answer matches Ok(action) ==> !for_machine(action@),
        advanced(
            old(presenter).config(),
            old(presenter).phase(),
            event@,
            *old(chip8),
            final(presenter).phase(),
            answer_view(answer),
            *final(chip8),
        ),
{
    let first: Action = match presenter.step(event) {
        Ok(action) => action,
        Err(fault) => {
            return Err(fault);
        },
    };
    let given: Event = match perform(chip8, &first) {
        Some(given) => given,
        None => {
            return Ok(first);
        },
    };
    let second: Action = match presenter.step(given) {
        Ok(action) => action,
        Err(fault) => {
            return Err(fault);
        },
    };
    let given: Event = match perform(chip8, &second) {
        Some(given) => given,
        None => {
            return Ok(second);
        },
    };
    presenter.step(given)
}

} // verus!
