//! One run of the picker as a dialogue with a front end: the driver names the
//! next thing to do to the terminal, the front end does it and reports back.
//! The driver takes the terminal before the first frame, gives back everything
//! it holds on every way out, and only then hands out the result.

use vstd::prelude::*;
use crate::controller::{
    indices, initial_state, next_state, repaint_for, result_spec, Phase, Picker, PickerView,
    Repaint,
};
use crate::engine::texts;
use crate::input::{decode, decode_spec, RawKey};
use crate::render::{repaint, repaint_spec, Paint, TerminalGeometry};
use crate::session::{SessionStep, TerminalSession};

verus! {

/// Why a run of the picker failed.
#[derive(Clone, Copy, Debug, PartialEq, Eq, Structural)]
pub enum PickError {
    /// The terminal could not be taken or measured; nothing was painted.
    TerminalSetup,
    /// Writing to the terminal failed.
    Render,
    /// Reading from the terminal failed. A malformed key sequence is no
    /// failure: it is skipped.
    Input,
}

/// Where a run stands.
#[derive(Clone, Copy, Debug, PartialEq, Eq, Structural)]
pub enum Stage {
    /// Taking the terminal, step by step.
    Acquiring,
    /// Waiting for the terminal's size.
    Sizing,
    /// Waiting for a frame, or a part of one, to be painted.
    Painting,
    /// Waiting for a key press.
    Reading,
    /// Giving the terminal back, step by step.
    Releasing,
    /// Nothing is held any more; the result is out.
    Finished,
}

/// What the front end reports.
#[derive(Clone, Copy, Debug)]
pub enum Reply {
    /// The command was carried out.
    Done,
    /// The command could not be carried out.
    Failed,
    /// The terminal's size.
    Size(TerminalGeometry),
    /// A key press.
    Pressed(RawKey),
    /// Bytes that are no key press; they were thrown away.
    Noise,
}

/// What the front end is to do next.
#[derive(Debug, PartialEq, Eq)]
pub enum Command {
    /// Change the terminal's mode.
    Session(SessionStep),
    /// Report the terminal's size.
    QueryGeometry,
    /// Paint these, in order.
    Paint(Vec<Paint>),
    /// Block until a key is pressed and report it.
    ReadKey,
    /// Stop: this is the outcome of the run.
    Return(Result<Vec<usize>, PickError>),
}

/// The mathematical value of a [`Command`].
pub ghost enum CommandView {
    Session(SessionStep),
    QueryGeometry,
    Paint(Seq<Paint>),
    ReadKey,
    Return(Result<Seq<int>, PickError>),
}

impl View for Command {
    type V = CommandView;

    open spec fn view(&self) -> CommandView {
        match *self {
            Command::Session(step) => CommandView::Session(step),
            Command::QueryGeometry => CommandView::QueryGeometry,
            Command::Paint(paints) => CommandView::Paint(paints@),
            Command::ReadKey => CommandView::ReadKey,
            Command::Return(Ok(chosen)) => CommandView::Return(Ok(indices(chosen@))),
            Command::Return(Err(error)) => CommandView::Return(Err(error)),
        }
    }
}

/// The driver's own state, beside the picker's.
#[derive(Clone, Copy, Debug)]
pub struct Control {
    /// What is held of the terminal.
    pub session: TerminalSession,
    pub stage: Stage,
    /// The terminal's size, once it is known.
    pub geometry: TerminalGeometry,
    /// What is being painted.
    pub pending: Repaint,
    /// The failure that ended the run, if one did.
    pub failure: Option<PickError>,
}

impl Control {
    /// The stage fits what is held: the terminal is used only while all of it
    /// is held, and the run has finished only when nothing is.
    pub open spec fn is_sound(self) -> bool {
        match self.stage {
            Stage::Acquiring => !self.session.is_acquired() && self.failure is None,
            Stage::Sizing | Stage::Painting | Stage::Reading => self.session.is_acquired()
                && self.failure is None,
            Stage::Releasing => !self.session.is_released(),
            Stage::Finished => self.session.is_released(),
        }
    }
}

/// The mathematical value of a [`Driver`].
pub ghost struct DriverView {
    pub picker: PickerView,
    pub control: Control,
}

/// Leaving the dialogue: what is held is given back first.
pub open spec fn wind_down(c: Control) -> Control {
    Control {
        stage: if c.session.is_released() {
            Stage::Finished
        } else {
            Stage::Releasing
        },
        ..c
    }
}

/// Leaving the dialogue with a failure.
pub open spec fn fail(c: Control, error: PickError) -> Control {
    wind_down(Control { failure: Some(error), ..c })
}

/// The state in which a run over `candidates` starts: about to take the
/// terminal, or finished at once where there is nothing to choose from.
pub open spec fn initial_driver(candidates: Seq<Seq<char>>) -> DriverView {
    DriverView {
        picker: initial_state(candidates),
        control: Control {
            session: TerminalSession {
                raw_mode: false,
                alternate_screen: false,
                cursor_hidden: false,
            },
            stage: if candidates.len() == 0 {
                Stage::Finished
            } else {
                Stage::Acquiring
            },
            geometry: TerminalGeometry { width: 0, height: 0 },
            pending: Repaint::All,
            failure: None,
        },
    }
}

/// The state after a key event was handled while reading.
pub open spec fn after_key(d: DriverView, key: crate::controller::Key) -> DriverView {
    let picker = next_state(d.picker, key);
    let what = repaint_for(d.picker, key);
    if picker.phase != Phase::Editing {
        DriverView { picker, control: wind_down(d.control) }
    } else if what == Repaint::Nothing {
        DriverView { picker, control: d.control }
    } else {
        DriverView {
            picker,
            control: Control { pending: what, stage: Stage::Painting, ..d.control },
        }
    }
}

/// The state after the front end's reply.
pub open spec fn next_driver(d: DriverView, reply: Reply) -> DriverView {
    let c = d.control;
    match c.stage {
        Stage::Acquiring => match (reply, c.session.next_setup_spec()) {
            (Reply::Done, Some(step)) => DriverView {
                control: Control {
                    session: c.session.after(step),
                    stage: if c.session.after(step).is_acquired() {
                        Stage::Sizing
                    } else {
                        Stage::Acquiring
                    },
                    ..c
                },
                ..d
            },
            _ => DriverView { control: fail(c, PickError::TerminalSetup), ..d },
        },
        Stage::Sizing => match reply {
            Reply::Size(geometry) => DriverView {
                control: Control { geometry, pending: Repaint::All, stage: Stage::Painting, ..c },
                ..d
            },
            _ => DriverView { control: fail(c, PickError::TerminalSetup), ..d },
        },
        Stage::Painting => match reply {
            Reply::Done => DriverView { control: Control { stage: Stage::Reading, ..c }, ..d },
            _ => DriverView { control: fail(c, PickError::Render), ..d },
        },
        Stage::Reading => match reply {
            Reply::Pressed(raw) => match decode_spec(raw) {
                Some(key) => after_key(d, key),
                None => d,
            },
            Reply::Noise => d,
            _ => DriverView { control: fail(c, PickError::Input), ..d },
        },
        Stage::Releasing => match c.session.next_release_spec() {
            Some(step) => DriverView {
                control: wind_down(Control { session: c.session.after(step), ..c }),
                ..d
            },
            None => DriverView { control: wind_down(c), ..d },
        },
        Stage::Finished => d,
    }
}

/// The outcome of a run: the failure that ended it, or the picker's result.
pub open spec fn outcome(d: DriverView) -> Result<Seq<int>, PickError> {
    match d.control.failure {
        Some(error) => Err(error),
        None => Ok(result_spec(d.picker)),
    }
}

/// What the front end is to do in state `d`.
pub open spec fn command_for(d: DriverView) -> CommandView {
    let c = d.control;
    match c.stage {
        Stage::Acquiring => match c.session.next_setup_spec() {
            Some(step) => CommandView::Session(step),
            None => CommandView::QueryGeometry,
        },
        Stage::Sizing => CommandView::QueryGeometry,
        Stage::Painting => CommandView::Paint(
            repaint_spec(
                c.pending,
                d.picker.ranked(),
                d.picker.candidates.len() as int,
                d.picker.cursor,
                c.geometry,
            ),
        ),
        Stage::Reading => CommandView::ReadKey,
        Stage::Releasing => match c.session.next_release_spec() {
            Some(step) => CommandView::Session(step),
            None => CommandView::Return(outcome(d)),
        },
        Stage::Finished => CommandView::Return(outcome(d)),
    }
}

/// The state after a run of replies.
pub open spec fn after_replies(d: DriverView, replies: Seq<Reply>) -> DriverView
    decreases replies.len(),
{
    if replies.len() == 0 {
        d
    } else {
        next_driver(after_replies(d, replies.drop_last()), replies.last())
    }
}

/// A run starts sound, and with no candidates it is over before the terminal
/// is touched: the first command hands out the empty result.
pub proof fn lemma_start(candidates: Seq<Seq<char>>)
    ensures
        initial_driver(candidates).control.is_sound(),
        candidates.len() == 0 ==> command_for(initial_driver(candidates)) == CommandView::Return(
            Ok(Seq::<int>::empty()),
        ),
        candidates.len() > 0 ==> command_for(initial_driver(candidates)) == CommandView::Session(
            SessionStep::EnterRawMode,
        ),
{
}

/// No reply makes the stage and what is held disagree.
pub proof fn lemma_reply_keeps_soundness(d: DriverView, reply: Reply)
    requires
        d.control.is_sound(),
    ensures
        next_driver(d, reply).control.is_sound(),
{
}

/// The same, for any run of replies.
pub proof fn lemma_replies_keep_soundness(d: DriverView, replies: Seq<Reply>)
    requires
        d.control.is_sound(),
    ensures
        after_replies(d, replies).control.is_sound(),
    decreases replies.len(),
{
    if replies.len() > 0 {
        lemma_replies_keep_soundness(d, replies.drop_last());
        lemma_reply_keeps_soundness(after_replies(d, replies.drop_last()), replies.last());
    }
}

/// The result is handed out only when nothing of the terminal is held; the
/// terminal is measured, painted and read only while all of it is held; a part
/// is taken only while it is not held, and given back only while it is.
pub proof fn lemma_commands_fit_the_session(d: DriverView)
    requires
        d.control.is_sound(),
    ensures
        match command_for(d) {
            CommandView::Return(_) => d.control.session.is_released(),
            CommandView::QueryGeometry | CommandView::Paint(_) | CommandView::ReadKey =>
                d.control.session.is_acquired(),
            CommandView::Session(step) => d.control.session.after(step) != d.control.session
                && (d.control.stage == Stage::Acquiring ==> Some(step)
                == d.control.session.next_setup_spec()) && (d.control.stage == Stage::Releasing
                ==> Some(step) == d.control.session.next_release_spec()),
        },
{
}

/// Once the driver gives the terminal back it goes on doing so whatever the
/// front end replies, and after three replies at most it has finished.
pub proof fn lemma_release_finishes(d: DriverView, first: Reply, second: Reply, third: Reply)
    requires
        d.control.is_sound(),
        d.control.stage == Stage::Releasing,
    ensures
        next_driver(next_driver(next_driver(d, first), second), third).control.stage
            == Stage::Finished,
        next_driver(next_driver(next_driver(d, first), second), third).control.failure
            == d.control.failure,
        next_driver(next_driver(next_driver(d, first), second), third).picker == d.picker,
{
}

/// A finished run stays finished, with the same outcome.
pub proof fn lemma_finished_stays(d: DriverView, reply: Reply)
    requires
        d.control.stage == Stage::Finished,
    ensures
        next_driver(d, reply) == d,
{
}

/// A failure while the terminal is used ends the dialogue with that failure
/// as the outcome, and what is held is given back before it is handed out.
pub proof fn lemma_failure_winds_down(d: DriverView)
    requires
        d.control.is_sound(),
        d.control.stage != Stage::Releasing,
        d.control.stage != Stage::Finished,
    ensures
        next_driver(d, Reply::Failed).control.stage == Stage::Releasing || next_driver(
            d,
            Reply::Failed,
        ).control.stage == Stage::Finished,
        outcome(next_driver(d, Reply::Failed)) is Err,
        next_driver(d, Reply::Failed).control.session == d.control.session,
{
}

/// While keys are read, a key that ends the picker's editing starts the
/// release, and the outcome is then the picker's result.
pub proof fn lemma_last_key_winds_down(d: DriverView, raw: RawKey)
    requires
        d.control.is_sound(),
        d.control.stage == Stage::Reading,
        d.picker.phase == Phase::Editing,
        decode_spec(raw) is Some,
        decode_spec(raw).unwrap() is Enter || decode_spec(raw).unwrap() is Cancel,
    ensures
        next_driver(d, Reply::Pressed(raw)).control.stage == Stage::Releasing,
        outcome(next_driver(d, Reply::Pressed(raw))) == Ok::<Seq<int>, PickError>(
            result_spec(next_state(d.picker, decode_spec(raw).unwrap())),
        ),
{
}

fn wound_down(control: Control) -> (next: Control)
    ensures
        next == wind_down(control),
{
    let stage = if control.session.next_release().is_none() {
        Stage::Finished
    } else {
        Stage::Releasing
    };
    Control { stage, ..control }
}

fn failed(control: Control, error: PickError) -> (next: Control)
    ensures
        next == fail(control, error),
{
    wound_down(Control { failure: Some(error), ..control })
}

/// The driver of one picker run.
pub struct Driver<'a> {
    picker: Picker<'a>,
    control: Control,
}

impl<'a> View for Driver<'a> {
    type V = DriverView;

    closed spec fn view(&self) -> DriverView {
        DriverView { picker: self.picker@, control: self.control }
    }
}

impl<'a> Driver<'a> {
    /// A driver for one run over `selections`.
    pub fn new(selections: &'a Vec<String>) -> (driver: Self)
        ensures
            driver@ == initial_driver(texts(selections@)),
            driver@.control.is_sound(),
    {
        let stage = if selections.len() == 0 {
            Stage::Finished
        } else {
            Stage::Acquiring
        };
        Driver {
            picker: Picker::new(selections),
            control: Control {
                session: TerminalSession::new(),
                stage,
                geometry: TerminalGeometry { width: 0, height: 0 },
                pending: Repaint::All,
                failure: None,
            },
        }
    }

    /// The picker, with the term typed so far.
    pub fn picker(&self) -> (picker: &Picker<'a>)
        ensures
            picker@ == self@.picker,
    {
        &self.picker
    }

    /// The driver's own state.
    pub fn control(&self) -> (control: Control)
        ensures
            control == self@.control,
    {
        self.control
    }

    /// What the front end is to do now.
    pub fn command(&self) -> (command: Command)
        ensures
            command@ == command_for(self@),
    {
        let control = self.control;
        match control.stage {
            Stage::Acquiring => match control.session.next_setup() {
                Some(step) => Command::Session(step),
                None => Command::QueryGeometry,
            },
            Stage::Sizing => Command::QueryGeometry,
            Stage::Painting => Command::Paint(
                repaint(&self.picker, control.pending, control.geometry),
            ),
            Stage::Reading => Command::ReadKey,
            Stage::Releasing => match control.session.next_release() {
                Some(step) => Command::Session(step),
                None => self.outcome(),
            },
            Stage::Finished => self.outcome(),
        }
    }

    fn outcome(&self) -> (command: Command)
        ensures
            command@ == CommandView::Return(outcome(self@)),
    {
        match self.control.failure {
            Some(error) => Command::Return(Err(error)),
            None => Command::Return(Ok(self.picker.result())),
        }
    }

    /// Takes the front end's reply to the last command and says what it is to
    /// do next. A driver that is sound stays so.
    pub fn advance(&mut self, reply: Reply) -> (command: Command)
        ensures
            final(self)@ == next_driver(old(self)@, reply),
            command@ == command_for(final(self)@),
            old(self)@.control.is_sound() ==> final(self)@.control.is_sound(),
    {
        let control = self.control;
        match control.stage {
            Stage::Acquiring => match (reply, control.session.next_setup()) {
                (Reply::Done, Some(step)) => {
                    let mut session = control.session;
                    session.record(step);
                    let stage = if session.next_setup().is_none() {
                        Stage::Sizing
                    } else {
                        Stage::Acquiring
                    };
                    self.control = Control { session, stage, ..control };
                },
                _ => {
                    self.control = failed(control, PickError::TerminalSetup);
                },
            },
            Stage::Sizing => match reply {
                Reply::Size(geometry) => {
                    self.control =
                    Control { geometry, pending: Repaint::All, stage: Stage::Painting, ..control };
                },
                _ => {
                    self.control = failed(control, PickError::TerminalSetup);
                },
            },
            Stage::Painting => match reply {
                Reply::Done => {
                    self.control = Control { stage: Stage::Reading, ..control };
                },
                _ => {
                    self.control = failed(control, PickError::Render);
                },
            },
            Stage::Reading => match reply {
                Reply::Pressed(raw) => match decode(raw) {
                    Some(key) => {
                        let what = self.picker.step(key);
                        if self.picker.is_finished() {
                            self.control = wound_down(control);
                        } else {
                            match what {
                                Repaint::Nothing => {},
                                _ => {
                                    self.control =
                                    Control { pending: what, stage: Stage::Painting, ..control };
                                },
                            }
                        }
                    },
                    None => {},
                },
                Reply::Noise => {},
                _ => {
                    self.control = failed(control, PickError::Input);
                },
            },
            Stage::Releasing => match control.session.next_release() {
                Some(step) => {
                    let mut session = control.session;
                    session.record(step);
                    self.control = wound_down(Control { session, ..control });
                },
                None => {
                    self.control = wound_down(control);
                },
            },
            Stage::Finished => {},
        }
        self.command()
    }
}

} // verus!
