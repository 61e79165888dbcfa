//! The terminal session: which parts of the terminal the picker holds, in
//! which order it takes them, and in which order it gives them back.

use vstd::prelude::*;

verus! {

/// One change of the terminal's mode.
#[derive(Clone, Copy, Debug, PartialEq, Eq, Structural)]
pub enum SessionStep {
    EnterRawMode,
    EnterAlternateScreen,
    HideCursor,
    ShowCursor,
    LeaveAlternateScreen,
    LeaveRawMode,
}

/// What the picker holds of the terminal.
#[derive(Clone, Copy, Debug, PartialEq, Eq, Structural)]
pub struct TerminalSession {
    pub raw_mode: bool,
    pub alternate_screen: bool,
    pub cursor_hidden: bool,
}

impl TerminalSession {
    /// Nothing is held.
    pub open spec fn is_released(self) -> bool {
        !self.raw_mode && !self.alternate_screen && !self.cursor_hidden
    }

    /// Everything is held.
    pub open spec fn is_acquired(self) -> bool {
        self.raw_mode && self.alternate_screen && self.cursor_hidden
    }

    /// The next step of taking the terminal: raw mode first, then the
    /// alternate screen, then hiding the cursor.
    pub open spec fn next_setup_spec(self) -> Option<SessionStep> {
        if !self.raw_mode {
            Some(SessionStep::EnterRawMode)
        } else if !self.alternate_screen {
            Some(SessionStep::EnterAlternateScreen)
        } else if !self.cursor_hidden {
            Some(SessionStep::HideCursor)
        } else {
            None
        }
    }

    /// The next step of giving the terminal back, in the reverse order.
    pub open spec fn next_release_spec(self) -> Option<SessionStep> {
        if self.cursor_hidden {
            Some(SessionStep::ShowCursor)
        } else if self.alternate_screen {
            Some(SessionStep::LeaveAlternateScreen)
        } else if self.raw_mode {
            Some(SessionStep::LeaveRawMode)
        } else {
            None
        }
    }

    /// The session after `step` has taken effect.
    pub open spec fn after(self, step: SessionStep) -> TerminalSession {
        match step {
            SessionStep::EnterRawMode => TerminalSession { raw_mode: true, ..self },
            SessionStep::EnterAlternateScreen => TerminalSession { alternate_screen: true, ..self },
            SessionStep::HideCursor => TerminalSession { cursor_hidden: true, ..self },
            SessionStep::ShowCursor => TerminalSession { cursor_hidden: false, ..self },
            SessionStep::LeaveAlternateScreen => TerminalSession {
                alternate_screen: false,
                ..self
            },
            SessionStep::LeaveRawMode => TerminalSession { raw_mode: false, ..self },
        }
    }

    /// All the steps that give back what is held, in order.
    pub open spec fn release_plan(self) -> Seq<SessionStep> {
        (if self.cursor_hidden {
            seq![SessionStep::ShowCursor]
        } else {
            Seq::empty()
        }) + (if self.alternate_screen {
            seq![SessionStep::LeaveAlternateScreen]
        } else {
            Seq::empty()
        }) + (if self.raw_mode {
            seq![SessionStep::LeaveRawMode]
        } else {
            Seq::empty()
        })
    }

    /// The session after a run of steps.
    pub open spec fn after_all(self, steps: Seq<SessionStep>) -> TerminalSession
        decreases steps.len(),
    {
        if steps.len() == 0 {
            self
        } else {
            self.after_all(steps.drop_last()).after(steps.last())
        }
    }

    /// A session that holds nothing.
    pub fn new() -> (session: TerminalSession)
        ensures
            session.is_released(),
    {
        TerminalSession { raw_mode: false, alternate_screen: false, cursor_hidden: false }
    }

    /// The next step of taking the terminal, or `None` when all is held.
    pub fn next_setup(&self) -> (step: Option<SessionStep>)
        ensures
            step == self.next_setup_spec(),
            step is None <==> self.is_acquired(),
    {
        if !self.raw_mode {
            Some(SessionStep::EnterRawMode)
        } else if !self.alternate_screen {
            Some(SessionStep::EnterAlternateScreen)
        } else if !self.cursor_hidden {
            Some(SessionStep::HideCursor)
        } else {
            None
        }
    }

    /// The next step of giving the terminal back, or `None` when nothing is
    /// held any more.
    pub fn next_release(&self) -> (step: Option<SessionStep>)
        ensures
            step == self.next_release_spec(),
            step is None <==> self.is_released(),
    {
        if self.cursor_hidden {
            Some(SessionStep::ShowCursor)
        } else if self.alternate_screen {
            Some(SessionStep::LeaveAlternateScreen)
        } else if self.raw_mode {
            Some(SessionStep::LeaveRawMode)
        } else {
            None
        }
    }

    /// Records that `step` has taken effect.
    pub fn record(&mut self, step: SessionStep)
        ensures
            *final(self) == old(self).after(step),
    {
        match step {
            SessionStep::EnterRawMode => {
                self.raw_mode = true;
            },
            SessionStep::EnterAlternateScreen => {
                self.alternate_screen = true;
            },
            SessionStep::HideCursor => {
                self.cursor_hidden = true;
            },
            SessionStep::ShowCursor => {
                self.cursor_hidden = false;
            },
            SessionStep::LeaveAlternateScreen => {
                self.alternate_screen = false;
            },
            SessionStep::LeaveRawMode => {
                self.raw_mode = false;
            },
        }
    }

    /// All the steps that give back what is held, in order.
    pub fn release_steps(&self) -> (steps: Vec<SessionStep>)
        ensures
            steps@ == self.release_plan(),
    {
        let mut steps: Vec<SessionStep> = Vec::new();
        if self.cursor_hidden {
            steps.push(SessionStep::ShowCursor);
        }
        if self.alternate_screen {
            steps.push(SessionStep::LeaveAlternateScreen);
        }
        if self.raw_mode {
            steps.push(SessionStep::LeaveRawMode);
        }
        assert(steps@ =~= self.release_plan());
        steps
    }
}

/// Giving back step by step follows the release plan: the next step is the
/// plan's first, and the rest of the plan is the plan of what is then held.
pub proof fn lemma_release_follows_plan(session: TerminalSession)
    ensures
        match session.next_release_spec() {
            Some(step) => session.release_plan() == seq![step] + session.after(
                step,
            ).release_plan(),
            None => session.release_plan() == Seq::<SessionStep>::empty(),
        },
{
    match session.next_release_spec() {
        Some(step) => {
            assert(session.release_plan() =~= seq![step] + session.after(step).release_plan());
        },
        None => {
            assert(session.release_plan() =~= Seq::<SessionStep>::empty());
        },
    }
}

/// The release plan gives back everything that is held, each part once, and
/// has no step for a part that is not held.
pub proof fn lemma_release_plan_releases(session: TerminalSession)
    ensures
        session.after_all(session.release_plan()).is_released(),
        session.release_plan().len() <= 3,
        session.release_plan().contains(SessionStep::ShowCursor) == session.cursor_hidden,
        session.release_plan().contains(SessionStep::LeaveAlternateScreen)
            == session.alternate_screen,
        session.release_plan().contains(SessionStep::LeaveRawMode) == session.raw_mode,
        session.release_plan().no_duplicates(),
{
    let plan = session.release_plan();
    reveal_with_fuel(TerminalSession::after_all, 4);
    let show: Seq<SessionStep> = if session.cursor_hidden {
        seq![SessionStep::ShowCursor]
    } else {
        Seq::empty()
    };
    let leave: Seq<SessionStep> = if session.alternate_screen {
        seq![SessionStep::LeaveAlternateScreen]
    } else {
        Seq::empty()
    };
    let cooked: Seq<SessionStep> = if session.raw_mode {
        seq![SessionStep::LeaveRawMode]
    } else {
        Seq::empty()
    };
    assert(plan == show + leave + cooked);
    if session.cursor_hidden {
        assert(plan[0] == SessionStep::ShowCursor);
    }
    if session.alternate_screen {
        assert(plan[show.len() as int] == SessionStep::LeaveAlternateScreen);
    }
    if session.raw_mode {
        assert(plan[(show.len() + leave.len()) as int] == SessionStep::LeaveRawMode);
    }
    if plan.len() == 1 {
        assert(plan.drop_last() =~= Seq::empty());
    } else if plan.len() == 2 {
        assert(plan.drop_last() =~= seq![plan[0]]);
        assert(plan.drop_last().drop_last() =~= Seq::empty());
    } else if plan.len() == 3 {
        assert(plan.drop_last() =~= seq![plan[0], plan[1]]);
        assert(plan.drop_last().drop_last() =~= seq![plan[0]]);
        assert(plan.drop_last().drop_last().drop_last() =~= Seq::empty());
    }
}

} // verus!
