//! The life cycle of a terminal session.
//!
//! A session is a handle that says which terminal modes are switched on. It
//! decides; it does not touch the terminal. Each transition returns the
//! actions that its caller has to perform on the device, in order.

use vstd::prelude::*;

verus! {

#[derive(Clone, Copy, Debug, PartialEq, Eq, Structural)]
pub enum SessionState {
    Uninitialized,
    Active,
    Restored,
}

#[derive(Clone, Copy, Debug, PartialEq, Eq, Structural)]
pub struct SessionOptions {
    pub alternate_screen: bool,
    pub mouse_capture: bool,
}

#[derive(Clone, Copy, Debug, PartialEq, Eq, Structural)]
pub enum TermAction {
    EnableRawMode,
    EnterAlternateScreen,
    EnableMouseCapture,
    HideCursor,
    DisableMouseCapture,
    LeaveAlternateScreen,
    ShowCursor,
    DisableRawMode,
}

/// Why a session is left.
#[derive(Clone, Copy, Debug, PartialEq, Eq, Structural)]
pub enum ExitCause {
    Completed,
    Failed,
    Interrupted,
}

#[derive(Clone, Copy, Debug, PartialEq, Eq, Structural)]
pub enum SessionError {
    /// The session was started before: a fault of the caller.
    AlreadyStarted,
    /// The device refused a mode switch.
    Environment,
}

#[derive(Clone, Copy, Debug, PartialEq, Eq, Structural)]
pub struct Session {
    pub state: SessionState,
    pub raw_mode: bool,
    pub alternate_screen: bool,
    pub mouse_capture: bool,
    pub cursor_hidden: bool,
}

pub open spec fn fresh() -> Session {
    Session {
        state: SessionState::Uninitialized,
        raw_mode: false,
        alternate_screen: false,
        mouse_capture: false,
        cursor_hidden: false,
    }
}

/// The session that is active with the modes that `opts` asks for.
pub open spec fn entered(opts: SessionOptions) -> Session {
    Session {
        state: SessionState::Active,
        raw_mode: true,
        alternate_screen: opts.alternate_screen,
        mouse_capture: opts.mouse_capture,
        cursor_hidden: true,
    }
}

/// The session after it is left: restored if it was active, else as it was.
pub open spec fn left(s: Session) -> Session {
    if s.state == SessionState::Active {
        Session {
            state: SessionState::Restored,
            raw_mode: false,
            alternate_screen: false,
            mouse_capture: false,
            cursor_hidden: false,
        }
    } else {
        s
    }
}

pub open spec fn when(b: bool, a: TermAction) -> Seq<TermAction> {
    if b {
        seq![a]
    } else {
        Seq::empty()
    }
}

/// What has to be done to the terminal to enter a session.
pub open spec fn enter_actions(opts: SessionOptions) -> Seq<TermAction> {
    seq![TermAction::EnableRawMode] + when(
        opts.alternate_screen,
        TermAction::EnterAlternateScreen,
    ) + when(opts.mouse_capture, TermAction::EnableMouseCapture) + seq![TermAction::HideCursor]
}

/// What has to be done to the terminal to leave a session: every mode that
/// is on is switched off, in the reverse order.
pub open spec fn leave_actions(s: Session) -> Seq<TermAction> {
    if s.state == SessionState::Active {
        when(s.cursor_hidden, TermAction::ShowCursor) + when(
            s.mouse_capture,
            TermAction::DisableMouseCapture,
        ) + when(s.alternate_screen, TermAction::LeaveAlternateScreen) + when(
            s.raw_mode,
            TermAction::DisableRawMode,
        )
    } else {
        Seq::empty()
    }
}

impl Session {
    /// Outside the active state no mode is on; inside it the terminal is in
    /// raw mode and the cursor is hidden.
    pub open spec fn wf(&self) -> bool {
        if self.state == SessionState::Active {
            self.raw_mode && self.cursor_hidden
        } else {
            !self.raw_mode && !self.alternate_screen && !self.mouse_capture && !self.cursor_hidden
        }
    }

    pub fn new() -> (s: Session)
        ensures
            s == fresh(),
            s.wf(),
    {
        Session {
            state: SessionState::Uninitialized,
            raw_mode: false,
            alternate_screen: false,
            mouse_capture: false,
            cursor_hidden: false,
        }
    }

    pub fn is_active(&self) -> (b: bool)
        ensures
            b == (self.state == SessionState::Active),
    {
        match self.state {
            SessionState::Active => true,
            _ => false,
        }
    }

    /// Enters the session. A session can be entered once, from its first
    /// state; any other call is refused and changes nothing.
    pub fn start(&mut self, opts: SessionOptions) -> (r: Result<Vec<TermAction>, SessionError>)
        ensures
            old(self).state == SessionState::Uninitialized ==> r is Ok && r->Ok_0@ == enter_actions(
                opts,
            ) && *final(self) == entered(opts),
            old(self).state != SessionState::Uninitialized ==> r == Err::<
                Vec<TermAction>,
                SessionError,
            >(SessionError::AlreadyStarted) && *final(self) == *old(self),
            old(self).wf() ==> final(self).wf(),
    {
        match self.state {
            SessionState::Uninitialized => {
                let mut actions: Vec<TermAction> = Vec::new();
                actions.push(TermAction::EnableRawMode);
                if opts.alternate_screen {
                    actions.push(TermAction::EnterAlternateScreen);
                }
                if opts.mouse_capture {
                    actions.push(TermAction::EnableMouseCapture);
                }
                actions.push(TermAction::HideCursor);
                proof {
                    assert(actions@ =~= enter_actions(opts));
                }
                self.state = SessionState::Active;
                self.raw_mode = true;
                self.alternate_screen = opts.alternate_screen;
                self.mouse_capture = opts.mouse_capture;
                self.cursor_hidden = true;
                Ok(actions)
            },
            _ => Err(SessionError::AlreadyStarted),
        }
    }

    /// Leaves the session and returns what restores the terminal. An active
    /// session ends restored with every mode off; a session that is not
    /// active has nothing to restore and stays as it is.
    pub fn restore(&mut self) -> (actions: Vec<TermAction>)
        ensures
            actions@ == leave_actions(*old(self)),
            *final(self) == left(*old(self)),
            old(self).wf() ==> final(self).wf(),
    {
        let mut actions: Vec<TermAction> = Vec::new();
        match self.state {
            SessionState::Active => {
                if self.cursor_hidden {
                    actions.push(TermAction::ShowCursor);
                }
                if self.mouse_capture {
                    actions.push(TermAction::DisableMouseCapture);
                }
                if self.alternate_screen {
                    actions.push(TermAction::LeaveAlternateScreen);
                }
                if self.raw_mode {
                    actions.push(TermAction::DisableRawMode);
                }
                self.state = SessionState::Restored;
                self.raw_mode = false;
                self.alternate_screen = false;
                self.mouse_capture = false;
                self.cursor_hidden = false;
            },
            _ => {},
        }
        proof {
            assert(actions@ =~= leave_actions(*old(self)));
        }
        actions
    }

    /// Ends the session for `cause`. Whatever the cause, the terminal is
    /// restored as by `restore`.
    pub fn exit(&mut self, cause: ExitCause) -> (actions: Vec<TermAction>)
        ensures
            actions@ == leave_actions(*old(self)),
            *final(self) == left(*old(self)),
            old(self).wf() ==> final(self).wf(),
            old(self).state == SessionState::Active ==> final(self).state
                == SessionState::Restored,
            old(self).state == SessionState::Active ==> !final(self).raw_mode,
            old(self).state == SessionState::Active ==> !final(self).alternate_screen,
            old(self).state == SessionState::Active ==> !final(self).mouse_capture,
            old(self).state == SessionState::Active ==> !final(self).cursor_hidden,
    {
        self.restore()
    }

    /// Takes note that the device refused a mode switch: the session is left
    /// as by `restore`, and the error to hand on is returned with the actions
    /// that restore what can be restored.
    pub fn device_fault(&mut self) -> (out: (Vec<TermAction>, SessionError))
        ensures
            out.0@ == leave_actions(*old(self)),
            out.1 == SessionError::Environment,
            *final(self) == left(*old(self)),
            old(self).wf() ==> final(self).wf(),
    {
        let actions = self.restore();
        (actions, SessionError::Environment)
    }
}

/// A session that is left while active ends restored, with raw mode, the
/// alternate screen and mouse capture off and the cursor shown, and the
/// actions name each mode that was on.
pub proof fn lemma_leaving_restores(s: Session)
    requires
        s.wf(),
        s.state == SessionState::Active,
    ensures
        left(s).state == SessionState::Restored,
        !left(s).raw_mode,
        !left(s).alternate_screen,
        !left(s).mouse_capture,
        !left(s).cursor_hidden,
        leave_actions(s).contains(TermAction::DisableRawMode),
        leave_actions(s).contains(TermAction::ShowCursor),
        s.alternate_screen ==> leave_actions(s).contains(TermAction::LeaveAlternateScreen),
        s.mouse_capture ==> leave_actions(s).contains(TermAction::DisableMouseCapture),
        leave_actions(left(s)).len() == 0,
{
    let a = leave_actions(s);
    assert(a[0] == TermAction::ShowCursor);
    assert(a[a.len() - 1] == TermAction::DisableRawMode);
    if s.mouse_capture {
        assert(a[1] == TermAction::DisableMouseCapture);
    }
    if s.alternate_screen {
        if s.mouse_capture {
            assert(a[2] == TermAction::LeaveAlternateScreen);
        } else {
            assert(a[1] == TermAction::LeaveAlternateScreen);
        }
    }
}

} // verus!
