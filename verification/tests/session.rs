use termframe::session::{
    ExitCause, Session, SessionError, SessionOptions, SessionState, TermAction,
};

#[test]
fn start_switches_the_modes_on() {
    let mut s = Session::new();
    assert_eq!(s.state, SessionState::Uninitialized);
    assert!(!s.is_active());
    let actions = s.start(SessionOptions { alternate_screen: true, mouse_capture: true });
    assert_eq!(
        actions,
        Ok(vec![
            TermAction::EnableRawMode,
            TermAction::EnterAlternateScreen,
            TermAction::EnableMouseCapture,
            TermAction::HideCursor,
        ])
    );
    assert!(s.is_active());
    assert!(s.raw_mode && s.alternate_screen && s.mouse_capture && s.cursor_hidden);
}

#[test]
fn start_without_options_is_raw_mode_only() {
    let mut s = Session::new();
    let actions = s.start(SessionOptions { alternate_screen: false, mouse_capture: false });
    assert_eq!(actions, Ok(vec![TermAction::EnableRawMode, TermAction::HideCursor]));
    assert!(s.raw_mode && !s.alternate_screen && !s.mouse_capture && s.cursor_hidden);
    assert_eq!(s.restore(), vec![TermAction::ShowCursor, TermAction::DisableRawMode]);
}

#[test]
fn a_session_starts_once() {
    let mut s = Session::new();
    let opts = SessionOptions { alternate_screen: true, mouse_capture: false };
    assert!(s.start(opts).is_ok());
    let before = s;
    assert_eq!(s.start(opts), Err(SessionError::AlreadyStarted));
    assert_eq!(s, before);
    s.restore();
    let restored = s;
    assert_eq!(s.start(opts), Err(SessionError::AlreadyStarted));
    assert_eq!(s, restored);
}

#[test]
fn fatal_error_while_active_restores_the_terminal() {
    let mut s = Session::new();
    s.start(SessionOptions { alternate_screen: true, mouse_capture: true }).unwrap();
    let actions = s.exit(ExitCause::Failed);
    assert_eq!(
        actions,
        vec![
            TermAction::ShowCursor,
            TermAction::DisableMouseCapture,
            TermAction::LeaveAlternateScreen,
            TermAction::DisableRawMode,
        ]
    );
    assert_eq!(s.state, SessionState::Restored);
    assert!(!s.raw_mode && !s.alternate_screen && !s.mouse_capture && !s.cursor_hidden);
}

#[test]
fn every_cause_restores_alike() {
    for cause in [ExitCause::Completed, ExitCause::Failed, ExitCause::Interrupted] {
        let mut s = Session::new();
        s.start(SessionOptions { alternate_screen: true, mouse_capture: false }).unwrap();
        assert_eq!(
            s.exit(cause),
            vec![
                TermAction::ShowCursor,
                TermAction::LeaveAlternateScreen,
                TermAction::DisableRawMode,
            ]
        );
        assert_eq!(s.state, SessionState::Restored);
        assert_eq!(s.exit(cause), Vec::<TermAction>::new());
        assert_eq!(s.state, SessionState::Restored);
    }
}

#[test]
fn restore_before_start_does_nothing() {
    let mut s = Session::new();
    assert_eq!(s.restore(), Vec::<TermAction>::new());
    assert_eq!(s, Session::new());
}

#[test]
fn device_fault_restores_and_reports() {
    let mut s = Session::new();
    s.start(SessionOptions { alternate_screen: false, mouse_capture: true }).unwrap();
    let (actions, err) = s.device_fault();
    assert_eq!(
        actions,
        vec![TermAction::ShowCursor, TermAction::DisableMouseCapture, TermAction::DisableRawMode]
    );
    assert_eq!(err, SessionError::Environment);
    assert_eq!(s.state, SessionState::Restored);
    assert!(!s.raw_mode && !s.mouse_capture);
}
