use bathbot::pagination::{Emote, ProfilePagination, ReactionKind};
use bathbot::session::{cleanup_next, CleanupError, CleanupStep, PageChange, SessionAction, SessionEvent, SessionState};

#[test]
fn profile_session_scenario() {
    // 60-second deadline; the owner expands at t=5, a stranger tries to
    // minimize at t=10, the deadline fires at t=60, and nothing after the
    // deadline is applied.
    let owner = 1;
    let stranger = 2;
    let pagination = ProfilePagination::new(100, 200);
    let mut session = pagination.into_session(owner, 60);

    let expand = SessionEvent::Control { actor: owner, action: "expand".to_string() };
    assert_eq!(session.handle_event(&expand, 5), SessionAction::Rerender);
    assert!(!session.view.minimized);

    let minimize = SessionEvent::Control { actor: stranger, action: "minimize".to_string() };
    assert_eq!(session.handle_event(&minimize, 10), SessionAction::Ignore);
    assert!(!session.view.minimized);

    let late = SessionEvent::Control { actor: owner, action: "minimize".to_string() };
    assert_eq!(session.handle_event(&late, 60), SessionAction::RevokeControls);
    assert_eq!(session.state, SessionState::Closing);
    assert!(!session.view.minimized);

    let after = SessionEvent::Control { actor: owner, action: "minimize".to_string() };
    assert_eq!(session.handle_event(&after, 61), SessionAction::Ignore);
    assert!(!session.view.minimized);

    assert_eq!(session.handle_event(&SessionEvent::CleanupDone, 62), SessionAction::Ignore);
    assert_eq!(session.state, SessionState::Closed);
}

#[test]
fn owner_noop_action_does_not_rerender() {
    let pagination = ProfilePagination::new(100, 200);
    let mut session = pagination.into_session(1, 60);
    // Minimizing an already minimized view changes nothing.
    let minimize = SessionEvent::Control { actor: 1, action: "minimize".to_string() };
    assert_eq!(session.handle_event(&minimize, 5), SessionAction::Ignore);
    assert!(session.view.minimized);
}

#[test]
fn explicit_close_revokes_controls() {
    let pagination = ProfilePagination::new(100, 200);
    let mut session = pagination.into_session(1, 60);
    assert_eq!(session.handle_event(&SessionEvent::Close, 5), SessionAction::RevokeControls);
    assert_eq!(session.state, SessionState::Closing);
}

#[test]
fn process_reaction_follows_names() {
    let mut p = ProfilePagination::new(100, 200);
    let expand = ReactionKind::Custom { animated: false, name: Some("expand".to_string()) };
    assert_eq!(p.process_reaction(&expand), PageChange::Change);
    assert!(!p.view.minimized);
    // Expanding again changes nothing.
    assert_eq!(p.process_reaction(&expand), PageChange::Unchanged);
    let minimize = ReactionKind::Custom { animated: false, name: Some("minimize".to_string()) };
    assert_eq!(p.process_reaction(&minimize), PageChange::Change);
    assert!(p.view.minimized);
    let unknown = ReactionKind::Custom { animated: false, name: Some("shuffle".to_string()) };
    assert_eq!(p.process_reaction(&unknown), PageChange::Unchanged);
    let unicode = ReactionKind::Unicode { text: "expand".to_string() };
    assert_eq!(p.process_reaction(&unicode), PageChange::Unchanged);
}

#[test]
fn installed_reactions_in_order() {
    let reactions = ProfilePagination::reactions();
    assert_eq!(reactions, vec![Emote::Expand, Emote::Minimize]);
    assert_eq!(reactions[0].name(), "expand");
    assert_eq!(reactions[1].name(), "minimize");
}

#[test]
fn cleanup_falls_back_only_on_permission_errors() {
    assert_eq!(cleanup_next(&Ok(())), CleanupStep::Done);
    assert_eq!(
        cleanup_next(&Err(CleanupError::PermissionDenied)),
        CleanupStep::RemoveOwnReactions
    );
    assert_eq!(cleanup_next(&Err(CleanupError::Transient)), CleanupStep::Done);
}
