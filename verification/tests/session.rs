use project::session::{AppSession, Session};

#[test]
fn session_keeps_its_identifier() {
    let session = Session::new("abc".to_string());
    assert_eq!(session.id(), "abc");
    let mut app_session = AppSession::new(session);
    assert_eq!(app_session.id(), "abc");
    app_session.replace_session_for_test(Session::new("def".to_string()));
    assert_eq!(app_session.id(), "def");
}

#[test]
fn random_sessions_differ() {
    let one = Session::test();
    let two = Session::test();
    for (i, c) in one.id().char_indices() {
        match i {
            8 | 13 | 18 | 23 => assert_eq!(c, '-'),
            14 => assert_eq!(c, '4'),
            19 => assert!("89ab".contains(c)),
            _ => assert!("0123456789abcdef".contains(c)),
        }
    }
    assert_eq!(one.id().len(), 36);
    assert_ne!(one.id(), two.id());
}
