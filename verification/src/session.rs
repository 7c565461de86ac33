//! The identity of one run of the application.
use vstd::prelude::*;

verus! {

/// A hexadecimal digit, in lower case.
pub open spec fn is_hex(c: char) -> bool {
    '0' <= c <= '9' || 'a' <= c <= 'f'
}

/// The hyphenated form of a random identifier: groups of 8, 4, 4, 4 and 12 hexadecimal digits,
/// of which one is the version 4 and one gives the variant.
pub open spec fn is_random_id(id: Seq<char>) -> bool {
    &&& id.len() == 36
    &&& forall|i: int|
        0 <= i < 36 ==> if i == 8 || i == 13 || i == 18 || i == 23 {
            #[trigger] id[i] == '-'
        } else {
            is_hex(id[i])
        }
    &&& id[14] == '4'
    &&& id[19] == '8' || id[19] == '9' || id[19] == 'a' || id[19] == 'b'
}

/// `uuid::Uuid::new_v4().to_string()`: a random identifier in the hyphenated form, with its
/// version and variant in their places. Which identifier comes is left open.
#[verifier::external_body]
fn random_id() -> (id: String)
    ensures
        is_random_id(id@),
{
    uuid::Uuid::new_v4().to_string()
}

pub struct Session {
    session_id: String,
}

impl View for Session {
    type V = Seq<char>;

    closed spec fn view(&self) -> Seq<char> {
        self.session_id@
    }
}

impl Session {
    pub fn new(session_id: String) -> (session: Self)
        ensures
            session@ == session_id@,
    {
        Session { session_id }
    }

    /// A session with a fresh random identifier.
    pub fn test() -> (session: Self)
        ensures
            is_random_id(session@),
    {
        Session { session_id: random_id() }
    }

    pub fn id(&self) -> (id: &str)
        ensures
            id@ == self@,
    {
        self.session_id.as_str()
    }
}

pub struct AppSession {
    session: Session,
}

impl View for AppSession {
    type V = Seq<char>;

    closed spec fn view(&self) -> Seq<char> {
        self.session@
    }
}

impl AppSession {
    pub fn new(session: Session) -> (app_session: Self)
        ensures
            app_session@ == session@,
    {
        AppSession { session }
    }

    pub fn id(&self) -> (id: &str)
        ensures
            id@ == self@,
    {
        self.session.id()
    }

    pub fn replace_session_for_test(&mut self, session: Session)
        ensures
            final(self)@ == session@,
    {
        self.session = session;
    }
}

/// A session has the identity that it was made with, and the session of the application is the one
/// that was put there last.
pub proof fn sessions_keep_their_identity(
    first: String,
    second: String,
    session: Session,
    other: Session,
    app_session: &mut AppSession,
    id: &str,
    app_id: &str,
    replaced_id: &str,
)
    requires
        call_ensures(Session::new, (first,), session),
        call_ensures(Session::new, (second,), other),
        call_ensures(Session::id, (&session,), id),
        call_ensures(AppSession::new, (session,), *old(app_session)),
        call_ensures(AppSession::id, (&*old(app_session),), app_id),
        call_ensures(AppSession::replace_session_for_test, (app_session, other), ()),
        call_ensures(AppSession::id, (&*final(app_session),), replaced_id),
    ensures
        id@ == first@,
        app_id@ == first@,
        replaced_id@ == second@,
{
}

} // verus!
