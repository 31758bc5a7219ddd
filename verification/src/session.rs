//! The authenticated session with the remote service, as a state machine:
//! the caller performs the requests and hands back what came of them.

use vstd::prelude::*;
use vstd::string::StringExecFns;
use crate::error::GatewayError;

verus! {

/// The login endpoint of the remote service.
pub const URL_AUTH: &'static str = "https://www.space-track.org/ajaxauth/login";

/// The status with which the remote service rejects a request of a session
/// that has expired.
pub const UNAUTHORIZED: u16 = 401;

/// What came of one request to the remote service.
#[derive(Clone, Copy, Debug, PartialEq, Eq, Structural)]
pub enum Reply {
    /// The remote service answered with this status.
    Status(u16),
    /// No answer arrived: the connection failed.
    Failed,
}

/// Where a query stands.
#[derive(Clone, Copy, Debug, PartialEq, Eq, Structural)]
pub enum QueryPhase {
    /// The request is sent for the first time.
    Send,
    /// The session expired: the login handshake is made anew.
    Renew,
    /// The request is sent once more, after the renewal.
    SendAfterRenew,
}

/// What a query does next.
#[derive(Clone, Copy, Debug, PartialEq, Eq, Structural)]
pub enum QueryStep {
    /// Perform the request of this phase and come back with its reply.
    Continue(QueryPhase),
    /// The last reply is the answer to the query.
    Done,
    /// The query failed.
    Fail(GatewayError),
}

/// Whether `status` is an error status: a client or a server error.
pub open spec fn is_error_status(status: u16) -> bool {
    400 <= status <= 599
}

/// What the first login handshake yields: nothing to report when it was
/// accepted, else why the client cannot be built.
pub open spec fn handshake_failure(reply: Reply) -> Option<GatewayError> {
    match reply {
        Reply::Failed => Some(GatewayError::Transport),
        Reply::Status(s) => if is_error_status(s) {
            Some(GatewayError::Auth)
        } else {
            None
        },
    }
}

/// Whether a renewal of the session succeeded.
pub open spec fn renewed(reply: Reply) -> bool {
    match reply {
        Reply::Failed => false,
        Reply::Status(s) => !is_error_status(s),
    }
}

/// The step that follows `reply` in `phase`. An unauthorized reply to the
/// first send leads to one renewal and one more send; every other failure,
/// and every failure after the renewal, ends the query.
pub open spec fn next_step(phase: QueryPhase, reply: Reply) -> QueryStep {
    match phase {
        QueryPhase::Send => match reply {
            Reply::Failed => QueryStep::Fail(GatewayError::Transport),
            Reply::Status(s) => if s == UNAUTHORIZED {
                QueryStep::Continue(QueryPhase::Renew)
            } else if is_error_status(s) {
                QueryStep::Fail(GatewayError::Upstream(s))
            } else {
                QueryStep::Done
            },
        },
        QueryPhase::Renew => if renewed(reply) {
            QueryStep::Continue(QueryPhase::SendAfterRenew)
        } else {
            QueryStep::Fail(GatewayError::Auth)
        },
        QueryPhase::SendAfterRenew => match reply {
            Reply::Failed => QueryStep::Fail(GatewayError::Transport),
            Reply::Status(s) => if s == UNAUTHORIZED {
                QueryStep::Fail(GatewayError::Auth)
            } else if is_error_status(s) {
                QueryStep::Fail(GatewayError::Upstream(s))
            } else {
                QueryStep::Done
            },
        },
    }
}

/// How far a phase is into a query.
pub open spec fn phase_rank(phase: QueryPhase) -> nat {
    match phase {
        QueryPhase::Send => 0,
        QueryPhase::Renew => 1,
        QueryPhase::SendAfterRenew => 2,
    }
}

/// Whether `status` is an error status.
pub fn status_is_error(status: u16) -> (r: bool)
    ensures
        r == is_error_status(status),
{
    400 <= status && status <= 599
}

/// The client of the remote service: the credentials of the account and the
/// instant of the last successful login handshake.
pub struct SpaceTrackClient {
    user: String,
    pass: String,
    last_auth: u64,
}

impl SpaceTrackClient {
    /// The account name.
    pub closed spec fn identity(&self) -> Seq<char> {
        self.user@
    }

    /// The account secret.
    pub closed spec fn secret(&self) -> Seq<char> {
        self.pass@
    }

    /// The instant of the last successful login handshake.
    pub closed spec fn authenticated_at(&self) -> u64 {
        self.last_auth
    }

    /// The fields of the login form for these credentials, in order.
    pub open spec fn form_of(user: Seq<char>, pass: Seq<char>) -> Seq<(Seq<char>, Seq<char>)> {
        seq![("identity"@, user), ("password"@, pass)]
    }

    /// The login form: the fields to post, form-encoded, to `URL_AUTH`.
    pub fn login_form(user: &str, pass: &str) -> (form: Vec<(String, String)>)
        ensures
            form.len() == 2,
            form@.map_values(|f: (String, String)| (f.0@, f.1@)) == Self::form_of(user@, pass@),
    {
        let mut form: Vec<(String, String)> = Vec::new();
        form.push((String::from_str("identity"), String::from_str(user)));
        form.push((String::from_str("password"), String::from_str(pass)));
        assert(form@.map_values(|f: (String, String)| (f.0@, f.1@)) =~= Self::form_of(user@, pass@));
        form
    }

    /// Builds the client from the credentials and the reply to the first
    /// login handshake, which the caller made with `login_form` at `now`.
    /// There is a client exactly when the handshake was accepted.
    pub fn from_env(user: String, pass: String, handshake: Reply, now: u64) -> (r: Result<
        Self,
        GatewayError,
    >)
        ensures
            match handshake_failure(handshake) {
                Some(e) => r == Err::<Self, GatewayError>(e),
                None => r matches Ok(c) && c.identity() == user@ && c.secret() == pass@
                    && c.authenticated_at() == now,
            },
    {
        match handshake {
            Reply::Failed => Err(GatewayError::Transport),
            Reply::Status(s) => {
                if status_is_error(s) {
                    Err(GatewayError::Auth)
                } else {
                    Ok(SpaceTrackClient { user, pass, last_auth: now })
                }
            },
        }
    }

    /// The login form for the credentials of this client.
    pub fn renewal_form(&self) -> (form: Vec<(String, String)>)
        ensures
            form.len() == 2,
            form@.map_values(|f: (String, String)| (f.0@, f.1@)) == Self::form_of(
                self.identity(),
                self.secret(),
            ),
    {
        Self::login_form(self.user.as_str(), self.pass.as_str())
    }

    /// The instant of the last successful login handshake.
    pub fn last_auth(&self) -> (t: u64)
        ensures
            t == self.authenticated_at(),
    {
        self.last_auth
    }

    /// Takes the reply to a renewal of the session, which ended at `now`.
    /// An accepted handshake is recorded with its instant; a rejected or
    /// failed one is an authentication failure and records nothing.
    pub fn reauth(&mut self, reply: Reply, now: u64) -> (r: Result<(), GatewayError>)
        ensures
            final(self).identity() == old(self).identity(),
            final(self).secret() == old(self).secret(),
            renewed(reply) ==> r == Ok::<(), GatewayError>(()) && final(self).authenticated_at() == now,
            !renewed(reply) ==> r == Err::<(), GatewayError>(GatewayError::Auth)
                && final(self).authenticated_at() == old(self).authenticated_at(),
    {
        match reply {
            Reply::Failed => Err(GatewayError::Auth),
            Reply::Status(s) => {
                if status_is_error(s) {
                    Err(GatewayError::Auth)
                } else {
                    self.last_auth = now;
                    Ok(())
                }
            },
        }
    }

    /// One step of a query: takes the reply to the request of `phase`,
    /// which arrived at `now`, and says what to do next. The first send
    /// that is answered as unauthorized leads to exactly one renewal and
    /// one more send; nothing else is ever tried again.
    pub fn query(&mut self, phase: QueryPhase, reply: Reply, now: u64) -> (step: QueryStep)
        ensures
            step == next_step(phase, reply),
            final(self).identity() == old(self).identity(),
            final(self).secret() == old(self).secret(),
            final(self).authenticated_at() == if phase == QueryPhase::Renew && renewed(reply) {
                now
            } else {
                old(self).authenticated_at()
            },
    {
        match phase {
            QueryPhase::Renew => match self.reauth(reply, now) {
                Ok(_) => QueryStep::Continue(QueryPhase::SendAfterRenew),
                Err(e) => QueryStep::Fail(e),
            },
            QueryPhase::Send => match reply {
                Reply::Failed => QueryStep::Fail(GatewayError::Transport),
                Reply::Status(s) => {
                    if s == UNAUTHORIZED {
                        QueryStep::Continue(QueryPhase::Renew)
                    } else if status_is_error(s) {
                        QueryStep::Fail(GatewayError::Upstream(s))
                    } else {
                        QueryStep::Done
                    }
                },
            },
            QueryPhase::SendAfterRenew => match reply {
                Reply::Failed => QueryStep::Fail(GatewayError::Transport),
                Reply::Status(s) => {
                    if s == UNAUTHORIZED {
                        QueryStep::Fail(GatewayError::Auth)
                    } else if status_is_error(s) {
                        QueryStep::Fail(GatewayError::Upstream(s))
                    } else {
                        QueryStep::Done
                    }
                },
            },
        }
    }
}

/// Where a query stands after the replies `replies`, taken in order, when
/// it was in `phase` before them. Replies after its end change nothing.
pub open spec fn run(phase: QueryPhase, replies: Seq<Reply>) -> QueryStep
    decreases replies.len(),
{
    if replies.len() == 0 {
        QueryStep::Continue(phase)
    } else {
        match next_step(phase, replies[0]) {
            QueryStep::Continue(next) => run(next, replies.skip(1)),
            end => end,
        }
    }
}

/// A query is over after three replies at the most: the first send, the
/// renewal, and the second send.
pub proof fn lemma_query_ends(replies: Seq<Reply>)
    requires
        replies.len() >= 3,
    ensures
        !(run(QueryPhase::Send, replies) is Continue),
{
    reveal_with_fuel(run, 4);
    let rest = replies.skip(1);
    let last = rest.skip(1);
    assert(rest.len() >= 2);
    assert(last.len() >= 1);
}

/// A query whose first send is not answered as unauthorized is over with
/// that reply, and no renewal is made.
pub proof fn lemma_query_without_expiry(replies: Seq<Reply>)
    requires
        replies.len() >= 1,
        replies[0] != Reply::Status(UNAUTHORIZED),
    ensures
        run(QueryPhase::Send, replies) == next_step(QueryPhase::Send, replies[0]),
        !(run(QueryPhase::Send, replies) is Continue),
{
    reveal_with_fuel(run, 2);
}

/// A query never goes back: each step that continues leads to the phase
/// after the one it came from. So a query makes at most one renewal and at
/// most two sends, and what follows the second send ends it.
pub proof fn lemma_query_advances(phase: QueryPhase, reply: Reply)
    ensures
        match next_step(phase, reply) {
            QueryStep::Continue(next) => phase_rank(next) == phase_rank(phase) + 1,
            _ => true,
        },
        phase == QueryPhase::SendAfterRenew ==> !(next_step(phase, reply) is Continue),
{
}

/// A renewal is made only after an unauthorized reply to the first send.
pub proof fn lemma_renewal_only_when_unauthorized(phase: QueryPhase, reply: Reply)
    ensures
        next_step(phase, reply) == QueryStep::Continue(QueryPhase::Renew) <==> phase
            == QueryPhase::Send && reply == Reply::Status(UNAUTHORIZED),
{
}

} // verus!
