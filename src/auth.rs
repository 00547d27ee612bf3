//! The textual handshake that precedes binary framing on every connection.
use vstd::prelude::*;
use crate::bytes::{bytes_eq, copy_range};
use crate::unique::{decimal, decimal_bytes};

verus! {

/// Rejections after which the connection is closed.
pub const MAX_REJECTIONS: u32 = 3;

/// One command line of the handshake, without its line end.
#[derive(Debug)]
pub enum AuthCommand {
    Auth { mechanism: Option<Vec<u8>>, response: Option<Vec<u8>> },
    Begin,
    Cancel,
    Data(Vec<u8>),
    Error,
    NegotiateUnixFd,
    Unknown,
}

pub enum CommandView {
    Auth { mechanism: Option<Seq<u8>>, response: Option<Seq<u8>> },
    Begin,
    Cancel,
    Data(Seq<u8>),
    Error,
    NegotiateUnixFd,
    Unknown,
}

impl View for AuthCommand {
    type V = CommandView;

    open spec fn view(&self) -> CommandView {
        match self {
            AuthCommand::Auth { mechanism, response } => CommandView::Auth {
                mechanism: match mechanism {
                    Some(m) => Some(m@),
                    None => None,
                },
                response: match response {
                    Some(r) => Some(r@),
                    None => None,
                },
            },
            AuthCommand::Begin => CommandView::Begin,
            AuthCommand::Cancel => CommandView::Cancel,
            AuthCommand::Data(d) => CommandView::Data(d@),
            AuthCommand::Error => CommandView::Error,
            AuthCommand::NegotiateUnixFd => CommandView::NegotiateUnixFd,
            AuthCommand::Unknown => CommandView::Unknown,
        }
    }
}

#[derive(Clone, Copy, Debug, PartialEq, Eq, Structural)]
pub enum AuthState {
    AwaitingAuth,
    /// `AUTH EXTERNAL` came without a response; waiting for `DATA`.
    NegotiatingExternal,
    AwaitingBegin,
    Authenticated,
    Rejected,
}

/// What the bus answers to a command.
#[derive(Clone, Copy, Debug, PartialEq, Eq, Structural)]
pub enum AuthReply {
    /// `OK <guid>`.
    Accepted,
    /// `REJECTED EXTERNAL ANONYMOUS`.
    Rejected,
    /// `REJECTED`, then the connection is closed.
    RejectedClose,
    /// `DATA`: the bus waits for the response.
    Data,
    /// `ERROR`.
    Error,
    /// `AGREE_UNIX_FD`.
    AgreeUnixFd,
    /// Nothing: the binary phase begins.
    Begin,
    /// Nothing: the session is over.
    Silent,
}

/// `EXTERNAL`
pub open spec fn external() -> Seq<u8> {
    seq![69u8, 88, 84, 69, 82, 78, 65, 76]
}

/// `ANONYMOUS`
pub open spec fn anonymous() -> Seq<u8> {
    seq![65u8, 78, 79, 78, 89, 77, 79, 85, 83]
}

pub open spec fn hex_digit(n: u8) -> u8 {
    if n < 10 {
        (48 + n) as u8
    } else {
        (87 + n) as u8
    }
}

/// Each byte as two lower-case hex digits.
pub open spec fn hex_of(s: Seq<u8>) -> Seq<u8>
    decreases s.len(),
{
    if s.len() == 0 {
        Seq::empty()
    } else {
        hex_of(s.drop_last()).push(hex_digit(s.last() / 16)).push(hex_digit(s.last() % 16))
    }
}

/// The response by which a client names the user id `uid` for `EXTERNAL`.
pub open spec fn external_response(uid: u32) -> Seq<u8> {
    hex_of(decimal(uid as nat))
}

/// The fixed facts of one handshake: the user id of the peer as the
/// transport reports it, the user id of the bus, and whether `ANONYMOUS`
/// is allowed.
#[derive(Clone, Copy, Debug, PartialEq, Eq, Structural)]
pub struct AuthPolicy {
    pub peer_uid: Option<u32>,
    pub bus_uid: u32,
    pub allow_anonymous: bool,
}

/// `EXTERNAL` succeeds when the transport's user id is the bus's own and the
/// response, if any, names that same id.
pub open spec fn external_ok(p: AuthPolicy, response: Seq<u8>) -> bool {
    p.peer_uid == Some(p.bus_uid) && (response.len() == 0 || response == external_response(p.bus_uid))
}

pub open spec fn reject(rejections: u32) -> (AuthState, u32, AuthReply) {
    if rejections + 1 >= MAX_REJECTIONS {
        (AuthState::Rejected, (rejections + 1) as u32, AuthReply::RejectedClose)
    } else {
        (AuthState::AwaitingAuth, (rejections + 1) as u32, AuthReply::Rejected)
    }
}

/// One step of the handshake: the next state, rejection count and reply.
pub open spec fn auth_step(p: AuthPolicy, s: AuthState, rejections: u32, c: CommandView) -> (AuthState, u32, AuthReply) {
    match s {
        AuthState::AwaitingAuth => match c {
            CommandView::Auth { mechanism, response } => if mechanism == Some(external()) {
                match response {
                    None => (AuthState::NegotiatingExternal, rejections, AuthReply::Data),
                    Some(r) => if external_ok(p, r) {
                        (AuthState::AwaitingBegin, rejections, AuthReply::Accepted)
                    } else {
                        reject(rejections)
                    },
                }
            } else if mechanism == Some(anonymous()) && p.allow_anonymous {
                (AuthState::AwaitingBegin, rejections, AuthReply::Accepted)
            } else {
                reject(rejections)
            },
            CommandView::Cancel => reject(rejections),
            CommandView::Error => reject(rejections),
            _ => (s, rejections, AuthReply::Error),
        },
        AuthState::NegotiatingExternal => match c {
            CommandView::Data(r) => if external_ok(p, r) {
                (AuthState::AwaitingBegin, rejections, AuthReply::Accepted)
            } else {
                reject(rejections)
            },
            CommandView::Begin => (s, rejections, AuthReply::Error),
            _ => reject(rejections),
        },
        AuthState::AwaitingBegin => match c {
            CommandView::Begin => (AuthState::Authenticated, rejections, AuthReply::Begin),
            CommandView::NegotiateUnixFd => (s, rejections, AuthReply::AgreeUnixFd),
            CommandView::Cancel => reject(rejections),
            CommandView::Error => reject(rejections),
            _ => (s, rejections, AuthReply::Error),
        },
        _ => (s, rejections, AuthReply::Silent),
    }
}

fn hex_digit_exec(n: u8) -> (r: u8)
    requires
        n < 16,
    ensures
        r == hex_digit(n),
{
    if n < 10 {
        48 + n
    } else {
        87 + n
    }
}

/// The `EXTERNAL` response that names `uid`.
pub fn external_response_bytes(uid: u32) -> (r: Vec<u8>)
    ensures
        r@ == external_response(uid),
{
    let d = decimal_bytes(uid as u64);
    let mut out: Vec<u8> = Vec::new();
    let mut i: usize = 0;
    while i < d.len()
        invariant
            0 <= i <= d@.len(),
            out@ == hex_of(d@.subrange(0, i as int)),
        decreases d@.len() - i,
    {
        assert(d@.subrange(0, i + 1).drop_last() =~= d@.subrange(0, i as int));
        out.push(hex_digit_exec(d[i] / 16));
        out.push(hex_digit_exec(d[i] % 16));
        i = i + 1;
    }
    assert(d@.subrange(0, d@.len() as int) =~= d@);
    out
}

/// The handshake of one connection.
pub struct AuthSession {
    pub policy: AuthPolicy,
    pub state: AuthState,
    pub rejections: u32,
}

impl AuthSession {
    pub fn new(policy: AuthPolicy) -> (r: AuthSession)
        ensures
            r.policy == policy,
            r.state == AuthState::AwaitingAuth,
            r.rejections == 0,
    {
        AuthSession { policy, state: AuthState::AwaitingAuth, rejections: 0 }
    }

    /// Handles one command line and returns the reply.
    pub fn handle(&mut self, c: &AuthCommand) -> (r: AuthReply)
        requires
            old(self).state == AuthState::Rejected || old(self).rejections < MAX_REJECTIONS,
        ensures
            final(self).policy == old(self).policy,
            (final(self).state, final(self).rejections, r) == auth_step(old(self).policy, old(self).state, old(self).rejections, c@),
            final(self).rejections < MAX_REJECTIONS || final(self).state == AuthState::Rejected,
    {
        let (s, n, r) = match self.state {
            AuthState::AwaitingAuth => match c {
                AuthCommand::Auth { mechanism, response } => {
                    let ext: Vec<u8> = vec![69u8, 88, 84, 69, 82, 78, 65, 76];
                    let anon: Vec<u8> = vec![65u8, 78, 79, 78, 89, 77, 79, 85, 83];
                    assert(ext@ =~= external());
                    assert(anon@ =~= anonymous());
                    let (is_ext, is_anon) = match mechanism {
                        Some(m) => (bytes_eq(m, &ext), bytes_eq(m, &anon)),
                        None => (false, false),
                    };
                    if is_ext {
                        match response {
                            None => (AuthState::NegotiatingExternal, self.rejections, AuthReply::Data),
                            Some(resp) => if self.external_ok(resp) {
                                (AuthState::AwaitingBegin, self.rejections, AuthReply::Accepted)
                            } else {
                                self.rejected()
                            },
                        }
                    } else if is_anon && self.policy.allow_anonymous {
                        (AuthState::AwaitingBegin, self.rejections, AuthReply::Accepted)
                    } else {
                        self.rejected()
                    }
                },
                AuthCommand::Cancel => self.rejected(),
                AuthCommand::Error => self.rejected(),
                _ => (self.state, self.rejections, AuthReply::Error),
            },
            AuthState::NegotiatingExternal => match c {
                AuthCommand::Data(resp) => if self.external_ok(resp) {
                    (AuthState::AwaitingBegin, self.rejections, AuthReply::Accepted)
                } else {
                    self.rejected()
                },
                AuthCommand::Begin => (self.state, self.rejections, AuthReply::Error),
                _ => self.rejected(),
            },
            AuthState::AwaitingBegin => match c {
                AuthCommand::Begin => (AuthState::Authenticated, self.rejections, AuthReply::Begin),
                AuthCommand::NegotiateUnixFd => (self.state, self.rejections, AuthReply::AgreeUnixFd),
                AuthCommand::Cancel => self.rejected(),
                AuthCommand::Error => self.rejected(),
                _ => (self.state, self.rejections, AuthReply::Error),
            },
            _ => (self.state, self.rejections, AuthReply::Silent),
        };
        self.state = s;
        self.rejections = n;
        r
    }

    fn rejected(&self) -> (r: (AuthState, u32, AuthReply))
        requires
            self.rejections < MAX_REJECTIONS,
        ensures
            r == reject(self.rejections),
    {
        if self.rejections + 1 >= MAX_REJECTIONS {
            (AuthState::Rejected, self.rejections + 1, AuthReply::RejectedClose)
        } else {
            (AuthState::AwaitingAuth, self.rejections + 1, AuthReply::Rejected)
        }
    }

    fn external_ok(&self, response: &Vec<u8>) -> (r: bool)
        ensures
            r == external_ok(self.policy, response@),
    {
        match self.policy.peer_uid {
            Some(u) => {
                if u != self.policy.bus_uid {
                    return false;
                }
                if response.len() == 0 {
                    return true;
                }
                let expected = external_response_bytes(u);
                bytes_eq(response, &expected)
            },
            None => false,
        }
    }
}

/// The end of the word that starts at `i`: the next space, or the end.
pub open spec fn word_end(s: Seq<u8>, i: int) -> int
    decreases s.len() - i,
{
    if i < 0 || i >= s.len() || s[i] == 32u8 {
        i
    } else {
        word_end(s, i + 1)
    }
}

pub open spec fn first_word(s: Seq<u8>) -> Seq<u8> {
    s.subrange(0, word_end(s, 0))
}

/// What follows the first word and the space after it, if there is a space.
pub open spec fn after_word(s: Seq<u8>) -> Option<Seq<u8>> {
    let e = word_end(s, 0);
    if e < s.len() {
        Some(s.subrange(e + 1, s.len() as int))
    } else {
        None
    }
}

pub open spec fn lit_auth() -> Seq<u8> {
    seq![65u8, 85, 84, 72]
}

pub open spec fn lit_begin() -> Seq<u8> {
    seq![66u8, 69, 71, 73, 78]
}

pub open spec fn lit_cancel() -> Seq<u8> {
    seq![67u8, 65, 78, 67, 69, 76]
}

pub open spec fn lit_data() -> Seq<u8> {
    seq![68u8, 65, 84, 65]
}

pub open spec fn lit_error() -> Seq<u8> {
    seq![69u8, 82, 82, 79, 82]
}

pub open spec fn lit_negotiate() -> Seq<u8> {
    seq![78u8, 69, 71, 79, 84, 73, 65, 84, 69, 95, 85, 78, 73, 88, 95, 70, 68]
}

/// The command that a line (without its line end) holds.
pub open spec fn command_of(line: Seq<u8>) -> CommandView {
    let w = first_word(line);
    let rest = after_word(line);
    if w == lit_auth() {
        match rest {
            None => CommandView::Auth { mechanism: None, response: None },
            Some(r) => CommandView::Auth { mechanism: Some(first_word(r)), response: after_word(r) },
        }
    } else if w == lit_begin() && rest is None {
        CommandView::Begin
    } else if w == lit_cancel() && rest is None {
        CommandView::Cancel
    } else if w == lit_data() {
        match rest {
            Some(r) => CommandView::Data(r),
            None => CommandView::Data(Seq::empty()),
        }
    } else if w == lit_error() {
        CommandView::Error
    } else if w == lit_negotiate() && rest is None {
        CommandView::NegotiateUnixFd
    } else {
        CommandView::Unknown
    }
}

fn word_end_exec(s: &Vec<u8>, start: usize) -> (r: usize)
    requires
        start <= s@.len(),
    ensures
        r == word_end(s@, start as int),
        start <= r <= s@.len(),
{
    let mut i = start;
    while i < s.len() && s[i] != 32u8
        invariant
            start <= i <= s@.len(),
            word_end(s@, i as int) == word_end(s@, start as int),
        decreases s@.len() - i,
    {
        i = i + 1;
    }
    i
}

fn split_word(s: &Vec<u8>) -> (r: (Vec<u8>, Option<Vec<u8>>))
    ensures
        r.0@ == first_word(s@),
        match r.1 {
            Some(v) => after_word(s@) == Some(v@),
            None => after_word(s@) is None,
        },
{
    let e = word_end_exec(s, 0);
    let w = copy_range(s, 0, e);
    if e < s.len() {
        (w, Some(copy_range(s, e + 1, s.len())))
    } else {
        (w, None)
    }
}

/// Reads one command line, its line end already taken off.
pub fn parse_command(line: &Vec<u8>) -> (r: AuthCommand)
    ensures
        r@ == command_of(line@),
{
    let (w, rest) = split_word(line);
    let auth: Vec<u8> = vec![65u8, 85, 84, 72];
    let begin: Vec<u8> = vec![66u8, 69, 71, 73, 78];
    let cancel: Vec<u8> = vec![67u8, 65, 78, 67, 69, 76];
    let data: Vec<u8> = vec![68u8, 65, 84, 65];
    let error: Vec<u8> = vec![69u8, 82, 82, 79, 82];
    let negotiate: Vec<u8> = vec![78u8, 69, 71, 79, 84, 73, 65, 84, 69, 95, 85, 78, 73, 88, 95, 70, 68];
    assert(auth@ =~= lit_auth());
    assert(begin@ =~= lit_begin());
    assert(cancel@ =~= lit_cancel());
    assert(data@ =~= lit_data());
    assert(error@ =~= lit_error());
    assert(negotiate@ =~= lit_negotiate());
    if bytes_eq(&w, &auth) {
        match rest {
            None => AuthCommand::Auth { mechanism: None, response: None },
            Some(r) => {
                let (m, resp) = split_word(&r);
                AuthCommand::Auth { mechanism: Some(m), response: resp }
            },
        }
    } else if bytes_eq(&w, &begin) && rest.is_none() {
        AuthCommand::Begin
    } else if bytes_eq(&w, &cancel) && rest.is_none() {
        AuthCommand::Cancel
    } else if bytes_eq(&w, &data) {
        match rest {
            Some(r) => AuthCommand::Data(r),
            None => AuthCommand::Data(Vec::new()),
        }
    } else if bytes_eq(&w, &error) {
        AuthCommand::Error
    } else if bytes_eq(&w, &negotiate) && rest.is_none() {
        AuthCommand::NegotiateUnixFd
    } else {
        AuthCommand::Unknown
    }
}

} // verus!
