//! The launch flow: the argument the game executable expects, where the
//! executable lives, and the decisions taken between checking for it and
//! starting it.

use vstd::prelude::*;
use vstd::utf8::{decode_utf8, encode_utf8, encode_utf8_decode_utf8};
use base64::Engine;
use crate::text::{join_path, joined_path};
use crate::token::{AccessTokenResponse, AuthError, auth_error_text};

verus! {

/// The digit for a six-bit value in the standard Base64 alphabet:
/// `A`-`Z`, `a`-`z`, `0`-`9`, `+`, `/`.
pub open spec fn base64_digit(v: u8) -> char {
    if v < 26 {
        ((v + 65) as u32) as char
    } else if v < 52 {
        ((v + 71) as u32) as char
    } else if v < 62 {
        ((v - 4) as u32) as char
    } else if v == 62 {
        '+'
    } else {
        '/'
    }
}

/// The position of a character in the standard alphabet.
pub open spec fn base64_value(c: char) -> u8 {
    let u = c as u32;
    if 65 <= u <= 90 {
        (u - 65) as u8
    } else if 97 <= u <= 122 {
        (u - 71) as u8
    } else if 48 <= u <= 57 {
        (u + 4) as u8
    } else if c == '+' {
        62
    } else {
        63
    }
}

proof fn lemma_digit_value(v: u8)
    requires
        v < 64,
    ensures
        base64_value(base64_digit(v)) == v,
        base64_digit(v) != '=',
{
}

/// Standard Base64 with padding: each group of three bytes becomes four
/// digits; a final group of one or two bytes is padded with `=`.
pub open spec fn base64_encoded(b: Seq<u8>) -> Seq<char>
    decreases b.len(),
{
    if b.len() == 0 {
        Seq::empty()
    } else if b.len() == 1 {
        seq![base64_digit(b[0] >> 2), base64_digit((b[0] & 3) << 4), '=', '=']
    } else if b.len() == 2 {
        seq![
            base64_digit(b[0] >> 2),
            base64_digit(((b[0] & 3) << 4) | (b[1] >> 4)),
            base64_digit((b[1] & 15) << 2),
            '=',
        ]
    } else {
        seq![
            base64_digit(b[0] >> 2),
            base64_digit(((b[0] & 3) << 4) | (b[1] >> 4)),
            base64_digit(((b[1] & 15) << 2) | (b[2] >> 6)),
            base64_digit(b[2] & 63),
        ] + base64_encoded(b.subrange(3, b.len() as int))
    }
}

/// The bytes of one group of four digits, padding included.
pub open spec fn base64_group_decoded(g: Seq<char>) -> Seq<u8> {
    let v0 = base64_value(g[0]);
    let v1 = base64_value(g[1]);
    let v2 = base64_value(g[2]);
    let v3 = base64_value(g[3]);
    let b0 = ((v0 << 2) | (v1 >> 4)) as u8;
    let b1 = (((v1 & 15) << 4) | (v2 >> 2)) as u8;
    let b2 = (((v2 & 3) << 6) | v3) as u8;
    if g[2] == '=' {
        seq![b0]
    } else if g[3] == '=' {
        seq![b0, b1]
    } else {
        seq![b0, b1, b2]
    }
}

/// Decoding group by group.
pub open spec fn base64_decoded(s: Seq<char>) -> Seq<u8>
    decreases s.len(),
{
    if s.len() < 4 {
        Seq::empty()
    } else {
        base64_group_decoded(s.subrange(0, 4)) + base64_decoded(s.subrange(4, s.len() as int))
    }
}

/// Decoding an encoding gives back the bytes that were encoded.
pub proof fn lemma_base64_round_trip(b: Seq<u8>)
    ensures
        base64_decoded(base64_encoded(b)) == b,
    decreases b.len(),
{
    let e = base64_encoded(b);
    if b.len() == 0 {
    } else {
        let b0 = b[0];
        let b1 = if b.len() > 1 { b[1] } else { 0u8 };
        let b2 = if b.len() > 2 { b[2] } else { 0u8 };
        let c0 = b0 >> 2;
        let c1 = ((b0 & 3) << 4) | (b1 >> 4);
        let c2 = ((b1 & 15) << 2) | (b2 >> 6);
        let c3 = b2 & 63;
        assert(c0 < 64 && c1 < 64 && c2 < 64 && c3 < 64) by (bit_vector)
            requires
                c0 == b0 >> 2,
                c1 == ((b0 & 3) << 4) | (b1 >> 4),
                c2 == ((b1 & 15) << 2) | (b2 >> 6),
                c3 == b2 & 63,
        ;
        assert(((c0 << 2) | (c1 >> 4)) as u8 == b0 && (((c1 & 15) << 4) | (c2 >> 2)) as u8 == b1
            && (((c2 & 3) << 6) | c3) as u8 == b2) by (bit_vector)
            requires
                c0 == b0 >> 2,
                c1 == ((b0 & 3) << 4) | (b1 >> 4),
                c2 == ((b1 & 15) << 2) | (b2 >> 6),
                c3 == b2 & 63,
        ;
        assert(((b0 & 3) << 4) == ((b0 & 3) << 4) | (0u8 >> 4)) by (bit_vector);
        assert(((b1 & 15) << 2) == ((b1 & 15) << 2) | (0u8 >> 6)) by (bit_vector);
        lemma_digit_value(c0);
        lemma_digit_value(c1);
        lemma_digit_value(c2);
        lemma_digit_value(c3);
        assert(e.subrange(0, 4) =~= e.take(4));
        if b.len() == 1 {
            assert(e.len() == 4);
            assert(e.subrange(4, e.len() as int) =~= Seq::<char>::empty());
            assert(base64_decoded(e.subrange(4, e.len() as int)) =~= Seq::<u8>::empty());
            assert(base64_decoded(e) =~= base64_group_decoded(e.subrange(0, 4)));
            assert(base64_decoded(e) =~= b);
        } else if b.len() == 2 {
            assert(e.len() == 4);
            assert(e.subrange(4, e.len() as int) =~= Seq::<char>::empty());
            assert(base64_decoded(e.subrange(4, e.len() as int)) =~= Seq::<u8>::empty());
            assert(base64_decoded(e) =~= base64_group_decoded(e.subrange(0, 4)));
            assert(base64_decoded(e) =~= b);
        } else {
            let rest = b.subrange(3, b.len() as int);
            lemma_base64_round_trip(rest);
            assert(e.subrange(4, e.len() as int) =~= base64_encoded(rest));
            assert(base64_group_decoded(e.subrange(0, 4)) =~= b.subrange(0, 3));
            assert(b =~= b.subrange(0, 3) + rest);
        }
    }
}

/// A character that Base64 text may hold.
pub open spec fn is_base64_text_char(c: char) -> bool {
    exists|v: u8| v < 64 && c == base64_digit(v)
}

proof fn lemma_base64_text(b: Seq<u8>)
    ensures
        forall|k: int|
            0 <= k < base64_encoded(b).len() ==> #[trigger] base64_encoded(b)[k] == '='
                || is_base64_text_char(base64_encoded(b)[k]),
    decreases b.len(),
{
    if b.len() > 0 {
        let b0 = b[0];
        let b1 = if b.len() > 1 { b[1] } else { 0u8 };
        let b2 = if b.len() > 2 { b[2] } else { 0u8 };
        let c0 = b0 >> 2;
        let c1 = ((b0 & 3) << 4) | (b1 >> 4);
        let c2 = ((b1 & 15) << 2) | (b2 >> 6);
        let c3 = b2 & 63;
        assert(c0 < 64 && c1 < 64 && c2 < 64 && c3 < 64 && (b0 & 3) << 4 < 64 && (b1 & 15) << 2
            < 64) by (bit_vector)
            requires
                c0 == b0 >> 2,
                c1 == ((b0 & 3) << 4) | (b1 >> 4),
                c2 == ((b1 & 15) << 2) | (b2 >> 6),
                c3 == b2 & 63,
        ;
        let e = base64_encoded(b);
        if b.len() >= 3 {
            lemma_base64_text(b.subrange(3, b.len() as int));
        }
        assert forall|k: int| 0 <= k < e.len() implies #[trigger] e[k] == '=' || is_base64_text_char(
            e[k],
        ) by {
            if k == 0 {
                assert(e[k] == base64_digit(c0));
            } else if k == 1 && b.len() == 1 {
                assert(e[k] == base64_digit((b0 & 3) << 4));
            } else if k == 1 {
                assert(e[k] == base64_digit(c1));
            } else if k == 2 && b.len() == 2 {
                assert(e[k] == base64_digit((b1 & 15) << 2));
            } else if k == 2 && b.len() > 2 {
                assert(e[k] == base64_digit(c2));
            } else if k == 3 && b.len() > 2 {
                assert(e[k] == base64_digit(c3));
            } else if k >= 4 {
                assert(e[k] == base64_encoded(b.subrange(3, b.len() as int))[k - 4]);
            }
        }
    }
}

/// Relies on base64's `general_purpose::STANDARD` engine (standard alphabet,
/// padding on): `encode` writes the UTF-8 bytes of the text as Base64.
#[verifier::external_body]
fn base64_encode(text: &str) -> (r: String)
    ensures
        r@ == base64_encoded(encode_utf8(text@)),
{
    base64::engine::general_purpose::STANDARD.encode(text)
}

/// Base64 of the UTF-8 bytes of a text.
pub open spec fn base64_of_text(s: Seq<char>) -> Seq<char> {
    base64_encoded(encode_utf8(s))
}

/// The argument the game executable reads its session from.
pub open spec fn launch_argument(guid: Seq<char>, token: Seq<char>, timestamp: Seq<char>, expiration: Seq<char>) -> Seq<char> {
    "data:{platform:Deca,guid:"@ + base64_of_text(guid) + ",token:"@ + base64_of_text(token)
        + ",tokenTimestamp:"@ + base64_of_text(timestamp) + ",tokenExpiration:"@ + base64_of_text(
        expiration,
    ) + ",env:4}"@
}

/// Builds the launch argument from the account identifier and its session;
/// each field is Base64-encoded on its own.
pub fn build_launch_argument(guid: &str, token: &AccessTokenResponse) -> (r: String)
    ensures
        r@ == launch_argument(guid@, token.access_token@, token.timestamp@, token.expiration@),
{
    let g = base64_encode(guid);
    let t = base64_encode(token.access_token.as_str());
    let ts = base64_encode(token.timestamp.as_str());
    let exp = base64_encode(token.expiration.as_str());
    String::from_str("data:{platform:Deca,guid:").concat(g.as_str()).concat(",token:").concat(
        t.as_str(),
    ).concat(",tokenTimestamp:").concat(ts.as_str()).concat(",tokenExpiration:").concat(
        exp.as_str(),
    ).concat(",env:4}")
}

/// Every field of the launch argument is a segment of Base64 text, holding
/// no `,` or `}`, and decoding it gives back the field exactly.
pub proof fn lemma_launch_argument_round_trip(guid: Seq<char>, token: Seq<char>, timestamp: Seq<char>, expiration: Seq<char>)
    ensures
        launch_argument(guid, token, timestamp, expiration) == "data:{platform:Deca,guid:"@
            + base64_of_text(guid) + ",token:"@ + base64_of_text(token) + ",tokenTimestamp:"@
            + base64_of_text(timestamp) + ",tokenExpiration:"@ + base64_of_text(expiration)
            + ",env:4}"@,
        decode_utf8(base64_decoded(base64_of_text(guid))) == guid,
        decode_utf8(base64_decoded(base64_of_text(token))) == token,
        decode_utf8(base64_decoded(base64_of_text(timestamp))) == timestamp,
        decode_utf8(base64_decoded(base64_of_text(expiration))) == expiration,
        forall|f: Seq<char>, k: int|
            0 <= k < base64_of_text(f).len() ==> #[trigger] base64_of_text(f)[k] != ','
                && base64_of_text(f)[k] != '}',
{
    broadcast use encode_utf8_decode_utf8;
    lemma_base64_round_trip(encode_utf8(guid));
    lemma_base64_round_trip(encode_utf8(token));
    lemma_base64_round_trip(encode_utf8(timestamp));
    lemma_base64_round_trip(encode_utf8(expiration));
    assert forall|f: Seq<char>, k: int| 0 <= k < base64_of_text(f).len() implies #[trigger] base64_of_text(f)[k] != ','
        && base64_of_text(f)[k] != '}' by {
        lemma_base64_text(encode_utf8(f));
        if base64_of_text(f)[k] != '=' {
            let v = choose|v: u8| v < 64 && base64_of_text(f)[k] == base64_digit(v);
        }
    }
}


/// The executable's file name inside the install directory.
pub open spec fn executable_name() -> Seq<char> {
    "RotMG Exalt.exe"@
}

/// Where a launch stands.
#[derive(PartialEq, Eq, Structural, Clone, Copy, Debug)]
pub enum LaunchStage {
    /// Waiting to learn whether the executable exists.
    CheckExecutable,
    /// Waiting for the session token.
    AwaitToken,
    /// Waiting for the process to be started.
    AwaitSpawn,
    /// The launch has ended, one way or the other.
    Done,
}

/// Why a launch failed.
pub enum LaunchError {
    /// No executable at the given path; nothing was started.
    ExecutableNotFound(String),
    /// The executable's directory cannot be determined.
    InvalidPath,
    /// The operating system refused to start the process; carries its message.
    SpawnFailed(String),
    /// No session token could be obtained.
    Auth(AuthError),
}

/// The text a caller sees for a launch error.
pub open spec fn launch_error_text(e: LaunchError) -> Seq<char> {
    match e {
        LaunchError::ExecutableNotFound(p) => "Exalt executable not found at: "@ + p@,
        LaunchError::InvalidPath => "Invalid path"@,
        LaunchError::SpawnFailed(m) => "Failed to launch Exalt: "@ + m@,
        LaunchError::Auth(a) => auth_error_text(a),
    }
}

impl LaunchError {
    /// A readable description of the error.
    pub fn message(&self) -> (r: String)
        ensures
            r@ == launch_error_text(*self),
    {
        match self {
            LaunchError::ExecutableNotFound(p) => String::from_str(
                "Exalt executable not found at: ",
            ).concat(p.as_str()),
            LaunchError::InvalidPath => String::from_str("Invalid path"),
            LaunchError::SpawnFailed(m) => String::from_str("Failed to launch Exalt: ").concat(
                m.as_str(),
            ),
            LaunchError::Auth(a) => a.message(),
        }
    }
}

/// What the outside world reports back to a launch.
pub enum LaunchEvent {
    /// Whether a file exists at the executable path.
    ExecutableChecked(bool),
    /// The outcome of the token request.
    TokenReceived(Result<AccessTokenResponse, AuthError>),
    /// The outcome of starting the process; an error carries the system's message.
    SpawnFinished(Result<(), String>),
}

/// A process to start: not waited for, its output not captured.
pub struct SpawnRequest {
    pub program: String,
    pub working_dir: String,
    pub argument: String,
}

/// What a launch asks the outside world to do next.
pub enum LaunchAction {
    /// Obtain a session token for the launch's account.
    FetchToken,
    /// Start the process.
    Spawn(SpawnRequest),
    /// Report the outcome; the launch is over.
    Finish(Result<String, LaunchError>),
    /// The event does not belong to the current stage; nothing to do.
    Ignore,
}

/// One launch of the game for one account.
pub struct LaunchSession {
    pub install_dir: String,
    pub guid: String,
    pub stage: LaunchStage,
}

/// The stage a launch moves to on an event.
pub open spec fn stage_after(stage: LaunchStage, event: LaunchEvent, install_dir: Seq<char>) -> LaunchStage {
    match (stage, event) {
        (LaunchStage::CheckExecutable, LaunchEvent::ExecutableChecked(exists)) => if exists {
            LaunchStage::AwaitToken
        } else {
            LaunchStage::Done
        },
        (LaunchStage::AwaitToken, LaunchEvent::TokenReceived(t)) => if t is Ok && install_dir.len()
            > 0 {
            LaunchStage::AwaitSpawn
        } else {
            LaunchStage::Done
        },
        (LaunchStage::AwaitSpawn, LaunchEvent::SpawnFinished(_)) => LaunchStage::Done,
        _ => stage,
    }
}

/// Whether a launch starts the process on an event.
pub open spec fn spawns_on(stage: LaunchStage, event: LaunchEvent, install_dir: Seq<char>) -> bool {
    stage == LaunchStage::AwaitToken && event is TokenReceived && event->TokenReceived_0 is Ok
        && install_dir.len() > 0
}

/// Whether an event belongs to a stage.
pub open spec fn event_fits(stage: LaunchStage, event: LaunchEvent) -> bool {
    ||| stage == LaunchStage::CheckExecutable && event is ExecutableChecked
    ||| stage == LaunchStage::AwaitToken && event is TokenReceived
    ||| stage == LaunchStage::AwaitSpawn && event is SpawnFinished
}

impl LaunchSession {
    /// A launch of the game installed in `install_dir`, for the account `guid`.
    pub fn new(install_dir: &str, guid: &str) -> (r: LaunchSession)
        ensures
            r.install_dir@ == install_dir@,
            r.guid@ == guid@,
            r.stage == LaunchStage::CheckExecutable,
    {
        LaunchSession {
            install_dir: String::from_str(install_dir),
            guid: String::from_str(guid),
            stage: LaunchStage::CheckExecutable,
        }
    }

    /// The path the executable is looked for at.
    pub fn executable_path(&self) -> (r: String)
        ensures
            r@ == joined_path(self.install_dir@, executable_name()),
    {
        join_path(self.install_dir.as_str(), "RotMG Exalt.exe")
    }

    /// Takes one event and says what to do next. The executable is checked
    /// before any token is asked for, and the process is started only once a
    /// token has come, from the install directory, with the launch argument.
    pub fn step(&mut self, event: LaunchEvent) -> (r: LaunchAction)
        ensures
            final(self).install_dir == old(self).install_dir,
            final(self).guid == old(self).guid,
            final(self).stage == stage_after(old(self).stage, event, old(self).install_dir@),
            !event_fits(old(self).stage, event) <==> r is Ignore,
            r is Spawn <==> spawns_on(old(self).stage, event, old(self).install_dir@),
            r is FetchToken <==> old(self).stage == LaunchStage::CheckExecutable
                && event == LaunchEvent::ExecutableChecked(true),
            r is Spawn ==> {
                let t = event->TokenReceived_0->Ok_0;
                &&& r->Spawn_0.program@ == joined_path(old(self).install_dir@, executable_name())
                &&& r->Spawn_0.working_dir@ == old(self).install_dir@
                &&& r->Spawn_0.argument@ == launch_argument(
                    old(self).guid@,
                    t.access_token@,
                    t.timestamp@,
                    t.expiration@,
                )
            },
            old(self).stage == LaunchStage::CheckExecutable && event == LaunchEvent::ExecutableChecked(
                false,
            ) ==> r is Finish && r->Finish_0 is Err && r->Finish_0->Err_0 is ExecutableNotFound
                && r->Finish_0->Err_0->ExecutableNotFound_0@ == joined_path(
                old(self).install_dir@,
                executable_name(),
            ),
            old(self).stage == LaunchStage::AwaitToken && event is TokenReceived
                && event->TokenReceived_0 is Err ==> r is Finish && r->Finish_0 is Err
                && r->Finish_0->Err_0 == LaunchError::Auth(event->TokenReceived_0->Err_0),
            old(self).stage == LaunchStage::AwaitToken && event is TokenReceived
                && event->TokenReceived_0 is Ok && old(self).install_dir@.len() == 0 ==> r is Finish
                && r->Finish_0 is Err && r->Finish_0->Err_0 is InvalidPath,
            old(self).stage == LaunchStage::AwaitSpawn && event is SpawnFinished
                && event->SpawnFinished_0 is Ok ==> r is Finish && r->Finish_0 is Ok
                && r->Finish_0->Ok_0@ == "Successfully launched Exalt"@,
            old(self).stage == LaunchStage::AwaitSpawn && event is SpawnFinished
                && event->SpawnFinished_0 is Err ==> r is Finish && r->Finish_0 is Err
                && r->Finish_0->Err_0 is SpawnFailed && r->Finish_0->Err_0->SpawnFailed_0
                == event->SpawnFinished_0->Err_0,
    {
        match (self.stage, event) {
            (LaunchStage::CheckExecutable, LaunchEvent::ExecutableChecked(exists)) => {
                if exists {
                    self.stage = LaunchStage::AwaitToken;
                    LaunchAction::FetchToken
                } else {
                    self.stage = LaunchStage::Done;
                    LaunchAction::Finish(Err(LaunchError::ExecutableNotFound(self.executable_path())))
                }
            },
            (LaunchStage::AwaitToken, LaunchEvent::TokenReceived(Err(e))) => {
                self.stage = LaunchStage::Done;
                LaunchAction::Finish(Err(LaunchError::Auth(e)))
            },
            (LaunchStage::AwaitToken, LaunchEvent::TokenReceived(Ok(t))) => {
                if self.install_dir.unicode_len() == 0 {
                    self.stage = LaunchStage::Done;
                    return LaunchAction::Finish(Err(LaunchError::InvalidPath));
                }
                let argument = build_launch_argument(self.guid.as_str(), &t);
                self.stage = LaunchStage::AwaitSpawn;
                LaunchAction::Spawn(
                    SpawnRequest {
                        program: self.executable_path(),
                        working_dir: self.install_dir.clone(),
                        argument,
                    },
                )
            },
            (LaunchStage::AwaitSpawn, LaunchEvent::SpawnFinished(Ok(()))) => {
                self.stage = LaunchStage::Done;
                LaunchAction::Finish(Ok(String::from_str("Successfully launched Exalt")))
            },
            (LaunchStage::AwaitSpawn, LaunchEvent::SpawnFinished(Err(m))) => {
                self.stage = LaunchStage::Done;
                LaunchAction::Finish(Err(LaunchError::SpawnFailed(m)))
            },
            _ => LaunchAction::Ignore,
        }
    }
}

/// The stage after a run of events.
pub open spec fn stage_after_all(stage: LaunchStage, events: Seq<LaunchEvent>, install_dir: Seq<char>) -> LaunchStage
    decreases events.len(),
{
    if events.len() == 0 {
        stage
    } else {
        stage_after_all(stage_after(stage, events[0], install_dir), events.drop_first(), install_dir)
    }
}

/// Whether a run of events starts the process at some point.
pub open spec fn spawns_during(stage: LaunchStage, events: Seq<LaunchEvent>, install_dir: Seq<char>) -> bool
    decreases events.len(),
{
    if events.len() == 0 {
        false
    } else {
        spawns_on(stage, events[0], install_dir) || spawns_during(
            stage_after(stage, events[0], install_dir),
            events.drop_first(),
            install_dir,
        )
    }
}

proof fn lemma_done_is_final(events: Seq<LaunchEvent>, install_dir: Seq<char>)
    ensures
        stage_after_all(LaunchStage::Done, events, install_dir) == LaunchStage::Done,
        !spawns_during(LaunchStage::Done, events, install_dir),
    decreases events.len(),
{
    if events.len() > 0 {
        lemma_done_is_final(events.drop_first(), install_dir);
    }
}

/// When the executable is missing, the launch ends at once and, whatever is
/// reported afterwards, never starts a process.
pub proof fn lemma_missing_executable_never_spawns(later: Seq<LaunchEvent>, install_dir: Seq<char>)
    ensures
        stage_after(
            LaunchStage::CheckExecutable,
            LaunchEvent::ExecutableChecked(false),
            install_dir,
        ) == LaunchStage::Done,
        !spawns_during(
            LaunchStage::CheckExecutable,
            seq![LaunchEvent::ExecutableChecked(false)] + later,
            install_dir,
        ),
{
    let events = seq![LaunchEvent::ExecutableChecked(false)] + later;
    assert(events.drop_first() =~= later);
    lemma_done_is_final(later, install_dir);
}

} // verus!
