//! Outgoing control commands and their exact wire rendering.
//!
//! The session decides *what* to send as structured [`Command`] values; the
//! renderer turns each into the CRLF-terminated byte line the server
//! expects. A Pong echoes the incoming probe with every `PING` replaced by
//! `PONG`; a resume request is CTCP-framed and quotes the filename exactly
//! when it holds a space.

use vstd::prelude::*;
use vstd::string::StringSliceAdditionalSpecFns;
use crate::bytes::{append_vec, dec_rep, match_at, match_at_exec, render_u64};
use crate::engine::SessionConfig;

verus! {

/// Why the session says goodbye.
#[derive(Clone, Copy, PartialEq, Eq, Structural, Debug)]
pub enum QuitReason {
    /// Every requested package was accounted for.
    JobDone,
    /// The cancellation signal was observed.
    Interrupted,
    /// The inactivity watchdog expired.
    Timeout,
}

/// One outgoing control command.
#[derive(Debug)]
pub enum Command {
    /// Register the nickname.
    Nick,
    /// Register the user identity.
    User,
    /// Echo a Ping probe; carries the probe line as received.
    Pong(Vec<u8>),
    /// Join the configured channel.
    Join,
    /// Ask the bot for one package by number.
    Request(i32),
    /// Ask the bot to resume a transfer from an existing offset.
    Resume { filename: Vec<u8>, port: Vec<u8>, offset: u64 },
    /// Drop one package from the bot's queue.
    Remove(i32),
    /// Cancel the outstanding transfer on the bot.
    CancelAll,
    /// Leave the server.
    Quit(QuitReason),
}

/// The byte sequence `PING`.
pub open spec fn ping_word() -> Seq<u8> {
    seq![0x50u8, 0x49, 0x4e, 0x47]
}

/// The byte sequence `PONG`.
pub open spec fn pong_word() -> Seq<u8> {
    seq![0x50u8, 0x4f, 0x4e, 0x47]
}

/// `s` with every occurrence of `PING` replaced by `PONG`, scanning left
/// to right without overlap.
pub open spec fn replace_ping(s: Seq<u8>) -> Seq<u8>
    decreases s.len(),
{
    if match_at(s, 0, ping_word()) {
        pong_word() + replace_ping(s.skip(4))
    } else if s.len() > 0 {
        seq![s[0]] + replace_ping(s.skip(1))
    } else {
        s
    }
}

/// Decimal rendering of a signed package number.
pub open spec fn dec_rep_i32(n: int) -> Seq<u8> {
    if n >= 0 {
        dec_rep(n)
    } else {
        seq![0x2du8] + dec_rep(-n)
    }
}

/// `f` holds a space byte.
pub open spec fn has_space(f: Seq<u8>) -> bool {
    exists|i: int| 0 <= i < f.len() && f[i] == 0x20
}

/// A filename as it appears in a resume request: quoted exactly when it
/// holds a space.
pub open spec fn quoted_if_spaced(f: Seq<u8>) -> Seq<u8> {
    if has_space(f) {
        seq![0x22u8] + f + seq![0x22u8]
    } else {
        f
    }
}

/// The text of a quit reason.
pub open spec fn quit_text(r: QuitReason) -> Seq<u8> {
    match r {
        QuitReason::JobDone => "my job is done here!".spec_bytes(),
        QuitReason::Interrupted => "Interrupted by user".spec_bytes(),
        QuitReason::Timeout => "Connection timeout".spec_bytes(),
    }
}

/// The exact bytes a command puts on the wire.
pub open spec fn render_spec(cmd: Command, cfg: SessionConfig) -> Seq<u8> {
    match cmd {
        Command::Nick => "NICK ".spec_bytes() + cfg.nickname@ + "\r\n".spec_bytes(),
        Command::User => "USER ".spec_bytes() + cfg.nickname@ + " 0 * ".spec_bytes()
            + cfg.nickname@ + "\r\n".spec_bytes(),
        Command::Pong(line) => replace_ping(line@),
        Command::Join => "JOIN #".spec_bytes() + cfg.channel@ + "\r\n".spec_bytes(),
        Command::Request(n) => "PRIVMSG ".spec_bytes() + cfg.bot@ + " :xdcc send #".spec_bytes()
            + dec_rep_i32(n as int) + "\r\n".spec_bytes(),
        Command::Resume { filename, port, offset } => "PRIVMSG ".spec_bytes() + cfg.bot@
            + " :\u{1}DCC RESUME ".spec_bytes() + quoted_if_spaced(filename@)
            + " ".spec_bytes() + port@ + " ".spec_bytes() + dec_rep(offset as int)
            + "\u{1}\r\n".spec_bytes(),
        Command::Remove(n) => "PRIVMSG ".spec_bytes() + cfg.bot@ + " :xdcc remove #".spec_bytes()
            + dec_rep_i32(n as int) + "\r\n".spec_bytes(),
        Command::CancelAll => "PRIVMSG ".spec_bytes() + cfg.bot@ + " :xdcc cancel\r\n".spec_bytes(),
        Command::Quit(r) => "QUIT :".spec_bytes() + quit_text(r) + "\r\n".spec_bytes(),
    }
}

/// Echo of a Ping probe: the line with every `PING` replaced by `PONG`.
pub fn render_pong(line: &Vec<u8>) -> (r: Vec<u8>)
    ensures
        r@ == replace_ping(line@),
{
    let mut ping: Vec<u8> = Vec::new();
    ping.push(0x50);
    ping.push(0x49);
    ping.push(0x4e);
    ping.push(0x47);
    assert(ping@ =~= ping_word());
    let mut out: Vec<u8> = Vec::new();
    let mut i: usize = 0;
    assert(line@.skip(0) =~= line@);
    while i < line.len()
        invariant
            0 <= i <= line@.len(),
            ping@ == ping_word(),
            out@ + replace_ping(line@.skip(i as int)) =~= replace_ping(line@),
        decreases line@.len() - i,
    {
        if match_at_exec(line, i, &ping) {
            let ghost pre = out@;
            out.push(0x50);
            out.push(0x4f);
            out.push(0x4e);
            out.push(0x47);
            proof {
                assert(line@.skip(i as int).subrange(0, 4) =~= line@.subrange(i as int, i + 4));
                assert(match_at(line@.skip(i as int), 0, ping_word()));
                assert(line@.skip(i as int).skip(4) =~= line@.skip(i + 4));
                assert(out@ =~= pre + pong_word());
                assert(out@ + replace_ping(line@.skip(i + 4)) =~= pre + (pong_word()
                    + replace_ping(line@.skip(i + 4))));
            }
            i += 4;
        } else {
            let ghost pre = out@;
            out.push(line[i]);
            proof {
                let rest = line@.skip(i as int);
                assert(!match_at(rest, 0, ping_word())) by {
                    if match_at(rest, 0, ping_word()) {
                        assert(rest.subrange(0, 4) =~= line@.subrange(i as int, i + 4));
                    }
                }
                assert(rest[0] == line@[i as int]);
                assert(rest.skip(1) =~= line@.skip(i + 1));
                assert(out@ =~= pre + seq![line@[i as int]]);
                assert(out@ + replace_ping(line@.skip(i + 1)) =~= pre + (seq![rest[0]]
                    + replace_ping(rest.skip(1))));
            }
            i += 1;
        }
    }
    proof {
        assert(line@.skip(line@.len() as int) =~= Seq::<u8>::empty());
        assert(out@ + replace_ping(line@.skip(line@.len() as int)) =~= out@);
    }
    out
}

/// Decimal rendering of a signed package number.
pub fn render_i32(n: i32) -> (r: Vec<u8>)
    ensures
        r@ == dec_rep_i32(n as int),
{
    if n >= 0 {
        render_u64(n as u64)
    } else {
        let m: i64 = n as i64;
        let digits = render_u64((-m) as u64);
        let mut r: Vec<u8> = Vec::new();
        r.push(0x2d);
        append_vec(&mut r, &digits);
        assert(r@ =~= dec_rep_i32(n as int));
        r
    }
}

/// Whether the filename needs quotes in a resume request.
fn has_space_exec(f: &Vec<u8>) -> (r: bool)
    ensures
        r == has_space(f@),
{
    let mut i: usize = 0;
    while i < f.len()
        invariant
            0 <= i <= f@.len(),
            forall|j: int| 0 <= j < i ==> f@[j] != 0x20,
        decreases f@.len() - i,
    {
        if f[i] == 0x20 {
            return true;
        }
        i += 1;
    }
    false
}

/// Render one command into the exact bytes to write on the control socket.
pub fn render_command(cmd: &Command, cfg: &SessionConfig) -> (r: Vec<u8>)
    ensures
        r@ == render_spec(*cmd, *cfg),
{
    match cmd {
        Command::Nick => {
            let mut r = "NICK ".as_bytes_vec();
            append_vec(&mut r, &cfg.nickname);
            let tail = "\r\n".as_bytes_vec();
            append_vec(&mut r, &tail);
            assert(r@ =~= render_spec(*cmd, *cfg));
            r
        }
        Command::User => {
            let mut r = "USER ".as_bytes_vec();
            append_vec(&mut r, &cfg.nickname);
            let mid = " 0 * ".as_bytes_vec();
            append_vec(&mut r, &mid);
            append_vec(&mut r, &cfg.nickname);
            let tail = "\r\n".as_bytes_vec();
            append_vec(&mut r, &tail);
            assert(r@ =~= render_spec(*cmd, *cfg));
            r
        }
        Command::Pong(line) => {
            let r = render_pong(line);
            r
        }
        Command::Join => {
            let mut r = "JOIN #".as_bytes_vec();
            append_vec(&mut r, &cfg.channel);
            let tail = "\r\n".as_bytes_vec();
            append_vec(&mut r, &tail);
            assert(r@ =~= render_spec(*cmd, *cfg));
            r
        }
        Command::Request(n) => {
            let mut r = "PRIVMSG ".as_bytes_vec();
            append_vec(&mut r, &cfg.bot);
            let mid = " :xdcc send #".as_bytes_vec();
            append_vec(&mut r, &mid);
            let num = render_i32(*n);
            append_vec(&mut r, &num);
            let tail = "\r\n".as_bytes_vec();
            append_vec(&mut r, &tail);
            assert(r@ =~= render_spec(*cmd, *cfg));
            r
        }
        Command::Resume { filename, port, offset } => {
            let mut r = "PRIVMSG ".as_bytes_vec();
            append_vec(&mut r, &cfg.bot);
            let mid = " :\u{1}DCC RESUME ".as_bytes_vec();
            append_vec(&mut r, &mid);
            if has_space_exec(filename) {
                r.push(0x22);
                append_vec(&mut r, filename);
                r.push(0x22);
            } else {
                append_vec(&mut r, filename);
            }
            let sp = " ".as_bytes_vec();
            append_vec(&mut r, &sp);
            append_vec(&mut r, port);
            append_vec(&mut r, &sp);
            let num = render_u64(*offset);
            append_vec(&mut r, &num);
            let tail = "\u{1}\r\n".as_bytes_vec();
            append_vec(&mut r, &tail);
            assert(r@ =~= render_spec(*cmd, *cfg));
            r
        }
        Command::Remove(n) => {
            let mut r = "PRIVMSG ".as_bytes_vec();
            append_vec(&mut r, &cfg.bot);
            let mid = " :xdcc remove #".as_bytes_vec();
            append_vec(&mut r, &mid);
            let num = render_i32(*n);
            append_vec(&mut r, &num);
            let tail = "\r\n".as_bytes_vec();
            append_vec(&mut r, &tail);
            assert(r@ =~= render_spec(*cmd, *cfg));
            r
        }
        Command::CancelAll => {
            let mut r = "PRIVMSG ".as_bytes_vec();
            append_vec(&mut r, &cfg.bot);
            let tail = " :xdcc cancel\r\n".as_bytes_vec();
            append_vec(&mut r, &tail);
            assert(r@ =~= render_spec(*cmd, *cfg));
            r
        }
        Command::Quit(reason) => {
            let mut r = "QUIT :".as_bytes_vec();
            let text = match reason {
                QuitReason::JobDone => "my job is done here!".as_bytes_vec(),
                QuitReason::Interrupted => "Interrupted by user".as_bytes_vec(),
                QuitReason::Timeout => "Connection timeout".as_bytes_vec(),
            };
            append_vec(&mut r, &text);
            let tail = "\r\n".as_bytes_vec();
            append_vec(&mut r, &tail);
            assert(r@ =~= render_spec(*cmd, *cfg));
            r
        }
    }
}

} // verus!
