use anime_dl::commands::{render_command, Command, QuitReason};
use anime_dl::engine::{Engine, SessionConfig, SessionError, SessionState};
use anime_dl::worker::{PollDecision, ReadOutcome, WorkerState};

fn cfg(packages: Vec<i32>) -> SessionConfig {
    SessionConfig {
        channel: b"nibl".to_vec(),
        nickname: b"randomRustacean".to_vec(),
        bot: b"Archive".to_vec(),
        packages,
    }
}

fn started(packages: Vec<i32>) -> Engine {
    let mut e = Engine::new(cfg(packages));
    let reg = e.on_connected();
    assert!(matches!(reg[0], Command::Nick));
    assert!(matches!(reg[1], Command::User));
    e.on_registered();
    assert_eq!(e.state, SessionState::AwaitingWelcomeEnd);
    e
}

fn rendered(e: &Engine, cmds: &[Command]) -> Vec<Vec<u8>> {
    cmds.iter().map(|c| render_command(c, &e.config)).collect()
}

#[test]
fn no_join_before_welcome_end_even_after_pings() {
    let mut e = started(vec![12]);
    // Ping lines arrive first: each is answered, none triggers the join
    for _ in 0..3 {
        let step = e.on_line(&b"PING :1\r\n".to_vec());
        let out = rendered(&e, &step.commands);
        assert_eq!(out, vec![b"PONG :1\r\n".to_vec()]);
        assert!(!e.welcome_seen);
    }
    // the welcome end releases the join, exactly once
    let step = e.on_line(&b":irc.example.net 376 nick :End of /MOTD command.\r\n".to_vec());
    assert_eq!(rendered(&e, &step.commands), vec![b"JOIN #nibl\r\n".to_vec()]);
    assert_eq!(e.state, SessionState::Joining);
    let step = e.on_line(&b":irc.example.net 376 nick :End of /MOTD command.\r\n".to_vec());
    assert!(step.commands.is_empty());
}

#[test]
fn end_to_end_two_packages() {
    // requesting packages [12, 45] from bot "Archive"
    let mut e = started(vec![12, 45]);

    // server pings, client pongs
    let step = e.on_line(&b"PING :1\r\n".to_vec());
    assert_eq!(rendered(&e, &step.commands), vec![b"PONG :1\r\n".to_vec()]);

    // welcome end -> JOIN #nibl
    let step = e.on_line(&b":irc.example.net 376 nick :End of /MOTD\r\n".to_vec());
    assert_eq!(rendered(&e, &step.commands), vec![b"JOIN #nibl\r\n".to_vec()]);

    // join confirmed -> both requests, in order
    let step = e.on_line(&b":randomRustacean!u@h JOIN :#nibl\r\n".to_vec());
    assert_eq!(
        rendered(&e, &step.commands),
        vec![
            b"PRIVMSG Archive :xdcc send #12\r\n".to_vec(),
            b"PRIVMSG Archive :xdcc send #45\r\n".to_vec(),
        ]
    );
    assert_eq!(e.packages_requested, 2);

    // first offer arrives; no local file -> fresh worker at offset 0
    let step = e.on_line(
        &b":Archive!x@y PRIVMSG nick :\x01DCC SEND \"a.mkv\" 3232235521 5000 1000000\x01\r\n"
            .to_vec(),
    );
    let d = step.probe.expect("offer should ask for a file probe");
    assert_eq!(anime_dl::descriptor::dotted_quad(d.ip), b"192.168.0.1".to_vec());
    assert_eq!(d.port, b"5000".to_vec());
    let step = e.on_probe_result(d, None);
    let d = step.spawn.expect("fresh download should spawn");
    assert_eq!(d.resume_position, 0);
    assert_eq!(d.file_size, 1000000);

    // the worker copies exactly 1,000,000 bytes
    let mut w = WorkerState::start(&d);
    assert_eq!(w.progress, 0);
    let mut written = 0u64;
    while !w.is_done() {
        let room = (w.total - w.progress).min(4096) as usize;
        match w.poll(false, ReadOutcome::Data(room)) {
            PollDecision::Write(n) => written += n as u64,
            PollDecision::Complete(n) => written += n as u64,
            other => panic!("unexpected decision {:?}", other),
        }
    }
    assert_eq!(written, 1000000);
    assert_eq!(w.progress, 1000000);

    // second offer, same flow
    let step = e.on_line(
        &b":Archive!x@y PRIVMSG nick :\x01DCC SEND \"b.mkv\" 3232235521 5001 500\x01\r\n".to_vec(),
    );
    let d = step.probe.unwrap();
    let step = e.on_probe_result(d, None);
    assert!(step.spawn.is_some());

    // both accounted for: quit and join the workers
    assert_eq!(e.outcomes, 2);
    assert_eq!(e.workers_spawned, 2);
    let quit = e.finish();
    assert_eq!(rendered(&e, &quit), vec![b"QUIT :my job is done here!\r\n".to_vec()]);
    assert_eq!(e.state, SessionState::Closing);
    e.on_all_workers_joined();
    assert_eq!(e.state, SessionState::Done);
    assert_eq!(e.error, None);
}

#[test]
fn resume_end_to_end() {
    // local a.mkv holds 400,000 of 1,000,000 bytes
    let mut e = started(vec![7]);
    e.on_line(&b":s 376 n :end\r\n".to_vec());
    e.on_line(&b":n!u@h JOIN :#nibl\r\n".to_vec());

    let step = e.on_line(
        &b":Archive!x@y PRIVMSG nick :\x01DCC SEND \"a.mkv\" 3232235521 5000 1000000\x01\r\n"
            .to_vec(),
    );
    let d = step.probe.unwrap();

    // partial file -> exactly one RESUME carrying the existing size, no worker yet
    let step = e.on_probe_result(d, Some(400000));
    assert_eq!(
        rendered(&e, &step.commands),
        vec![b"PRIVMSG Archive :\x01DCC RESUME a.mkv 5000 400000\x01\r\n".to_vec()]
    );
    assert!(step.spawn.is_none());
    assert_eq!(e.outcomes, 0);
    assert_eq!(e.workers_spawned, 0);

    // matching ACCEPT on that port releases the parked descriptor
    let step = e.on_line(&b":A PRIVMSG n :\x01DCC ACCEPT a.mkv 5000 400000\x01\r\n".to_vec());
    let d = step.spawn.expect("acceptance should spawn the parked transfer");
    assert_eq!(d.resume_position, 400000);
    assert_eq!(d.file_size, 1000000);
    assert_eq!(e.outcomes, 1);

    // the worker appends exactly the remaining 600,000 bytes
    let mut w = WorkerState::start(&d);
    assert_eq!(w.progress, 400000);
    let mut appended = 0u64;
    while !w.is_done() {
        let room = (w.total - w.progress).min(4096) as usize;
        match w.poll(false, ReadOutcome::Data(room)) {
            PollDecision::Write(n) | PollDecision::Complete(n) => appended += n as u64,
            other => panic!("unexpected decision {:?}", other),
        }
    }
    assert_eq!(appended, 600000);
}

#[test]
fn complete_local_file_opens_no_connection() {
    let mut e = started(vec![7]);
    e.on_line(&b":s 376 n :end\r\n".to_vec());
    e.on_line(&b":n!u@h JOIN :#nibl\r\n".to_vec());
    let step = e.on_line(&b"DCC SEND a.mkv 16909060 5000 1000\r\n".to_vec());
    let d = step.probe.unwrap();
    // existing size at the total: counted complete, no resume, no worker
    let step = e.on_probe_result(d, Some(1000));
    assert!(step.commands.is_empty());
    assert!(step.spawn.is_none());
    assert_eq!(e.outcomes, 1);
    assert_eq!(e.workers_spawned, 0);

    // size past the total behaves the same
    let mut e2 = started(vec![7]);
    e2.on_line(&b":s 376 n :end\r\n".to_vec());
    e2.on_line(&b":n!u@h JOIN :#nibl\r\n".to_vec());
    let step = e2.on_line(&b"DCC SEND a.mkv 16909060 5000 1000\r\n".to_vec());
    let step = e2.on_probe_result(step.probe.unwrap(), Some(2000));
    assert!(step.spawn.is_none());
    assert_eq!(e2.outcomes, 1);
}

#[test]
fn empty_local_file_downloads_fresh() {
    let mut e = started(vec![7]);
    e.on_line(&b":s 376 n :end\r\n".to_vec());
    e.on_line(&b":n!u@h JOIN :#nibl\r\n".to_vec());
    let step = e.on_line(&b"DCC SEND a.mkv 16909060 5000 1000\r\n".to_vec());
    let step = e.on_probe_result(step.probe.unwrap(), Some(0));
    let d = step.spawn.unwrap();
    assert_eq!(d.resume_position, 0);
}

#[test]
fn stale_acceptance_is_discarded() {
    let mut e = started(vec![7]);
    e.on_line(&b":s 376 n :end\r\n".to_vec());
    e.on_line(&b":n!u@h JOIN :#nibl\r\n".to_vec());
    let step = e.on_line(&b":A PRIVMSG n :\x01DCC ACCEPT a.mkv 9999 5\x01\r\n".to_vec());
    assert!(step.spawn.is_none());
    assert!(step.commands.is_empty());
    assert_eq!(e.outcomes, 0);
}

#[test]
fn malformed_offer_is_a_recoverable_parse_failure() {
    let mut e = started(vec![7]);
    e.on_line(&b":s 376 n :end\r\n".to_vec());
    // address does not fit 32 bits: the line classifies as an offer but fails to parse
    let step = e.on_line(&b"DCC SEND a.mkv 4294967296 5000 10\r\n".to_vec());
    assert!(step.parse_failure);
    assert!(step.probe.is_none());
    assert!(e.error.is_none());
    assert_eq!(e.state, SessionState::Joining);
}

#[test]
fn cancellation_sends_cancel_only_with_outstanding_requests() {
    // a request is outstanding: cancel then quit
    let mut e = started(vec![12]);
    e.on_line(&b":s 376 n :end\r\n".to_vec());
    e.on_line(&b":n!u@h JOIN :#nibl\r\n".to_vec());
    let cmds = e.on_cancel();
    assert_eq!(
        rendered(&e, &cmds),
        vec![
            b"PRIVMSG Archive :xdcc cancel\r\n".to_vec(),
            b"QUIT :Interrupted by user\r\n".to_vec(),
        ]
    );
    assert_eq!(e.state, SessionState::Cancelled);
    assert_eq!(e.error, Some(SessionError::UserCancelled));

    // nothing requested yet: just the quit
    let mut e2 = started(vec![12]);
    let cmds = e2.on_cancel();
    assert_eq!(rendered(&e2, &cmds), vec![b"QUIT :Interrupted by user\r\n".to_vec()]);
}

#[test]
fn inactivity_fails_the_session() {
    let mut e = started(vec![12]);
    let cmds = e.on_inactivity_timeout();
    assert_eq!(rendered(&e, &cmds), vec![b"QUIT :Connection timeout\r\n".to_vec()]);
    assert_eq!(e.state, SessionState::Failed);
    assert_eq!(e.error, Some(SessionError::ProtocolTimeout));
}

#[test]
fn fatal_errors_fail_the_session_with_their_kind() {
    let mut e = started(vec![12]);
    e.on_fatal_error(SessionError::OversizedMessage);
    assert_eq!(e.state, SessionState::Failed);
    assert_eq!(e.error, Some(SessionError::OversizedMessage));
}

#[test]
fn queue_full_requeues_the_most_recent_request() {
    let mut e = started(vec![12, 45]);
    e.on_line(&b":s 376 n :end\r\n".to_vec());
    e.on_line(&b":n!u@h JOIN :#nibl\r\n".to_vec());
    assert_eq!(e.packages_requested, 2);

    let step = e.on_line(&b":Archive!x NOTICE n :You have queued too many packs\r\n".to_vec());
    assert!(step.commands.is_empty());
    assert_eq!(e.packages_requested, 1);
    assert_eq!(e.requeued, Some(1));
    assert_eq!(e.state, SessionState::Requesting);

    // a second notice while one request already waits changes nothing
    let step = e.on_line(&b":Archive!x NOTICE n :You have queued too many packs\r\n".to_vec());
    assert!(step.commands.is_empty());
    assert_eq!(e.requeued, Some(1));

    // the polled file reached its size: the request goes out again
    let step = e.on_queue_ready();
    assert_eq!(
        rendered(&e, &step.commands),
        vec![b"PRIVMSG Archive :xdcc send #45\r\n".to_vec()]
    );
    assert_eq!(e.packages_requested, 2);
    assert_eq!(e.requeued, None);
    assert_eq!(e.state, SessionState::AwaitingDccEvents);
}

#[test]
fn duplicate_request_notice_retries_with_remove_and_cancel() {
    let mut e = started(vec![12, 45]);
    e.on_line(&b":s 376 n :end\r\n".to_vec());
    e.on_line(&b":n!u@h JOIN :#nibl\r\n".to_vec());
    let step = e.on_line(&b":Archive!x NOTICE n :You already requested that pack\r\n".to_vec());
    assert_eq!(
        rendered(&e, &step.commands),
        vec![
            b"PRIVMSG Archive :xdcc remove #45\r\n".to_vec(),
            b"PRIVMSG Archive :xdcc cancel\r\n".to_vec(),
            b"PRIVMSG Archive :xdcc send #45\r\n".to_vec(),
        ]
    );
    assert_eq!(e.packages_requested, 2);
}

#[test]
fn second_join_line_requests_nothing_again() {
    let mut e = started(vec![12]);
    e.on_line(&b":s 376 n :end\r\n".to_vec());
    let step = e.on_line(&b":n!u@h JOIN :#nibl\r\n".to_vec());
    assert_eq!(step.commands.len(), 1);
    // another user joining the channel must not re-request
    let step = e.on_line(&b":other!u@h JOIN :#nibl\r\n".to_vec());
    assert!(step.commands.is_empty());
    assert_eq!(e.packages_requested, 1);
}

#[test]
fn replay_finds_the_join_at_the_first_welcome_end() {
    let lines: Vec<Vec<u8>> = vec![
        b"PING :1\r\n".to_vec(),
        b":x!u@h JOIN :#nibl\r\n".to_vec(),
        b":irc.example.net 422 nick :MOTD File is missing\r\n".to_vec(),
        b"PING :2\r\n".to_vec(),
        b":irc.example.net 376 nick :End of /MOTD\r\n".to_vec(),
    ];
    assert_eq!(Engine::join_sent_at(cfg(vec![1, 2, 3, 4, 5, 6]), &lines), Some(2));

    let quiet: Vec<Vec<u8>> = vec![b"PING :1\r\n".to_vec(), b"PING :2\r\n".to_vec()];
    assert_eq!(Engine::join_sent_at(cfg(vec![1, 2, 3]), &quiet), None);
}

#[test]
fn parked_resume_survives_unrelated_lines() {
    let mut e = started(vec![7, 8, 9, 10, 11, 12]);
    e.on_line(&b":s 376 n :end\r\n".to_vec());
    e.on_line(&b":n!u@h JOIN :#nibl\r\n".to_vec());
    let step = e.on_line(
        &b":Archive!x@y PRIVMSG nick :\x01DCC SEND a.mkv 3232235521 5000 1000000\x01\r\n".to_vec(),
    );
    e.on_probe_result(step.probe.unwrap(), Some(400000));
    assert!(e.pending.contains(&b"5000".to_vec()));

    // pings, chatter, even an acceptance on another port: the parked
    // transfer stays parked and spawns nothing
    let lines: Vec<Vec<u8>> = vec![
        b"PING :9\r\n".to_vec(),
        b":x PRIVMSG n :hello there\r\n".to_vec(),
        b":A PRIVMSG n :\x01DCC ACCEPT other.mkv 9999 3\x01\r\n".to_vec(),
    ];
    e.parked_entry_survives(&b"5000".to_vec(), &lines);
    assert!(e.pending.contains(&b"5000".to_vec()));
    assert_eq!(e.workers_spawned, 0);

    // the matching acceptance finally releases it
    let step = e.on_line(&b":A PRIVMSG n :\x01DCC ACCEPT a.mkv 5000 400000\x01\r\n".to_vec());
    assert_eq!(step.spawn.unwrap().resume_position, 400000);
    assert!(!e.pending.contains(&b"5000".to_vec()));
}

#[test]
fn poll_target_names_the_latest_transfer() {
    let mut e = started(vec![7]);
    e.on_line(&b":s 376 n :end\r\n".to_vec());
    e.on_line(&b":n!u@h JOIN :#nibl\r\n".to_vec());
    assert_eq!(e.poll_target(), None);
    let step = e.on_line(&b"DCC SEND a.mkv 16909060 5000 1000\r\n".to_vec());
    e.on_probe_result(step.probe.unwrap(), None);
    assert_eq!(e.poll_target(), Some((b"a.mkv".to_vec(), 1000)));
}
