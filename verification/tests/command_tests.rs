use anime_dl::commands::{render_command, render_pong, Command, QuitReason};
use anime_dl::engine::SessionConfig;

fn cfg() -> SessionConfig {
    SessionConfig {
        channel: b"nibl".to_vec(),
        nickname: b"randomRustacean".to_vec(),
        bot: b"Archive".to_vec(),
        packages: vec![12, 45],
    }
}

#[test]
fn render_registration() {
    let c = cfg();
    assert_eq!(render_command(&Command::Nick, &c), b"NICK randomRustacean\r\n".to_vec());
    assert_eq!(
        render_command(&Command::User, &c),
        b"USER randomRustacean 0 * randomRustacean\r\n".to_vec()
    );
}

#[test]
fn render_join_and_request() {
    let c = cfg();
    assert_eq!(render_command(&Command::Join, &c), b"JOIN #nibl\r\n".to_vec());
    assert_eq!(
        render_command(&Command::Request(12), &c),
        b"PRIVMSG Archive :xdcc send #12\r\n".to_vec()
    );
    assert_eq!(
        render_command(&Command::Request(-3), &c),
        b"PRIVMSG Archive :xdcc send #-3\r\n".to_vec()
    );
}

#[test]
fn render_pong_replaces_every_ping() {
    assert_eq!(render_pong(&b"PING :1\r\n".to_vec()), b"PONG :1\r\n".to_vec());
    assert_eq!(render_pong(&b"xPINGyPINGz".to_vec()), b"xPONGyPONGz".to_vec());
    assert_eq!(render_pong(&b"PIN".to_vec()), b"PIN".to_vec());
}

#[test]
fn render_resume_quotes_only_spaced_names() {
    let c = cfg();
    assert_eq!(
        render_command(
            &Command::Resume { filename: b"a.mkv".to_vec(), port: b"5000".to_vec(), offset: 400000 },
            &c
        ),
        b"PRIVMSG Archive :\x01DCC RESUME a.mkv 5000 400000\x01\r\n".to_vec()
    );
    assert_eq!(
        render_command(
            &Command::Resume {
                filename: b"a b.mkv".to_vec(),
                port: b"5000".to_vec(),
                offset: 7,
            },
            &c
        ),
        b"PRIVMSG Archive :\x01DCC RESUME \"a b.mkv\" 5000 7\x01\r\n".to_vec()
    );
}

#[test]
fn render_remove_and_cancel() {
    let c = cfg();
    assert_eq!(
        render_command(&Command::Remove(12), &c),
        b"PRIVMSG Archive :xdcc remove #12\r\n".to_vec()
    );
    assert_eq!(
        render_command(&Command::CancelAll, &c),
        b"PRIVMSG Archive :xdcc cancel\r\n".to_vec()
    );
}

#[test]
fn render_quit_reasons() {
    let c = cfg();
    assert_eq!(
        render_command(&Command::Quit(QuitReason::JobDone), &c),
        b"QUIT :my job is done here!\r\n".to_vec()
    );
    assert_eq!(
        render_command(&Command::Quit(QuitReason::Interrupted), &c),
        b"QUIT :Interrupted by user\r\n".to_vec()
    );
    assert_eq!(
        render_command(&Command::Quit(QuitReason::Timeout), &c),
        b"QUIT :Connection timeout\r\n".to_vec()
    );
}
