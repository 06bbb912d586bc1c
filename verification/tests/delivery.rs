use smtp_core::outbound::{DeliveryParams, SmtpErrorKind, build_bdat_cmd, build_helo_cmd};
use smtp_core::proto::{
    Reply, Severity, EXT_CHUNKING, EXT_DSN, EXT_SIZE, EXT_SMTP_UTF8, MAIL_RET_HDRS, MAIL_SMTPUTF8,
    RCPT_NOTIFY_FAILURE, RCPT_NOTIFY_NEVER, RCPT_NOTIFY_SUCCESS,
};
use smtp_core::queue::{Error, Message, Recipient, Status};

fn reply(code: u16) -> Reply {
    Reply { code, esc_class: 0, esc_subject: 0, esc_detail: 0, message: Vec::new() }
}

fn msg() -> Message {
    Message {
        return_path: b"s@d".to_vec(),
        size: 42,
        flags: MAIL_SMTPUTF8 | MAIL_RET_HDRS,
        env_id: Some(b"E1".to_vec()),
        priority: 0,
    }
}

fn rcpt(addr: &[u8]) -> Recipient {
    Recipient { address: addr.to_vec(), status: Status::Scheduled, flags: RCPT_NOTIFY_SUCCESS | RCPT_NOTIFY_FAILURE }
}

#[test]
fn mail_from_with_all_parameters() {
    let caps = EXT_SIZE | EXT_SMTP_UTF8 | EXT_DSN | EXT_CHUNKING;
    let cmd = msg().build_mail_from(caps);
    assert_eq!(
        String::from_utf8(cmd).unwrap(),
        "MAIL FROM:<s@d> SIZE=42 SMTPUTF8 RET=HDRS ENVID=E1\r\n"
    );
}

#[test]
fn mail_from_bare() {
    let cmd = msg().build_mail_from(0);
    assert_eq!(String::from_utf8(cmd).unwrap(), "MAIL FROM:<s@d>\r\n");
}

#[test]
fn rcpt_to_notify_list() {
    let m = msg();
    let cmd = m.build_rcpt_to(&rcpt(b"r1@d"), EXT_DSN);
    assert_eq!(String::from_utf8(cmd).unwrap(), "RCPT TO:<r1@d> NOTIFY=SUCCESS,FAILURE\r\n");
    let never = Recipient { address: b"n@d".to_vec(), status: Status::Scheduled, flags: RCPT_NOTIFY_NEVER };
    let cmd = m.build_rcpt_to(&never, EXT_DSN);
    assert_eq!(String::from_utf8(cmd).unwrap(), "RCPT TO:<n@d> NOTIFY=NEVER\r\n");
    let cmd = m.build_rcpt_to(&rcpt(b"r1@d"), 0);
    assert_eq!(String::from_utf8(cmd).unwrap(), "RCPT TO:<r1@d>\r\n");
}

#[test]
fn bdat_and_helo_commands() {
    assert_eq!(String::from_utf8(build_bdat_cmd(42)).unwrap(), "BDAT 42 LAST\r\n");
    assert_eq!(String::from_utf8(build_helo_cmd(b"local", true)).unwrap(), "EHLO local\r\n");
    assert_eq!(String::from_utf8(build_helo_cmd(b"local", false)).unwrap(), "LHLO local\r\n");
}

#[test]
fn severity_classes() {
    assert_eq!(reply(250).severity(), Severity::PositiveCompletion);
    assert_eq!(reply(354).severity(), Severity::PositiveIntermediate);
    assert_eq!(reply(451).severity(), Severity::TransientNegativeCompletion);
    assert_eq!(reply(550).severity(), Severity::PermanentNegativeCompletion);
    assert_eq!(reply(700).severity(), Severity::Invalid);
}

#[test]
fn smtp_happy_path_marks_all_completed() {
    let m = msg();
    let mut rcpts = vec![rcpt(b"r1@d"), rcpt(b"r2@d")];
    let params = DeliveryParams { hostname: b"mx.remote".to_vec(), is_smtp: true };
    let r = m.deliver(&mut rcpts, EXT_CHUNKING, &vec![reply(250), reply(250)], &vec![reply(250)], &params);
    assert!(matches!(r, Status::Completed(())));
    for rc in &rcpts {
        assert!(matches!(rc.status, Status::Completed(_)));
    }
}

#[test]
fn smtp_failed_data_reverts_accepted_rcpts() {
    let m = msg();
    let mut rcpts = vec![rcpt(b"r1@d"), rcpt(b"r2@d")];
    let params = DeliveryParams { hostname: b"mx.remote".to_vec(), is_smtp: true };
    let r = m.deliver(&mut rcpts, 0, &vec![reply(250), reply(250)], &vec![reply(451)], &params);
    assert!(matches!(r, Status::TemporaryFailure(Error::UnexpectedResponse(_))));
    for rc in &rcpts {
        assert!(matches!(rc.status, Status::Scheduled));
    }
}

#[test]
fn terminal_recipients_are_not_attempted() {
    let m = msg();
    let done = Recipient {
        address: b"done@d".to_vec(),
        status: Status::PermanentFailure(smtp_core::queue::HostResponse {
            hostname: smtp_core::queue::ErrorDetails { entity: Vec::new(), details: Vec::new() },
            response: reply(550),
        }),
        flags: 0,
    };
    let mut rcpts = vec![done, rcpt(b"r2@d")];
    let params = DeliveryParams { hostname: b"mx.remote".to_vec(), is_smtp: true };
    // only one RCPT reply is consumed: the terminal recipient gets no command
    let r = m.deliver(&mut rcpts, 0, &vec![reply(250)], &vec![reply(250)], &params);
    assert!(matches!(r, Status::Completed(())));
    assert!(matches!(rcpts[0].status, Status::PermanentFailure(_)));
    assert!(matches!(rcpts[1].status, Status::Completed(_)));
}

#[test]
fn lmtp_mixed_replies_map_per_recipient() {
    let m = msg();
    let mut rcpts = vec![rcpt(b"r1@d"), rcpt(b"r2@d")];
    let params = DeliveryParams { hostname: b"mx.remote".to_vec(), is_smtp: false };
    let r = m.deliver(
        &mut rcpts,
        0,
        &vec![reply(250), reply(250)],
        &vec![reply(250), reply(550)],
        &params,
    );
    assert!(matches!(rcpts[0].status, Status::Completed(_)));
    assert!(matches!(rcpts[1].status, Status::PermanentFailure(_)));
    // both recipients ended terminal, so the message is done
    assert!(matches!(r, Status::Completed(())));
}

#[test]
fn rcpt_temporary_failure_keeps_message_scheduled() {
    let m = msg();
    let mut rcpts = vec![rcpt(b"r1@d"), rcpt(b"r2@d")];
    let params = DeliveryParams { hostname: b"mx.remote".to_vec(), is_smtp: true };
    let r = m.deliver(&mut rcpts, 0, &vec![reply(451), reply(250)], &vec![reply(250)], &params);
    assert!(matches!(r, Status::Scheduled));
    assert!(matches!(rcpts[0].status, Status::TemporaryFailure(_)));
    assert!(matches!(rcpts[1].status, Status::Completed(_)));
}

#[test]
fn smtp_error_classification() {
    let r = Status::from_smtp_error(b"h", b"MAIL", SmtpErrorKind::UnexpectedReply(reply(550)));
    assert!(matches!(r, Status::PermanentFailure(Error::UnexpectedResponse(_))));
    let r = Status::from_smtp_error(b"h", b"MAIL", SmtpErrorKind::UnexpectedReply(reply(421)));
    assert!(matches!(r, Status::TemporaryFailure(Error::UnexpectedResponse(_))));
    let r = Status::from_smtp_error(b"h", b"", SmtpErrorKind::Timeout);
    assert!(matches!(r, Status::TemporaryFailure(Error::Timeout(_))));
    let r = Status::from_smtp_error(b"h", b"", SmtpErrorKind::InvalidTlsName);
    assert!(matches!(r, Status::PermanentFailure(Error::TlsError(_))));
    // a failed authentication attempt is always retried later
    let r = Status::from_auth_error(b"h", b"AUTH ...", SmtpErrorKind::UnexpectedReply(reply(535)));
    assert!(matches!(r, Status::TemporaryFailure(Error::UnexpectedResponse(_))));
    let r = Status::from_auth_error(b"h", b"AUTH ...", SmtpErrorKind::Timeout);
    assert!(matches!(r, Status::TemporaryFailure(Error::Timeout(_))));
}

#[test]
fn constants_match_the_wire_protocol_crate() {
    assert_eq!(smtp_core::proto::EXT_CHUNKING, smtp_proto::EXT_CHUNKING);
    assert_eq!(smtp_core::proto::EXT_DSN, smtp_proto::EXT_DSN);
    assert_eq!(smtp_core::proto::EXT_SIZE, smtp_proto::EXT_SIZE);
    assert_eq!(smtp_core::proto::EXT_SMTP_UTF8, smtp_proto::EXT_SMTP_UTF8);
    assert_eq!(smtp_core::proto::EXT_START_TLS, smtp_proto::EXT_START_TLS);
    assert_eq!(smtp_core::proto::EXT_REQUIRE_TLS, smtp_proto::EXT_REQUIRE_TLS);
    assert_eq!(smtp_core::proto::EXT_PIPELINING, smtp_proto::EXT_PIPELINING);
    assert_eq!(smtp_core::proto::EXT_8BIT_MIME, smtp_proto::EXT_8BIT_MIME);
    assert_eq!(smtp_core::proto::MAIL_REQUIRETLS, smtp_proto::MAIL_REQUIRETLS);
    assert_eq!(smtp_core::proto::MAIL_RET_FULL, smtp_proto::MAIL_RET_FULL);
    assert_eq!(smtp_core::proto::MAIL_RET_HDRS, smtp_proto::MAIL_RET_HDRS);
    assert_eq!(smtp_core::proto::MAIL_SMTPUTF8, smtp_proto::MAIL_SMTPUTF8);
    assert_eq!(smtp_core::proto::RCPT_NOTIFY_SUCCESS, smtp_proto::RCPT_NOTIFY_SUCCESS);
    assert_eq!(smtp_core::proto::RCPT_NOTIFY_FAILURE, smtp_proto::RCPT_NOTIFY_FAILURE);
    assert_eq!(smtp_core::proto::RCPT_NOTIFY_DELAY, smtp_proto::RCPT_NOTIFY_DELAY);
    assert_eq!(smtp_core::proto::RCPT_NOTIFY_NEVER, smtp_proto::RCPT_NOTIFY_NEVER);
    assert_eq!(smtp_core::proto::AUTH_LOGIN, smtp_proto::AUTH_LOGIN);
    assert_eq!(smtp_core::proto::AUTH_PLAIN, smtp_proto::AUTH_PLAIN);
    assert_eq!(smtp_core::proto::AUTH_XOAUTH2, smtp_proto::AUTH_XOAUTH2);
    assert_eq!(smtp_core::proto::AUTH_OAUTHBEARER, smtp_proto::AUTH_OAUTHBEARER);
}

#[test]
fn severity_matches_the_wire_protocol_crate() {
    for code in [200u16, 250, 354, 421, 451, 550, 599, 100] {
        let ours = reply(code).severity();
        let theirs = smtp_proto::Response::new(code, 0, 0, 0, String::new()).severity();
        let same = matches!(
            (ours, theirs),
            (Severity::PositiveCompletion, smtp_proto::Severity::PositiveCompletion)
                | (Severity::PositiveIntermediate, smtp_proto::Severity::PositiveIntermediate)
                | (
                    Severity::TransientNegativeCompletion,
                    smtp_proto::Severity::TransientNegativeCompletion
                )
                | (
                    Severity::PermanentNegativeCompletion,
                    smtp_proto::Severity::PermanentNegativeCompletion
                )
                | (Severity::Invalid, smtp_proto::Severity::Invalid)
        );
        assert!(same);
    }
}

#[test]
fn outbound_command_sequence() {
    // remote advertises PIPELINING, CHUNKING, SIZE, DSN; message size 42,
    // SMTPUTF8 and RET=HDRS set, ENVID E1, two recipients with
    // NOTIFY=SUCCESS,FAILURE
    let caps = smtp_core::proto::EXT_PIPELINING | EXT_CHUNKING | EXT_SIZE | EXT_DSN | EXT_SMTP_UTF8;
    let m = msg();
    let mut commands: Vec<String> = Vec::new();
    commands.push(String::from_utf8(build_helo_cmd(b"local", true)).unwrap());
    commands.push(String::from_utf8(m.build_mail_from(caps)).unwrap());
    for r in [rcpt(b"r1@d"), rcpt(b"r2@d")] {
        commands.push(String::from_utf8(m.build_rcpt_to(&r, caps)).unwrap());
    }
    commands.push(String::from_utf8(build_bdat_cmd(m.size)).unwrap());
    assert_eq!(
        commands,
        vec![
            "EHLO local\r\n".to_string(),
            "MAIL FROM:<s@d> SIZE=42 SMTPUTF8 RET=HDRS ENVID=E1\r\n".to_string(),
            "RCPT TO:<r1@d> NOTIFY=SUCCESS,FAILURE\r\n".to_string(),
            "RCPT TO:<r2@d> NOTIFY=SUCCESS,FAILURE\r\n".to_string(),
            "BDAT 42 LAST\r\n".to_string(),
        ]
    );
}
