use smtp_core::config::{
    Config, ConfigContext, ConfigEntry, ConfigError, ConfigValue, MtPriority,
    CONNECT_THROTTLE_KEYS, MAIL_THROTTLE_KEYS,
};
use smtp_core::queue::{Error, Status};
use smtp_core::envelope::{Envelope, EnvelopeKey};
use smtp_core::ifblock::{Condition, IfBlock, IfThen};
use smtp_core::inbound::{EhloSettings, Session, SmtpStatus};
use smtp_core::proto::{AUTH_LOGIN, AUTH_PLAIN, EXT_START_TLS};
use smtp_core::throttle::{
    throttle_key, Admission, Rate, Throttle, ThrottleEntry, ThrottleMap, THROTTLE_LISTENER,
    THROTTLE_SENDER,
};
use smtp_core::tls::{RequireOptional, TlsFailure, TlsStrategy};

fn settings() -> EhloSettings {
    EhloSettings {
        require: true,
        multiple: true,
        pipelining: true,
        chunking: true,
        requiretls: false,
        no_soliciting: false,
        future_release: false,
        deliver_by: false,
        mt_priority: false,
        size: Some(25 * 1024 * 1024),
        starttls: true,
    }
}

fn envelope() -> Envelope {
    Envelope {
        listener: b"smtp".to_vec(),
        remote_ip: b"10.0.0.1".to_vec(),
        local_ip: b"10.0.0.2".to_vec(),
        helo_domain: Vec::new(),
        authenticated_as: Vec::new(),
        sender: Vec::new(),
        sender_domain: Vec::new(),
        rcpt: Vec::new(),
        rcpt_domain: Vec::new(),
        priority: Vec::new(),
    }
}

#[test]
fn repeated_ehlo_advertises_identical_capabilities() {
    let st = settings();
    let mut s = Session::new(false);
    let (r1, caps1) = s.handle_ehlo(b"c.example", &st);
    assert_eq!(r1.code, 250);
    let (r2, caps2) = s.handle_ehlo(b"c.example", &st);
    assert_eq!(r2.code, 250);
    assert_eq!(caps1, caps2);
    assert!(!s.has_mail);
    assert!(s.rcpts.is_empty());
}

#[test]
fn second_ehlo_refused_when_multiple_is_off() {
    let mut st = settings();
    st.multiple = false;
    let mut s = Session::new(false);
    let (r1, _) = s.handle_ehlo(b"c.example", &st);
    assert_eq!(r1.code, 250);
    let (r2, _) = s.handle_ehlo(b"c.example", &st);
    assert_eq!(r2.code, 503);
}

#[test]
fn simple_accept_sequence() {
    let st = settings();
    let mut s = Session::new(false);
    let (r, _) = s.handle_ehlo(b"c.example", &st);
    assert_eq!(r.code, 250);
    let r = s.handle_mail(b"a@x", None, true, false, Some(25 * 1024 * 1024));
    assert_eq!(r.code, 250);
    let r = s.handle_rcpt(b"b@y", true, false, 100);
    assert_eq!(r.code, 250);
    let r = s.handle_data();
    assert_eq!(r.code, 354);
    let r = s.message_accepted();
    assert_eq!((r.code, r.e1, r.e2, r.e3), (250, 2, 0, 0));
    assert!(!s.has_mail);
}

#[test]
fn relay_denied_and_data_refused() {
    let st = settings();
    let mut s = Session::new(false);
    s.handle_ehlo(b"c.example", &st);
    assert_eq!(s.handle_mail(b"a@x", None, true, false, None).code, 250);
    let r = s.handle_rcpt(b"b@y", false, false, 100);
    assert_eq!((r.code, r.e1, r.e2, r.e3), (550, 5, 7, 1));
    assert_eq!(s.rcpt_errors, 1);
    let r = s.handle_data();
    assert_eq!((r.code, r.e1, r.e2, r.e3), (554, 5, 5, 1));
}

#[test]
fn oversize_mail_refused() {
    let st = settings();
    let mut s = Session::new(false);
    s.handle_ehlo(b"c.example", &st);
    let r = s.handle_mail(b"a@x", Some(10000), true, false, Some(1024));
    assert_eq!((r.code, r.e1, r.e2, r.e3), (552, 5, 3, 4));
    assert!(!s.has_mail);
}

#[test]
fn mail_requires_greeting_and_auth() {
    let mut s = Session::new(false);
    let r = s.handle_mail(b"a@x", None, true, false, None);
    assert_eq!(r.code, 503);
    let st = settings();
    s.handle_ehlo(b"c.example", &st);
    let r = s.handle_mail(b"a@x", None, true, true, None);
    assert_eq!((r.code, r.e1, r.e2, r.e3), (530, 5, 7, 0));
}

#[test]
fn starttls_upgrade_drops_the_advertisement() {
    let st = settings();
    let mut s = Session::new(false);
    let (_, caps) = s.handle_ehlo(b"c.example", &st);
    assert!(caps & EXT_START_TLS != 0);
    let r = s.handle_starttls(&st);
    assert_eq!((r.code, r.e1, r.e2, r.e3), (220, 2, 0, 0));
    assert!(!s.has_helo);
    let (_, caps2) = s.handle_ehlo(b"c.example", &st);
    assert!(caps2 & EXT_START_TLS == 0);
    let r = s.handle_starttls(&st);
    assert_eq!(r.code, 503);
}

#[test]
fn max_recipients_enforced() {
    let st = settings();
    let mut s = Session::new(false);
    s.handle_ehlo(b"c.example", &st);
    s.handle_mail(b"a@x", None, true, false, None);
    assert_eq!(s.handle_rcpt(b"r1@y", true, false, 2).code, 250);
    assert_eq!(s.handle_rcpt(b"r2@y", true, false, 2).code, 250);
    let r = s.handle_rcpt(b"r3@y", true, false, 2);
    assert_eq!((r.code, r.e1, r.e2, r.e3), (452, 4, 5, 3));
}

#[test]
fn auth_errors_reach_the_limit() {
    let mut s = Session::new(false);
    assert!(!s.handle_auth_outcome(false, 3));
    assert!(!s.handle_auth_outcome(false, 3));
    assert!(s.handle_auth_outcome(false, 3));
    assert!(!s.handle_auth_outcome(true, 3));
    assert!(s.authenticated);
}

#[test]
fn quit_and_rset() {
    let st = settings();
    let mut s = Session::new(false);
    s.handle_ehlo(b"c.example", &st);
    s.handle_mail(b"a@x", None, true, false, None);
    let r = s.handle_rset();
    assert_eq!(r.code, 250);
    assert!(!s.has_mail);
    assert!(s.has_helo);
    let r = s.handle_quit();
    assert_eq!(r.code, 221);
    assert!(s.closed);
}

#[test]
fn throttle_rate_admissions() {
    let t = Throttle { keys: 0, rate: Some(Rate { requests: 3, period_ms: 1000 }), concurrency: None };
    let mut e = ThrottleEntry::new(100);
    // the nth admission within one period succeeds exactly when n <= rate
    assert_eq!(e.try_admit(&t, 100), Admission::Granted);
    assert_eq!(e.try_admit(&t, 200), Admission::Granted);
    assert_eq!(e.try_admit(&t, 300), Admission::Granted);
    assert_eq!(e.try_admit(&t, 400), Admission::RejectedRate { retry_at_ms: 1100 });
    // a new period refills the bucket
    assert_eq!(e.try_admit(&t, 1100), Admission::Granted);
}

#[test]
fn throttle_concurrency_cap() {
    let t = Throttle { keys: 0, rate: None, concurrency: Some(2) };
    let mut e = ThrottleEntry::new(0);
    assert_eq!(e.try_admit(&t, 0), Admission::Granted);
    assert_eq!(e.try_admit(&t, 0), Admission::Granted);
    assert_eq!(e.try_admit(&t, 0), Admission::RejectedConcurrency);
    e.release();
    assert_eq!(e.try_admit(&t, 0), Admission::Granted);
}

#[test]
fn ifblock_eval_and_key_discipline() {
    let block = IfBlock {
        if_then: vec![IfThen {
            conditions: vec![Condition { key: EnvelopeKey::Listener, value: b"smtp".to_vec() }],
            value: 1u64,
        }],
        default: 0u64,
    };
    let mut env = envelope();
    assert_eq!(*block.eval(&env), 1);
    env.listener = b"submission".to_vec();
    assert_eq!(*block.eval(&env), 0);
    // the block reads only connect-stage keys
    let allowed = vec![EnvelopeKey::Listener, EnvelopeKey::RemoteIp, EnvelopeKey::LocalIp];
    assert!(block.keys_within(&allowed));
    let sender_block = IfBlock {
        if_then: vec![IfThen {
            conditions: vec![Condition { key: EnvelopeKey::Sender, value: b"a@x".to_vec() }],
            value: 1u64,
        }],
        default: 0u64,
    };
    assert!(!sender_block.keys_within(&allowed));
}

#[test]
fn session_config_defaults() {
    let conf = Config { entries: Vec::new() };
    let ctx = ConfigContext { scripts: Vec::new(), lists: Vec::new() };
    let c = conf.parse_session_config(&ctx).unwrap();
    assert_eq!(c.duration.default, 900_000);
    assert_eq!(c.transfer_limit.default, 524_288_000);
    assert_eq!(c.timeout.default, 300_000);
    assert!(c.ehlo.require.default);
    assert!(c.ehlo.multiple.default);
    assert!(c.ehlo.pipelining.default);
    assert!(c.ehlo.chunking.default);
    assert_eq!(c.ehlo.size.default, Some(25 * 1024 * 1024));
    assert_eq!(c.auth.errors_max.default, 3);
    assert_eq!(c.auth.errors_wait.default, 30_000);
    assert_eq!(c.auth.mechanisms.default, 0);
    assert!(!c.rcpt.relay.default);
    assert!(!c.rcpt.expn.default);
    assert!(!c.rcpt.vrfy.default);
    assert_eq!(c.rcpt.errors_max.default, 10);
    assert_eq!(c.rcpt.max_recipients.default, 100);
    assert_eq!(c.data.max_messages.default, 10);
    assert_eq!(c.data.max_message_size.default, 25 * 1024 * 1024);
    assert_eq!(c.data.max_received_headers.default, 50);
    assert_eq!(c.data.max_nested_messages.default, 3);
    assert!(c.data.add_received.default);
    assert!(c.data.add_date.default);
    assert!(c.connect.throttle.is_empty());
    assert!(c.mail.throttle.is_empty());
    assert!(c.rcpt.throttle.is_empty());
}

#[test]
fn session_config_throttles() {
    let t = Throttle {
        keys: THROTTLE_LISTENER | THROTTLE_SENDER,
        rate: Some(Rate { requests: 5, period_ms: 1000 }),
        concurrency: Some(8),
    };
    let conf = Config {
        entries: vec![ConfigEntry {
            key: b"session.mail.throttle".to_vec(),
            block: IfBlock { if_then: Vec::new(), default: ConfigValue::Throttles(vec![t]) },
        }],
    };
    let ctx = ConfigContext { scripts: Vec::new(), lists: Vec::new() };
    let c = conf.parse_session_config(&ctx).unwrap();
    assert_eq!(c.mail.throttle, vec![t]);
    assert_eq!(t.keys & !MAIL_THROTTLE_KEYS, 0);
    // a connect-stage throttle must not group by the sender
    let conf = Config {
        entries: vec![ConfigEntry {
            key: b"session.connect.throttle".to_vec(),
            block: IfBlock { if_then: Vec::new(), default: ConfigValue::Throttles(vec![t]) },
        }],
    };
    assert_ne!(t.keys & !CONNECT_THROTTLE_KEYS, 0);
    let err = match conf.parse_session_config(&ctx) {
        Err(e) => e,
        Ok(_) => panic!("expected an error"),
    };
    assert_eq!(err, ConfigError::DisallowedEnvelopeKey);
}

#[test]
fn tls_failures_classified_by_severity() {
    assert!(matches!(
        TlsFailure::InvalidName.into_status(b"h"),
        Status::PermanentFailure(Error::TlsError(_))
    ));
    assert!(matches!(
        TlsFailure::Timeout.into_status(b"h"),
        Status::TemporaryFailure(Error::TlsError(_))
    ));
    assert!(matches!(
        TlsFailure::Io(b"reset".to_vec()).into_status(b"h"),
        Status::TemporaryFailure(Error::TlsError(_))
    ));
    assert!(matches!(
        TlsFailure::Other.into_status(b"h"),
        Status::TemporaryFailure(Error::TlsError(_))
    ));
}

#[test]
fn session_config_rejects_foreign_stage_keys() {
    // a connect-stage rule must not read the sender
    let conf = Config {
        entries: vec![ConfigEntry {
            key: b"session.connect.script".to_vec(),
            block: IfBlock {
                if_then: vec![IfThen {
                    conditions: vec![Condition {
                        key: EnvelopeKey::Sender,
                        value: b"a@x".to_vec(),
                    }],
                    value: ConfigValue::Text(b"s1".to_vec()),
                }],
                default: ConfigValue::NoValue,
            },
        }],
    };
    let ctx = ConfigContext { scripts: vec![b"s1".to_vec()], lists: Vec::new() };
    let err = match conf.parse_session_config(&ctx) {
        Err(e) => e,
        Ok(_) => panic!("expected an error"),
    };
    assert_eq!(err, ConfigError::DisallowedEnvelopeKey);
}

#[test]
fn session_config_wrong_type_and_unknown_script() {
    let conf = Config {
        entries: vec![ConfigEntry {
            key: b"session.ehlo.require".to_vec(),
            block: IfBlock { if_then: Vec::new(), default: ConfigValue::Int(1) },
        }],
    };
    let ctx = ConfigContext { scripts: Vec::new(), lists: Vec::new() };
    let err = match conf.parse_session_config(&ctx) {
        Err(e) => e,
        Ok(_) => panic!("expected an error"),
    };
    assert_eq!(err, ConfigError::WrongType);
    let conf = Config {
        entries: vec![ConfigEntry {
            key: b"session.mail.script".to_vec(),
            block: IfBlock { if_then: Vec::new(), default: ConfigValue::Text(b"nope".to_vec()) },
        }],
    };
    let err = match conf.parse_session_config(&ctx) {
        Err(e) => e,
        Ok(_) => panic!("expected an error"),
    };
    assert_eq!(err, ConfigError::UnknownCollaborator);
}

#[test]
fn mechanisms_and_priority_parse() {
    let conf = Config {
        entries: vec![ConfigEntry {
            key: b"session.auth.enable".to_vec(),
            block: IfBlock {
                if_then: Vec::new(),
                default: ConfigValue::TextList(vec![b"login".to_vec(), b"PLAIN".to_vec()]),
            },
        }],
    };
    let ctx = ConfigContext { scripts: Vec::new(), lists: Vec::new() };
    let c = conf.parse_session_config(&ctx).unwrap();
    assert_eq!(c.auth.mechanisms.default, AUTH_LOGIN | AUTH_PLAIN);
    let conf = Config {
        entries: vec![ConfigEntry {
            key: b"session.auth.enable".to_vec(),
            block: IfBlock {
                if_then: Vec::new(),
                default: ConfigValue::TextList(vec![b"SCRAM-SHA-1".to_vec()]),
            },
        }],
    };
    let err = match conf.parse_session_config(&ctx) {
        Err(e) => e,
        Ok(_) => panic!("expected an error"),
    };
    assert_eq!(err, ConfigError::UnsupportedMechanism);
    assert_eq!(MtPriority::parse_value(&b"MIXER".to_vec()), Some(MtPriority::Mixer));
    assert_eq!(MtPriority::parse_value(&b"stanag4406".to_vec()), Some(MtPriority::Stanag4406));
    assert_eq!(MtPriority::parse_value(&b"nsep".to_vec()), Some(MtPriority::Nsep));
    assert_eq!(MtPriority::parse_value(&b"other".to_vec()), None);
}

#[test]
fn tls_strategy_flags() {
    let s = TlsStrategy {
        dane: RequireOptional::Optional,
        mta_sts: RequireOptional::Disable,
        tls: RequireOptional::Optional,
    };
    assert!(s.try_dane());
    assert!(!s.is_dane_required());
    assert!(!s.try_mta_sts());
    assert!(!s.is_mta_sts_required());
    assert!(!s.is_tls_required());
    let s = TlsStrategy {
        dane: RequireOptional::Require,
        mta_sts: RequireOptional::Optional,
        tls: RequireOptional::Disable,
    };
    assert!(s.is_dane_required());
    assert!(s.try_mta_sts());
    assert!(s.is_tls_required());
}

#[test]
fn smtp_status_is_plain_data() {
    let r = SmtpStatus { code: 250, e1: 2, e2: 0, e3: 0 };
    assert_eq!(r, SmtpStatus { code: 250, e1: 2, e2: 0, e3: 0 });
}

#[test]
fn throttle_key_selects_attributes() {
    let mut env = envelope();
    env.sender = b"a@x".to_vec();
    let key = throttle_key(THROTTLE_LISTENER | THROTTLE_SENDER, &env);
    assert_eq!(key, b"smtp\0a@x\0".to_vec());
    // distinct keys are throttled independently
    let t = Throttle { keys: 0, rate: Some(Rate { requests: 1, period_ms: 1000 }), concurrency: None };
    let mut map = ThrottleMap::new();
    let other = throttle_key(THROTTLE_LISTENER, &env);
    assert_eq!(map.try_admit(key.clone(), &t, 0), Admission::Granted);
    assert_eq!(map.try_admit(key.clone(), &t, 1), Admission::RejectedRate { retry_at_ms: 1000 });
    assert_eq!(map.try_admit(other, &t, 1), Admission::Granted);
    // an idle key's counters are dropped on access after a further period
    assert_eq!(map.try_admit(key.clone(), &t, 2500), Admission::Granted);
    // concurrency slots come back through the map as well
    let tc = Throttle { keys: 0, rate: None, concurrency: Some(1) };
    let mut map = ThrottleMap::new();
    assert_eq!(map.try_admit(key.clone(), &tc, 0), Admission::Granted);
    assert_eq!(map.try_admit(key.clone(), &tc, 0), Admission::RejectedConcurrency);
    map.release(&key);
    assert_eq!(map.try_admit(key, &tc, 0), Admission::Granted);
}
