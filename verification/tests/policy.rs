use smtp_core::mta_sts::{Mode, MxPattern, ParseError, Policy};

#[test]
fn parse_policy() {
    for (policy, expected_policy, max_age) in [
        (
            "version: STSv1\nmode: enforce\nmx: mail.example.com\nmx: *.example.net\nmx: backupmx.example.com\nmax_age: 604800",
            Policy {
                id: "abc".to_string(),
                mode: Mode::Enforce,
                mx: vec![
                    MxPattern::Equals(b"mail.example.com".to_vec()),
                    MxPattern::StartsWith(b".example.net".to_vec()),
                    MxPattern::Equals(b"backupmx.example.com".to_vec()),
                ],
            },
            604800,
        ),
        (
            "version: STSv1\nmode: testing\nmx: gmail-smtp-in.l.google.com\nmx: *.gmail-smtp-in.l.google.com\nmax_age: 86400\n",
            Policy {
                id: "abc".to_string(),
                mode: Mode::Testing,
                mx: vec![
                    MxPattern::Equals(b"gmail-smtp-in.l.google.com".to_vec()),
                    MxPattern::StartsWith(b".gmail-smtp-in.l.google.com".to_vec()),
                ],
            },
            86400,
        ),
    ] {
        let (policy, expires_in) = Policy::parse(policy, expected_policy.id.to_string()).unwrap();
        assert_eq!(expires_in, max_age);
        assert_eq!(policy, expected_policy);
    }
}

#[test]
fn policy_round_trip() {
    let text = "version: STSv1\nmode: enforce\nmx: MAIL.Example.COM\nmx: *.Example.net\nmax_age: 7200\n";
    let (policy, age) = Policy::parse(text, "one".to_string()).unwrap();
    assert_eq!(age, 7200);
    assert_eq!(
        policy.mx,
        vec![
            MxPattern::Equals(b"mail.example.com".to_vec()),
            MxPattern::StartsWith(b".example.net".to_vec()),
        ]
    );
    let doc = policy.to_document(age);
    let text2 = String::from_utf8(doc).unwrap();
    let (policy2, age2) = Policy::parse(&text2, "one".to_string()).unwrap();
    assert_eq!(policy2, policy);
    assert_eq!(age2, age);
}

#[test]
fn policy_unsupported_version() {
    let r = Policy::parse("version: STSv2\nmode: enforce\nmx: a.example\n", "x".to_string());
    assert_eq!(r.unwrap_err(), ParseError::UnsupportedVersion);
}

#[test]
fn policy_unsupported_mode() {
    let r = Policy::parse("version: STSv1\nmode: strict\nmx: a.example\n", "x".to_string());
    assert_eq!(r.unwrap_err(), ParseError::UnsupportedMode);
}

#[test]
fn policy_no_mx() {
    let r = Policy::parse("version: STSv1\nmode: enforce\nmax_age: 86400\n", "x".to_string());
    assert_eq!(r.unwrap_err(), ParseError::NoMxEntries);
    let r = Policy::parse("version: STSv1\nmode: enforce\nmx: *.\nmx:\n", "x".to_string());
    assert_eq!(r.unwrap_err(), ParseError::NoMxEntries);
}

#[test]
fn policy_max_age_out_of_range_uses_default() {
    let (_, age) =
        Policy::parse("version: STSv1\nmode: none\nmx: a.example\nmax_age: 10\n", "x".to_string())
            .unwrap();
    assert_eq!(age, 86400);
    let (_, age) = Policy::parse(
        "version: STSv1\nmode: none\nmx: a.example\nmax_age: 99999999999\n",
        "x".to_string(),
    )
    .unwrap();
    assert_eq!(age, 86400);
    let (_, age) =
        Policy::parse("version: STSv1\nmode: none\nmx: a.example\nmax_age: 3600\n", "x".to_string())
            .unwrap();
    assert_eq!(age, 3600);
    // an integer parse accepts one leading plus sign
    let (_, age) = Policy::parse(
        "version: STSv1\nmode: none\nmx: a.example\nmax_age: +604800\n",
        "x".to_string(),
    )
    .unwrap();
    assert_eq!(age, 604800);
}

#[test]
fn policy_unknown_keys_ignored() {
    let (p, _) = Policy::parse(
        "version: STSv1\nextension: ignored\nmode: testing\nmx: a.example\n",
        "x".to_string(),
    )
    .unwrap();
    assert_eq!(p.mode, Mode::Testing);
}
