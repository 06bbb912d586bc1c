use vstd::prelude::*;

verus! {

// ESMTP extension bits, as a capability set advertised in an EHLO response.
pub const EXT_8BIT_MIME: u32 = 1;
pub const EXT_DELIVER_BY: u32 = 512;
pub const EXT_CHUNKING: u32 = 64;
pub const EXT_DSN: u32 = 1024;
pub const EXT_FUTURE_RELEASE: u32 = 8192;
pub const EXT_MT_PRIORITY: u32 = 32768;
pub const EXT_NO_SOLICITING: u32 = 131072;
pub const EXT_PIPELINING: u32 = 524288;
pub const EXT_REQUIRE_TLS: u32 = 1048576;
pub const EXT_SIZE: u32 = 4194304;
pub const EXT_SMTP_UTF8: u32 = 8388608;
pub const EXT_START_TLS: u32 = 16777216;

// MAIL FROM parameter flags carried on a queued message.
pub const MAIL_RET_FULL: u64 = 8;
pub const MAIL_RET_HDRS: u64 = 16;
pub const MAIL_SMTPUTF8: u64 = 32;
pub const MAIL_REQUIRETLS: u64 = 64;

// DSN NOTIFY flags carried on a recipient.
pub const RCPT_NOTIFY_SUCCESS: u64 = 1;
pub const RCPT_NOTIFY_FAILURE: u64 = 2;
pub const RCPT_NOTIFY_DELAY: u64 = 4;
pub const RCPT_NOTIFY_NEVER: u64 = 8;

// SASL mechanism bits.
pub const AUTH_OAUTHBEARER: u64 = 16;
pub const AUTH_XOAUTH2: u64 = 64;
pub const AUTH_LOGIN: u64 = 549755813888;
pub const AUTH_PLAIN: u64 = 1099511627776;

/// Severity class of an SMTP reply, derived from the first digit of its code.
#[derive(Clone, Copy, PartialEq, Eq, Structural, Debug)]
pub enum Severity {
    PositiveCompletion,
    PositiveIntermediate,
    TransientNegativeCompletion,
    PermanentNegativeCompletion,
    Invalid,
}

/// The severity class that a reply code falls in: 2xx, 3xx, 4xx, 5xx, or invalid.
pub open spec fn spec_severity(code: u16) -> Severity {
    if 200 <= code && code <= 299 {
        Severity::PositiveCompletion
    } else if 300 <= code && code <= 399 {
        Severity::PositiveIntermediate
    } else if 400 <= code && code <= 499 {
        Severity::TransientNegativeCompletion
    } else if 500 <= code && code <= 599 {
        Severity::PermanentNegativeCompletion
    } else {
        Severity::Invalid
    }
}

/// A raw SMTP reply: three-digit code, enhanced status triple, text.
#[derive(Clone, Debug)]
pub struct Reply {
    pub code: u16,
    pub esc_class: u8,
    pub esc_subject: u8,
    pub esc_detail: u8,
    pub message: Vec<u8>,
}

impl Reply {
    pub fn severity(&self) -> (r: Severity)
        ensures
            r == spec_severity(self.code),
    {
        if 200 <= self.code && self.code <= 299 {
            Severity::PositiveCompletion
        } else if 300 <= self.code && self.code <= 399 {
            Severity::PositiveIntermediate
        } else if 400 <= self.code && self.code <= 499 {
            Severity::TransientNegativeCompletion
        } else if 500 <= self.code && self.code <= 599 {
            Severity::PermanentNegativeCompletion
        } else {
            Severity::Invalid
        }
    }
}

/// Decimal digit bytes of `n`, most significant first.
pub open spec fn spec_dec(n: nat) -> Seq<u8>
    decreases n,
{
    if n < 10 {
        seq![(n + 48) as u8]
    } else {
        spec_dec(n / 10).push((n % 10 + 48) as u8)
    }
}

/// The decimal representation of `n`, as ASCII digit bytes.
pub fn u64_to_dec(n: u64) -> (r: Vec<u8>)
    ensures
        r@ == spec_dec(n as nat),
    decreases n,
{
    if n < 10 {
        let mut v: Vec<u8> = Vec::new();
        v.push((n as u8) + 48);
        proof {
            assert(v@ =~= spec_dec(n as nat));
        }
        v
    } else {
        let mut v = u64_to_dec(n / 10);
        v.push(((n % 10) as u8) + 48);
        v
    }
}

/// Whether `b` is an ASCII decimal digit.
pub open spec fn is_digit(b: u8) -> bool {
    48 <= b && b <= 57
}

/// The number that a sequence of decimal digit bytes denotes.
pub open spec fn spec_dec_value(s: Seq<u8>) -> nat
    decreases s.len(),
{
    if s.len() == 0 {
        0
    } else {
        (spec_dec_value(s.drop_last()) * 10 + (s.last() - 48)) as nat
    }
}

/// Whether every byte of `s` is a decimal digit.
pub open spec fn all_digits(s: Seq<u8>) -> bool {
    forall|k: int| 0 <= k < s.len() ==> is_digit(s[k])
}

pub proof fn lemma_dec_digits(n: nat)
    ensures
        spec_dec(n).len() >= 1,
        all_digits(spec_dec(n)),
    decreases n,
{
    if n >= 10 {
        lemma_dec_digits(n / 10);
    }
}

/// Reading back the decimal digits of `n` yields `n`.
pub proof fn lemma_dec_round_trip(n: nat)
    ensures
        spec_dec_value(spec_dec(n)) == n,
    decreases n,
{
    let s = spec_dec(n);
    if n < 10 {
        assert(s.len() == 1);
        assert(s.drop_last() =~= Seq::<u8>::empty());
        assert(spec_dec_value(s.drop_last()) == 0);
        assert(s.last() == (n + 48) as u8);
        assert(s.last() - 48 == n);
        assert(spec_dec_value(s) == (0 * 10 + n) as nat);
    } else {
        lemma_dec_round_trip(n / 10);
        assert(s.drop_last() =~= spec_dec(n / 10));
        assert(spec_dec_value(s.drop_last()) == n / 10);
        assert(s.last() == (n % 10 + 48) as u8);
        assert(s.last() - 48 == n % 10);
        assert(spec_dec_value(s) == ((n / 10) * 10 + n % 10) as nat);
        assert((n / 10) * 10 + n % 10 == n);
    }
}

/// Parse a decimal number. `None` when the bytes are not a plain
/// digit run, or the value does not fit in a `u64`.
pub fn parse_u64(s: &[u8]) -> (r: Option<u64>)
    ensures
        match r {
            Option::Some(v) => s@.len() > 0 && all_digits(s@) && spec_dec_value(s@) == v as nat,
            Option::None => s@.len() == 0 || !all_digits(s@) || spec_dec_value(s@) > u64::MAX,
        },
{
    if s.len() == 0 {
        return Option::None;
    }
    let mut acc: u64 = 0;
    let mut k: usize = 0;
    while k < s.len()
        invariant
            0 <= k <= s@.len(),
            all_digits(s@.subrange(0, k as int)),
            acc as nat == spec_dec_value(s@.subrange(0, k as int)),
        decreases s@.len() - k,
    {
        let b = s[k];
        if b < 48 || b > 57 {
            assert(!is_digit(s@[k as int]));
            return Option::None;
        }
        let d: u64 = (b - 48) as u64;
        if acc > (u64::MAX - d) / 10 {
            proof {
                let t = s@.subrange(0, k + 1 as int);
                assert(t.drop_last() =~= s@.subrange(0, k as int));
                assert(spec_dec_value(t) > u64::MAX);
                if all_digits(s@) {
                    lemma_dec_value_monotone(t, s@);
                }
            }
            return Option::None;
        }
        proof {
            let t = s@.subrange(0, k + 1 as int);
            assert(t.drop_last() =~= s@.subrange(0, k as int));
        }
        acc = acc * 10 + d;
        k = k + 1;
    }
    proof {
        assert(s@.subrange(0, s@.len() as int) =~= s@);
    }
    Option::Some(acc)
}

/// A digit run's value never falls when the run is extended.
proof fn lemma_dec_value_monotone(p: Seq<u8>, s: Seq<u8>)
    requires
        p.len() <= s.len(),
        p =~= s.subrange(0, p.len() as int),
        all_digits(s),
    ensures
        spec_dec_value(s) >= spec_dec_value(p),
    decreases s.len() - p.len(),
{
    if p.len() < s.len() {
        let q = s.subrange(0, p.len() as int + 1);
        assert(q.drop_last() =~= p);
        assert(spec_dec_value(q) == spec_dec_value(p) * 10 + (q.last() - 48));
        lemma_dec_value_monotone(q, s);
    } else {
        assert(p =~= s);
    }
}

} // verus!
