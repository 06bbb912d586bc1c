use vstd::prelude::*;
use crate::proto::{
    EXT_8BIT_MIME, EXT_PIPELINING, EXT_CHUNKING, EXT_REQUIRE_TLS, EXT_NO_SOLICITING,
    EXT_FUTURE_RELEASE, EXT_DELIVER_BY, EXT_MT_PRIORITY, EXT_SIZE, EXT_START_TLS,
};
use crate::text::push_bytes;

verus! {

/// A reply the inbound session sends: the three-digit code and the
/// enhanced status triple.
#[derive(Clone, Copy, PartialEq, Eq, Structural, Debug)]
pub struct SmtpStatus {
    pub code: u16,
    pub e1: u8,
    pub e2: u8,
    pub e3: u8,
}

/// The greeting-stage settings, already evaluated for this session's
/// envelope.
#[derive(Clone, Copy, PartialEq, Eq, Structural, Debug)]
pub struct EhloSettings {
    pub require: bool,
    pub multiple: bool,
    pub pipelining: bool,
    pub chunking: bool,
    pub requiretls: bool,
    pub no_soliciting: bool,
    pub future_release: bool,
    pub deliver_by: bool,
    pub mt_priority: bool,
    pub size: Option<u64>,
    pub starttls: bool,
}

/// The capability set a greeting advertises: a pure function of the
/// evaluated settings, so it is the same every time it is computed.
/// 8BITMIME is always offered; STARTTLS only while the connection is
/// still plain.
pub open spec fn spec_capabilities(st: EhloSettings, tls_active: bool) -> u32 {
    EXT_8BIT_MIME | (if st.pipelining {
        EXT_PIPELINING
    } else {
        0
    }) | (if st.chunking {
        EXT_CHUNKING
    } else {
        0
    }) | (if st.requiretls {
        EXT_REQUIRE_TLS
    } else {
        0
    }) | (if st.no_soliciting {
        EXT_NO_SOLICITING
    } else {
        0
    }) | (if st.future_release {
        EXT_FUTURE_RELEASE
    } else {
        0
    }) | (if st.deliver_by {
        EXT_DELIVER_BY
    } else {
        0
    }) | (if st.mt_priority {
        EXT_MT_PRIORITY
    } else {
        0
    }) | (if st.size is Some && st.size->0 > 0 {
        EXT_SIZE
    } else {
        0
    }) | (if st.starttls && !tls_active {
        EXT_START_TLS
    } else {
        0
    })
}

/// Computes the advertised capability set.
pub fn capabilities(st: &EhloSettings, tls_active: bool) -> (r: u32)
    ensures
        r == spec_capabilities(*st, tls_active),
{
    let size_bit: u32 = match st.size {
        Option::Some(n) => if n > 0 {
            EXT_SIZE
        } else {
            0
        },
        Option::None => 0,
    };
    EXT_8BIT_MIME | (if st.pipelining {
        EXT_PIPELINING
    } else {
        0
    }) | (if st.chunking {
        EXT_CHUNKING
    } else {
        0
    }) | (if st.requiretls {
        EXT_REQUIRE_TLS
    } else {
        0
    }) | (if st.no_soliciting {
        EXT_NO_SOLICITING
    } else {
        0
    }) | (if st.future_release {
        EXT_FUTURE_RELEASE
    } else {
        0
    }) | (if st.deliver_by {
        EXT_DELIVER_BY
    } else {
        0
    }) | (if st.mt_priority {
        EXT_MT_PRIORITY
    } else {
        0
    }) | size_bit | (if st.starttls && !tls_active {
        EXT_START_TLS
    } else {
        0
    })
}

/// One inbound ESMTP session: what the peer has established so far.
pub struct Session {
    pub tls_active: bool,
    pub has_helo: bool,
    pub helo_domain: Vec<u8>,
    pub authenticated: bool,
    pub auth_errors: u64,
    pub rcpt_errors: u64,
    pub has_mail: bool,
    pub sender: Vec<u8>,
    pub rcpts: Vec<Vec<u8>>,
    pub closed: bool,
}

impl Session {
    /// A fresh session on a newly accepted connection.
    pub fn new(tls_active: bool) -> (r: Session)
        ensures
            r.tls_active == tls_active,
            !r.has_helo,
            !r.authenticated,
            !r.has_mail,
            r.rcpts@.len() == 0,
            r.auth_errors == 0,
            r.rcpt_errors == 0,
            !r.closed,
    {
        Session {
            tls_active,
            has_helo: false,
            helo_domain: Vec::new(),
            authenticated: false,
            auth_errors: 0,
            rcpt_errors: 0,
            has_mail: false,
            sender: Vec::new(),
            rcpts: Vec::new(),
            closed: false,
        }
    }

    /// Handles EHLO or HELO. A repeated greeting is refused with 503
    /// when `ehlo.multiple` is off; otherwise the greeting is accepted
    /// with 250, the transaction state is dropped, and the advertised
    /// capability set is returned - a pure function of the settings,
    /// so two greetings in sequence advertise the same capabilities.
    pub fn handle_ehlo(&mut self, domain: &[u8], st: &EhloSettings) -> (r: (SmtpStatus, u32))
        ensures
            ({
                let (status, caps) = r;
                if old(self).has_helo && !st.multiple {
                    &&& status == (SmtpStatus { code: 503, e1: 5, e2: 5, e3: 1 })
                    &&& caps == 0
                    &&& *final(self) == *old(self)
                } else {
                    &&& status == (SmtpStatus { code: 250, e1: 2, e2: 0, e3: 0 })
                    &&& ehlo_greets(*old(self), *final(self), domain@, *st, caps)
                    &&& caps == spec_capabilities(*st, old(self).tls_active)
                    &&& final(self).has_helo
                    &&& final(self).helo_domain@ == domain@
                    &&& !final(self).has_mail
                    &&& final(self).rcpts@.len() == 0
                    &&& final(self).sender@.len() == 0
                    &&& final(self).tls_active == old(self).tls_active
                    &&& final(self).authenticated == old(self).authenticated
                    &&& final(self).auth_errors == old(self).auth_errors
                    &&& final(self).rcpt_errors == old(self).rcpt_errors
                    &&& final(self).closed == old(self).closed
                }
            }),
    {
        if self.has_helo && !st.multiple {
            return (SmtpStatus { code: 503, e1: 5, e2: 5, e3: 1 }, 0);
        }
        let mut d: Vec<u8> = Vec::new();
        push_bytes(&mut d, domain);
        self.has_helo = true;
        self.helo_domain = d;
        self.has_mail = false;
        self.sender = Vec::new();
        self.rcpts = Vec::new();
        let caps = capabilities(st, self.tls_active);
        (SmtpStatus { code: 250, e1: 2, e2: 0, e3: 0 }, caps)
    }

    /// Handles STARTTLS: accepted with 220 only when the extension is
    /// advertised, that is, configured and not already active. The
    /// session then forgets the greeting, so the peer must greet again
    /// on the fresh channel, where STARTTLS is no longer advertised.
    pub fn handle_starttls(&mut self, st: &EhloSettings) -> (r: SmtpStatus)
        ensures
            if st.starttls && !old(self).tls_active {
                &&& r == (SmtpStatus { code: 220, e1: 2, e2: 0, e3: 0 })
                &&& final(self).tls_active
                &&& !final(self).has_helo
                &&& !final(self).has_mail
                &&& final(self).rcpts@.len() == 0
                &&& final(self).authenticated == old(self).authenticated
                &&& final(self).auth_errors == old(self).auth_errors
                &&& final(self).rcpt_errors == old(self).rcpt_errors
                &&& final(self).closed == old(self).closed
                &&& spec_capabilities(*st, final(self).tls_active) & EXT_START_TLS == 0
            } else {
                r == (SmtpStatus { code: 503, e1: 5, e2: 5, e3: 1 }) && *final(self) == *old(self)
            },
    {
        if st.starttls && !self.tls_active {
            self.tls_active = true;
            self.has_helo = false;
            self.helo_domain = Vec::new();
            self.has_mail = false;
            self.sender = Vec::new();
            self.rcpts = Vec::new();
            proof {
                let c = spec_capabilities(*st, true);
                let t1 = EXT_8BIT_MIME | (if st.pipelining {
                    EXT_PIPELINING
                } else {
                    0u32
                });
                let t2 = t1 | (if st.chunking {
                    EXT_CHUNKING
                } else {
                    0u32
                });
                let t3 = t2 | (if st.requiretls {
                    EXT_REQUIRE_TLS
                } else {
                    0u32
                });
                let t4 = t3 | (if st.no_soliciting {
                    EXT_NO_SOLICITING
                } else {
                    0u32
                });
                let t5 = t4 | (if st.future_release {
                    EXT_FUTURE_RELEASE
                } else {
                    0u32
                });
                let t6 = t5 | (if st.deliver_by {
                    EXT_DELIVER_BY
                } else {
                    0u32
                });
                let t7 = t6 | (if st.mt_priority {
                    EXT_MT_PRIORITY
                } else {
                    0u32
                });
                let t8 = t7 | (if st.size is Some && st.size->0 > 0 {
                    EXT_SIZE
                } else {
                    0u32
                });
                lemma_or_below(EXT_8BIT_MIME, if st.pipelining {
                    EXT_PIPELINING
                } else {
                    0u32
                });
                lemma_or_below(t1, if st.chunking {
                    EXT_CHUNKING
                } else {
                    0u32
                });
                lemma_or_below(t2, if st.requiretls {
                    EXT_REQUIRE_TLS
                } else {
                    0u32
                });
                lemma_or_below(t3, if st.no_soliciting {
                    EXT_NO_SOLICITING
                } else {
                    0u32
                });
                lemma_or_below(t4, if st.future_release {
                    EXT_FUTURE_RELEASE
                } else {
                    0u32
                });
                lemma_or_below(t5, if st.deliver_by {
                    EXT_DELIVER_BY
                } else {
                    0u32
                });
                lemma_or_below(t6, if st.mt_priority {
                    EXT_MT_PRIORITY
                } else {
                    0u32
                });
                lemma_or_below(t7, if st.size is Some && st.size->0 > 0 {
                    EXT_SIZE
                } else {
                    0u32
                });
                lemma_or_below(t8, 0u32);
                assert(c == t8 | 0u32);
                lemma_low_clear_of_starttls(c);
            }
            SmtpStatus { code: 220, e1: 2, e2: 0, e3: 0 }
        } else {
            SmtpStatus { code: 503, e1: 5, e2: 5, e3: 1 }
        }
    }

    /// Handles MAIL FROM. Refused with 503 before a greeting when
    /// `ehlo.require` is on, or when a transaction is already open;
    /// with 530 5.7.0 for an unauthenticated peer when `auth.require`
    /// is on; with 552 5.3.4 when the declared SIZE exceeds the
    /// advertised limit. Otherwise 250 opens the transaction.
    pub fn handle_mail(
        &mut self,
        sender: &[u8],
        declared_size: Option<u64>,
        require_helo: bool,
        require_auth: bool,
        max_size: Option<u64>,
    ) -> (r: SmtpStatus)
        ensures
            ({
                let refused_helo = require_helo && !old(self).has_helo;
                let refused_open = old(self).has_mail;
                let refused_auth = require_auth && !old(self).authenticated;
                let refused_size = max_size is Some && max_size->0 > 0 && declared_size is Some
                    && declared_size->0 > max_size->0;
                if refused_helo || refused_open {
                    r == (SmtpStatus { code: 503, e1: 5, e2: 5, e3: 1 }) && *final(self) == *old(
                        self,
                    )
                } else if refused_auth {
                    r == (SmtpStatus { code: 530, e1: 5, e2: 7, e3: 0 }) && *final(self) == *old(
                        self,
                    )
                } else if refused_size {
                    r == (SmtpStatus { code: 552, e1: 5, e2: 3, e3: 4 }) && *final(self) == *old(
                        self,
                    )
                } else {
                    &&& r == (SmtpStatus { code: 250, e1: 2, e2: 1, e3: 0 })
                    &&& final(self).has_mail
                    &&& final(self).sender@ == sender@
                    &&& final(self).rcpts@.len() == 0
                    &&& final(self).has_helo == old(self).has_helo
                    &&& final(self).helo_domain@ == old(self).helo_domain@
                    &&& final(self).authenticated == old(self).authenticated
                    &&& final(self).tls_active == old(self).tls_active
                    &&& final(self).auth_errors == old(self).auth_errors
                    &&& final(self).rcpt_errors == old(self).rcpt_errors
                    &&& final(self).closed == old(self).closed
                }
            }),
    {
        if (require_helo && !self.has_helo) || self.has_mail {
            return SmtpStatus { code: 503, e1: 5, e2: 5, e3: 1 };
        }
        if require_auth && !self.authenticated {
            return SmtpStatus { code: 530, e1: 5, e2: 7, e3: 0 };
        }
        match (max_size, declared_size) {
            (Option::Some(limit), Option::Some(d)) => {
                if limit > 0 && d > limit {
                    return SmtpStatus { code: 552, e1: 5, e2: 3, e3: 4 };
                }
            },
            _ => {},
        }
        let mut s: Vec<u8> = Vec::new();
        push_bytes(&mut s, sender);
        self.sender = s;
        self.has_mail = true;
        self.rcpts = Vec::new();
        SmtpStatus { code: 250, e1: 2, e2: 1, e3: 0 }
    }

    /// Handles RCPT TO. Refused with 503 before MAIL; with 452 4.5.3
    /// once the recipient cap is reached; with 550 5.7.1, counting one
    /// more recipient error, when relaying is off and the recipient's
    /// domain is not in the lookup list. Otherwise 250 appends the
    /// recipient.
    pub fn handle_rcpt(
        &mut self,
        rcpt: &[u8],
        domain_known: bool,
        relay: bool,
        max_recipients: u64,
    ) -> (r: SmtpStatus)
        requires
            old(self).rcpt_errors < u64::MAX,
        ensures
            ({
                if !old(self).has_mail {
                    r == (SmtpStatus { code: 503, e1: 5, e2: 5, e3: 1 }) && *final(self) == *old(
                        self,
                    )
                } else if old(self).rcpts@.len() >= max_recipients {
                    r == (SmtpStatus { code: 452, e1: 4, e2: 5, e3: 3 }) && *final(self) == *old(
                        self,
                    )
                } else if !relay && !domain_known {
                    &&& r == (SmtpStatus { code: 550, e1: 5, e2: 7, e3: 1 })
                    &&& final(self).rcpt_errors == old(self).rcpt_errors + 1
                    &&& final(self).rcpts@ == old(self).rcpts@
                    &&& final(self).has_mail == old(self).has_mail
                    &&& final(self).sender@ == old(self).sender@
                    &&& final(self).has_helo == old(self).has_helo
                    &&& final(self).authenticated == old(self).authenticated
                    &&& final(self).auth_errors == old(self).auth_errors
                    &&& final(self).tls_active == old(self).tls_active
                    &&& final(self).closed == old(self).closed
                } else {
                    &&& r == (SmtpStatus { code: 250, e1: 2, e2: 1, e3: 5 })
                    &&& final(self).rcpts@.len() == old(self).rcpts@.len() + 1
                    &&& final(self).rcpts@.last()@ == rcpt@
                    &&& (forall|i: int|
                        0 <= i < old(self).rcpts@.len() ==> final(self).rcpts@[i] == old(
                            self,
                        ).rcpts@[i])
                    &&& final(self).has_mail == old(self).has_mail
                    &&& final(self).sender@ == old(self).sender@
                    &&& final(self).has_helo == old(self).has_helo
                    &&& final(self).authenticated == old(self).authenticated
                    &&& final(self).auth_errors == old(self).auth_errors
                    &&& final(self).rcpt_errors == old(self).rcpt_errors
                    &&& final(self).tls_active == old(self).tls_active
                    &&& final(self).closed == old(self).closed
                }
            }),
    {
        if !self.has_mail {
            return SmtpStatus { code: 503, e1: 5, e2: 5, e3: 1 };
        }
        if self.rcpts.len() as u64 >= max_recipients {
            return SmtpStatus { code: 452, e1: 4, e2: 5, e3: 3 };
        }
        if !relay && !domain_known {
            self.rcpt_errors = self.rcpt_errors + 1;
            return SmtpStatus { code: 550, e1: 5, e2: 7, e3: 1 };
        }
        let mut a: Vec<u8> = Vec::new();
        push_bytes(&mut a, rcpt);
        self.rcpts.push(a);
        SmtpStatus { code: 250, e1: 2, e2: 1, e3: 5 }
    }

    /// Handles DATA: 354 invites the body only when the transaction
    /// has at least one accepted recipient; 554 5.5.1 otherwise.
    pub fn handle_data(&self) -> (r: SmtpStatus)
        ensures
            if self.has_mail && self.rcpts@.len() > 0 {
                r == (SmtpStatus { code: 354, e1: 0, e2: 0, e3: 0 })
            } else {
                r == (SmtpStatus { code: 554, e1: 5, e2: 5, e3: 1 })
            },
    {
        if self.has_mail && self.rcpts.len() > 0 {
            SmtpStatus { code: 354, e1: 0, e2: 0, e3: 0 }
        } else {
            SmtpStatus { code: 554, e1: 5, e2: 5, e3: 1 }
        }
    }

    /// Accepts the received message: the transaction closes with 250
    /// and the session is ready for the next one.
    pub fn message_accepted(&mut self) -> (r: SmtpStatus)
        ensures
            r == (SmtpStatus { code: 250, e1: 2, e2: 0, e3: 0 }),
            !final(self).has_mail,
            final(self).rcpts@.len() == 0,
            final(self).has_helo == old(self).has_helo,
            final(self).helo_domain@ == old(self).helo_domain@,
            final(self).authenticated == old(self).authenticated,
            final(self).auth_errors == old(self).auth_errors,
            final(self).rcpt_errors == old(self).rcpt_errors,
            final(self).tls_active == old(self).tls_active,
            final(self).closed == old(self).closed,
    {
        self.has_mail = false;
        self.sender = Vec::new();
        self.rcpts = Vec::new();
        SmtpStatus { code: 250, e1: 2, e2: 0, e3: 0 }
    }

    /// Handles RSET: drops the transaction, keeps the greeting.
    pub fn handle_rset(&mut self) -> (r: SmtpStatus)
        ensures
            r == (SmtpStatus { code: 250, e1: 2, e2: 0, e3: 0 }),
            !final(self).has_mail,
            final(self).rcpts@.len() == 0,
            final(self).has_helo == old(self).has_helo,
            final(self).helo_domain@ == old(self).helo_domain@,
            final(self).authenticated == old(self).authenticated,
            final(self).auth_errors == old(self).auth_errors,
            final(self).rcpt_errors == old(self).rcpt_errors,
            final(self).tls_active == old(self).tls_active,
            final(self).closed == old(self).closed,
    {
        self.has_mail = false;
        self.sender = Vec::new();
        self.rcpts = Vec::new();
        SmtpStatus { code: 250, e1: 2, e2: 0, e3: 0 }
    }

    /// Handles QUIT: 221 and the session closes.
    pub fn handle_quit(&mut self) -> (r: SmtpStatus)
        ensures
            r == (SmtpStatus { code: 221, e1: 2, e2: 0, e3: 0 }),
            final(self).closed,
    {
        self.closed = true;
        SmtpStatus { code: 221, e1: 2, e2: 0, e3: 0 }
    }

    /// Records one authentication outcome: success authenticates the
    /// session; failure counts toward `auth.errors_max`, and reaching
    /// it tells the caller to delay and disconnect.
    pub fn handle_auth_outcome(&mut self, success: bool, errors_max: u64) -> (r: bool)
        requires
            old(self).auth_errors < u64::MAX,
        ensures
            success ==> final(self).authenticated && final(self).auth_errors
                == old(self).auth_errors,
            !success ==> final(self).authenticated == old(self).authenticated
                && final(self).auth_errors == old(self).auth_errors + 1,
            r == (!success && old(self).auth_errors + 1 >= errors_max),
            final(self).has_helo == old(self).has_helo,
            final(self).has_mail == old(self).has_mail,
            final(self).rcpts@ == old(self).rcpts@,
            final(self).rcpt_errors == old(self).rcpt_errors,
            final(self).tls_active == old(self).tls_active,
            final(self).closed == old(self).closed,
    {
        if success {
            self.authenticated = true;
            false
        } else {
            self.auth_errors = self.auth_errors + 1;
            self.auth_errors >= errors_max
        }
    }
}

/// The disjunction of two capability words below the STARTTLS bit
/// stays below it.
proof fn lemma_or_below(x: u32, y: u32)
    requires
        x < 16777216,
        y < 16777216,
    ensures
        (x | y) < 16777216,
{
    assert((x | y) < 16777216) by (bit_vector)
        requires
            x < 16777216u32 && y < 16777216u32,
    ;
}

/// A capability word below the STARTTLS bit does not advertise it.
proof fn lemma_low_clear_of_starttls(x: u32)
    requires
        x < 16777216,
    ensures
        x & EXT_START_TLS == 0,
{
    assert(x & 16777216u32 == 0) by (bit_vector)
        requires
            x < 16777216u32,
    ;
}

/// What an accepted greeting does: exactly the relation that
/// `handle_ehlo` ensures when it replies 250.
pub open spec fn ehlo_greets(
    pre: Session,
    post: Session,
    domain: Seq<u8>,
    st: EhloSettings,
    caps: u32,
) -> bool {
    &&& !(pre.has_helo && !st.multiple)
    &&& caps == spec_capabilities(st, pre.tls_active)
    &&& post.has_helo
    &&& post.helo_domain@ == domain
    &&& !post.has_mail
    &&& post.rcpts@.len() == 0
    &&& post.sender@.len() == 0
    &&& post.tls_active == pre.tls_active
    &&& post.authenticated == pre.authenticated
    &&& post.auth_errors == pre.auth_errors
    &&& post.rcpt_errors == pre.rcpt_errors
    &&& post.closed == pre.closed
}

/// Idempotent greeting: when repeated greetings are allowed, a second
/// EHLO from the same peer advertises exactly the capabilities of the
/// first, and leaves the session in the same reset state as the
/// first did: the capability set depends on the evaluated settings
/// and the channel alone, and a greeting never changes the channel.
pub proof fn lemma_ehlo_idempotent(
    s0: Session,
    s1: Session,
    s2: Session,
    domain: Seq<u8>,
    st: EhloSettings,
    caps1: u32,
    caps2: u32,
)
    requires
        st.multiple,
        ehlo_greets(s0, s1, domain, st, caps1),
        ehlo_greets(s1, s2, domain, st, caps2),
    ensures
        caps2 == caps1,
        s2.has_helo == s1.has_helo,
        s2.helo_domain@ == s1.helo_domain@,
        s2.has_mail == s1.has_mail,
        s2.rcpts@.len() == s1.rcpts@.len(),
        s2.sender@.len() == s1.sender@.len(),
        s2.tls_active == s1.tls_active,
        s2.authenticated == s1.authenticated,
        s2.auth_errors == s1.auth_errors,
        s2.rcpt_errors == s1.rcpt_errors,
{
}

} // verus!
