use vstd::prelude::*;
use vstd::string::StringSliceAdditionalSpecFns;
use vstd::slice::slice_to_vec;
use vstd::pervasive::VecAdditionalExecFns;
use crate::proto::{
    Reply, Severity, spec_severity, spec_dec, u64_to_dec, EXT_SIZE, EXT_REQUIRE_TLS, EXT_SMTP_UTF8,
    EXT_DSN, EXT_CHUNKING, MAIL_REQUIRETLS, MAIL_SMTPUTF8, MAIL_RET_FULL, MAIL_RET_HDRS,
    RCPT_NOTIFY_SUCCESS, RCPT_NOTIFY_FAILURE, RCPT_NOTIFY_DELAY, RCPT_NOTIFY_NEVER,
};
use crate::queue::{Error, ErrorDetails, HostResponse, Message, Recipient, Status};
use crate::text::{push_bytes, push_str};

verus! {

/// Per-attempt parameters of an outbound delivery session that the
/// decision logic reads: the remote hostname and the protocol flavor.
pub struct DeliveryParams {
    pub hostname: Vec<u8>,
    pub is_smtp: bool,
}

/// The empty byte sequence.
pub open spec fn no_bytes() -> Seq<u8> {
    Seq::<u8>::empty()
}

/// The `MAIL FROM` command line for a message, given the remote capability
/// set: each optional parameter appears exactly when both the message flag
/// and the matching capability are present.
pub open spec fn spec_mail_from_cmd(m: Message, caps: u32) -> Seq<u8> {
    ("MAIL FROM:<").spec_bytes() + m.return_path@ + (">").spec_bytes() + (if caps & EXT_SIZE != 0 {
        (" SIZE=").spec_bytes() + spec_dec(m.size as nat)
    } else {
        no_bytes()
    }) + (if m.flags & MAIL_REQUIRETLS != 0 && caps & EXT_REQUIRE_TLS != 0 {
        (" REQUIRETLS").spec_bytes()
    } else {
        no_bytes()
    }) + (if m.flags & MAIL_SMTPUTF8 != 0 && caps & EXT_SMTP_UTF8 != 0 {
        (" SMTPUTF8").spec_bytes()
    } else {
        no_bytes()
    }) + (if caps & EXT_DSN != 0 {
        (if m.flags & MAIL_RET_FULL != 0 {
            (" RET=FULL").spec_bytes()
        } else if m.flags & MAIL_RET_HDRS != 0 {
            (" RET=HDRS").spec_bytes()
        } else {
            no_bytes()
        }) + (match m.env_id {
            Option::Some(e) => (" ENVID=").spec_bytes() + e@,
            Option::None => no_bytes(),
        })
    } else {
        no_bytes()
    }) + ("\r\n").spec_bytes()
}

/// The `NOTIFY=` value list built from a recipient's DSN flags:
/// SUCCESS, DELAY, FAILURE in that order, joined by commas.
pub open spec fn spec_notify_list(flags: u64) -> Seq<u8> {
    (if flags & RCPT_NOTIFY_SUCCESS != 0 {
        ("SUCCESS").spec_bytes()
    } else {
        no_bytes()
    }) + (if flags & RCPT_NOTIFY_DELAY != 0 {
        if flags & RCPT_NOTIFY_SUCCESS != 0 {
            (",DELAY").spec_bytes()
        } else {
            ("DELAY").spec_bytes()
        }
    } else {
        no_bytes()
    }) + (if flags & RCPT_NOTIFY_FAILURE != 0 {
        if flags & (RCPT_NOTIFY_SUCCESS | RCPT_NOTIFY_DELAY) != 0 {
            (",FAILURE").spec_bytes()
        } else {
            ("FAILURE").spec_bytes()
        }
    } else {
        no_bytes()
    })
}

/// The `RCPT TO` command line for one recipient, addressed to the
/// recipient's own address, with a `NOTIFY=` parameter when DSN is
/// advertised and the recipient carries NOTIFY flags.
pub open spec fn spec_rcpt_to_cmd(r: Recipient, caps: u32) -> Seq<u8> {
    ("RCPT TO:<").spec_bytes() + r.address@ + (">").spec_bytes() + (if caps & EXT_DSN != 0 {
        if r.flags & (RCPT_NOTIFY_SUCCESS | RCPT_NOTIFY_FAILURE | RCPT_NOTIFY_DELAY) != 0 {
            (" NOTIFY=").spec_bytes() + spec_notify_list(r.flags)
        } else if r.flags & RCPT_NOTIFY_NEVER != 0 {
            (" NOTIFY=NEVER").spec_bytes()
        } else {
            no_bytes()
        }
    } else {
        no_bytes()
    }) + ("\r\n").spec_bytes()
}

/// The `BDAT` command that frames the whole body as one final chunk.
pub open spec fn spec_bdat_cmd(size: u64) -> Seq<u8> {
    ("BDAT ").spec_bytes() + spec_dec(size as nat) + (" LAST\r\n").spec_bytes()
}

/// The command whose reply the body phase waits for: `BDAT` when the
/// remote advertises CHUNKING, the bare `DATA` command otherwise.
pub open spec fn spec_data_cmd_name(caps: u32, size: u64) -> Seq<u8> {
    if caps & EXT_CHUNKING != 0 {
        spec_bdat_cmd(size)
    } else {
        ("DATA").spec_bytes()
    }
}

impl Message {
    pub fn has_flag(&self, flag: u64) -> (r: bool)
        ensures
            r == (self.flags & flag != 0),
    {
        (self.flags & flag) != 0
    }

    /// Builds the `MAIL FROM` command for this message.
    #[verifier::rlimit(50)]
    pub fn build_mail_from(&self, capabilities: u32) -> (r: Vec<u8>)
        ensures
            r@ == spec_mail_from_cmd(*self, capabilities),
    {
        let mut cmd: Vec<u8> = Vec::new();
        push_str(&mut cmd, "MAIL FROM:<");
        push_bytes(&mut cmd, self.return_path.as_slice());
        push_str(&mut cmd, ">");
        let ghost s1 = ("MAIL FROM:<").spec_bytes() + self.return_path@ + (">").spec_bytes();
        proof {
            assert(cmd@ =~= s1);
        }
        if capabilities & EXT_SIZE != 0 {
            push_str(&mut cmd, " SIZE=");
            let digits = u64_to_dec(self.size);
            push_bytes(&mut cmd, digits.as_slice());
        }
        let ghost s2 = s1 + (if capabilities & EXT_SIZE != 0 {
            (" SIZE=").spec_bytes() + spec_dec(self.size as nat)
        } else {
            no_bytes()
        });
        proof {
            assert(cmd@ =~= s2);
        }
        if self.has_flag(MAIL_REQUIRETLS) && capabilities & EXT_REQUIRE_TLS != 0 {
            push_str(&mut cmd, " REQUIRETLS");
        }
        let ghost s3 = s2 + (if self.flags & MAIL_REQUIRETLS != 0 && capabilities & EXT_REQUIRE_TLS
            != 0 {
            (" REQUIRETLS").spec_bytes()
        } else {
            no_bytes()
        });
        proof {
            assert(cmd@ =~= s3);
        }
        if self.has_flag(MAIL_SMTPUTF8) && capabilities & EXT_SMTP_UTF8 != 0 {
            push_str(&mut cmd, " SMTPUTF8");
        }
        let ghost s4 = s3 + (if self.flags & MAIL_SMTPUTF8 != 0 && capabilities & EXT_SMTP_UTF8
            != 0 {
            (" SMTPUTF8").spec_bytes()
        } else {
            no_bytes()
        });
        proof {
            assert(cmd@ =~= s4);
        }
        if capabilities & EXT_DSN != 0 {
            if self.has_flag(MAIL_RET_FULL) {
                push_str(&mut cmd, " RET=FULL");
            } else if self.has_flag(MAIL_RET_HDRS) {
                push_str(&mut cmd, " RET=HDRS");
            }
            match &self.env_id {
                Option::Some(env_id) => {
                    push_str(&mut cmd, " ENVID=");
                    push_bytes(&mut cmd, env_id.as_slice());
                },
                Option::None => {},
            }
        }
        let ghost s5 = s4 + (if capabilities & EXT_DSN != 0 {
            (if self.flags & MAIL_RET_FULL != 0 {
                (" RET=FULL").spec_bytes()
            } else if self.flags & MAIL_RET_HDRS != 0 {
                (" RET=HDRS").spec_bytes()
            } else {
                no_bytes()
            }) + (if self.env_id is Some {
                (" ENVID=").spec_bytes() + self.env_id->Some_0@
            } else {
                no_bytes()
            })
        } else {
            no_bytes()
        });
        proof {
            assert(cmd@ =~= s5);
        }
        push_str(&mut cmd, "\r\n");
        proof {
            assert(cmd@ =~= spec_mail_from_cmd(*self, capabilities));
        }
        cmd
    }

    /// Builds the `RCPT TO` command for one recipient of this message.
    pub fn build_rcpt_to(&self, rcpt: &Recipient, capabilities: u32) -> (r: Vec<u8>)
        ensures
            r@ == spec_rcpt_to_cmd(*rcpt, capabilities),
    {
        let mut cmd: Vec<u8> = Vec::new();
        push_str(&mut cmd, "RCPT TO:<");
        push_bytes(&mut cmd, rcpt.address.as_slice());
        push_str(&mut cmd, ">");
        let ghost s1 = ("RCPT TO:<").spec_bytes() + rcpt.address@ + (">").spec_bytes();
        proof {
            assert(cmd@ =~= s1);
        }
        if capabilities & EXT_DSN != 0 {
            if rcpt.has_flag(RCPT_NOTIFY_SUCCESS | RCPT_NOTIFY_FAILURE | RCPT_NOTIFY_DELAY) {
                push_str(&mut cmd, " NOTIFY=");
                let mut add_comma = false;
                if rcpt.has_flag(RCPT_NOTIFY_SUCCESS) {
                    push_str(&mut cmd, "SUCCESS");
                    add_comma = true;
                }
                proof {
                    assert(cmd@ =~= s1 + (" NOTIFY=").spec_bytes() + (if rcpt.flags
                        & RCPT_NOTIFY_SUCCESS != 0 {
                        ("SUCCESS").spec_bytes()
                    } else {
                        no_bytes()
                    }));
                }
                if rcpt.has_flag(RCPT_NOTIFY_DELAY) {
                    if add_comma {
                        push_str(&mut cmd, ",DELAY");
                    } else {
                        push_str(&mut cmd, "DELAY");
                        add_comma = true;
                    }
                }
                proof {
                    assert(cmd@ =~= s1 + (" NOTIFY=").spec_bytes() + (if rcpt.flags
                        & RCPT_NOTIFY_SUCCESS != 0 {
                        ("SUCCESS").spec_bytes()
                    } else {
                        no_bytes()
                    }) + (if rcpt.flags & RCPT_NOTIFY_DELAY != 0 {
                        if rcpt.flags & RCPT_NOTIFY_SUCCESS != 0 {
                            (",DELAY").spec_bytes()
                        } else {
                            ("DELAY").spec_bytes()
                        }
                    } else {
                        no_bytes()
                    }));
                }
                if rcpt.has_flag(RCPT_NOTIFY_FAILURE) {
                    if add_comma {
                        push_str(&mut cmd, ",FAILURE");
                    } else {
                        push_str(&mut cmd, "FAILURE");
                    }
                }
                proof {
                    let f = rcpt.flags;
                    assert((f & (1u64 | 4u64) != 0) == ((f & 1u64 != 0) || (f & 4u64 != 0)))
                        by (bit_vector);
                    assert(cmd@ =~= s1 + (" NOTIFY=").spec_bytes() + spec_notify_list(rcpt.flags));
                }
            } else if rcpt.has_flag(RCPT_NOTIFY_NEVER) {
                push_str(&mut cmd, " NOTIFY=NEVER");
            }
        }
        push_str(&mut cmd, "\r\n");
        proof {
            assert(cmd@ =~= spec_rcpt_to_cmd(*rcpt, capabilities));
        }
        cmd
    }
}

impl Recipient {
    pub fn has_flag(&self, flag: u64) -> (r: bool)
        ensures
            r == (self.flags & flag != 0),
    {
        (self.flags & flag) != 0
    }
}

/// Builds the `BDAT <size> LAST` command framing the whole body.
pub fn build_bdat_cmd(size: u64) -> (r: Vec<u8>)
    ensures
        r@ == spec_bdat_cmd(size),
{
    let mut cmd: Vec<u8> = Vec::new();
    push_str(&mut cmd, "BDAT ");
    let digits = u64_to_dec(size);
    push_bytes(&mut cmd, digits.as_slice());
    push_str(&mut cmd, " LAST\r\n");
    proof {
        assert(cmd@ =~= spec_bdat_cmd(size));
    }
    cmd
}

/// The `EHLO` (SMTP) or `LHLO` (LMTP) greeting naming the local host.
pub open spec fn spec_helo_cmd(local_hostname: Seq<u8>, is_smtp: bool) -> Seq<u8> {
    (if is_smtp {
        ("EHLO ").spec_bytes()
    } else {
        ("LHLO ").spec_bytes()
    }) + local_hostname + ("\r\n").spec_bytes()
}

/// Builds the session greeting: `EHLO` toward SMTP, `LHLO` toward LMTP.
pub fn build_helo_cmd(local_hostname: &[u8], is_smtp: bool) -> (r: Vec<u8>)
    ensures
        r@ == spec_helo_cmd(local_hostname@, is_smtp),
{
    let mut cmd: Vec<u8> = Vec::new();
    if is_smtp {
        push_str(&mut cmd, "EHLO ");
    } else {
        push_str(&mut cmd, "LHLO ");
    }
    push_bytes(&mut cmd, local_hostname);
    push_str(&mut cmd, "\r\n");
    cmd
}

/// What went wrong in a single client call toward the remote server.
pub enum SmtpErrorKind {
    UnexpectedReply(Reply),
    Timeout,
    Io(Vec<u8>),
    InvalidTlsName,
    Other(Vec<u8>),
}

/// Whether two replies carry the same code, enhanced status and text.
pub open spec fn reply_like(a: Reply, b: Reply) -> bool {
    a.code == b.code && a.esc_class == b.esc_class && a.esc_subject == b.esc_subject
        && a.esc_detail == b.esc_detail && a.message@ == b.message@
}

/// Copy of a reply.
pub fn clone_reply(r: &Reply) -> (c: Reply)
    ensures
        reply_like(*r, c),
{
    let mut message: Vec<u8> = Vec::new();
    push_bytes(&mut message, r.message.as_slice());
    Reply {
        code: r.code,
        esc_class: r.esc_class,
        esc_subject: r.esc_subject,
        esc_detail: r.esc_detail,
        message,
    }
}

impl Status<(), Error> {
    /// Delivery status derived from a failed client call, per the
    /// severity rule: a 5xx reply is permanent, any other reply and any
    /// transport fault is temporary, except an invalid TLS name, which can
    /// never heal.
    pub fn from_smtp_error(hostname: &[u8], command: &[u8], err: SmtpErrorKind) -> (r: Status<
        (),
        Error,
    >)
        ensures
            match err {
                SmtpErrorKind::UnexpectedReply(reply) => {
                    &&& (spec_severity(reply.code) == Severity::PermanentNegativeCompletion ==> r
                        is PermanentFailure)
                    &&& (spec_severity(reply.code) != Severity::PermanentNegativeCompletion ==> r
                        is TemporaryFailure)
                    &&& match r {
                        Status::PermanentFailure(Error::UnexpectedResponse(hr)) => hr.hostname.entity@
                            == hostname@ && hr.hostname.details@ == command@ && reply_like(
                            reply,
                            hr.response,
                        ),
                        Status::TemporaryFailure(Error::UnexpectedResponse(hr)) => hr.hostname.entity@
                            == hostname@ && hr.hostname.details@ == command@ && reply_like(
                            reply,
                            hr.response,
                        ),
                        _ => false,
                    }
                },
                SmtpErrorKind::Timeout => r is TemporaryFailure && (r matches
                Status::TemporaryFailure(e) && e is Timeout),
                SmtpErrorKind::Io(_) => r is TemporaryFailure && (r matches Status::TemporaryFailure(
                    e,
                ) && e is Io),
                SmtpErrorKind::InvalidTlsName => r is PermanentFailure && (r matches
                Status::PermanentFailure(e) && e is TlsError),
                SmtpErrorKind::Other(_) => r is TemporaryFailure,
            },
    {
        match err {
            SmtpErrorKind::UnexpectedReply(reply) => {
                let permanent = reply.severity() == Severity::PermanentNegativeCompletion;
                let hr = HostResponse {
                    hostname: ErrorDetails {
                        entity: slice_to_vec(hostname),
                        details: slice_to_vec(command),
                    },
                    response: reply,
                };
                if permanent {
                    Status::PermanentFailure(Error::UnexpectedResponse(hr))
                } else {
                    Status::TemporaryFailure(Error::UnexpectedResponse(hr))
                }
            },
            SmtpErrorKind::Timeout => Status::TemporaryFailure(
                Error::Timeout(
                    ErrorDetails {
                        entity: slice_to_vec(hostname),
                        details: slice_to_vec(command),
                    },
                ),
            ),
            SmtpErrorKind::Io(detail) => Status::TemporaryFailure(Error::Io(detail)),
            SmtpErrorKind::InvalidTlsName => Status::PermanentFailure(
                Error::TlsError(
                    ErrorDetails {
                        entity: slice_to_vec(hostname),
                        details: slice_to_vec(command),
                    },
                ),
            ),
            SmtpErrorKind::Other(detail) => Status::TemporaryFailure(Error::Io(detail)),
        }
    }

    /// Delivery status for a failed authentication attempt: whatever
    /// went wrong - a refusing reply, a timeout, a transport fault -
    /// the attempt is retried later, so the failure is temporary.
    pub fn from_auth_error(hostname: &[u8], command: &[u8], err: SmtpErrorKind) -> (r: Status<
        (),
        Error,
    >)
        ensures
            r is TemporaryFailure,
            match err {
                SmtpErrorKind::UnexpectedReply(reply) => (r matches Status::TemporaryFailure(
                    Error::UnexpectedResponse(hr),
                ) && hr.hostname.entity@ == hostname@ && hr.hostname.details@ == command@
                    && reply_like(reply, hr.response)),
                SmtpErrorKind::Timeout => (r matches Status::TemporaryFailure(e) && e is Timeout),
                SmtpErrorKind::Io(_) => (r matches Status::TemporaryFailure(e) && e is Io),
                SmtpErrorKind::InvalidTlsName => (r matches Status::TemporaryFailure(e) && e
                    is TlsError),
                SmtpErrorKind::Other(_) => (r matches Status::TemporaryFailure(e) && e is Io),
            },
    {
        match err {
            SmtpErrorKind::UnexpectedReply(reply) => Status::TemporaryFailure(
                Error::UnexpectedResponse(
                    HostResponse {
                        hostname: ErrorDetails {
                            entity: slice_to_vec(hostname),
                            details: slice_to_vec(command),
                        },
                        response: reply,
                    },
                ),
            ),
            SmtpErrorKind::Timeout => Status::TemporaryFailure(
                Error::Timeout(
                    ErrorDetails {
                        entity: slice_to_vec(hostname),
                        details: slice_to_vec(command),
                    },
                ),
            ),
            SmtpErrorKind::Io(detail) => Status::TemporaryFailure(Error::Io(detail)),
            SmtpErrorKind::InvalidTlsName => Status::TemporaryFailure(
                Error::TlsError(
                    ErrorDetails {
                        entity: slice_to_vec(hostname),
                        details: slice_to_vec(command),
                    },
                ),
            ),
            SmtpErrorKind::Other(detail) => Status::TemporaryFailure(Error::Io(detail)),
        }
    }

    /// Temporary failure naming the stage whose deadline passed.
    pub fn timeout(hostname: &[u8], stage: &[u8]) -> (r: Status<(), Error>)
        ensures
            r is TemporaryFailure,
            (r matches Status::TemporaryFailure(e) && e matches Error::Timeout(d)
                && d.entity@ == hostname@ && d.details@ == stage@),
    {
        Status::TemporaryFailure(
            Error::Timeout(
                ErrorDetails { entity: slice_to_vec(hostname), details: slice_to_vec(stage) },
            ),
        )
    }
}


/// Whether a reply accepts its command.
pub open spec fn is_2xx(r: Reply) -> bool {
    spec_severity(r.code) == Severity::PositiveCompletion
}

/// Whether a reply rejects its command for good.
pub open spec fn is_5xx(r: Reply) -> bool {
    spec_severity(r.code) == Severity::PermanentNegativeCompletion
}

/// How many of the first `i` recipients a delivery session attempts:
/// those whose status is not yet terminal. A recipient already
/// `Completed` or `PermanentFailure` is skipped and gets no command.
pub open spec fn count_planned(recs: Seq<Recipient>, i: int) -> int
    decreases i,
{
    if i <= 0 {
        0
    } else {
        count_planned(recs, i - 1) + if recs[i - 1].status.is_terminal() {
            0int
        } else {
            1int
        }
    }
}

/// Whether recipient `k` is attempted in this session.
pub open spec fn is_planned(recs: Seq<Recipient>, k: int) -> bool {
    !recs[k].status.is_terminal()
}

/// The RCPT reply consumed for planned recipient `k`: planned recipients
/// consume replies in recipient order.
pub open spec fn rcpt_reply_of(recs: Seq<Recipient>, replies: Seq<Reply>, k: int) -> Reply {
    replies[count_planned(recs, k)]
}

/// Whether recipient `k` is attempted and its RCPT command accepted.
pub open spec fn is_accepted(recs: Seq<Recipient>, replies: Seq<Reply>, k: int) -> bool {
    is_planned(recs, k) && is_2xx(rcpt_reply_of(recs, replies, k))
}

/// How many of the first `i` recipients had their RCPT command accepted.
pub open spec fn count_accepted(recs: Seq<Recipient>, replies: Seq<Reply>, i: int) -> int
    decreases i,
{
    if i <= 0 {
        0
    } else {
        count_accepted(recs, replies, i - 1) + if is_accepted(recs, replies, i - 1) {
            1int
        } else {
            0int
        }
    }
}

pub proof fn lemma_count_planned_mono(recs: Seq<Recipient>, i: int, j: int)
    requires
        0 <= i <= j,
    ensures
        count_planned(recs, i) <= count_planned(recs, j),
        count_planned(recs, j) - count_planned(recs, i) <= j - i,
        count_planned(recs, i) >= 0,
    decreases j - i,
{
    if i < j {
        lemma_count_planned_mono(recs, i, j - 1);
    } else {
        lemma_count_planned_nonneg(recs, i);
    }
}

proof fn lemma_count_planned_nonneg(recs: Seq<Recipient>, i: int)
    ensures
        count_planned(recs, i) >= 0,
    decreases i,
{
    if i > 0 {
        lemma_count_planned_nonneg(recs, i - 1);
    }
}

pub proof fn lemma_count_accepted_mono(recs: Seq<Recipient>, replies: Seq<Reply>, i: int, j: int)
    requires
        0 <= i <= j,
    ensures
        count_accepted(recs, replies, i) <= count_accepted(recs, replies, j),
        count_accepted(recs, replies, j) - count_accepted(recs, replies, i) <= j - i,
        count_accepted(recs, replies, i) >= 0,
    decreases j - i,
{
    if i < j {
        lemma_count_accepted_mono(recs, replies, i, j - 1);
    } else {
        lemma_count_accepted_nonneg(recs, replies, i);
    }
}

proof fn lemma_count_accepted_nonneg(recs: Seq<Recipient>, replies: Seq<Reply>, i: int)
    ensures
        count_accepted(recs, replies, i) >= 0,
    decreases i,
{
    if i > 0 {
        lemma_count_accepted_nonneg(recs, replies, i - 1);
    }
}

/// The status a failed RCPT or LMTP DATA reply records: a permanent
/// failure for a 5xx reply, a temporary failure otherwise, in both cases
/// carrying the remote host, the failed command and the raw reply.
pub open spec fn fail_status_matches(
    s: Status<HostResponse<Vec<u8>>, HostResponse<ErrorDetails>>,
    hostname: Seq<u8>,
    cmd: Seq<u8>,
    reply: Reply,
) -> bool {
    if is_5xx(reply) {
        s matches Status::PermanentFailure(hr) && hr.hostname.entity@ == hostname
            && hr.hostname.details@ == cmd && reply_like(reply, hr.response)
    } else {
        s matches Status::TemporaryFailure(hr) && hr.hostname.entity@ == hostname
            && hr.hostname.details@ == cmd && reply_like(reply, hr.response)
    }
}

/// The status of a recipient whose delivery the remote host confirmed.
pub open spec fn completed_status_matches(
    s: Status<HostResponse<Vec<u8>>, HostResponse<ErrorDetails>>,
    hostname: Seq<u8>,
    reply: Reply,
) -> bool {
    s matches Status::Completed(hr) && hr.hostname@ == hostname && reply_like(reply, hr.response)
}

/// Copy of a byte vector.
fn clone_bytes(v: &Vec<u8>) -> (c: Vec<u8>)
    ensures
        c@ == v@,
{
    let mut c: Vec<u8> = Vec::new();
    push_bytes(&mut c, v.as_slice());
    c
}

/// Builds the command name whose reply the body phase consumes:
/// the `BDAT` line under CHUNKING, the bare word `DATA` otherwise.
pub fn build_data_cmd_name(capabilities: u32, size: u64) -> (r: Vec<u8>)
    ensures
        r@ == spec_data_cmd_name(capabilities, size),
{
    if capabilities & EXT_CHUNKING != 0 {
        build_bdat_cmd(size)
    } else {
        let mut cmd: Vec<u8> = Vec::new();
        push_str(&mut cmd, "DATA");
        proof {
            assert(cmd@ =~= ("DATA").spec_bytes());
        }
        cmd
    }
}

impl Message {
    /// Applies the replies of one delivery attempt to the recipient list,
    /// exactly as the session consumed them: one RCPT reply per attempted
    /// (non-terminal) recipient, then, if any recipient was accepted, the
    /// body replies - a single reply under SMTP, one reply per accepted
    /// recipient in RCPT order under LMTP.
    ///
    /// A recipient whose status is already terminal is never attempted
    /// and keeps its status. Under SMTP a body reply other than 250
    /// leaves every accepted recipient exactly as it was, so the attempt
    /// counts for none of them. The result is `Completed` exactly when
    /// every recipient ends terminal; otherwise the message stays
    /// `Scheduled` for retry, unless the SMTP body reply failed, in which
    /// case the reply's severity picks a temporary or permanent failure.
    #[verifier::rlimit(100)]
    pub fn deliver(
        &self,
        recipients: &mut Vec<Recipient>,
        capabilities: u32,
        rcpt_replies: &Vec<Reply>,
        data_replies: &Vec<Reply>,
        params: &DeliveryParams,
    ) -> (r: Status<(), Error>)
        requires
            rcpt_replies@.len() == count_planned(old(recipients)@, old(recipients)@.len() as int),
            ({
                let n_acc = count_accepted(
                    old(recipients)@,
                    rcpt_replies@,
                    old(recipients)@.len() as int,
                );
                if n_acc == 0 {
                    data_replies@.len() == 0
                } else if params.is_smtp {
                    data_replies@.len() == 1
                } else {
                    data_replies@.len() == n_acc
                }
            }),
        ensures
            final(recipients)@.len() == old(recipients)@.len(),
            forall|k: int|
                0 <= k < old(recipients)@.len() ==> final(recipients)@[k].address@ == old(
                    recipients,
                )@[k].address@ && final(recipients)@[k].flags == old(recipients)@[k].flags,
            forall|k: int|
                0 <= k < old(recipients)@.len() && old(recipients)@[k].status.is_terminal()
                    ==> final(recipients)@[k].status == old(recipients)@[k].status,
            forall|k: int|
                0 <= k < old(recipients)@.len() && is_planned(old(recipients)@, k) && !is_2xx(
                    rcpt_reply_of(old(recipients)@, rcpt_replies@, k),
                ) ==> fail_status_matches(
                    final(recipients)@[k].status,
                    params.hostname@,
                    spec_rcpt_to_cmd(old(recipients)@[k], capabilities),
                    rcpt_reply_of(old(recipients)@, rcpt_replies@, k),
                ),
            ({
                let old_r = old(recipients)@;
                let new_r = final(recipients)@;
                let n = old_r.len() as int;
                let n_acc = count_accepted(old_r, rcpt_replies@, n);
                if n_acc > 0 && params.is_smtp && data_replies@[0].code == 250 {
                    forall|k: int|
                        0 <= k < n && is_accepted(old_r, rcpt_replies@, k)
                            ==> completed_status_matches(
                            new_r[k].status,
                            params.hostname@,
                            rcpt_reply_of(old_r, rcpt_replies@, k),
                        )
                } else if n_acc > 0 && params.is_smtp {
                    forall|k: int|
                        0 <= k < n && is_accepted(old_r, rcpt_replies@, k) ==> new_r[k].status
                            == old_r[k].status
                } else if n_acc > 0 {
                    forall|k: int|
                        0 <= k < n && is_accepted(old_r, rcpt_replies@, k) ==> {
                            let rep = data_replies@[count_accepted(old_r, rcpt_replies@, k)];
                            if is_2xx(rep) {
                                completed_status_matches(new_r[k].status, params.hostname@, rep)
                            } else {
                                fail_status_matches(
                                    new_r[k].status,
                                    params.hostname@,
                                    spec_data_cmd_name(capabilities, self.size),
                                    rep,
                                )
                            }
                        }
                } else {
                    true
                }
            }),
            ({
                let old_r = old(recipients)@;
                let new_r = final(recipients)@;
                let n = old_r.len() as int;
                let n_acc = count_accepted(old_r, rcpt_replies@, n);
                if n_acc > 0 && params.is_smtp && data_replies@[0].code != 250 {
                    &&& (is_5xx(data_replies@[0]) ==> r is PermanentFailure)
                    &&& (!is_5xx(data_replies@[0]) ==> r is TemporaryFailure)
                    &&& match r {
                        Status::PermanentFailure(Error::UnexpectedResponse(hr)) => hr.hostname.entity@
                            == params.hostname@ && hr.hostname.details@ == spec_data_cmd_name(
                            capabilities,
                            self.size,
                        ) && reply_like(data_replies@[0], hr.response),
                        Status::TemporaryFailure(Error::UnexpectedResponse(hr)) => hr.hostname.entity@
                            == params.hostname@ && hr.hostname.details@ == spec_data_cmd_name(
                            capabilities,
                            self.size,
                        ) && reply_like(data_replies@[0], hr.response),
                        _ => false,
                    }
                } else {
                    &&& (r is Completed <==> (forall|k: int|
                        0 <= k < n ==> new_r[k].status.is_terminal()))
                    &&& (r is Completed || r is Scheduled)
                }
            }),
    {
        let ghost old_r = recipients@;
        let ghost replies = rcpt_replies@;
        let n = recipients.len();
        let mut accepted_idx: Vec<usize> = Vec::new();
        let mut accepted_rep: Vec<usize> = Vec::new();
        let mut i: usize = 0;
        let mut j: usize = 0;
        while i < n
            invariant
                0 <= i <= n,
                n == recipients@.len(),
                old_r.len() == n,
                replies == rcpt_replies@,
                replies.len() == count_planned(old_r, n as int),
                j == count_planned(old_r, i as int),
                0 <= j <= i,
                forall|k: int| i <= k < n ==> recipients@[k] == old_r[k],
                forall|k: int|
                    0 <= k < i ==> recipients@[k].address@ == old_r[k].address@
                        && recipients@[k].flags == old_r[k].flags,
                forall|k: int|
                    0 <= k < i && old_r[k].status.is_terminal() ==> recipients@[k] == old_r[k],
                forall|k: int|
                    0 <= k < i && is_accepted(old_r, replies, k) ==> recipients@[k] == old_r[k],
                forall|k: int|
                    0 <= k < i && is_planned(old_r, k) && !is_2xx(rcpt_reply_of(old_r, replies, k))
                        ==> fail_status_matches(
                        recipients@[k].status,
                        params.hostname@,
                        spec_rcpt_to_cmd(old_r[k], capabilities),
                        rcpt_reply_of(old_r, replies, k),
                    ),
                accepted_idx@.len() == count_accepted(old_r, replies, i as int),
                accepted_rep@.len() == accepted_idx@.len(),
                forall|m: int|
                    0 <= m < accepted_idx@.len() ==> (#[trigger] accepted_idx@[m] as int) < i,
                forall|m: int|
                    0 <= m < accepted_idx@.len() ==> is_accepted(
                        old_r,
                        replies,
                        #[trigger] accepted_idx@[m] as int,
                    ),
                forall|m: int|
                    0 <= m < accepted_idx@.len() ==> count_accepted(
                        old_r,
                        replies,
                        #[trigger] accepted_idx@[m] as int,
                    ) == m,
                forall|m: int|
                    0 <= m < accepted_idx@.len() ==> (#[trigger] accepted_rep@[m] as int)
                        == count_planned(old_r, accepted_idx@[m] as int),
                forall|k: int|
                    0 <= k < i && is_accepted(old_r, replies, k) ==> 0 <= count_accepted(
                        old_r,
                        replies,
                        k,
                    ) < accepted_idx@.len() && accepted_idx@[count_accepted(old_r, replies, k)] as int
                        == k,
            decreases n - i,
        {
            let terminal = recipients[i].status.terminal();
            proof {
                assert(recipients@[i as int] == old_r[i as int]);
                assert(count_planned(old_r, i + 1 as int) == count_planned(old_r, i as int) + (
                if old_r[i as int].status.is_terminal() {
                    0int
                } else {
                    1int
                }));
                assert(count_accepted(old_r, replies, i + 1 as int) == count_accepted(
                    old_r,
                    replies,
                    i as int,
                ) + (if is_accepted(old_r, replies, i as int) {
                    1int
                } else {
                    0int
                }));
                if !old_r[i as int].status.is_terminal() {
                    lemma_count_planned_mono(old_r, i + 1 as int, n as int);
                }
            }
            if !terminal {
                let sev = rcpt_replies[j].severity();
                if matches!(sev, Severity::PositiveCompletion) {
                    let ghost pre_idx = accepted_idx@;
                    let ghost pre_rep = accepted_rep@;
                    accepted_idx.push(i);
                    accepted_rep.push(j);
                    proof {
                        assert(accepted_idx@ == pre_idx.push(i));
                        assert(accepted_rep@ == pre_rep.push(j));
                        assert(forall|m: int|
                            0 <= m < pre_idx.len() ==> accepted_idx@[m] == #[trigger] pre_idx[m]);
                        assert(forall|m: int|
                            0 <= m < pre_rep.len() ==> accepted_rep@[m] == #[trigger] pre_rep[m]);
                        assert(is_accepted(old_r, replies, i as int));
                        assert(accepted_idx@.len() == count_accepted(old_r, replies, i as int) + 1);
                        assert(accepted_idx@[accepted_idx@.len() - 1] == i);
                        assert(accepted_rep@[accepted_idx@.len() - 1] == j);
                        assert(count_accepted(old_r, replies, i as int + 1) == accepted_idx@.len());
                        assert forall|m: int| 0 <= m < accepted_idx@.len() implies (accepted_idx@[m]
                            as int) < i as int + 1 && is_accepted(
                            old_r,
                            replies,
                            accepted_idx@[m] as int,
                        ) && count_accepted(old_r, replies, accepted_idx@[m] as int) == m && (
                        accepted_rep@[m] as int) == count_planned(
                            old_r,
                            accepted_idx@[m] as int,
                        ) by {
                            if m < pre_idx.len() {
                                assert(accepted_idx@[m] == pre_idx[m]);
                                assert(accepted_rep@[m] == pre_rep[m]);
                            } else {
                                assert(accepted_idx@[m] == i);
                                assert(accepted_rep@[m] == j);
                            }
                        }
                        assert forall|k: int|
                            0 <= k < i as int + 1 && is_accepted(old_r, replies, k) implies 0
                            <= count_accepted(old_r, replies, k) < accepted_idx@.len()
                            && accepted_idx@[count_accepted(old_r, replies, k)] as int == k by {
                            if k == i as int {
                                assert(count_accepted(old_r, replies, k) == accepted_idx@.len()
                                    - 1);
                            } else {
                                assert(0 <= count_accepted(old_r, replies, k) < pre_idx.len());
                                assert(pre_idx[count_accepted(old_r, replies, k)] as int == k);
                                assert(accepted_idx@[count_accepted(old_r, replies, k)]
                                    == pre_idx[count_accepted(old_r, replies, k)]);
                            }
                        }
                    }
                } else {
                    let cmd = self.build_rcpt_to(&recipients[i], capabilities);
                    let reply = clone_reply(&rcpt_replies[j]);
                    let hr = HostResponse {
                        hostname: ErrorDetails { entity: clone_bytes(&params.hostname), details: cmd },
                        response: reply,
                    };
                    let st = if matches!(sev, Severity::PermanentNegativeCompletion) {
                        Status::PermanentFailure(hr)
                    } else {
                        Status::TemporaryFailure(hr)
                    };
                    let addr = clone_bytes(&recipients[i].address);
                    let flags = recipients[i].flags;
                    recipients.set(i, Recipient { address: addr, status: st, flags });
                }
                j = j + 1;
            }
            proof {
                assert forall|m: int| 0 <= m < accepted_idx@.len() implies (accepted_idx@[m]
                    as int) < i as int + 1 && is_accepted(old_r, replies, accepted_idx@[m] as int)
                    && count_accepted(old_r, replies, accepted_idx@[m] as int) == m && (
                accepted_rep@[m] as int) == count_planned(old_r, accepted_idx@[m] as int) by {
                }
            }
            i = i + 1;
        }
        proof {
            assert(i as int == n as int);
        }
        let ghost recs1 = recipients@;
        let n_acc = accepted_idx.len();
        proof {
            assert(n_acc as int == count_accepted(old_r, replies, n as int));
        }
        if n_acc > 0 {
            if params.is_smtp {
                let code = data_replies[0].code;
                if code == 250 {
                    let mut m: usize = 0;
                    while m < n_acc
                        invariant
                            0 <= m <= n_acc,
                            n_acc == accepted_idx@.len(),
                            accepted_rep@.len() == n_acc,
                            recipients@.len() == n,
                            old_r.len() == n,
                            replies == rcpt_replies@,
                            replies.len() == count_planned(old_r, n as int),
                            n_acc as int == count_accepted(old_r, replies, n as int),
                            forall|mm: int|
                                0 <= mm < n_acc ==> (#[trigger] accepted_idx@[mm] as int) < n,
                            forall|mm: int|
                                0 <= mm < n_acc ==> is_accepted(
                                    old_r,
                                    replies,
                                    #[trigger] accepted_idx@[mm] as int,
                                ),
                            forall|mm: int|
                                0 <= mm < n_acc ==> count_accepted(
                                    old_r,
                                    replies,
                                    #[trigger] accepted_idx@[mm] as int,
                                ) == mm,
                            forall|mm: int|
                                0 <= mm < n_acc ==> (#[trigger] accepted_rep@[mm] as int)
                                    == count_planned(old_r, accepted_idx@[mm] as int),
                            forall|k: int|
                                0 <= k < n && is_accepted(old_r, replies, k) ==> 0
                                    <= count_accepted(old_r, replies, k) < accepted_idx@.len()
                                    && accepted_idx@[count_accepted(old_r, replies, k)] as int == k,
                            forall|k: int|
                                0 <= k < n && is_accepted(old_r, replies, k) && count_accepted(
                                    old_r,
                                    replies,
                                    k,
                                ) < m ==> completed_status_matches(
                                    recipients@[k].status,
                                    params.hostname@,
                                    rcpt_reply_of(old_r, replies, k),
                                ),
                            forall|k: int|
                                0 <= k < n && !(is_accepted(old_r, replies, k) && count_accepted(
                                    old_r,
                                    replies,
                                    k,
                                ) < m) ==> recipients@[k] == recs1[k],
                            forall|k: int|
                                0 <= k < n ==> recipients@[k].address@ == recs1[k].address@
                                    && recipients@[k].flags == recs1[k].flags,
                        decreases n_acc - m,
                    {
                        let k0 = accepted_idx[m];
                        let jj = accepted_rep[m];
                        proof {
                            assert(is_accepted(old_r, replies, k0 as int));
                            assert(count_accepted(old_r, replies, k0 as int) == m as int);
                            assert(is_planned(old_r, k0 as int));
                            assert(count_planned(old_r, k0 as int + 1) == count_planned(
                                old_r,
                                k0 as int,
                            ) + 1);
                            lemma_count_planned_mono(old_r, k0 as int + 1, n as int);
                            assert((jj as int) < replies.len());
                        }
                        let hr = HostResponse {
                            hostname: clone_bytes(&params.hostname),
                            response: clone_reply(&rcpt_replies[jj]),
                        };
                        let addr = clone_bytes(&recipients[k0].address);
                        let flags = recipients[k0].flags;
                        recipients.set(
                            k0,
                            Recipient { address: addr, status: Status::Completed(hr), flags },
                        );
                        m = m + 1;
                    }
                } else {
                    let cmdname = build_data_cmd_name(capabilities, self.size);
                    let reply = clone_reply(&data_replies[0]);
                    return Status::from_smtp_error(
                        params.hostname.as_slice(),
                        cmdname.as_slice(),
                        SmtpErrorKind::UnexpectedReply(reply),
                    );
                }
            } else {
                let mut m: usize = 0;
                while m < n_acc
                    invariant
                        0 <= m <= n_acc,
                        n_acc == accepted_idx@.len(),
                        accepted_rep@.len() == n_acc,
                        recipients@.len() == n,
                        old_r.len() == n,
                        replies == rcpt_replies@,
                        replies.len() == count_planned(old_r, n as int),
                        n_acc as int == count_accepted(old_r, replies, n as int),
                        !params.is_smtp,
                        data_replies@.len() == n_acc,
                        forall|mm: int|
                            0 <= mm < n_acc ==> (#[trigger] accepted_idx@[mm] as int) < n,
                        forall|mm: int|
                            0 <= mm < n_acc ==> is_accepted(
                                old_r,
                                replies,
                                #[trigger] accepted_idx@[mm] as int,
                            ),
                        forall|mm: int|
                            0 <= mm < n_acc ==> count_accepted(
                                old_r,
                                replies,
                                #[trigger] accepted_idx@[mm] as int,
                            ) == mm,
                        forall|mm: int|
                            0 <= mm < n_acc ==> (#[trigger] accepted_rep@[mm] as int)
                                == count_planned(old_r, accepted_idx@[mm] as int),
                        forall|k: int|
                            0 <= k < n && is_accepted(old_r, replies, k) ==> 0 <= count_accepted(
                                old_r,
                                replies,
                                k,
                            ) < accepted_idx@.len() && accepted_idx@[count_accepted(
                                old_r,
                                replies,
                                k,
                            )] as int == k,
                        forall|k: int|
                            0 <= k < n && is_accepted(old_r, replies, k) && count_accepted(
                                old_r,
                                replies,
                                k,
                            ) < m ==> {
                                let rep = data_replies@[count_accepted(old_r, replies, k)];
                                if is_2xx(rep) {
                                    completed_status_matches(
                                        recipients@[k].status,
                                        params.hostname@,
                                        rep,
                                    )
                                } else {
                                    fail_status_matches(
                                        recipients@[k].status,
                                        params.hostname@,
                                        spec_data_cmd_name(capabilities, self.size),
                                        rep,
                                    )
                                }
                            },
                        forall|k: int|
                            0 <= k < n && !(is_accepted(old_r, replies, k) && count_accepted(
                                old_r,
                                replies,
                                k,
                            ) < m) ==> recipients@[k] == recs1[k],
                        forall|k: int|
                            0 <= k < n ==> recipients@[k].address@ == recs1[k].address@
                                && recipients@[k].flags == recs1[k].flags,
                    decreases n_acc - m,
                {
                    let k0 = accepted_idx[m];
                    proof {
                        assert(is_accepted(old_r, replies, k0 as int));
                        assert(count_accepted(old_r, replies, k0 as int) == m as int);
                    }
                    let rep = &data_replies[m];
                    let sev = rep.severity();
                    let st: Status<HostResponse<Vec<u8>>, HostResponse<ErrorDetails>> = if matches!(
                        sev,
                        Severity::PositiveCompletion,
                    ) {
                        Status::Completed(
                            HostResponse {
                                hostname: clone_bytes(&params.hostname),
                                response: clone_reply(rep),
                            },
                        )
                    } else {
                        let cmdname = build_data_cmd_name(capabilities, self.size);
                        let hr = HostResponse {
                            hostname: ErrorDetails {
                                entity: clone_bytes(&params.hostname),
                                details: cmdname,
                            },
                            response: clone_reply(rep),
                        };
                        if matches!(sev, Severity::PermanentNegativeCompletion) {
                            Status::PermanentFailure(hr)
                        } else {
                            Status::TemporaryFailure(hr)
                        }
                    };
                    let addr = clone_bytes(&recipients[k0].address);
                    let flags = recipients[k0].flags;
                    recipients.set(k0, Recipient { address: addr, status: st, flags });
                    m = m + 1;
                }
            }
        }
        let mut all_terminal = true;
        let mut t: usize = 0;
        while t < n
            invariant
                0 <= t <= n,
                n == recipients@.len(),
                all_terminal == (forall|k: int|
                    0 <= k < t ==> recipients@[k].status.is_terminal()),
            decreases n - t,
        {
            if !recipients[t].status.terminal() {
                all_terminal = false;
            }
            t = t + 1;
        }
        if all_terminal {
            Status::Completed(())
        } else {
            Status::Scheduled
        }
    }
}

} // verus!
