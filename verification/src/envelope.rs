use vstd::prelude::*;

verus! {

/// An attribute of the session visible to rule evaluation. Values
/// appear progressively as the session advances, so each stage admits
/// only a subset of keys.
#[derive(Clone, Copy, PartialEq, Eq, Structural, Debug)]
pub enum EnvelopeKey {
    Recipient,
    RecipientDomain,
    Sender,
    SenderDomain,
    AuthenticatedAs,
    Listener,
    RemoteIp,
    LocalIp,
    Priority,
    HeloDomain,
}

/// The per-session variable bag that conditions are evaluated against.
/// Every attribute is carried as plain bytes; an attribute not yet
/// known at the current stage is simply empty.
#[derive(Clone, Debug)]
pub struct Envelope {
    pub listener: Vec<u8>,
    pub remote_ip: Vec<u8>,
    pub local_ip: Vec<u8>,
    pub helo_domain: Vec<u8>,
    pub authenticated_as: Vec<u8>,
    pub sender: Vec<u8>,
    pub sender_domain: Vec<u8>,
    pub rcpt: Vec<u8>,
    pub rcpt_domain: Vec<u8>,
    pub priority: Vec<u8>,
}

/// The bytes the envelope holds under one key.
pub open spec fn env_value(e: Envelope, k: EnvelopeKey) -> Seq<u8> {
    match k {
        EnvelopeKey::Recipient => e.rcpt@,
        EnvelopeKey::RecipientDomain => e.rcpt_domain@,
        EnvelopeKey::Sender => e.sender@,
        EnvelopeKey::SenderDomain => e.sender_domain@,
        EnvelopeKey::AuthenticatedAs => e.authenticated_as@,
        EnvelopeKey::Listener => e.listener@,
        EnvelopeKey::RemoteIp => e.remote_ip@,
        EnvelopeKey::LocalIp => e.local_ip@,
        EnvelopeKey::Priority => e.priority@,
        EnvelopeKey::HeloDomain => e.helo_domain@,
    }
}

impl Envelope {
    /// Reads the attribute the key names.
    pub fn value_of(&self, k: EnvelopeKey) -> (r: &Vec<u8>)
        ensures
            r@ == env_value(*self, k),
    {
        match k {
            EnvelopeKey::Recipient => &self.rcpt,
            EnvelopeKey::RecipientDomain => &self.rcpt_domain,
            EnvelopeKey::Sender => &self.sender,
            EnvelopeKey::SenderDomain => &self.sender_domain,
            EnvelopeKey::AuthenticatedAs => &self.authenticated_as,
            EnvelopeKey::Listener => &self.listener,
            EnvelopeKey::RemoteIp => &self.remote_ip,
            EnvelopeKey::LocalIp => &self.local_ip,
            EnvelopeKey::Priority => &self.priority,
            EnvelopeKey::HeloDomain => &self.helo_domain,
        }
    }
}

/// Whether a key list carries the given key.
pub open spec fn spec_has_key(keys: Seq<EnvelopeKey>, k: EnvelopeKey) -> bool {
    exists|i: int| 0 <= i < keys.len() && keys[i] == k
}

/// Whether the key stands in the allowed list.
pub fn has_key(keys: &Vec<EnvelopeKey>, k: EnvelopeKey) -> (r: bool)
    ensures
        r == spec_has_key(keys@, k),
{
    let mut i: usize = 0;
    while i < keys.len()
        invariant
            0 <= i <= keys@.len(),
            forall|j: int| 0 <= j < i ==> keys@[j] != k,
        decreases keys@.len() - i,
    {
        if keys[i] == k {
            return true;
        }
        i = i + 1;
    }
    false
}

} // verus!
