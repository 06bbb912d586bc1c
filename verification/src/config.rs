use vstd::prelude::*;
use vstd::string::StringSliceAdditionalSpecFns;
use crate::envelope::EnvelopeKey;
use crate::ifblock::{IfBlock, IfThen, Condition, spec_keys_within};
use crate::text::{bytes_eq, eq_ignore_ascii_case, push_bytes, spec_lower};
use crate::throttle::{
    Throttle, THROTTLE_LISTENER, THROTTLE_REMOTE_IP, THROTTLE_LOCAL_IP, THROTTLE_AUTH_AS,
    THROTTLE_HELO_DOMAIN, THROTTLE_SENDER, THROTTLE_SENDER_DOMAIN, THROTTLE_RCPT,
    THROTTLE_RCPT_DOMAIN,
};
use crate::proto::{AUTH_LOGIN, AUTH_PLAIN, AUTH_XOAUTH2, AUTH_OAUTHBEARER};

verus! {

/// A raw per-key configuration value, before it is given its type.
#[derive(Clone, Debug)]
pub enum ConfigValue {
    Flag(bool),
    Int(u64),
    Text(Vec<u8>),
    TextList(Vec<Vec<u8>>),
    Throttles(Vec<Throttle>),
    NoValue,
}

/// One configured key with its rule block.
#[derive(Clone, Debug)]
pub struct ConfigEntry {
    pub key: Vec<u8>,
    pub block: IfBlock<ConfigValue>,
}

/// The raw key-value configuration the session settings are read from.
#[derive(Clone, Debug)]
pub struct Config {
    pub entries: Vec<ConfigEntry>,
}

/// The named collaborators a configuration may refer to: script ids
/// and lookup-list ids known to the runtime.
#[derive(Clone, Debug)]
pub struct ConfigContext {
    pub scripts: Vec<Vec<u8>>,
    pub lists: Vec<Vec<u8>>,
}

/// Why the session configuration was rejected at load time.
#[derive(Clone, Copy, PartialEq, Eq, Structural, Debug)]
pub enum ConfigError {
    WrongType,
    DisallowedEnvelopeKey,
    UnknownCollaborator,
    UnsupportedMechanism,
    UnsupportedPriority,
}

/// An ESMTP MT-PRIORITY profile.
#[derive(Clone, Copy, PartialEq, Eq, Structural, Debug)]
pub enum MtPriority {
    Mixer,
    Stanag4406,
    Nsep,
}

/// The block configured under a key: the first entry carrying the key.
pub open spec fn spec_lookup(entries: Seq<ConfigEntry>, key: Seq<u8>) -> Option<
    IfBlock<ConfigValue>,
>
    decreases entries.len(),
{
    if entries.len() == 0 {
        Option::None
    } else if entries[0].key@ == key {
        Option::Some(entries[0].block)
    } else {
        spec_lookup(entries.drop_first(), key)
    }
}

/// Whether a name list carries the given name.
pub open spec fn spec_list_has(list: Seq<Vec<u8>>, name: Seq<u8>) -> bool {
    exists|i: int| 0 <= i < list.len() && list[i]@ == name
}

/// Two condition lists that read the same keys against the same bytes.
pub open spec fn conds_like(a: Seq<Condition>, b: Seq<Condition>) -> bool {
    a.len() == b.len() && forall|i: int|
        0 <= i < a.len() ==> (#[trigger] a[i]).key == b[i].key && a[i].value@ == b[i].value@
}

impl Config {
    /// Finds the block configured under a key.
    pub fn lookup(&self, key: &str) -> (r: Option<&IfBlock<ConfigValue>>)
        ensures
            match r {
                Option::Some(b) => spec_lookup(self.entries@, key.spec_bytes()) == Option::Some(*b),
                Option::None => spec_lookup(self.entries@, key.spec_bytes()) == Option::<
                    IfBlock<ConfigValue>,
                >::None,
            },
    {
        let kb = key.as_bytes();
        let mut i: usize = 0;
        proof {
            assert(self.entries@.skip(0) =~= self.entries@);
        }
        while i < self.entries.len()
            invariant
                0 <= i <= self.entries@.len(),
                spec_lookup(self.entries@, kb@) == spec_lookup(
                    self.entries@.skip(i as int),
                    kb@,
                ),
                kb@ == key.spec_bytes(),
            decreases self.entries@.len() - i,
        {
            proof {
                assert(self.entries@.skip(i as int)[0] == self.entries@[i as int]);
                assert(self.entries@.skip(i as int).drop_first() =~= self.entries@.skip(
                    i as int + 1,
                ));
            }
            if bytes_eq(self.entries[i].key.as_slice(), kb) {
                return Option::Some(&self.entries[i].block);
            }
            i = i + 1;
        }
        proof {
            assert(self.entries@.skip(i as int).len() == 0);
        }
        Option::None
    }
}

/// Whether a name stands in a list of known collaborator ids.
pub fn list_has(list: &Vec<Vec<u8>>, name: &Vec<u8>) -> (r: bool)
    ensures
        r == spec_list_has(list@, name@),
{
    let mut i: usize = 0;
    while i < list.len()
        invariant
            0 <= i <= list@.len(),
            forall|j: int| 0 <= j < i ==> (#[trigger] list@[j])@ != name@,
        decreases list@.len() - i,
    {
        if bytes_eq(list[i].as_slice(), name.as_slice()) {
            return true;
        }
        i = i + 1;
    }
    false
}

/// Copy of a condition list.
fn clone_conditions(cs: &Vec<Condition>) -> (r: Vec<Condition>)
    ensures
        conds_like(r@, cs@),
{
    let mut r: Vec<Condition> = Vec::new();
    let mut i: usize = 0;
    while i < cs.len()
        invariant
            0 <= i <= cs@.len(),
            r@.len() == i,
            forall|j: int|
                0 <= j < i ==> (#[trigger] r@[j]).key == cs@[j].key && r@[j].value@
                    == cs@[j].value@,
        decreases cs@.len() - i,
    {
        let mut value: Vec<u8> = Vec::new();
        push_bytes(&mut value, cs[i].value.as_slice());
        r.push(Condition { key: cs[i].key, value });
        i = i + 1;
    }
    r
}

/// Condition lists that read the same keys stay within the same
/// allowed sets.
pub proof fn lemma_conds_like_keys<A, B>(a: IfBlock<A>, b: IfBlock<B>, allowed: Seq<EnvelopeKey>)
    requires
        a.if_then@.len() == b.if_then@.len(),
        forall|m: int|
            0 <= m < a.if_then@.len() ==> conds_like(
                (#[trigger] a.if_then@[m]).conditions@,
                b.if_then@[m].conditions@,
            ),
        spec_keys_within(b, allowed),
    ensures
        spec_keys_within(a, allowed),
{
    assert forall|i: int, j: int|
        0 <= i < a.if_then@.len() && 0 <= j < a.if_then@[i].conditions@.len() implies
        crate::envelope::spec_has_key(
        allowed,
        (#[trigger] a.if_then@[i].conditions@[j]).key,
    ) by {
        assert(conds_like(a.if_then@[i].conditions@, b.if_then@[i].conditions@));
        assert(a.if_then@[i].conditions@[j].key == b.if_then@[i].conditions@[j].key);
    }
}


/// The boolean a raw value carries, if it is one.
pub open spec fn as_flag(v: ConfigValue) -> Option<bool> {
    match v {
        ConfigValue::Flag(b) => Option::Some(b),
        _ => Option::None,
    }
}

/// The integer a raw value carries, if it is one.
pub open spec fn as_int(v: ConfigValue) -> Option<u64> {
    match v {
        ConfigValue::Int(n) => Option::Some(n),
        _ => Option::None,
    }
}

/// The optional integer a raw value carries: an integer, or nothing.
pub open spec fn as_opt_int(v: ConfigValue) -> Option<Option<u64>> {
    match v {
        ConfigValue::Int(n) => Option::Some(Option::Some(n)),
        ConfigValue::NoValue => Option::Some(Option::None),
        _ => Option::None,
    }
}

/// Whether a typed optional-text value faithfully renders a raw one.
pub open spec fn opt_text_matches(rv: ConfigValue, bv: Option<Vec<u8>>) -> bool {
    match rv {
        ConfigValue::Text(t) => bv matches Option::Some(u) && t@ == u@,
        ConfigValue::NoValue => bv is None,
        _ => false,
    }
}

/// The MT-PRIORITY profile a name denotes, compared without regard to
/// ASCII case; an unknown name denotes none.
pub open spec fn spec_prio(name: Seq<u8>) -> Option<MtPriority> {
    if spec_lower(name) == spec_lower(("mixer").spec_bytes()) {
        Option::Some(MtPriority::Mixer)
    } else if spec_lower(name) == spec_lower(("stanag4406").spec_bytes()) {
        Option::Some(MtPriority::Stanag4406)
    } else if spec_lower(name) == spec_lower(("nsep").spec_bytes()) {
        Option::Some(MtPriority::Nsep)
    } else {
        Option::None
    }
}

/// Whether a typed optional-priority value faithfully renders a raw one.
pub open spec fn opt_prio_matches(rv: ConfigValue, bv: Option<MtPriority>) -> bool {
    match rv {
        ConfigValue::Text(t) => spec_prio(t@) is Some && bv == spec_prio(t@),
        ConfigValue::NoValue => bv is None,
        _ => false,
    }
}

/// The mechanism bit a SASL mechanism name denotes, compared without
/// regard to ASCII case; an unknown name denotes none.
pub open spec fn spec_mech_bit(name: Seq<u8>) -> Option<u64> {
    if spec_lower(name) == spec_lower(("LOGIN").spec_bytes()) {
        Option::Some(AUTH_LOGIN)
    } else if spec_lower(name) == spec_lower(("PLAIN").spec_bytes()) {
        Option::Some(AUTH_PLAIN)
    } else if spec_lower(name) == spec_lower(("XOAUTH2").spec_bytes()) {
        Option::Some(AUTH_XOAUTH2)
    } else if spec_lower(name) == spec_lower(("OAUTHBEARER").spec_bytes()) {
        Option::Some(AUTH_OAUTHBEARER)
    } else {
        Option::None
    }
}

/// The bit set that a list of mechanism names denotes, or nothing if
/// one of them is unknown.
pub open spec fn spec_mech_fold(ts: Seq<Vec<u8>>) -> Option<u64>
    decreases ts.len(),
{
    if ts.len() == 0 {
        Option::Some(0u64)
    } else {
        match (spec_mech_fold(ts.drop_last()), spec_mech_bit(ts.last()@)) {
            (Option::Some(acc), Option::Some(bit)) => Option::Some(acc | bit),
            _ => Option::None,
        }
    }
}

/// Whether a typed mechanism-set value faithfully renders a raw one.
pub open spec fn mech_matches(rv: ConfigValue, bv: u64) -> bool {
    match rv {
        ConfigValue::TextList(ts) => spec_mech_fold(ts@) == Option::Some(bv),
        _ => false,
    }
}

/// A block with no arms whose default is the given value.
pub open spec fn armless<T>(b: IfBlock<T>, dflt: T) -> bool {
    b.if_then@.len() == 0 && b.default == dflt
}

/// A typed block that faithfully renders a raw one, arm for arm.
pub open spec fn flag_like(b: IfBlock<bool>, raw: IfBlock<ConfigValue>) -> bool {
    &&& b.if_then@.len() == raw.if_then@.len()
    &&& (forall|m: int|
        0 <= m < b.if_then@.len() ==> conds_like(
            (#[trigger] b.if_then@[m]).conditions@,
            raw.if_then@[m].conditions@,
        ))
    &&& (forall|m: int|
        0 <= m < b.if_then@.len() ==> as_flag(raw.if_then@[m].value) == Option::Some(
            (#[trigger] b.if_then@[m]).value,
        ))
    &&& as_flag(raw.default) == Option::Some(b.default)
}

/// Whether every value of the raw block has this type.
pub open spec fn flag_ok(raw: IfBlock<ConfigValue>) -> bool {
    &&& (forall|m: int| 0 <= m < raw.if_then@.len() ==> as_flag((#[trigger] raw.if_then@[m]).value) is Some)
    &&& as_flag(raw.default) is Some
}

/// A typed block that faithfully renders a raw one, arm for arm.
pub open spec fn int_like(b: IfBlock<u64>, raw: IfBlock<ConfigValue>) -> bool {
    &&& b.if_then@.len() == raw.if_then@.len()
    &&& (forall|m: int|
        0 <= m < b.if_then@.len() ==> conds_like(
            (#[trigger] b.if_then@[m]).conditions@,
            raw.if_then@[m].conditions@,
        ))
    &&& (forall|m: int|
        0 <= m < b.if_then@.len() ==> as_int(raw.if_then@[m].value) == Option::Some(
            (#[trigger] b.if_then@[m]).value,
        ))
    &&& as_int(raw.default) == Option::Some(b.default)
}

/// Whether every value of the raw block has this type.
pub open spec fn int_ok(raw: IfBlock<ConfigValue>) -> bool {
    &&& (forall|m: int| 0 <= m < raw.if_then@.len() ==> as_int((#[trigger] raw.if_then@[m]).value) is Some)
    &&& as_int(raw.default) is Some
}

/// A typed block that faithfully renders a raw one, arm for arm.
pub open spec fn opt_int_like(b: IfBlock<Option<u64>>, raw: IfBlock<ConfigValue>) -> bool {
    &&& b.if_then@.len() == raw.if_then@.len()
    &&& (forall|m: int|
        0 <= m < b.if_then@.len() ==> conds_like(
            (#[trigger] b.if_then@[m]).conditions@,
            raw.if_then@[m].conditions@,
        ))
    &&& (forall|m: int|
        0 <= m < b.if_then@.len() ==> as_opt_int(raw.if_then@[m].value) == Option::Some(
            (#[trigger] b.if_then@[m]).value,
        ))
    &&& as_opt_int(raw.default) == Option::Some(b.default)
}

/// Whether every value of the raw block has this type.
pub open spec fn opt_int_ok(raw: IfBlock<ConfigValue>) -> bool {
    &&& (forall|m: int| 0 <= m < raw.if_then@.len() ==> as_opt_int((#[trigger] raw.if_then@[m]).value) is Some)
    &&& as_opt_int(raw.default) is Some
}

pub open spec fn opt_text_like(b: IfBlock<Option<Vec<u8>>>, raw: IfBlock<ConfigValue>) -> bool {
    &&& b.if_then@.len() == raw.if_then@.len()
    &&& (forall|m: int|
        0 <= m < b.if_then@.len() ==> conds_like(
            (#[trigger] b.if_then@[m]).conditions@,
            raw.if_then@[m].conditions@,
        ))
    &&& (forall|m: int|
        0 <= m < b.if_then@.len() ==> opt_text_matches(
            raw.if_then@[m].value,
            (#[trigger] b.if_then@[m]).value,
        ))
    &&& opt_text_matches(raw.default, b.default)
}

/// Whether every text value of the raw block names a known
/// collaborator, and every value is text or nothing.
pub open spec fn opt_text_ok(raw: IfBlock<ConfigValue>, known: Seq<Vec<u8>>) -> bool {
    &&& (forall|m: int|
        0 <= m < raw.if_then@.len() ==> text_value_ok((#[trigger] raw.if_then@[m]).value, known))
    &&& text_value_ok(raw.default, known)
}

pub open spec fn text_value_ok(v: ConfigValue, known: Seq<Vec<u8>>) -> bool {
    match v {
        ConfigValue::Text(t) => spec_list_has(known, t@),
        ConfigValue::NoValue => true,
        _ => false,
    }
}

pub open spec fn opt_prio_like(b: IfBlock<Option<MtPriority>>, raw: IfBlock<ConfigValue>) -> bool {
    &&& b.if_then@.len() == raw.if_then@.len()
    &&& (forall|m: int|
        0 <= m < b.if_then@.len() ==> conds_like(
            (#[trigger] b.if_then@[m]).conditions@,
            raw.if_then@[m].conditions@,
        ))
    &&& (forall|m: int|
        0 <= m < b.if_then@.len() ==> opt_prio_matches(
            raw.if_then@[m].value,
            (#[trigger] b.if_then@[m]).value,
        ))
    &&& opt_prio_matches(raw.default, b.default)
}

pub open spec fn opt_prio_ok(raw: IfBlock<ConfigValue>) -> bool {
    &&& (forall|m: int| 0 <= m < raw.if_then@.len() ==> prio_value_ok((#[trigger] raw.if_then@[m]).value))
    &&& prio_value_ok(raw.default)
}

pub open spec fn prio_value_ok(v: ConfigValue) -> bool {
    match v {
        ConfigValue::Text(t) => spec_prio(t@) is Some,
        ConfigValue::NoValue => true,
        _ => false,
    }
}

pub open spec fn mech_like(b: IfBlock<u64>, raw: IfBlock<ConfigValue>) -> bool {
    &&& b.if_then@.len() == raw.if_then@.len()
    &&& (forall|m: int|
        0 <= m < b.if_then@.len() ==> conds_like(
            (#[trigger] b.if_then@[m]).conditions@,
            raw.if_then@[m].conditions@,
        ))
    &&& (forall|m: int|
        0 <= m < b.if_then@.len() ==> mech_matches(
            raw.if_then@[m].value,
            (#[trigger] b.if_then@[m]).value,
        ))
    &&& mech_matches(raw.default, b.default)
}

pub open spec fn mech_ok(raw: IfBlock<ConfigValue>) -> bool {
    &&& (forall|m: int| 0 <= m < raw.if_then@.len() ==> mech_value_ok((#[trigger] raw.if_then@[m]).value))
    &&& mech_value_ok(raw.default)
}

pub open spec fn mech_value_ok(v: ConfigValue) -> bool {
    match v {
        ConfigValue::TextList(ts) => spec_mech_fold(ts@) is Some,
        _ => false,
    }
}


impl MtPriority {
    /// Reads an MT-PRIORITY profile name, without regard to ASCII case.
    pub fn parse_value(name: &Vec<u8>) -> (r: Option<MtPriority>)
        ensures
            r == spec_prio(name@),
    {
        if eq_ignore_ascii_case(name.as_slice(), "mixer".as_bytes()) {
            Option::Some(MtPriority::Mixer)
        } else if eq_ignore_ascii_case(name.as_slice(), "stanag4406".as_bytes()) {
            Option::Some(MtPriority::Stanag4406)
        } else if eq_ignore_ascii_case(name.as_slice(), "nsep".as_bytes()) {
            Option::Some(MtPriority::Nsep)
        } else {
            Option::None
        }
    }
}

/// Reads one SASL mechanism name into its bit, without regard to
/// ASCII case; an unsupported name reads as nothing.
pub fn mechanism_bit(name: &Vec<u8>) -> (r: Option<u64>)
    ensures
        r == spec_mech_bit(name@),
{
    if eq_ignore_ascii_case(name.as_slice(), "LOGIN".as_bytes()) {
        Option::Some(AUTH_LOGIN)
    } else if eq_ignore_ascii_case(name.as_slice(), "PLAIN".as_bytes()) {
        Option::Some(AUTH_PLAIN)
    } else if eq_ignore_ascii_case(name.as_slice(), "XOAUTH2".as_bytes()) {
        Option::Some(AUTH_XOAUTH2)
    } else if eq_ignore_ascii_case(name.as_slice(), "OAUTHBEARER".as_bytes()) {
        Option::Some(AUTH_OAUTHBEARER)
    } else {
        Option::None
    }
}

/// An unknown name anywhere in the list spoils the whole fold.
proof fn lemma_mech_fold_none(ts: Seq<Vec<u8>>, i: int)
    requires
        0 <= i < ts.len(),
        spec_mech_bit(ts[i]@) is None,
    ensures
        spec_mech_fold(ts) is None,
    decreases ts.len(),
{
    if i == ts.len() - 1 {
    } else {
        lemma_mech_fold_none(ts.drop_last(), i);
    }
}

/// Folds a list of mechanism names into one bit set.
pub fn fold_mechanisms(ts: &Vec<Vec<u8>>) -> (r: Option<u64>)
    ensures
        r == spec_mech_fold(ts@),
{
    let mut acc: u64 = 0;
    let mut i: usize = 0;
    proof {
        assert(ts@.take(0) =~= Seq::<Vec<u8>>::empty());
    }
    while i < ts.len()
        invariant
            0 <= i <= ts@.len(),
            spec_mech_fold(ts@.take(i as int)) == Option::Some(acc),
        decreases ts@.len() - i,
    {
        match mechanism_bit(&ts[i]) {
            Option::Some(bit) => {
                proof {
                    assert(ts@.take(i + 1 as int).drop_last() =~= ts@.take(i as int));
                    assert(ts@.take(i + 1 as int).last() == ts@[i as int]);
                }
                acc = acc | bit;
            },
            Option::None => {
                proof {
                    lemma_mech_fold_none(ts@, i as int);
                }
                return Option::None;
            },
        }
        i = i + 1;
    }
    proof {
        assert(ts@.take(ts@.len() as int) =~= ts@);
    }
    Option::Some(acc)
}

/// Reads the block under `key` as a boolean rule block, or the default when the key
/// is absent: the arms keep their conditions, each value is typed, and
/// the block may only read allowed envelope keys.
pub fn get_flag_block(conf: &Config, key: &str, dflt: bool, allowed: &Vec<EnvelopeKey>) -> (r:
    Result<IfBlock<bool>, ConfigError>)
    ensures
        (r is Ok) == (match spec_lookup(conf.entries@, key.spec_bytes()) {
            Option::None => true,
            Option::Some(raw) => flag_ok(raw) && spec_keys_within(raw, allowed@),
        }),
        match r {
            Result::Ok(b) => match spec_lookup(conf.entries@, key.spec_bytes()) {
                Option::None => armless(b, dflt),
                Option::Some(raw) => flag_like(b, raw) && spec_keys_within(b, allowed@),
            },
            Result::Err(_) => true,
        },
{
    match conf.lookup(key) {
        Option::None => Result::Ok(IfBlock::new(dflt)),
        Option::Some(raw) => {
            if !raw.keys_within(allowed) {
                return Result::Err(ConfigError::DisallowedEnvelopeKey);
            }
            let mut arms: Vec<IfThen<bool>> = Vec::new();
            let mut m: usize = 0;
            while m < raw.if_then.len()
                invariant
                    0 <= m <= raw.if_then@.len(),
                    spec_lookup(conf.entries@, key.spec_bytes()) == Option::Some(*raw),
                    arms@.len() == m,
                    forall|mm: int|
                        0 <= mm < m ==> as_flag((#[trigger] raw.if_then@[mm]).value) is Some,
                    forall|mm: int|
                        0 <= mm < m ==> conds_like(
                            (#[trigger] arms@[mm]).conditions@,
                            raw.if_then@[mm].conditions@,
                        ),
                    forall|mm: int|
                        0 <= mm < m ==> as_flag(raw.if_then@[mm].value) == Option::Some(
                            (#[trigger] arms@[mm]).value,
                        ),
                decreases raw.if_then@.len() - m,
            {
                let value: bool = match &raw.if_then[m].value {
                    ConfigValue::Flag(b) => *b,
                    _ => {
                        proof {
                            assert(as_flag(raw.if_then@[m as int].value) is None);
                        }
                        return Result::Err(ConfigError::WrongType);
                    },
                };
                let conditions = clone_conditions(&raw.if_then[m].conditions);
                arms.push(IfThen { conditions, value });
                m = m + 1;
            }
            let default: bool = match &raw.default {
                ConfigValue::Flag(b) => *b,
                _ => {
                    proof {
                        assert(as_flag(raw.default) is None);
                    }
                    return Result::Err(ConfigError::WrongType);
                },
            };
            let b = IfBlock { if_then: arms, default };
            proof {
                lemma_conds_like_keys(b, *raw, allowed@);
            }
            Result::Ok(b)
        },
    }
}


/// Reads the block under `key` as an integer rule block, or the default when the key
/// is absent: the arms keep their conditions, each value is typed, and
/// the block may only read allowed envelope keys.
pub fn get_int_block(conf: &Config, key: &str, dflt: u64, allowed: &Vec<EnvelopeKey>) -> (r:
    Result<IfBlock<u64>, ConfigError>)
    ensures
        (r is Ok) == (match spec_lookup(conf.entries@, key.spec_bytes()) {
            Option::None => true,
            Option::Some(raw) => int_ok(raw) && spec_keys_within(raw, allowed@),
        }),
        match r {
            Result::Ok(b) => match spec_lookup(conf.entries@, key.spec_bytes()) {
                Option::None => armless(b, dflt),
                Option::Some(raw) => int_like(b, raw) && spec_keys_within(b, allowed@),
            },
            Result::Err(_) => true,
        },
{
    match conf.lookup(key) {
        Option::None => Result::Ok(IfBlock::new(dflt)),
        Option::Some(raw) => {
            if !raw.keys_within(allowed) {
                return Result::Err(ConfigError::DisallowedEnvelopeKey);
            }
            let mut arms: Vec<IfThen<u64>> = Vec::new();
            let mut m: usize = 0;
            while m < raw.if_then.len()
                invariant
                    0 <= m <= raw.if_then@.len(),
                    spec_lookup(conf.entries@, key.spec_bytes()) == Option::Some(*raw),
                    arms@.len() == m,
                    forall|mm: int|
                        0 <= mm < m ==> as_int((#[trigger] raw.if_then@[mm]).value) is Some,
                    forall|mm: int|
                        0 <= mm < m ==> conds_like(
                            (#[trigger] arms@[mm]).conditions@,
                            raw.if_then@[mm].conditions@,
                        ),
                    forall|mm: int|
                        0 <= mm < m ==> as_int(raw.if_then@[mm].value) == Option::Some(
                            (#[trigger] arms@[mm]).value,
                        ),
                decreases raw.if_then@.len() - m,
            {
                let value: u64 = match &raw.if_then[m].value {
                    ConfigValue::Int(n) => *n,
                    _ => {
                        proof {
                            assert(as_int(raw.if_then@[m as int].value) is None);
                        }
                        return Result::Err(ConfigError::WrongType);
                    },
                };
                let conditions = clone_conditions(&raw.if_then[m].conditions);
                arms.push(IfThen { conditions, value });
                m = m + 1;
            }
            let default: u64 = match &raw.default {
                ConfigValue::Int(n) => *n,
                _ => {
                    proof {
                        assert(as_int(raw.default) is None);
                    }
                    return Result::Err(ConfigError::WrongType);
                },
            };
            let b = IfBlock { if_then: arms, default };
            proof {
                lemma_conds_like_keys(b, *raw, allowed@);
            }
            Result::Ok(b)
        },
    }
}


/// Reads the block under `key` as an optional-integer rule block, or the default when the key
/// is absent: the arms keep their conditions, each value is typed, and
/// the block may only read allowed envelope keys.
pub fn get_opt_int_block(conf: &Config, key: &str, dflt: Option<u64>, allowed: &Vec<EnvelopeKey>) -> (r:
    Result<IfBlock<Option<u64>>, ConfigError>)
    ensures
        (r is Ok) == (match spec_lookup(conf.entries@, key.spec_bytes()) {
            Option::None => true,
            Option::Some(raw) => opt_int_ok(raw) && spec_keys_within(raw, allowed@),
        }),
        match r {
            Result::Ok(b) => match spec_lookup(conf.entries@, key.spec_bytes()) {
                Option::None => armless(b, dflt),
                Option::Some(raw) => opt_int_like(b, raw) && spec_keys_within(b, allowed@),
            },
            Result::Err(_) => true,
        },
{
    match conf.lookup(key) {
        Option::None => Result::Ok(IfBlock::new(dflt)),
        Option::Some(raw) => {
            if !raw.keys_within(allowed) {
                return Result::Err(ConfigError::DisallowedEnvelopeKey);
            }
            let mut arms: Vec<IfThen<Option<u64>>> = Vec::new();
            let mut m: usize = 0;
            while m < raw.if_then.len()
                invariant
                    0 <= m <= raw.if_then@.len(),
                    spec_lookup(conf.entries@, key.spec_bytes()) == Option::Some(*raw),
                    arms@.len() == m,
                    forall|mm: int|
                        0 <= mm < m ==> as_opt_int((#[trigger] raw.if_then@[mm]).value) is Some,
                    forall|mm: int|
                        0 <= mm < m ==> conds_like(
                            (#[trigger] arms@[mm]).conditions@,
                            raw.if_then@[mm].conditions@,
                        ),
                    forall|mm: int|
                        0 <= mm < m ==> as_opt_int(raw.if_then@[mm].value) == Option::Some(
                            (#[trigger] arms@[mm]).value,
                        ),
                decreases raw.if_then@.len() - m,
            {
                let value: Option<u64> = match &raw.if_then[m].value {
                    ConfigValue::Int(n) => Option::Some(*n),
                    ConfigValue::NoValue => Option::None,
                    _ => {
                        proof {
                            assert(as_opt_int(raw.if_then@[m as int].value) is None);
                        }
                        return Result::Err(ConfigError::WrongType);
                    },
                };
                let conditions = clone_conditions(&raw.if_then[m].conditions);
                arms.push(IfThen { conditions, value });
                m = m + 1;
            }
            let default: Option<u64> = match &raw.default {
                ConfigValue::Int(n) => Option::Some(*n),
                ConfigValue::NoValue => Option::None,
                _ => {
                    proof {
                        assert(as_opt_int(raw.default) is None);
                    }
                    return Result::Err(ConfigError::WrongType);
                },
            };
            let b = IfBlock { if_then: arms, default };
            proof {
                lemma_conds_like_keys(b, *raw, allowed@);
            }
            Result::Ok(b)
        },
    }
}


/// Reads the block under `key` as an optional collaborator name, which must be known, or the default when the key
/// is absent: the arms keep their conditions, each value is typed, and
/// the block may only read allowed envelope keys.
pub fn get_opt_text_block(conf: &Config, key: &str, dflt: Option<Vec<u8>>, allowed: &Vec<EnvelopeKey>, known: &Vec<Vec<u8>>) -> (r:
    Result<IfBlock<Option<Vec<u8>>>, ConfigError>)
    ensures
        (r is Ok) == (match spec_lookup(conf.entries@, key.spec_bytes()) {
            Option::None => true,
            Option::Some(raw) => opt_text_ok(raw, known@) && spec_keys_within(raw, allowed@),
        }),
        match r {
            Result::Ok(b) => match spec_lookup(conf.entries@, key.spec_bytes()) {
                Option::None => armless(b, dflt),
                Option::Some(raw) => opt_text_like(b, raw) && spec_keys_within(b, allowed@),
            },
            Result::Err(_) => true,
        },
{
    match conf.lookup(key) {
        Option::None => Result::Ok(IfBlock::new(dflt)),
        Option::Some(raw) => {
            if !raw.keys_within(allowed) {
                return Result::Err(ConfigError::DisallowedEnvelopeKey);
            }
            let mut arms: Vec<IfThen<Option<Vec<u8>>>> = Vec::new();
            let mut m: usize = 0;
            while m < raw.if_then.len()
                invariant
                    0 <= m <= raw.if_then@.len(),
                    spec_lookup(conf.entries@, key.spec_bytes()) == Option::Some(*raw),
                    arms@.len() == m,
                    forall|mm: int|
                        0 <= mm < m ==> text_value_ok((#[trigger] raw.if_then@[mm]).value, known@),
                    forall|mm: int|
                        0 <= mm < m ==> conds_like(
                            (#[trigger] arms@[mm]).conditions@,
                            raw.if_then@[mm].conditions@,
                        ),
                    forall|mm: int|
                        0 <= mm < m ==> opt_text_matches(
                            raw.if_then@[mm].value,
                            (#[trigger] arms@[mm]).value,
                        ),
                decreases raw.if_then@.len() - m,
            {
                let value: Option<Vec<u8>> = match &raw.if_then[m].value {
                    ConfigValue::Text(t) => {
                        if !list_has(known, t) {
                            proof {
                                assert(!text_value_ok(raw.if_then@[m as int].value, known@));
                            }
                            return Result::Err(ConfigError::UnknownCollaborator);
                        }
                        let mut c: Vec<u8> = Vec::new();
                        push_bytes(&mut c, t.as_slice());
                        Option::Some(c)
                    },
                    ConfigValue::NoValue => Option::None,
                    _ => {
                        proof {
                            assert(!text_value_ok(raw.if_then@[m as int].value, known@));
                        }
                        return Result::Err(ConfigError::WrongType);
                    },
                };
                let conditions = clone_conditions(&raw.if_then[m].conditions);
                arms.push(IfThen { conditions, value });
                m = m + 1;
            }
            let default: Option<Vec<u8>> = match &raw.default {
                ConfigValue::Text(t) => {
                    if !list_has(known, t) {
                        proof {
                            assert(!text_value_ok(raw.default, known@));
                        }
                        return Result::Err(ConfigError::UnknownCollaborator);
                    }
                    let mut c: Vec<u8> = Vec::new();
                    push_bytes(&mut c, t.as_slice());
                    Option::Some(c)
                },
                ConfigValue::NoValue => Option::None,
                _ => {
                    proof {
                        assert(!text_value_ok(raw.default, known@));
                    }
                    return Result::Err(ConfigError::WrongType);
                },
            };
            let b = IfBlock { if_then: arms, default };
            proof {
                lemma_conds_like_keys(b, *raw, allowed@);
            }
            Result::Ok(b)
        },
    }
}


/// Reads the block under `key` as an optional MT-PRIORITY profile, or the default when the key
/// is absent: the arms keep their conditions, each value is typed, and
/// the block may only read allowed envelope keys.
pub fn get_opt_prio_block(conf: &Config, key: &str, dflt: Option<MtPriority>, allowed: &Vec<EnvelopeKey>) -> (r:
    Result<IfBlock<Option<MtPriority>>, ConfigError>)
    ensures
        (r is Ok) == (match spec_lookup(conf.entries@, key.spec_bytes()) {
            Option::None => true,
            Option::Some(raw) => opt_prio_ok(raw) && spec_keys_within(raw, allowed@),
        }),
        match r {
            Result::Ok(b) => match spec_lookup(conf.entries@, key.spec_bytes()) {
                Option::None => armless(b, dflt),
                Option::Some(raw) => opt_prio_like(b, raw) && spec_keys_within(b, allowed@),
            },
            Result::Err(_) => true,
        },
{
    match conf.lookup(key) {
        Option::None => Result::Ok(IfBlock::new(dflt)),
        Option::Some(raw) => {
            if !raw.keys_within(allowed) {
                return Result::Err(ConfigError::DisallowedEnvelopeKey);
            }
            let mut arms: Vec<IfThen<Option<MtPriority>>> = Vec::new();
            let mut m: usize = 0;
            while m < raw.if_then.len()
                invariant
                    0 <= m <= raw.if_then@.len(),
                    spec_lookup(conf.entries@, key.spec_bytes()) == Option::Some(*raw),
                    arms@.len() == m,
                    forall|mm: int|
                        0 <= mm < m ==> prio_value_ok((#[trigger] raw.if_then@[mm]).value),
                    forall|mm: int|
                        0 <= mm < m ==> conds_like(
                            (#[trigger] arms@[mm]).conditions@,
                            raw.if_then@[mm].conditions@,
                        ),
                    forall|mm: int|
                        0 <= mm < m ==> opt_prio_matches(
                            raw.if_then@[mm].value,
                            (#[trigger] arms@[mm]).value,
                        ),
                decreases raw.if_then@.len() - m,
            {
                let value: Option<MtPriority> = match &raw.if_then[m].value {
                    ConfigValue::Text(t) => match MtPriority::parse_value(t) {
                        Option::Some(p) => Option::Some(p),
                        Option::None => {
                            proof {
                                assert(!prio_value_ok(raw.if_then@[m as int].value));
                            }
                            return Result::Err(ConfigError::UnsupportedPriority);
                        },
                    },
                    ConfigValue::NoValue => Option::None,
                    _ => {
                        proof {
                            assert(!prio_value_ok(raw.if_then@[m as int].value));
                        }
                        return Result::Err(ConfigError::WrongType);
                    },
                };
                let conditions = clone_conditions(&raw.if_then[m].conditions);
                arms.push(IfThen { conditions, value });
                m = m + 1;
            }
            let default: Option<MtPriority> = match &raw.default {
                ConfigValue::Text(t) => match MtPriority::parse_value(t) {
                    Option::Some(p) => Option::Some(p),
                    Option::None => {
                        proof {
                            assert(!prio_value_ok(raw.default));
                        }
                        return Result::Err(ConfigError::UnsupportedPriority);
                    },
                },
                ConfigValue::NoValue => Option::None,
                _ => {
                    proof {
                        assert(!prio_value_ok(raw.default));
                    }
                    return Result::Err(ConfigError::WrongType);
                },
            };
            let b = IfBlock { if_then: arms, default };
            proof {
                lemma_conds_like_keys(b, *raw, allowed@);
            }
            Result::Ok(b)
        },
    }
}


/// Whether a raw value is free text or nothing.
pub open spec fn free_text_value_ok(v: ConfigValue) -> bool {
    match v {
        ConfigValue::Text(_) => true,
        ConfigValue::NoValue => true,
        _ => false,
    }
}

pub open spec fn opt_free_text_ok(raw: IfBlock<ConfigValue>) -> bool {
    &&& (forall|m: int| 0 <= m < raw.if_then@.len() ==> free_text_value_ok(
        (#[trigger] raw.if_then@[m]).value,
    ))
    &&& free_text_value_ok(raw.default)
}

/// Reads the block under `key` as optional free text.
pub fn get_opt_free_text_block(
    conf: &Config,
    key: &str,
    dflt: Option<Vec<u8>>,
    allowed: &Vec<EnvelopeKey>,
) -> (r: Result<IfBlock<Option<Vec<u8>>>, ConfigError>)
    ensures
        (r is Ok) == (match spec_lookup(conf.entries@, key.spec_bytes()) {
            Option::None => true,
            Option::Some(raw) => opt_free_text_ok(raw) && spec_keys_within(raw, allowed@),
        }),
        match r {
            Result::Ok(b) => match spec_lookup(conf.entries@, key.spec_bytes()) {
                Option::None => armless(b, dflt),
                Option::Some(raw) => opt_text_like(b, raw) && spec_keys_within(b, allowed@),
            },
            Result::Err(_) => true,
        },
{
    match conf.lookup(key) {
        Option::None => Result::Ok(IfBlock::new(dflt)),
        Option::Some(raw) => {
            if !raw.keys_within(allowed) {
                return Result::Err(ConfigError::DisallowedEnvelopeKey);
            }
            let mut arms: Vec<IfThen<Option<Vec<u8>>>> = Vec::new();
            let mut m: usize = 0;
            while m < raw.if_then.len()
                invariant
                    0 <= m <= raw.if_then@.len(),
                    spec_lookup(conf.entries@, key.spec_bytes()) == Option::Some(*raw),
                    arms@.len() == m,
                    forall|mm: int|
                        0 <= mm < m ==> free_text_value_ok((#[trigger] raw.if_then@[mm]).value),
                    forall|mm: int|
                        0 <= mm < m ==> conds_like(
                            (#[trigger] arms@[mm]).conditions@,
                            raw.if_then@[mm].conditions@,
                        ),
                    forall|mm: int|
                        0 <= mm < m ==> opt_text_matches(
                            raw.if_then@[mm].value,
                            (#[trigger] arms@[mm]).value,
                        ),
                decreases raw.if_then@.len() - m,
            {
                let value: Option<Vec<u8>> = match &raw.if_then[m].value {
                    ConfigValue::Text(t) => {
                        let mut c: Vec<u8> = Vec::new();
                        push_bytes(&mut c, t.as_slice());
                        Option::Some(c)
                    },
                    ConfigValue::NoValue => Option::None,
                    _ => {
                        proof {
                            assert(!free_text_value_ok(raw.if_then@[m as int].value));
                        }
                        return Result::Err(ConfigError::WrongType);
                    },
                };
                let conditions = clone_conditions(&raw.if_then[m].conditions);
                arms.push(IfThen { conditions, value });
                m = m + 1;
            }
            let default: Option<Vec<u8>> = match &raw.default {
                ConfigValue::Text(t) => {
                    let mut c: Vec<u8> = Vec::new();
                    push_bytes(&mut c, t.as_slice());
                    Option::Some(c)
                },
                ConfigValue::NoValue => Option::None,
                _ => {
                    proof {
                        assert(!free_text_value_ok(raw.default));
                    }
                    return Result::Err(ConfigError::WrongType);
                },
            };
            let b = IfBlock { if_then: arms, default };
            proof {
                lemma_conds_like_keys(b, *raw, allowed@);
            }
            Result::Ok(b)
        },
    }
}

/// Reads the block under `key` as a SASL mechanism set, each value a
/// list of names folded into one bit set.
pub fn get_mech_block(conf: &Config, key: &str, dflt: u64, allowed: &Vec<EnvelopeKey>) -> (r:
    Result<IfBlock<u64>, ConfigError>)
    ensures
        (r is Ok) == (match spec_lookup(conf.entries@, key.spec_bytes()) {
            Option::None => true,
            Option::Some(raw) => mech_ok(raw) && spec_keys_within(raw, allowed@),
        }),
        match r {
            Result::Ok(b) => match spec_lookup(conf.entries@, key.spec_bytes()) {
                Option::None => armless(b, dflt),
                Option::Some(raw) => mech_like(b, raw) && spec_keys_within(b, allowed@),
            },
            Result::Err(_) => true,
        },
{
    match conf.lookup(key) {
        Option::None => Result::Ok(IfBlock::new(dflt)),
        Option::Some(raw) => {
            if !raw.keys_within(allowed) {
                return Result::Err(ConfigError::DisallowedEnvelopeKey);
            }
            let mut arms: Vec<IfThen<u64>> = Vec::new();
            let mut m: usize = 0;
            while m < raw.if_then.len()
                invariant
                    0 <= m <= raw.if_then@.len(),
                    spec_lookup(conf.entries@, key.spec_bytes()) == Option::Some(*raw),
                    arms@.len() == m,
                    forall|mm: int|
                        0 <= mm < m ==> mech_value_ok((#[trigger] raw.if_then@[mm]).value),
                    forall|mm: int|
                        0 <= mm < m ==> conds_like(
                            (#[trigger] arms@[mm]).conditions@,
                            raw.if_then@[mm].conditions@,
                        ),
                    forall|mm: int|
                        0 <= mm < m ==> mech_matches(
                            raw.if_then@[mm].value,
                            (#[trigger] arms@[mm]).value,
                        ),
                decreases raw.if_then@.len() - m,
            {
                let value: u64 = match &raw.if_then[m].value {
                    ConfigValue::TextList(ts) => match fold_mechanisms(ts) {
                        Option::Some(bits) => bits,
                        Option::None => {
                            proof {
                                assert(!mech_value_ok(raw.if_then@[m as int].value));
                            }
                            return Result::Err(ConfigError::UnsupportedMechanism);
                        },
                    },
                    _ => {
                        proof {
                            assert(!mech_value_ok(raw.if_then@[m as int].value));
                        }
                        return Result::Err(ConfigError::WrongType);
                    },
                };
                let conditions = clone_conditions(&raw.if_then[m].conditions);
                arms.push(IfThen { conditions, value });
                m = m + 1;
            }
            let default: u64 = match &raw.default {
                ConfigValue::TextList(ts) => match fold_mechanisms(ts) {
                    Option::Some(bits) => bits,
                    Option::None => {
                        proof {
                            assert(!mech_value_ok(raw.default));
                        }
                        return Result::Err(ConfigError::UnsupportedMechanism);
                    },
                },
                _ => {
                    proof {
                        assert(!mech_value_ok(raw.default));
                    }
                    return Result::Err(ConfigError::WrongType);
                },
            };
            let b = IfBlock { if_then: arms, default };
            proof {
                lemma_conds_like_keys(b, *raw, allowed@);
            }
            Result::Ok(b)
        },
    }
}

// The throttle key bits each stage may group by.
pub const CONNECT_THROTTLE_KEYS: u16 = THROTTLE_LISTENER | THROTTLE_REMOTE_IP
    | THROTTLE_LOCAL_IP;
pub const MAIL_THROTTLE_KEYS: u16 = CONNECT_THROTTLE_KEYS | THROTTLE_AUTH_AS
    | THROTTLE_HELO_DOMAIN | THROTTLE_SENDER | THROTTLE_SENDER_DOMAIN;
pub const RCPT_THROTTLE_KEYS: u16 = MAIL_THROTTLE_KEYS | THROTTLE_RCPT | THROTTLE_RCPT_DOMAIN;

/// The throttle list a raw value carries, if it is one.
pub open spec fn as_throttles(v: ConfigValue) -> Option<Seq<Throttle>> {
    match v {
        ConfigValue::Throttles(ts) => Option::Some(ts@),
        _ => Option::None,
    }
}

/// Whether the block under a stage's throttle key is well formed: no
/// conditional arms, a throttle list, and every entry grouping only by
/// the stage's allowed key bits.
pub open spec fn throttle_field_ok(conf: Seq<ConfigEntry>, key: Seq<u8>, mask: u16) -> bool {
    match spec_lookup(conf, key) {
        Option::None => true,
        Option::Some(raw) => raw.if_then@.len() == 0 && (match as_throttles(raw.default) {
            Option::Some(ts) => forall|i: int|
                0 <= i < ts.len() ==> ((#[trigger] ts[i]).keys & !mask) == 0,
            Option::None => false,
        }),
    }
}

/// How a parsed stage's throttle list relates to the raw
/// configuration: the configured list, or empty when the key is
/// absent.
pub open spec fn throttle_field(conf: Seq<ConfigEntry>, key: Seq<u8>, ts: Seq<Throttle>) -> bool {
    match spec_lookup(conf, key) {
        Option::None => ts.len() == 0,
        Option::Some(raw) => as_throttles(raw.default) == Option::Some(ts),
    }
}

/// Reads the throttle list under `key`, empty when the key is absent,
/// holding every entry's grouping keys to the stage's mask.
pub fn get_throttle_list(conf: &Config, key: &str, mask: u16) -> (r: Result<
    Vec<Throttle>,
    ConfigError,
>)
    ensures
        (r is Ok) == throttle_field_ok(conf.entries@, key.spec_bytes(), mask),
        match r {
            Result::Ok(ts) => throttle_field(conf.entries@, key.spec_bytes(), ts@) && (forall|
                i: int,
            |
                0 <= i < ts@.len() ==> ((#[trigger] ts@[i]).keys & !mask) == 0),
            Result::Err(_) => true,
        },
{
    match conf.lookup(key) {
        Option::None => Result::Ok(Vec::new()),
        Option::Some(raw) => {
            if raw.if_then.len() > 0 {
                return Result::Err(ConfigError::WrongType);
            }
            match &raw.default {
                ConfigValue::Throttles(ts) => {
                    if !throttles_within(ts, mask) {
                        return Result::Err(ConfigError::DisallowedEnvelopeKey);
                    }
                    let mut out: Vec<Throttle> = Vec::new();
                    let mut i: usize = 0;
                    while i < ts.len()
                        invariant
                            0 <= i <= ts@.len(),
                            out@ == ts@.subrange(0, i as int),
                        decreases ts@.len() - i,
                    {
                        out.push(ts[i]);
                        proof {
                            assert(out@ =~= ts@.subrange(0, i + 1 as int));
                        }
                        i = i + 1;
                    }
                    proof {
                        assert(out@ =~= ts@);
                    }
                    Result::Ok(out)
                },
                _ => {
                    proof {
                        assert(as_throttles(raw.default) is None);
                    }
                    Result::Err(ConfigError::WrongType)
                },
            }
        },
    }
}

/// The envelope keys this stage may read.
pub open spec fn connect_stage_keys() -> Seq<EnvelopeKey> {
    seq![EnvelopeKey::Listener, EnvelopeKey::RemoteIp, EnvelopeKey::LocalIp]
}

fn connect_stage_keys_v() -> (r: Vec<EnvelopeKey>)
    ensures
        r@ == connect_stage_keys(),
{
    let mut v: Vec<EnvelopeKey> = Vec::new();
    v.push(EnvelopeKey::Listener);
    v.push(EnvelopeKey::RemoteIp);
    v.push(EnvelopeKey::LocalIp);
    proof {
        assert(v@ =~= connect_stage_keys());
    }
    v
}

/// The envelope keys this stage may read.
pub open spec fn auth_stage_keys() -> Seq<EnvelopeKey> {
    seq![EnvelopeKey::Listener, EnvelopeKey::RemoteIp, EnvelopeKey::LocalIp, EnvelopeKey::HeloDomain]
}

fn auth_stage_keys_v() -> (r: Vec<EnvelopeKey>)
    ensures
        r@ == auth_stage_keys(),
{
    let mut v: Vec<EnvelopeKey> = Vec::new();
    v.push(EnvelopeKey::Listener);
    v.push(EnvelopeKey::RemoteIp);
    v.push(EnvelopeKey::LocalIp);
    v.push(EnvelopeKey::HeloDomain);
    proof {
        assert(v@ =~= auth_stage_keys());
    }
    v
}

/// The envelope keys this stage may read.
pub open spec fn mail_stage_keys() -> Seq<EnvelopeKey> {
    seq![EnvelopeKey::AuthenticatedAs, EnvelopeKey::Listener, EnvelopeKey::RemoteIp, EnvelopeKey::LocalIp, EnvelopeKey::HeloDomain]
}

fn mail_stage_keys_v() -> (r: Vec<EnvelopeKey>)
    ensures
        r@ == mail_stage_keys(),
{
    let mut v: Vec<EnvelopeKey> = Vec::new();
    v.push(EnvelopeKey::AuthenticatedAs);
    v.push(EnvelopeKey::Listener);
    v.push(EnvelopeKey::RemoteIp);
    v.push(EnvelopeKey::LocalIp);
    v.push(EnvelopeKey::HeloDomain);
    proof {
        assert(v@ =~= mail_stage_keys());
    }
    v
}

/// The envelope keys this stage may read.
pub open spec fn rcpt_stage_keys() -> Seq<EnvelopeKey> {
    seq![EnvelopeKey::Sender, EnvelopeKey::SenderDomain, EnvelopeKey::AuthenticatedAs, EnvelopeKey::Listener, EnvelopeKey::RemoteIp, EnvelopeKey::LocalIp, EnvelopeKey::HeloDomain]
}

fn rcpt_stage_keys_v() -> (r: Vec<EnvelopeKey>)
    ensures
        r@ == rcpt_stage_keys(),
{
    let mut v: Vec<EnvelopeKey> = Vec::new();
    v.push(EnvelopeKey::Sender);
    v.push(EnvelopeKey::SenderDomain);
    v.push(EnvelopeKey::AuthenticatedAs);
    v.push(EnvelopeKey::Listener);
    v.push(EnvelopeKey::RemoteIp);
    v.push(EnvelopeKey::LocalIp);
    v.push(EnvelopeKey::HeloDomain);
    proof {
        assert(v@ =~= rcpt_stage_keys());
    }
    v
}

/// The envelope keys this stage may read.
pub open spec fn data_stage_keys() -> Seq<EnvelopeKey> {
    seq![EnvelopeKey::Sender, EnvelopeKey::SenderDomain, EnvelopeKey::AuthenticatedAs, EnvelopeKey::Listener, EnvelopeKey::RemoteIp, EnvelopeKey::LocalIp, EnvelopeKey::Priority, EnvelopeKey::HeloDomain]
}

fn data_stage_keys_v() -> (r: Vec<EnvelopeKey>)
    ensures
        r@ == data_stage_keys(),
{
    let mut v: Vec<EnvelopeKey> = Vec::new();
    v.push(EnvelopeKey::Sender);
    v.push(EnvelopeKey::SenderDomain);
    v.push(EnvelopeKey::AuthenticatedAs);
    v.push(EnvelopeKey::Listener);
    v.push(EnvelopeKey::RemoteIp);
    v.push(EnvelopeKey::LocalIp);
    v.push(EnvelopeKey::Priority);
    v.push(EnvelopeKey::HeloDomain);
    proof {
        assert(v@ =~= data_stage_keys());
    }
    v
}

/// Settings applied when a connection arrives.
pub struct Connect {
    pub script: IfBlock<Option<Vec<u8>>>,
    pub throttle: Vec<Throttle>,
}

/// Settings governing the greeting and the advertised capabilities.
pub struct Ehlo {
    pub script: IfBlock<Option<Vec<u8>>>,
    pub require: IfBlock<bool>,
    pub multiple: IfBlock<bool>,
    pub pipelining: IfBlock<bool>,
    pub chunking: IfBlock<bool>,
    pub requiretls: IfBlock<bool>,
    pub no_soliciting: IfBlock<Option<Vec<u8>>>,
    pub future_release: IfBlock<Option<u64>>,
    pub deliver_by: IfBlock<Option<u64>>,
    pub mt_priority: IfBlock<Option<MtPriority>>,
    pub size: IfBlock<Option<u64>>,
}

/// Settings governing authentication.
pub struct Auth {
    pub script: IfBlock<Option<Vec<u8>>>,
    pub require: IfBlock<bool>,
    pub lookup: IfBlock<Option<Vec<u8>>>,
    pub mechanisms: IfBlock<u64>,
    pub errors_max: IfBlock<u64>,
    pub errors_wait: IfBlock<u64>,
}

/// Settings applied at MAIL FROM.
pub struct Mail {
    pub script: IfBlock<Option<Vec<u8>>>,
    pub throttle: Vec<Throttle>,
}

/// Settings applied at RCPT TO.
pub struct Rcpt {
    pub script: IfBlock<Option<Vec<u8>>>,
    pub relay: IfBlock<bool>,
    pub expn: IfBlock<bool>,
    pub vrfy: IfBlock<bool>,
    pub lookup_domains: IfBlock<Option<Vec<u8>>>,
    pub lookup_addresses: IfBlock<Option<Vec<u8>>>,
    pub errors_max: IfBlock<u64>,
    pub errors_wait: IfBlock<u64>,
    pub max_recipients: IfBlock<u64>,
    pub throttle: Vec<Throttle>,
}

/// Settings applied while the message body is received.
pub struct Data {
    pub script: IfBlock<Option<Vec<u8>>>,
    pub max_messages: IfBlock<u64>,
    pub max_message_size: IfBlock<u64>,
    pub max_received_headers: IfBlock<u64>,
    pub max_mime_parts: IfBlock<u64>,
    pub max_nested_messages: IfBlock<u64>,
    pub add_received: IfBlock<bool>,
    pub add_received_spf: IfBlock<bool>,
    pub add_return_path: IfBlock<bool>,
    pub add_auth_results: IfBlock<bool>,
    pub add_message_id: IfBlock<bool>,
    pub add_date: IfBlock<bool>,
}

/// The whole session configuration tree, every rule block typed,
/// defaulted, and held to its stage's envelope-key set.
pub struct SessionConfig {
    pub duration: IfBlock<u64>,
    pub transfer_limit: IfBlock<u64>,
    pub timeout: IfBlock<u64>,
    pub connect: Connect,
    pub ehlo: Ehlo,
    pub auth: Auth,
    pub mail: Mail,
    pub rcpt: Rcpt,
    pub data: Data,
}

/// Whether every configured block of this stage is well formed:
/// right value types, known collaborators, allowed envelope keys.
pub open spec fn connect_ok(conf: Seq<ConfigEntry>, ctx_scripts: Seq<Vec<u8>>, ctx_lists: Seq<Vec<u8>>) -> bool {
    &&& (match spec_lookup(conf, ("session.connect.script").spec_bytes()) {
        Option::None => true,
        Option::Some(raw) => opt_text_ok(raw, ctx_scripts) && spec_keys_within(raw, connect_stage_keys()),
    })
    &&& throttle_field_ok(conf, ("session.connect.throttle").spec_bytes(), CONNECT_THROTTLE_KEYS)
}

/// How a parsed stage relates to the raw configuration: each field is
/// the typed form of its configured block, or its documented default.
pub open spec fn connect_like(conf: Seq<ConfigEntry>, ctx_scripts: Seq<Vec<u8>>, ctx_lists: Seq<Vec<u8>>, c: Connect) -> bool {
    &&& (match spec_lookup(conf, ("session.connect.script").spec_bytes()) {
        Option::None => armless(c.script, Option::<Vec<u8>>::None),
        Option::Some(raw) => opt_text_like(c.script, raw) && spec_keys_within(c.script, connect_stage_keys()),
    })
    &&& throttle_field(conf, ("session.connect.throttle").spec_bytes(), c.throttle@)
    &&& (forall|i: int|
        0 <= i < c.throttle@.len() ==> ((#[trigger] c.throttle@[i]).keys & !CONNECT_THROTTLE_KEYS) == 0)
}

impl Config {
    /// Reads the `connect` stage settings, applying the documented
    /// defaults and holding every block to the stage's key set. It
    /// succeeds exactly when every configured block of the stage is
    /// well formed.
    pub fn parse_session_connect(&self, ctx: &ConfigContext) -> (r: Result<Connect, ConfigError>)
        ensures
            (r is Ok) == connect_ok(self.entries@, ctx.scripts@, ctx.lists@),
            match r {
                Result::Ok(c) => connect_like(self.entries@, ctx.scripts@, ctx.lists@, c),
                Result::Err(_) => true,
            },
    {
        let keys = connect_stage_keys_v();
        let script = get_opt_text_block(self, "session.connect.script", Option::None, &keys, &ctx.scripts)?;
        let throttle = get_throttle_list(self, "session.connect.throttle", CONNECT_THROTTLE_KEYS)?;
        Result::Ok(Connect { script, throttle })
    }
}

/// Whether every configured block of this stage is well formed:
/// right value types, known collaborators, allowed envelope keys.
pub open spec fn ehlo_ok(conf: Seq<ConfigEntry>, ctx_scripts: Seq<Vec<u8>>, ctx_lists: Seq<Vec<u8>>) -> bool {
    &&& (match spec_lookup(conf, ("session.ehlo.script").spec_bytes()) {
        Option::None => true,
        Option::Some(raw) => opt_text_ok(raw, ctx_scripts) && spec_keys_within(raw, connect_stage_keys()),
    })
    &&& (match spec_lookup(conf, ("session.ehlo.require").spec_bytes()) {
        Option::None => true,
        Option::Some(raw) => flag_ok(raw) && spec_keys_within(raw, connect_stage_keys()),
    })
    &&& (match spec_lookup(conf, ("session.ehlo.multiple").spec_bytes()) {
        Option::None => true,
        Option::Some(raw) => flag_ok(raw) && spec_keys_within(raw, connect_stage_keys()),
    })
    &&& (match spec_lookup(conf, ("session.ehlo.capabilities.pipelining").spec_bytes()) {
        Option::None => true,
        Option::Some(raw) => flag_ok(raw) && spec_keys_within(raw, connect_stage_keys()),
    })
    &&& (match spec_lookup(conf, ("session.ehlo.capabilities.chunking").spec_bytes()) {
        Option::None => true,
        Option::Some(raw) => flag_ok(raw) && spec_keys_within(raw, connect_stage_keys()),
    })
    &&& (match spec_lookup(conf, ("session.ehlo.capabilities.requiretls").spec_bytes()) {
        Option::None => true,
        Option::Some(raw) => flag_ok(raw) && spec_keys_within(raw, connect_stage_keys()),
    })
    &&& (match spec_lookup(conf, ("session.ehlo.capabilities.no-soliciting").spec_bytes()) {
        Option::None => true,
        Option::Some(raw) => opt_free_text_ok(raw) && spec_keys_within(raw, connect_stage_keys()),
    })
    &&& (match spec_lookup(conf, ("session.ehlo.capabilities.future-release").spec_bytes()) {
        Option::None => true,
        Option::Some(raw) => opt_int_ok(raw) && spec_keys_within(raw, connect_stage_keys()),
    })
    &&& (match spec_lookup(conf, ("session.ehlo.capabilities.deliver-by").spec_bytes()) {
        Option::None => true,
        Option::Some(raw) => opt_int_ok(raw) && spec_keys_within(raw, connect_stage_keys()),
    })
    &&& (match spec_lookup(conf, ("session.ehlo.capabilities.mt-priority").spec_bytes()) {
        Option::None => true,
        Option::Some(raw) => opt_prio_ok(raw) && spec_keys_within(raw, connect_stage_keys()),
    })
    &&& (match spec_lookup(conf, ("session.ehlo.capabilities.size").spec_bytes()) {
        Option::None => true,
        Option::Some(raw) => opt_int_ok(raw) && spec_keys_within(raw, connect_stage_keys()),
    })
}

/// How a parsed stage relates to the raw configuration: each field is
/// the typed form of its configured block, or its documented default.
pub open spec fn ehlo_like(conf: Seq<ConfigEntry>, ctx_scripts: Seq<Vec<u8>>, ctx_lists: Seq<Vec<u8>>, c: Ehlo) -> bool {
    &&& (match spec_lookup(conf, ("session.ehlo.script").spec_bytes()) {
        Option::None => armless(c.script, Option::<Vec<u8>>::None),
        Option::Some(raw) => opt_text_like(c.script, raw) && spec_keys_within(c.script, connect_stage_keys()),
    })
    &&& (match spec_lookup(conf, ("session.ehlo.require").spec_bytes()) {
        Option::None => armless(c.require, true),
        Option::Some(raw) => flag_like(c.require, raw) && spec_keys_within(c.require, connect_stage_keys()),
    })
    &&& (match spec_lookup(conf, ("session.ehlo.multiple").spec_bytes()) {
        Option::None => armless(c.multiple, true),
        Option::Some(raw) => flag_like(c.multiple, raw) && spec_keys_within(c.multiple, connect_stage_keys()),
    })
    &&& (match spec_lookup(conf, ("session.ehlo.capabilities.pipelining").spec_bytes()) {
        Option::None => armless(c.pipelining, true),
        Option::Some(raw) => flag_like(c.pipelining, raw) && spec_keys_within(c.pipelining, connect_stage_keys()),
    })
    &&& (match spec_lookup(conf, ("session.ehlo.capabilities.chunking").spec_bytes()) {
        Option::None => armless(c.chunking, true),
        Option::Some(raw) => flag_like(c.chunking, raw) && spec_keys_within(c.chunking, connect_stage_keys()),
    })
    &&& (match spec_lookup(conf, ("session.ehlo.capabilities.requiretls").spec_bytes()) {
        Option::None => armless(c.requiretls, false),
        Option::Some(raw) => flag_like(c.requiretls, raw) && spec_keys_within(c.requiretls, connect_stage_keys()),
    })
    &&& (match spec_lookup(conf, ("session.ehlo.capabilities.no-soliciting").spec_bytes()) {
        Option::None => armless(c.no_soliciting, Option::<Vec<u8>>::None),
        Option::Some(raw) => opt_text_like(c.no_soliciting, raw) && spec_keys_within(c.no_soliciting, connect_stage_keys()),
    })
    &&& (match spec_lookup(conf, ("session.ehlo.capabilities.future-release").spec_bytes()) {
        Option::None => armless(c.future_release, Option::<u64>::None),
        Option::Some(raw) => opt_int_like(c.future_release, raw) && spec_keys_within(c.future_release, connect_stage_keys()),
    })
    &&& (match spec_lookup(conf, ("session.ehlo.capabilities.deliver-by").spec_bytes()) {
        Option::None => armless(c.deliver_by, Option::<u64>::None),
        Option::Some(raw) => opt_int_like(c.deliver_by, raw) && spec_keys_within(c.deliver_by, connect_stage_keys()),
    })
    &&& (match spec_lookup(conf, ("session.ehlo.capabilities.mt-priority").spec_bytes()) {
        Option::None => armless(c.mt_priority, Option::<MtPriority>::None),
        Option::Some(raw) => opt_prio_like(c.mt_priority, raw) && spec_keys_within(c.mt_priority, connect_stage_keys()),
    })
    &&& (match spec_lookup(conf, ("session.ehlo.capabilities.size").spec_bytes()) {
        Option::None => armless(c.size, Option::Some(26214400u64)),
        Option::Some(raw) => opt_int_like(c.size, raw) && spec_keys_within(c.size, connect_stage_keys()),
    })
}

impl Config {
    /// Reads the `ehlo` stage settings, applying the documented
    /// defaults and holding every block to the stage's key set. It
    /// succeeds exactly when every configured block of the stage is
    /// well formed.
    pub fn parse_session_ehlo(&self, ctx: &ConfigContext) -> (r: Result<Ehlo, ConfigError>)
        ensures
            (r is Ok) == ehlo_ok(self.entries@, ctx.scripts@, ctx.lists@),
            match r {
                Result::Ok(c) => ehlo_like(self.entries@, ctx.scripts@, ctx.lists@, c),
                Result::Err(_) => true,
            },
    {
        let keys = connect_stage_keys_v();
        let script = get_opt_text_block(self, "session.ehlo.script", Option::None, &keys, &ctx.scripts)?;
        let require = get_flag_block(self, "session.ehlo.require", true, &keys)?;
        let multiple = get_flag_block(self, "session.ehlo.multiple", true, &keys)?;
        let pipelining = get_flag_block(self, "session.ehlo.capabilities.pipelining", true, &keys)?;
        let chunking = get_flag_block(self, "session.ehlo.capabilities.chunking", true, &keys)?;
        let requiretls = get_flag_block(self, "session.ehlo.capabilities.requiretls", false, &keys)?;
        let no_soliciting = get_opt_free_text_block(self, "session.ehlo.capabilities.no-soliciting", Option::None, &keys)?;
        let future_release = get_opt_int_block(self, "session.ehlo.capabilities.future-release", Option::None, &keys)?;
        let deliver_by = get_opt_int_block(self, "session.ehlo.capabilities.deliver-by", Option::None, &keys)?;
        let mt_priority = get_opt_prio_block(self, "session.ehlo.capabilities.mt-priority", Option::None, &keys)?;
        let size = get_opt_int_block(self, "session.ehlo.capabilities.size", Option::Some(26214400), &keys)?;
        Result::Ok(Ehlo { script, require, multiple, pipelining, chunking, requiretls, no_soliciting, future_release, deliver_by, mt_priority, size })
    }
}

/// Whether every configured block of this stage is well formed:
/// right value types, known collaborators, allowed envelope keys.
pub open spec fn auth_ok(conf: Seq<ConfigEntry>, ctx_scripts: Seq<Vec<u8>>, ctx_lists: Seq<Vec<u8>>) -> bool {
    &&& (match spec_lookup(conf, ("session.auth.script").spec_bytes()) {
        Option::None => true,
        Option::Some(raw) => opt_text_ok(raw, ctx_scripts) && spec_keys_within(raw, auth_stage_keys()),
    })
    &&& (match spec_lookup(conf, ("session.auth.require").spec_bytes()) {
        Option::None => true,
        Option::Some(raw) => flag_ok(raw) && spec_keys_within(raw, auth_stage_keys()),
    })
    &&& (match spec_lookup(conf, ("session.auth.lookup").spec_bytes()) {
        Option::None => true,
        Option::Some(raw) => opt_text_ok(raw, ctx_lists) && spec_keys_within(raw, auth_stage_keys()),
    })
    &&& (match spec_lookup(conf, ("session.auth.enable").spec_bytes()) {
        Option::None => true,
        Option::Some(raw) => mech_ok(raw) && spec_keys_within(raw, auth_stage_keys()),
    })
    &&& (match spec_lookup(conf, ("session.auth.errors.max").spec_bytes()) {
        Option::None => true,
        Option::Some(raw) => int_ok(raw) && spec_keys_within(raw, auth_stage_keys()),
    })
    &&& (match spec_lookup(conf, ("session.auth.errors.wait").spec_bytes()) {
        Option::None => true,
        Option::Some(raw) => int_ok(raw) && spec_keys_within(raw, auth_stage_keys()),
    })
}

/// How a parsed stage relates to the raw configuration: each field is
/// the typed form of its configured block, or its documented default.
pub open spec fn auth_like(conf: Seq<ConfigEntry>, ctx_scripts: Seq<Vec<u8>>, ctx_lists: Seq<Vec<u8>>, c: Auth) -> bool {
    &&& (match spec_lookup(conf, ("session.auth.script").spec_bytes()) {
        Option::None => armless(c.script, Option::<Vec<u8>>::None),
        Option::Some(raw) => opt_text_like(c.script, raw) && spec_keys_within(c.script, auth_stage_keys()),
    })
    &&& (match spec_lookup(conf, ("session.auth.require").spec_bytes()) {
        Option::None => armless(c.require, false),
        Option::Some(raw) => flag_like(c.require, raw) && spec_keys_within(c.require, auth_stage_keys()),
    })
    &&& (match spec_lookup(conf, ("session.auth.lookup").spec_bytes()) {
        Option::None => armless(c.lookup, Option::<Vec<u8>>::None),
        Option::Some(raw) => opt_text_like(c.lookup, raw) && spec_keys_within(c.lookup, auth_stage_keys()),
    })
    &&& (match spec_lookup(conf, ("session.auth.enable").spec_bytes()) {
        Option::None => armless(c.mechanisms, 0u64),
        Option::Some(raw) => mech_like(c.mechanisms, raw) && spec_keys_within(c.mechanisms, auth_stage_keys()),
    })
    &&& (match spec_lookup(conf, ("session.auth.errors.max").spec_bytes()) {
        Option::None => armless(c.errors_max, 3u64),
        Option::Some(raw) => int_like(c.errors_max, raw) && spec_keys_within(c.errors_max, auth_stage_keys()),
    })
    &&& (match spec_lookup(conf, ("session.auth.errors.wait").spec_bytes()) {
        Option::None => armless(c.errors_wait, 30000u64),
        Option::Some(raw) => int_like(c.errors_wait, raw) && spec_keys_within(c.errors_wait, auth_stage_keys()),
    })
}

impl Config {
    /// Reads the `auth` stage settings, applying the documented
    /// defaults and holding every block to the stage's key set. It
    /// succeeds exactly when every configured block of the stage is
    /// well formed.
    pub fn parse_session_auth(&self, ctx: &ConfigContext) -> (r: Result<Auth, ConfigError>)
        ensures
            (r is Ok) == auth_ok(self.entries@, ctx.scripts@, ctx.lists@),
            match r {
                Result::Ok(c) => auth_like(self.entries@, ctx.scripts@, ctx.lists@, c),
                Result::Err(_) => true,
            },
    {
        let keys = auth_stage_keys_v();
        let script = get_opt_text_block(self, "session.auth.script", Option::None, &keys, &ctx.scripts)?;
        let require = get_flag_block(self, "session.auth.require", false, &keys)?;
        let lookup = get_opt_text_block(self, "session.auth.lookup", Option::None, &keys, &ctx.lists)?;
        let mechanisms = get_mech_block(self, "session.auth.enable", 0, &keys)?;
        let errors_max = get_int_block(self, "session.auth.errors.max", 3, &keys)?;
        let errors_wait = get_int_block(self, "session.auth.errors.wait", 30000, &keys)?;
        Result::Ok(Auth { script, require, lookup, mechanisms, errors_max, errors_wait })
    }
}

/// Whether every configured block of this stage is well formed:
/// right value types, known collaborators, allowed envelope keys.
pub open spec fn mail_ok(conf: Seq<ConfigEntry>, ctx_scripts: Seq<Vec<u8>>, ctx_lists: Seq<Vec<u8>>) -> bool {
    &&& (match spec_lookup(conf, ("session.mail.script").spec_bytes()) {
        Option::None => true,
        Option::Some(raw) => opt_text_ok(raw, ctx_scripts) && spec_keys_within(raw, mail_stage_keys()),
    })
    &&& throttle_field_ok(conf, ("session.mail.throttle").spec_bytes(), MAIL_THROTTLE_KEYS)
}

/// How a parsed stage relates to the raw configuration: each field is
/// the typed form of its configured block, or its documented default.
pub open spec fn mail_like(conf: Seq<ConfigEntry>, ctx_scripts: Seq<Vec<u8>>, ctx_lists: Seq<Vec<u8>>, c: Mail) -> bool {
    &&& (match spec_lookup(conf, ("session.mail.script").spec_bytes()) {
        Option::None => armless(c.script, Option::<Vec<u8>>::None),
        Option::Some(raw) => opt_text_like(c.script, raw) && spec_keys_within(c.script, mail_stage_keys()),
    })
    &&& throttle_field(conf, ("session.mail.throttle").spec_bytes(), c.throttle@)
    &&& (forall|i: int|
        0 <= i < c.throttle@.len() ==> ((#[trigger] c.throttle@[i]).keys & !MAIL_THROTTLE_KEYS) == 0)
}

impl Config {
    /// Reads the `mail` stage settings, applying the documented
    /// defaults and holding every block to the stage's key set. It
    /// succeeds exactly when every configured block of the stage is
    /// well formed.
    pub fn parse_session_mail(&self, ctx: &ConfigContext) -> (r: Result<Mail, ConfigError>)
        ensures
            (r is Ok) == mail_ok(self.entries@, ctx.scripts@, ctx.lists@),
            match r {
                Result::Ok(c) => mail_like(self.entries@, ctx.scripts@, ctx.lists@, c),
                Result::Err(_) => true,
            },
    {
        let keys = mail_stage_keys_v();
        let script = get_opt_text_block(self, "session.mail.script", Option::None, &keys, &ctx.scripts)?;
        let throttle = get_throttle_list(self, "session.mail.throttle", MAIL_THROTTLE_KEYS)?;
        Result::Ok(Mail { script, throttle })
    }
}

/// Whether every configured block of this stage is well formed:
/// right value types, known collaborators, allowed envelope keys.
pub open spec fn rcpt_ok(conf: Seq<ConfigEntry>, ctx_scripts: Seq<Vec<u8>>, ctx_lists: Seq<Vec<u8>>) -> bool {
    &&& (match spec_lookup(conf, ("session.rcpt.script").spec_bytes()) {
        Option::None => true,
        Option::Some(raw) => opt_text_ok(raw, ctx_scripts) && spec_keys_within(raw, rcpt_stage_keys()),
    })
    &&& (match spec_lookup(conf, ("session.rcpt.relay").spec_bytes()) {
        Option::None => true,
        Option::Some(raw) => flag_ok(raw) && spec_keys_within(raw, rcpt_stage_keys()),
    })
    &&& (match spec_lookup(conf, ("session.rcpt.expn").spec_bytes()) {
        Option::None => true,
        Option::Some(raw) => flag_ok(raw) && spec_keys_within(raw, rcpt_stage_keys()),
    })
    &&& (match spec_lookup(conf, ("session.rcpt.vrfy").spec_bytes()) {
        Option::None => true,
        Option::Some(raw) => flag_ok(raw) && spec_keys_within(raw, rcpt_stage_keys()),
    })
    &&& (match spec_lookup(conf, ("session.rcpt.lookup.domains").spec_bytes()) {
        Option::None => true,
        Option::Some(raw) => opt_text_ok(raw, ctx_lists) && spec_keys_within(raw, rcpt_stage_keys()),
    })
    &&& (match spec_lookup(conf, ("session.rcpt.lookup.addresses").spec_bytes()) {
        Option::None => true,
        Option::Some(raw) => opt_text_ok(raw, ctx_lists) && spec_keys_within(raw, rcpt_stage_keys()),
    })
    &&& (match spec_lookup(conf, ("session.rcpt.errors.max").spec_bytes()) {
        Option::None => true,
        Option::Some(raw) => int_ok(raw) && spec_keys_within(raw, rcpt_stage_keys()),
    })
    &&& (match spec_lookup(conf, ("session.rcpt.errors.wait").spec_bytes()) {
        Option::None => true,
        Option::Some(raw) => int_ok(raw) && spec_keys_within(raw, rcpt_stage_keys()),
    })
    &&& (match spec_lookup(conf, ("session.rcpt.max-recipients").spec_bytes()) {
        Option::None => true,
        Option::Some(raw) => int_ok(raw) && spec_keys_within(raw, rcpt_stage_keys()),
    })
    &&& throttle_field_ok(conf, ("session.rcpt.throttle").spec_bytes(), RCPT_THROTTLE_KEYS)
}

/// How a parsed stage relates to the raw configuration: each field is
/// the typed form of its configured block, or its documented default.
pub open spec fn rcpt_like(conf: Seq<ConfigEntry>, ctx_scripts: Seq<Vec<u8>>, ctx_lists: Seq<Vec<u8>>, c: Rcpt) -> bool {
    &&& (match spec_lookup(conf, ("session.rcpt.script").spec_bytes()) {
        Option::None => armless(c.script, Option::<Vec<u8>>::None),
        Option::Some(raw) => opt_text_like(c.script, raw) && spec_keys_within(c.script, rcpt_stage_keys()),
    })
    &&& (match spec_lookup(conf, ("session.rcpt.relay").spec_bytes()) {
        Option::None => armless(c.relay, false),
        Option::Some(raw) => flag_like(c.relay, raw) && spec_keys_within(c.relay, rcpt_stage_keys()),
    })
    &&& (match spec_lookup(conf, ("session.rcpt.expn").spec_bytes()) {
        Option::None => armless(c.expn, false),
        Option::Some(raw) => flag_like(c.expn, raw) && spec_keys_within(c.expn, rcpt_stage_keys()),
    })
    &&& (match spec_lookup(conf, ("session.rcpt.vrfy").spec_bytes()) {
        Option::None => armless(c.vrfy, false),
        Option::Some(raw) => flag_like(c.vrfy, raw) && spec_keys_within(c.vrfy, rcpt_stage_keys()),
    })
    &&& (match spec_lookup(conf, ("session.rcpt.lookup.domains").spec_bytes()) {
        Option::None => armless(c.lookup_domains, Option::<Vec<u8>>::None),
        Option::Some(raw) => opt_text_like(c.lookup_domains, raw) && spec_keys_within(c.lookup_domains, rcpt_stage_keys()),
    })
    &&& (match spec_lookup(conf, ("session.rcpt.lookup.addresses").spec_bytes()) {
        Option::None => armless(c.lookup_addresses, Option::<Vec<u8>>::None),
        Option::Some(raw) => opt_text_like(c.lookup_addresses, raw) && spec_keys_within(c.lookup_addresses, rcpt_stage_keys()),
    })
    &&& (match spec_lookup(conf, ("session.rcpt.errors.max").spec_bytes()) {
        Option::None => armless(c.errors_max, 10u64),
        Option::Some(raw) => int_like(c.errors_max, raw) && spec_keys_within(c.errors_max, rcpt_stage_keys()),
    })
    &&& (match spec_lookup(conf, ("session.rcpt.errors.wait").spec_bytes()) {
        Option::None => armless(c.errors_wait, 30000u64),
        Option::Some(raw) => int_like(c.errors_wait, raw) && spec_keys_within(c.errors_wait, rcpt_stage_keys()),
    })
    &&& (match spec_lookup(conf, ("session.rcpt.max-recipients").spec_bytes()) {
        Option::None => armless(c.max_recipients, 100u64),
        Option::Some(raw) => int_like(c.max_recipients, raw) && spec_keys_within(c.max_recipients, rcpt_stage_keys()),
    })
    &&& throttle_field(conf, ("session.rcpt.throttle").spec_bytes(), c.throttle@)
    &&& (forall|i: int|
        0 <= i < c.throttle@.len() ==> ((#[trigger] c.throttle@[i]).keys & !RCPT_THROTTLE_KEYS) == 0)
}

impl Config {
    /// Reads the `rcpt` stage settings, applying the documented
    /// defaults and holding every block to the stage's key set. It
    /// succeeds exactly when every configured block of the stage is
    /// well formed.
    pub fn parse_session_rcpt(&self, ctx: &ConfigContext) -> (r: Result<Rcpt, ConfigError>)
        ensures
            (r is Ok) == rcpt_ok(self.entries@, ctx.scripts@, ctx.lists@),
            match r {
                Result::Ok(c) => rcpt_like(self.entries@, ctx.scripts@, ctx.lists@, c),
                Result::Err(_) => true,
            },
    {
        let keys = rcpt_stage_keys_v();
        let script = get_opt_text_block(self, "session.rcpt.script", Option::None, &keys, &ctx.scripts)?;
        let relay = get_flag_block(self, "session.rcpt.relay", false, &keys)?;
        let expn = get_flag_block(self, "session.rcpt.expn", false, &keys)?;
        let vrfy = get_flag_block(self, "session.rcpt.vrfy", false, &keys)?;
        let lookup_domains = get_opt_text_block(self, "session.rcpt.lookup.domains", Option::None, &keys, &ctx.lists)?;
        let lookup_addresses = get_opt_text_block(self, "session.rcpt.lookup.addresses", Option::None, &keys, &ctx.lists)?;
        let errors_max = get_int_block(self, "session.rcpt.errors.max", 10, &keys)?;
        let errors_wait = get_int_block(self, "session.rcpt.errors.wait", 30000, &keys)?;
        let max_recipients = get_int_block(self, "session.rcpt.max-recipients", 100, &keys)?;
        let throttle = get_throttle_list(self, "session.rcpt.throttle", RCPT_THROTTLE_KEYS)?;
        Result::Ok(Rcpt { script, relay, expn, vrfy, lookup_domains, lookup_addresses, errors_max, errors_wait, max_recipients, throttle })
    }
}

/// Whether every configured block of this stage is well formed:
/// right value types, known collaborators, allowed envelope keys.
pub open spec fn data_ok(conf: Seq<ConfigEntry>, ctx_scripts: Seq<Vec<u8>>, ctx_lists: Seq<Vec<u8>>) -> bool {
    &&& (match spec_lookup(conf, ("session.data.script").spec_bytes()) {
        Option::None => true,
        Option::Some(raw) => opt_text_ok(raw, ctx_scripts) && spec_keys_within(raw, data_stage_keys()),
    })
    &&& (match spec_lookup(conf, ("session.data.limits.messages").spec_bytes()) {
        Option::None => true,
        Option::Some(raw) => int_ok(raw) && spec_keys_within(raw, data_stage_keys()),
    })
    &&& (match spec_lookup(conf, ("session.data.limits.size").spec_bytes()) {
        Option::None => true,
        Option::Some(raw) => int_ok(raw) && spec_keys_within(raw, data_stage_keys()),
    })
    &&& (match spec_lookup(conf, ("session.data.limits.received-headers").spec_bytes()) {
        Option::None => true,
        Option::Some(raw) => int_ok(raw) && spec_keys_within(raw, data_stage_keys()),
    })
    &&& (match spec_lookup(conf, ("session.data.limits.mime-parts").spec_bytes()) {
        Option::None => true,
        Option::Some(raw) => int_ok(raw) && spec_keys_within(raw, data_stage_keys()),
    })
    &&& (match spec_lookup(conf, ("session.data.limits.nested-messages").spec_bytes()) {
        Option::None => true,
        Option::Some(raw) => int_ok(raw) && spec_keys_within(raw, data_stage_keys()),
    })
    &&& (match spec_lookup(conf, ("session.data.add-headers.received").spec_bytes()) {
        Option::None => true,
        Option::Some(raw) => flag_ok(raw) && spec_keys_within(raw, data_stage_keys()),
    })
    &&& (match spec_lookup(conf, ("session.data.add-headers.received-spf").spec_bytes()) {
        Option::None => true,
        Option::Some(raw) => flag_ok(raw) && spec_keys_within(raw, data_stage_keys()),
    })
    &&& (match spec_lookup(conf, ("session.data.add-headers.return-path").spec_bytes()) {
        Option::None => true,
        Option::Some(raw) => flag_ok(raw) && spec_keys_within(raw, data_stage_keys()),
    })
    &&& (match spec_lookup(conf, ("session.data.add-headers.auth-results").spec_bytes()) {
        Option::None => true,
        Option::Some(raw) => flag_ok(raw) && spec_keys_within(raw, data_stage_keys()),
    })
    &&& (match spec_lookup(conf, ("session.data.add-headers.message-id").spec_bytes()) {
        Option::None => true,
        Option::Some(raw) => flag_ok(raw) && spec_keys_within(raw, data_stage_keys()),
    })
    &&& (match spec_lookup(conf, ("session.data.add-headers.date").spec_bytes()) {
        Option::None => true,
        Option::Some(raw) => flag_ok(raw) && spec_keys_within(raw, data_stage_keys()),
    })
}

/// How a parsed stage relates to the raw configuration: each field is
/// the typed form of its configured block, or its documented default.
pub open spec fn data_like(conf: Seq<ConfigEntry>, ctx_scripts: Seq<Vec<u8>>, ctx_lists: Seq<Vec<u8>>, c: Data) -> bool {
    &&& (match spec_lookup(conf, ("session.data.script").spec_bytes()) {
        Option::None => armless(c.script, Option::<Vec<u8>>::None),
        Option::Some(raw) => opt_text_like(c.script, raw) && spec_keys_within(c.script, data_stage_keys()),
    })
    &&& (match spec_lookup(conf, ("session.data.limits.messages").spec_bytes()) {
        Option::None => armless(c.max_messages, 10u64),
        Option::Some(raw) => int_like(c.max_messages, raw) && spec_keys_within(c.max_messages, data_stage_keys()),
    })
    &&& (match spec_lookup(conf, ("session.data.limits.size").spec_bytes()) {
        Option::None => armless(c.max_message_size, 26214400u64),
        Option::Some(raw) => int_like(c.max_message_size, raw) && spec_keys_within(c.max_message_size, data_stage_keys()),
    })
    &&& (match spec_lookup(conf, ("session.data.limits.received-headers").spec_bytes()) {
        Option::None => armless(c.max_received_headers, 50u64),
        Option::Some(raw) => int_like(c.max_received_headers, raw) && spec_keys_within(c.max_received_headers, data_stage_keys()),
    })
    &&& (match spec_lookup(conf, ("session.data.limits.mime-parts").spec_bytes()) {
        Option::None => armless(c.max_mime_parts, 50u64),
        Option::Some(raw) => int_like(c.max_mime_parts, raw) && spec_keys_within(c.max_mime_parts, data_stage_keys()),
    })
    &&& (match spec_lookup(conf, ("session.data.limits.nested-messages").spec_bytes()) {
        Option::None => armless(c.max_nested_messages, 3u64),
        Option::Some(raw) => int_like(c.max_nested_messages, raw) && spec_keys_within(c.max_nested_messages, data_stage_keys()),
    })
    &&& (match spec_lookup(conf, ("session.data.add-headers.received").spec_bytes()) {
        Option::None => armless(c.add_received, true),
        Option::Some(raw) => flag_like(c.add_received, raw) && spec_keys_within(c.add_received, data_stage_keys()),
    })
    &&& (match spec_lookup(conf, ("session.data.add-headers.received-spf").spec_bytes()) {
        Option::None => armless(c.add_received_spf, true),
        Option::Some(raw) => flag_like(c.add_received_spf, raw) && spec_keys_within(c.add_received_spf, data_stage_keys()),
    })
    &&& (match spec_lookup(conf, ("session.data.add-headers.return-path").spec_bytes()) {
        Option::None => armless(c.add_return_path, true),
        Option::Some(raw) => flag_like(c.add_return_path, raw) && spec_keys_within(c.add_return_path, data_stage_keys()),
    })
    &&& (match spec_lookup(conf, ("session.data.add-headers.auth-results").spec_bytes()) {
        Option::None => armless(c.add_auth_results, true),
        Option::Some(raw) => flag_like(c.add_auth_results, raw) && spec_keys_within(c.add_auth_results, data_stage_keys()),
    })
    &&& (match spec_lookup(conf, ("session.data.add-headers.message-id").spec_bytes()) {
        Option::None => armless(c.add_message_id, true),
        Option::Some(raw) => flag_like(c.add_message_id, raw) && spec_keys_within(c.add_message_id, data_stage_keys()),
    })
    &&& (match spec_lookup(conf, ("session.data.add-headers.date").spec_bytes()) {
        Option::None => armless(c.add_date, true),
        Option::Some(raw) => flag_like(c.add_date, raw) && spec_keys_within(c.add_date, data_stage_keys()),
    })
}

impl Config {
    /// Reads the `data` stage settings, applying the documented
    /// defaults and holding every block to the stage's key set. It
    /// succeeds exactly when every configured block of the stage is
    /// well formed.
    pub fn parse_session_data(&self, ctx: &ConfigContext) -> (r: Result<Data, ConfigError>)
        ensures
            (r is Ok) == data_ok(self.entries@, ctx.scripts@, ctx.lists@),
            match r {
                Result::Ok(c) => data_like(self.entries@, ctx.scripts@, ctx.lists@, c),
                Result::Err(_) => true,
            },
    {
        let keys = data_stage_keys_v();
        let script = get_opt_text_block(self, "session.data.script", Option::None, &keys, &ctx.scripts)?;
        let max_messages = get_int_block(self, "session.data.limits.messages", 10, &keys)?;
        let max_message_size = get_int_block(self, "session.data.limits.size", 26214400, &keys)?;
        let max_received_headers = get_int_block(self, "session.data.limits.received-headers", 50, &keys)?;
        let max_mime_parts = get_int_block(self, "session.data.limits.mime-parts", 50, &keys)?;
        let max_nested_messages = get_int_block(self, "session.data.limits.nested-messages", 3, &keys)?;
        let add_received = get_flag_block(self, "session.data.add-headers.received", true, &keys)?;
        let add_received_spf = get_flag_block(self, "session.data.add-headers.received-spf", true, &keys)?;
        let add_return_path = get_flag_block(self, "session.data.add-headers.return-path", true, &keys)?;
        let add_auth_results = get_flag_block(self, "session.data.add-headers.auth-results", true, &keys)?;
        let add_message_id = get_flag_block(self, "session.data.add-headers.message-id", true, &keys)?;
        let add_date = get_flag_block(self, "session.data.add-headers.date", true, &keys)?;
        Result::Ok(Data { script, max_messages, max_message_size, max_received_headers, max_mime_parts, max_nested_messages, add_received, add_received_spf, add_return_path, add_auth_results, add_message_id, add_date })
    }
}

/// Whether the session-wide limit blocks are well formed.
pub open spec fn session_top_ok(conf: Seq<ConfigEntry>) -> bool {
    &&& (match spec_lookup(conf, ("session.duration").spec_bytes()) {
        Option::None => true,
        Option::Some(raw) => int_ok(raw) && spec_keys_within(raw, connect_stage_keys()),
    })
    &&& (match spec_lookup(conf, ("session.transfer-limit").spec_bytes()) {
        Option::None => true,
        Option::Some(raw) => int_ok(raw) && spec_keys_within(raw, connect_stage_keys()),
    })
    &&& (match spec_lookup(conf, ("session.timeout").spec_bytes()) {
        Option::None => true,
        Option::Some(raw) => int_ok(raw) && spec_keys_within(raw, connect_stage_keys()),
    })
}

/// How the session-wide limits relate to the raw configuration.
pub open spec fn session_top_like(conf: Seq<ConfigEntry>, c: SessionConfig) -> bool {
    &&& (match spec_lookup(conf, ("session.duration").spec_bytes()) {
        Option::None => armless(c.duration, 900000u64),
        Option::Some(raw) => int_like(c.duration, raw) && spec_keys_within(c.duration, connect_stage_keys()),
    })
    &&& (match spec_lookup(conf, ("session.transfer-limit").spec_bytes()) {
        Option::None => armless(c.transfer_limit, 524288000u64),
        Option::Some(raw) => int_like(c.transfer_limit, raw) && spec_keys_within(c.transfer_limit, connect_stage_keys()),
    })
    &&& (match spec_lookup(conf, ("session.timeout").spec_bytes()) {
        Option::None => armless(c.timeout, 300000u64),
        Option::Some(raw) => int_like(c.timeout, raw) && spec_keys_within(c.timeout, connect_stage_keys()),
    })
}

impl Config {
    /// Reads the whole session configuration: the session-wide limits
    /// and every stage, with the documented defaults where a key is
    /// absent. It succeeds exactly when every configured block is
    /// well formed for its stage.
    pub fn parse_session_config(&self, ctx: &ConfigContext) -> (r: Result<
        SessionConfig,
        ConfigError,
    >)
        ensures
            (r is Ok) == (session_top_ok(self.entries@) && connect_ok(
                self.entries@,
                ctx.scripts@,
                ctx.lists@,
            ) && ehlo_ok(self.entries@, ctx.scripts@, ctx.lists@) && auth_ok(
                self.entries@,
                ctx.scripts@,
                ctx.lists@,
            ) && mail_ok(self.entries@, ctx.scripts@, ctx.lists@) && rcpt_ok(
                self.entries@,
                ctx.scripts@,
                ctx.lists@,
            ) && data_ok(self.entries@, ctx.scripts@, ctx.lists@)),
            match r {
                Result::Ok(c) => {
                    &&& session_top_like(self.entries@, c)
                    &&& connect_like(self.entries@, ctx.scripts@, ctx.lists@, c.connect)
                    &&& ehlo_like(self.entries@, ctx.scripts@, ctx.lists@, c.ehlo)
                    &&& auth_like(self.entries@, ctx.scripts@, ctx.lists@, c.auth)
                    &&& mail_like(self.entries@, ctx.scripts@, ctx.lists@, c.mail)
                    &&& rcpt_like(self.entries@, ctx.scripts@, ctx.lists@, c.rcpt)
                    &&& data_like(self.entries@, ctx.scripts@, ctx.lists@, c.data)
                },
                Result::Err(_) => true,
            },
    {
        let keys = connect_stage_keys_v();
        let duration = get_int_block(self, "session.duration", 900000, &keys)?;
        let transfer_limit = get_int_block(self, "session.transfer-limit", 524288000, &keys)?;
        let timeout = get_int_block(self, "session.timeout", 300000, &keys)?;
        let connect = self.parse_session_connect(ctx)?;
        let ehlo = self.parse_session_ehlo(ctx)?;
        let auth = self.parse_session_auth(ctx)?;
        let mail = self.parse_session_mail(ctx)?;
        let rcpt = self.parse_session_rcpt(ctx)?;
        let data = self.parse_session_data(ctx)?;
        Result::Ok(
            SessionConfig {
                duration,
                transfer_limit,
                timeout,
                connect,
                ehlo,
                auth,
                mail,
                rcpt,
                data,
            },
        )
    }
}

/// Whether every throttle of the list groups only by allowed key bits.
pub fn throttles_within(ts: &Vec<Throttle>, mask: u16) -> (r: bool)
    ensures
        r == (forall|i: int| 0 <= i < ts@.len() ==> ((#[trigger] ts@[i]).keys & !mask) == 0),
{
    let mut i: usize = 0;
    while i < ts.len()
        invariant
            0 <= i <= ts@.len(),
            forall|j: int| 0 <= j < i ==> ((#[trigger] ts@[j]).keys & !mask) == 0,
        decreases ts@.len() - i,
    {
        if ts[i].keys & !mask != 0 {
            return false;
        }
        i = i + 1;
    }
    true
}

} // verus!
