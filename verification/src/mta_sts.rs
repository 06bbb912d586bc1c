use vstd::prelude::*;
use vstd::string::StringSliceAdditionalSpecFns;
use vstd::slice::slice_subrange;
use crate::proto::{spec_dec, spec_dec_value, all_digits, is_digit, parse_u64, u64_to_dec};
use crate::text::{
    push_bytes,
    spec_trim, spec_lower, spec_find, trim, to_lowercase, bytes_eq, find_byte, is_ascii_ws,
    eq_ignore_ascii_case, lemma_find_props, lemma_trim_no_byte, lemma_lower_idempotent,
    lemma_trim_of_trimmed, lemma_trim_space_prefix, lemma_find_exact,
    lemma_trim_ends, lower_byte,
};

verus! {

/// What an MTA-STS policy asks of a sending host.
#[derive(Clone, Copy, PartialEq, Eq, Structural, Debug)]
pub enum Mode {
    Enforce,
    Testing,
    NoPolicy,
}

/// One allowed MX host: an exact lowercase name, or a lowercase suffix
/// that a wildcard `*.` pattern admits (the suffix keeps its leading dot).
#[derive(Clone, PartialEq, Eq, Debug)]
pub enum MxPattern {
    Equals(Vec<u8>),
    StartsWith(Vec<u8>),
}

/// A parsed MTA-STS policy.
#[derive(Clone, PartialEq, Eq, Debug)]
pub struct Policy {
    pub id: String,
    pub mode: Mode,
    pub mx: Vec<MxPattern>,
}

/// Why a policy document was rejected.
#[derive(Clone, Copy, PartialEq, Eq, Structural, Debug)]
pub enum ParseError {
    UnsupportedMode,
    UnsupportedVersion,
    NoMxEntries,
}

/// The bytes of `mx`.
pub open spec fn key_mx() -> Seq<u8> {
    seq![109u8, 120u8]
}

fn key_mx_v() -> (r: Vec<u8>)
    ensures
        r@ == key_mx(),
{
    let mut v: Vec<u8> = Vec::new();
    v.push(109);
    v.push(120);
    proof {
        assert(v@ =~= key_mx());
    }
    v
}

/// The bytes of `max_age`.
pub open spec fn key_max_age() -> Seq<u8> {
    seq![109u8, 97u8, 120u8, 95u8, 97u8, 103u8, 101u8]
}

fn key_max_age_v() -> (r: Vec<u8>)
    ensures
        r@ == key_max_age(),
{
    let mut v: Vec<u8> = Vec::new();
    v.push(109);
    v.push(97);
    v.push(120);
    v.push(95);
    v.push(97);
    v.push(103);
    v.push(101);
    proof {
        assert(v@ =~= key_max_age());
    }
    v
}

/// The bytes of `mode`.
pub open spec fn key_mode() -> Seq<u8> {
    seq![109u8, 111u8, 100u8, 101u8]
}

fn key_mode_v() -> (r: Vec<u8>)
    ensures
        r@ == key_mode(),
{
    let mut v: Vec<u8> = Vec::new();
    v.push(109);
    v.push(111);
    v.push(100);
    v.push(101);
    proof {
        assert(v@ =~= key_mode());
    }
    v
}

/// The bytes of `version`.
pub open spec fn key_version() -> Seq<u8> {
    seq![118u8, 101u8, 114u8, 115u8, 105u8, 111u8, 110u8]
}

fn key_version_v() -> (r: Vec<u8>)
    ensures
        r@ == key_version(),
{
    let mut v: Vec<u8> = Vec::new();
    v.push(118);
    v.push(101);
    v.push(114);
    v.push(115);
    v.push(105);
    v.push(111);
    v.push(110);
    proof {
        assert(v@ =~= key_version());
    }
    v
}

/// The bytes of `enforce`.
pub open spec fn val_enforce() -> Seq<u8> {
    seq![101u8, 110u8, 102u8, 111u8, 114u8, 99u8, 101u8]
}

fn val_enforce_v() -> (r: Vec<u8>)
    ensures
        r@ == val_enforce(),
{
    let mut v: Vec<u8> = Vec::new();
    v.push(101);
    v.push(110);
    v.push(102);
    v.push(111);
    v.push(114);
    v.push(99);
    v.push(101);
    proof {
        assert(v@ =~= val_enforce());
    }
    v
}

/// The bytes of `testing`.
pub open spec fn val_testing() -> Seq<u8> {
    seq![116u8, 101u8, 115u8, 116u8, 105u8, 110u8, 103u8]
}

fn val_testing_v() -> (r: Vec<u8>)
    ensures
        r@ == val_testing(),
{
    let mut v: Vec<u8> = Vec::new();
    v.push(116);
    v.push(101);
    v.push(115);
    v.push(116);
    v.push(105);
    v.push(110);
    v.push(103);
    proof {
        assert(v@ =~= val_testing());
    }
    v
}

/// The bytes of `none`.
pub open spec fn val_none() -> Seq<u8> {
    seq![110u8, 111u8, 110u8, 101u8]
}

fn val_none_v() -> (r: Vec<u8>)
    ensures
        r@ == val_none(),
{
    let mut v: Vec<u8> = Vec::new();
    v.push(110);
    v.push(111);
    v.push(110);
    v.push(101);
    proof {
        assert(v@ =~= val_none());
    }
    v
}

/// The bytes of `STSv1`.
pub open spec fn val_stsv1() -> Seq<u8> {
    seq![83u8, 84u8, 83u8, 118u8, 49u8]
}

fn val_stsv1_v() -> (r: Vec<u8>)
    ensures
        r@ == val_stsv1(),
{
    let mut v: Vec<u8> = Vec::new();
    v.push(83);
    v.push(84);
    v.push(83);
    v.push(118);
    v.push(49);
    proof {
        assert(v@ =~= val_stsv1());
    }
    v
}

/// The mathematical shape of an MX pattern list: each entry is a
/// wildcard flag and the pattern bytes.
pub open spec fn mx_view(mx: Seq<MxPattern>) -> Seq<(bool, Seq<u8>)> {
    mx.map_values(
        |p: MxPattern|
            match p {
                MxPattern::Equals(v) => (false, v@),
                MxPattern::StartsWith(v) => (true, v@),
            },
    )
}

/// The `key: value` entries of a policy document, in order. The key is
/// everything before the first colon of the remaining text; the value
/// runs to the next line feed; both are trimmed of ASCII whitespace
/// (this reading does not strip the rarer Unicode blanks). Text after
/// the last colon-less line break is dropped, as is text with no colon
/// at all.
pub open spec fn spec_entries(s: Seq<u8>) -> Seq<(Seq<u8>, Seq<u8>)>
    decreases s.len(),
{
    match spec_find(s, 0, 58) {
        Option::None => Seq::empty(),
        Option::Some(c) => if 0 <= c < s.len() {
            let key = spec_trim(s.subrange(0, c));
            match spec_find(s, c + 1, 10) {
                Option::Some(nl) => if c < nl < s.len() {
                    seq![(key, spec_trim(s.subrange(c + 1, nl)))] + spec_entries(
                        s.subrange(nl + 1, s.len() as int),
                    )
                } else {
                    Seq::empty()
                },
                Option::None => seq![(key, spec_trim(s.subrange(c + 1, s.len() as int)))],
            }
        } else {
            Seq::empty()
        },
    }
}

/// The digit run of a `max_age` value: an optional leading plus sign
/// is accepted, as an integer parse would.
pub open spec fn age_digits(v: Seq<u8>) -> Seq<u8> {
    if v.len() > 0 && v[0] == 43 {
        v.drop_first()
    } else {
        v
    }
}

/// One step of reading the entries: how a single `key: value` pair
/// changes the accumulated mode, age and MX list, or rejects the
/// document.
pub open spec fn spec_apply(
    es: Seq<(Seq<u8>, Seq<u8>)>,
    mode: Mode,
    age: int,
    mx: Seq<(bool, Seq<u8>)>,
) -> Result<(Mode, int, Seq<(bool, Seq<u8>)>), ParseError>
    decreases es.len(),
{
    if es.len() == 0 {
        Result::Ok((mode, age, mx))
    } else {
        let k = es[0].0;
        let v = es[0].1;
        if k == key_mx() {
            let mx2 = if v.len() >= 2 && v[0] == 42 && v[1] == 46 {
                if v.len() > 2 {
                    mx.push((true, spec_lower(v.subrange(1, v.len() as int))))
                } else {
                    mx
                }
            } else if v.len() > 0 {
                mx.push((false, spec_lower(v)))
            } else {
                mx
            };
            spec_apply(es.drop_first(), mode, age, mx2)
        } else if k == key_max_age() {
            let d = age_digits(v);
            let age2 = if d.len() > 0 && all_digits(d) && 3600 <= spec_dec_value(d)
                && spec_dec_value(d) < 31557600 {
                spec_dec_value(d) as int
            } else {
                age
            };
            spec_apply(es.drop_first(), mode, age2, mx)
        } else if k == key_mode() {
            if v == val_enforce() {
                spec_apply(es.drop_first(), Mode::Enforce, age, mx)
            } else if v == val_testing() {
                spec_apply(es.drop_first(), Mode::Testing, age, mx)
            } else if v == val_none() {
                spec_apply(es.drop_first(), Mode::NoPolicy, age, mx)
            } else {
                Result::Err(ParseError::UnsupportedMode)
            }
        } else if k == key_version() {
            if spec_lower(v) == spec_lower(val_stsv1()) {
                spec_apply(es.drop_first(), mode, age, mx)
            } else {
                Result::Err(ParseError::UnsupportedVersion)
            }
        } else {
            spec_apply(es.drop_first(), mode, age, mx)
        }
    }
}

/// What parsing a whole policy document yields: the mode, the validity
/// age in seconds, and the MX patterns, or the reason for rejection. A
/// document with no valid MX entry is rejected.
pub open spec fn spec_policy(s: Seq<u8>) -> Result<
    (Mode, int, Seq<(bool, Seq<u8>)>),
    ParseError,
> {
    match spec_apply(spec_entries(s), Mode::NoPolicy, 86400, Seq::empty()) {
        Result::Ok((m, a, mx)) => if mx.len() > 0 {
            Result::Ok((m, a, mx))
        } else {
            Result::Err(ParseError::NoMxEntries)
        },
        Result::Err(e) => Result::Err(e),
    }
}

/// A pattern in the shape the parser produces: nonempty, folded to
/// lower case, trimmed, free of line feeds; a wildcard suffix keeps its
/// leading dot, an exact name never begins with the wildcard marker.
pub open spec fn wf_pattern(w: bool, p: Seq<u8>) -> bool {
    &&& p.len() > 0
    &&& p == spec_lower(p)
    &&& !is_ascii_ws(p[0])
    &&& !is_ascii_ws(p[p.len() - 1])
    &&& (forall|i: int| 0 <= i < p.len() ==> p[i] != 10)
    &&& (w ==> p.len() >= 2 && p[0] == 46)
    &&& (!w ==> !(p.len() >= 2 && p[0] == 42 && p[1] == 46))
}

/// Every pattern of the list is in parser shape.
pub open spec fn wf_mx(mx: Seq<(bool, Seq<u8>)>) -> bool {
    forall|i: int| 0 <= i < mx.len() ==> wf_pattern(mx[i].0, mx[i].1)
}


/// Every byte of the sequence differs from `b`.
pub open spec fn no_byte(s: Seq<u8>, b: u8) -> bool {
    forall|i: int| 0 <= i < s.len() ==> s[i] != b
}

/// Case folding cannot create or destroy a byte outside the letters,
/// so whitespace, line feeds and the wildcard marker survive it.
proof fn lemma_lower_keeps_shape(s: Seq<u8>)
    ensures
        spec_lower(s).len() == s.len(),
        forall|i: int|
            0 <= i < s.len() ==> (is_ascii_ws(#[trigger] spec_lower(s)[i]) == is_ascii_ws(s[i])),
        forall|i: int| 0 <= i < s.len() ==> ((#[trigger] spec_lower(s)[i] == 10) == (s[i] == 10)),
        forall|i: int| 0 <= i < s.len() ==> ((#[trigger] spec_lower(s)[i] == 42) == (s[i] == 42)),
        forall|i: int| 0 <= i < s.len() ==> ((#[trigger] spec_lower(s)[i] == 46) == (s[i] == 46)),
{
    assert forall|i: int| 0 <= i < s.len() implies (is_ascii_ws(#[trigger] spec_lower(s)[i])
        == is_ascii_ws(s[i])) && ((spec_lower(s)[i] == 10) == (s[i] == 10)) && ((spec_lower(s)[i]
        == 42) == (s[i] == 42)) && ((spec_lower(s)[i] == 46) == (s[i] == 46)) by {
        assert(spec_lower(s)[i] == lower_byte(s[i]));
    }
}

impl Policy {
    /// Parses an MTA-STS policy document: LF-separated `key: value`
    /// lines naming `version` (which must read `STSv1`, any case),
    /// `mode`, repeated `mx` patterns, and `max_age` in seconds, kept
    /// only inside [3600, 31557600) and 86400 otherwise. The parse
    /// fails exactly on an unsupported version or mode, or when no
    /// valid `mx` entry was found; the returned age is the document's
    /// accepted `max_age`.
    pub fn parse(data: &str, id: String) -> (r: Result<(Policy, u64), ParseError>)
        ensures
            match r {
                Result::Ok((p, age)) => {
                    &&& spec_policy(data.spec_bytes()) == Result::<
                        (Mode, int, Seq<(bool, Seq<u8>)>),
                        ParseError,
                    >::Ok((p.mode, age as int, mx_view(p.mx@)))
                    &&& p.id@ == id@
                    &&& wf_mx(mx_view(p.mx@))
                    &&& mx_view(p.mx@).len() > 0
                    &&& 3600 <= age < 31557600
                },
                Result::Err(e) => spec_policy(data.spec_bytes()) == Result::<
                    (Mode, int, Seq<(bool, Seq<u8>)>),
                    ParseError,
                >::Err(e),
            },
    {
        let bytes: &[u8] = data.as_bytes();
        let mut mode = Mode::NoPolicy;
        let mut expires_in: u64 = 86400;
        let mut mx: Vec<MxPattern> = Vec::new();
        let mut rest: &[u8] = bytes;
        let ghost total = spec_apply(
            spec_entries(data.spec_bytes()),
            Mode::NoPolicy,
            86400,
            Seq::empty(),
        );
        proof {
            assert(mx_view(mx@) =~= Seq::<(bool, Seq<u8>)>::empty());
        }
        while rest.len() > 0
            invariant
                spec_apply(spec_entries(rest@), mode, expires_in as int, mx_view(mx@)) == total,
                total == spec_apply(
                    spec_entries(data.spec_bytes()),
                    Mode::NoPolicy,
                    86400,
                    Seq::empty(),
                ),
                wf_mx(mx_view(mx@)),
                3600 <= expires_in < 31557600,
            decreases rest@.len(),
        {
            let colon = find_byte(rest, 0, 58);
            match colon {
                Option::None => {
                    proof {
                        assert(spec_entries(rest@) =~= Seq::<(Seq<u8>, Seq<u8>)>::empty());
                    }
                    rest = slice_subrange(rest, rest.len(), rest.len());
                    proof {
                        assert(spec_entries(rest@) =~= Seq::<(Seq<u8>, Seq<u8>)>::empty());
                    }
                },
                Option::Some(c) => {
                    proof {
                        lemma_find_props(rest@, 0, 58);
                    }
                    let ghost pre = rest@;
                    let key = trim(slice_subrange(rest, 0, c));
                    let nl_opt = find_byte(rest, c + 1, 10);
                    let val_raw: &[u8];
                    let new_rest: &[u8];
                    match nl_opt {
                        Option::Some(nl) => {
                            proof {
                                lemma_find_props(rest@, c + 1 as int, 10);
                            }
                            val_raw = slice_subrange(rest, c + 1, nl);
                            new_rest = slice_subrange(rest, nl + 1, rest.len());
                        },
                        Option::None => {
                            proof {
                                lemma_find_props(rest@, c + 1 as int, 10);
                            }
                            val_raw = slice_subrange(rest, c + 1, rest.len());
                            new_rest = slice_subrange(rest, rest.len(), rest.len());
                        },
                    }
                    let value = trim(val_raw);
                    proof {
                        assert(no_byte(val_raw@, 10));
                        lemma_trim_no_byte(val_raw@, 10);
                        lemma_trim_ends(val_raw@);
                        assert(spec_entries(pre) =~= seq![(key@, value@)] + spec_entries(
                            new_rest@,
                        ));
                        assert(spec_entries(pre)[0] == (key@, value@));
                        assert(spec_entries(pre).drop_first() =~= spec_entries(new_rest@));
                    }
                    let ghost es = spec_entries(pre);
                    if bytes_eq(key.as_slice(), key_mx_v().as_slice()) {
                        if value.len() >= 2 && *value_at(&value, 0) == 42 && *value_at(&value, 1)
                            == 46 {
                            if value.len() > 2 {
                                let suffix = to_lowercase(
                                    slice_subrange(value.as_slice(), 1, value.len()),
                                );
                                let ghost old_view = mx_view(mx@);
                                mx.push(MxPattern::StartsWith(suffix));
                                proof {
                                    let sub = value@.subrange(1, value@.len() as int);
                                    lemma_lower_keeps_shape(sub);
                                    lemma_lower_idempotent(sub);
                                    assert(mx_view(mx@) =~= old_view.push((true, suffix@)));
                                    assert(suffix@ == spec_lower(sub));
                                    assert(sub[0] == 46);
                                    assert(suffix@[0] == 46);
                                    assert(sub[sub.len() - 1] == value@[value@.len() - 1]);
                                    assert(!is_ascii_ws(suffix@[suffix@.len() - 1]));
                                    assert(forall|i: int|
                                        0 <= i < sub.len() ==> #[trigger] sub[i] == value@[i + 1]);
                                    assert(forall|i: int|
                                        0 <= i < suffix@.len() ==> #[trigger] suffix@[i] != 10);
                                    assert(wf_pattern(true, suffix@));
                                    assert(wf_mx(mx_view(mx@)));
                                }
                            }
                        } else if value.len() > 0 {
                            let low = to_lowercase(value.as_slice());
                            let ghost old_view = mx_view(mx@);
                            mx.push(MxPattern::Equals(low));
                            proof {
                                lemma_lower_keeps_shape(value@);
                                lemma_lower_idempotent(value@);
                                assert(mx_view(mx@) =~= old_view.push((false, low@)));
                                assert(low@ == spec_lower(value@));
                                assert(!is_ascii_ws(low@[0]));
                                assert(!is_ascii_ws(low@[low@.len() - 1]));
                                assert(forall|i: int|
                                    0 <= i < low@.len() ==> #[trigger] low@[i] != 10);
                                assert((low@.len() >= 2 && low@[0] == 42 && low@[1] == 46) == (
                                value@.len() >= 2 && value@[0] == 42 && value@[1] == 46));
                                assert(wf_pattern(false, low@));
                                assert(wf_mx(mx_view(mx@)));
                            }
                        }
                    } else if bytes_eq(key.as_slice(), key_max_age_v().as_slice()) {
                        let digits: &[u8] = if value.len() > 0 && *value_at(&value, 0) == 43 {
                            slice_subrange(value.as_slice(), 1, value.len())
                        } else {
                            value.as_slice()
                        };
                        proof {
                            assert(digits@ =~= age_digits(value@));
                        }
                        match parse_u64(digits) {
                            Option::Some(v) => {
                                if 3600 <= v && v < 31557600 {
                                    expires_in = v;
                                }
                            },
                            Option::None => {},
                        }
                    } else if bytes_eq(key.as_slice(), key_mode_v().as_slice()) {
                        if bytes_eq(value.as_slice(), val_enforce_v().as_slice()) {
                            mode = Mode::Enforce;
                        } else if bytes_eq(value.as_slice(), val_testing_v().as_slice()) {
                            mode = Mode::Testing;
                        } else if bytes_eq(value.as_slice(), val_none_v().as_slice()) {
                            mode = Mode::NoPolicy;
                        } else {
                            return Result::Err(ParseError::UnsupportedMode);
                        }
                    } else if bytes_eq(key.as_slice(), key_version_v().as_slice()) {
                        if !eq_ignore_ascii_case(value.as_slice(), val_stsv1_v().as_slice()) {
                            return Result::Err(ParseError::UnsupportedVersion);
                        }
                    }
                    rest = new_rest;
                },
            }
        }
        proof {
            assert(spec_entries(rest@) =~= Seq::<(Seq<u8>, Seq<u8>)>::empty());
        }
        if mx.len() > 0 {
            Result::Ok((Policy { id, mode, mx }, expires_in))
        } else {
            Result::Err(ParseError::NoMxEntries)
        }
    }
}

/// The byte at a position of a vector.
fn value_at(v: &Vec<u8>, i: usize) -> (r: &u8)
    requires
        i < v@.len(),
    ensures
        *r == v@[i as int],
{
    &v[i]
}


/// The value bytes a canonical `mx:` line carries for one pattern.
pub open spec fn mx_value(w: bool, p: Seq<u8>) -> Seq<u8> {
    if w {
        seq![42u8] + p
    } else {
        p
    }
}

/// One canonical `key: value` line.
pub open spec fn canon_line(k: Seq<u8>, v: Seq<u8>) -> Seq<u8> {
    k + seq![58u8, 32u8] + v + seq![10u8]
}

/// The canonical `mx:` lines of a pattern list, in order.
pub open spec fn canon_mx(mx: Seq<(bool, Seq<u8>)>) -> Seq<u8>
    decreases mx.len(),
{
    if mx.len() == 0 {
        Seq::empty()
    } else {
        canon_line(key_mx(), mx_value(mx[0].0, mx[0].1)) + canon_mx(mx.drop_first())
    }
}

/// The `key: value` pairs the canonical `mx:` lines denote.
pub open spec fn mx_entries(mx: Seq<(bool, Seq<u8>)>) -> Seq<(Seq<u8>, Seq<u8>)> {
    mx.map_values(|e: (bool, Seq<u8>)| (key_mx(), mx_value(e.0, e.1)))
}

/// The canonical value of the `mode` key.
pub open spec fn mode_value(m: Mode) -> Seq<u8> {
    match m {
        Mode::Enforce => val_enforce(),
        Mode::Testing => val_testing(),
        Mode::NoPolicy => val_none(),
    }
}

/// The canonical form of a policy: version, mode, the `mx` lines, and
/// `max_age`, one `key: value` line each, LF-terminated.
pub open spec fn spec_canon(mode: Mode, mx: Seq<(bool, Seq<u8>)>, age: u64) -> Seq<u8> {
    canon_line(key_version(), val_stsv1()) + canon_line(key_mode(), mode_value(mode)) + canon_mx(mx)
        + canon_line(key_max_age(), spec_dec(age as nat))
}

/// A key as the canonical form writes one: nonempty, trimmed, and free
/// of colons and line feeds.
pub open spec fn plain_key(k: Seq<u8>) -> bool {
    &&& k.len() > 0
    &&& spec_trim(k) == k
    &&& no_byte(k, 58)
    &&& no_byte(k, 10)
}

/// Reading one canonical line off the front of a document yields its
/// pair and leaves the rest.
pub proof fn lemma_entries_line(k: Seq<u8>, v: Seq<u8>, rest: Seq<u8>)
    requires
        plain_key(k),
        v.len() > 0,
        !is_ascii_ws(v[0]),
        !is_ascii_ws(v[v.len() - 1]),
        no_byte(v, 10),
    ensures
        spec_entries(canon_line(k, v) + rest) == seq![(k, v)] + spec_entries(rest),
{
    let s = canon_line(k, v) + rest;
    let c = k.len() as int;
    let nl = k.len() + 2 + v.len() as int;
    assert(s.len() == k.len() + 3 + v.len() + rest.len());
    assert forall|i: int| 0 <= i < k.len() implies s[i] == k[i] by {}
    assert(s[c] == 58);
    assert(s[c + 1] == 32);
    assert forall|i: int| 0 <= i < v.len() implies s[c + 2 + i] == v[i] by {}
    assert(s[nl] == 10);
    assert forall|i: int| 0 <= i < rest.len() implies s[nl + 1 + i] == rest[i] by {}
    lemma_find_exact(s, 0, 58, c);
    assert forall|j: int| c + 1 <= j < nl implies s[j] != 10 by {
        if j > c + 1 {
            assert(s[j] == v[j - (c + 2)]);
        }
    }
    lemma_find_exact(s, c + 1, 10, nl);
    assert(s.subrange(0, c) =~= k);
    assert(s.subrange(c + 1, nl) =~= seq![32u8] + v);
    lemma_trim_space_prefix(v);
    assert(s.subrange(nl + 1, s.len() as int) =~= rest);
    assert(spec_entries(s) =~= seq![(k, v)] + spec_entries(rest));
}

/// The value of a canonical `mx:` line is in parser shape at its ends.
proof fn lemma_mx_value_shape(w: bool, p: Seq<u8>)
    requires
        wf_pattern(w, p),
    ensures
        mx_value(w, p).len() > 0,
        !is_ascii_ws(mx_value(w, p)[0]),
        !is_ascii_ws(mx_value(w, p)[mx_value(w, p).len() - 1]),
        no_byte(mx_value(w, p), 10),
{
    let v = mx_value(w, p);
    if w {
        assert(v[0] == 42);
        assert(v[v.len() - 1] == p[p.len() - 1]);
        assert forall|i: int| 0 <= i < v.len() implies v[i] != 10 by {
            if i > 0 {
                assert(v[i] == p[i - 1]);
            }
        }
    }
}

/// Reading the canonical `mx:` lines off the front of a document yields
/// one pair per pattern, in order.
proof fn lemma_entries_canon_mx(mx: Seq<(bool, Seq<u8>)>, rest: Seq<u8>)
    requires
        wf_mx(mx),
    ensures
        spec_entries(canon_mx(mx) + rest) == mx_entries(mx) + spec_entries(rest),
    decreases mx.len(),
{
    if mx.len() == 0 {
        assert(canon_mx(mx) + rest =~= rest);
        assert(mx_entries(mx) + spec_entries(rest) =~= spec_entries(rest));
    } else {
        let w = mx[0].0;
        let p = mx[0].1;
        assert(wf_pattern(w, p));
        lemma_mx_value_shape(w, p);
        assert(plain_key(key_mx())) by {
            crate::text::lemma_trim_of_trimmed(key_mx());
        }
        assert(canon_mx(mx) + rest =~= canon_line(key_mx(), mx_value(w, p)) + (canon_mx(
            mx.drop_first(),
        ) + rest));
        lemma_entries_line(key_mx(), mx_value(w, p), canon_mx(mx.drop_first()) + rest);
        assert(forall|i: int|
            0 <= i < mx.drop_first().len() ==> wf_pattern(
                #[trigger] mx.drop_first()[i].0,
                mx.drop_first()[i].1,
            ));
        lemma_entries_canon_mx(mx.drop_first(), rest);
        assert(spec_entries(canon_mx(mx) + rest) =~= mx_entries(mx) + spec_entries(rest));
    }
}

/// Applying the pairs of the canonical `mx:` lines appends exactly the
/// patterns they came from.
proof fn lemma_apply_mx(
    mx: Seq<(bool, Seq<u8>)>,
    tail: Seq<(Seq<u8>, Seq<u8>)>,
    mode: Mode,
    age: int,
    acc: Seq<(bool, Seq<u8>)>,
)
    requires
        wf_mx(mx),
    ensures
        spec_apply(mx_entries(mx) + tail, mode, age, acc) == spec_apply(tail, mode, age, acc + mx),
    decreases mx.len(),
{
    if mx.len() == 0 {
        assert(mx_entries(mx) + tail =~= tail);
        assert(acc + mx =~= acc);
    } else {
        let w = mx[0].0;
        let p = mx[0].1;
        assert(wf_pattern(w, p));
        let es = mx_entries(mx) + tail;
        let v = mx_value(w, p);
        assert(es[0] == (key_mx(), v));
        assert(es.len() > 0);
        let acc2 = if w {
            assert(v.len() >= 3);
            assert(v[0] == 42);
            assert(v[1] == p[0]);
            assert(v[1] == 46);
            assert(v.subrange(1, v.len() as int) =~= p);
            acc.push((true, p))
        } else {
            assert(v == p);
            assert(!(v.len() >= 2 && v[0] == 42 && v[1] == 46));
            assert(v.len() > 0);
            acc.push((false, p))
        };
        assert(spec_apply(es, mode, age, acc) == spec_apply(es.drop_first(), mode, age, acc2));
        assert(es.drop_first() =~= mx_entries(mx.drop_first()) + tail);
        assert(forall|i: int|
            0 <= i < mx.drop_first().len() ==> wf_pattern(
                #[trigger] mx.drop_first()[i].0,
                mx.drop_first()[i].1,
            ));
        lemma_apply_mx(mx.drop_first(), tail, mode, age, acc2);
        assert(acc2 + mx.drop_first() =~= acc + mx);
    }
}

/// Re-parsing the canonical form of a parsed policy yields the same
/// mode, the same patterns and the same age: the canonical form loses
/// nothing.
#[verifier::rlimit(100)]
pub proof fn lemma_policy_round_trip(mode: Mode, mx: Seq<(bool, Seq<u8>)>, age: u64)
    requires
        3600 <= age < 31557600,
        mx.len() > 0,
        wf_mx(mx),
    ensures
        spec_policy(spec_canon(mode, mx, age)) == Result::<
            (Mode, int, Seq<(bool, Seq<u8>)>),
            ParseError,
        >::Ok((mode, age as int, mx)),
{
    let digits = spec_dec(age as nat);
    lemma_dec_digits_facts(age);
    let doc = spec_canon(mode, mx, age);
    let tail3: Seq<u8> = Seq::empty();
    let aline = canon_line(key_max_age(), digits);
    let r2 = canon_mx(mx) + aline;
    let r1 = canon_line(key_mode(), mode_value(mode)) + r2;
    assert(doc =~= canon_line(key_version(), val_stsv1()) + r1);
    assert(plain_key(key_version())) by {
        crate::text::lemma_trim_of_trimmed(key_version());
    }
    assert(plain_key(key_mode())) by {
        crate::text::lemma_trim_of_trimmed(key_mode());
    }
    assert(plain_key(key_max_age())) by {
        crate::text::lemma_trim_of_trimmed(key_max_age());
    }
    lemma_entries_line(key_version(), val_stsv1(), r1);
    lemma_entries_line(key_mode(), mode_value(mode), r2);
    assert(mode_value(mode).len() > 0 && !is_ascii_ws(mode_value(mode)[0]) && !is_ascii_ws(
        mode_value(mode)[mode_value(mode).len() - 1],
    ) && no_byte(mode_value(mode), 10));
    assert(r2 =~= canon_mx(mx) + aline);
    lemma_entries_canon_mx(mx, aline);
    assert(aline =~= canon_line(key_max_age(), digits) + Seq::<u8>::empty());
    lemma_entries_line(key_max_age(), digits, Seq::empty());
    assert(spec_entries(Seq::<u8>::empty()) =~= Seq::<(Seq<u8>, Seq<u8>)>::empty());
    let e_age: Seq<(Seq<u8>, Seq<u8>)> = seq![(key_max_age(), digits)];
    assert(spec_entries(aline) =~= e_age);
    assert(spec_entries(r2) =~= mx_entries(mx) + e_age);
    assert(spec_entries(r1) =~= seq![(key_mode(), mode_value(mode))] + (mx_entries(mx) + e_age));
    assert(spec_entries(doc) =~= seq![(key_version(), val_stsv1())] + (seq![
        (key_mode(), mode_value(mode)),
    ] + (mx_entries(mx) + e_age)));
    // step 1: the version line is accepted and changes nothing
    let es0 = spec_entries(doc);
    assert(es0[0] == (key_version(), val_stsv1()));
    assert(key_version() != key_mx());
    assert(key_version() != key_max_age()) by {
        assert(key_version()[0] == 118);
        assert(key_max_age()[0] == 109);
    }
    assert(key_version() != key_mode());
    assert(spec_apply(es0, Mode::NoPolicy, 86400, Seq::empty()) == spec_apply(
        es0.drop_first(),
        Mode::NoPolicy,
        86400,
        Seq::empty(),
    ));
    // step 2: the mode line sets the mode
    let es1 = es0.drop_first();
    assert(es1 =~= seq![(key_mode(), mode_value(mode))] + (mx_entries(mx) + e_age));
    assert(es1[0] == (key_mode(), mode_value(mode)));
    assert(key_mode() != key_mx());
    assert(key_mode() != key_max_age());
    assert(val_enforce() != val_testing()) by {
        assert(val_enforce()[0] == 101);
        assert(val_testing()[0] == 116);
    }
    assert(val_enforce() != val_none());
    assert(val_testing() != val_none());
    assert(spec_apply(es1, Mode::NoPolicy, 86400, Seq::empty()) == spec_apply(
        es1.drop_first(),
        mode,
        86400,
        Seq::empty(),
    ));
    // step 3: each mx line appends its pattern
    let es2 = es1.drop_first();
    assert(es2 =~= mx_entries(mx) + e_age);
    lemma_apply_mx(mx, e_age, mode, 86400, Seq::empty());
    assert(Seq::<(bool, Seq<u8>)>::empty() + mx =~= mx);
    // step 4: the max_age line sets the age
    assert(e_age[0] == (key_max_age(), digits));
    assert(is_digit(digits[0]));
    assert(digits[0] != 43);
    assert(age_digits(digits) == digits);
    assert(key_max_age() != key_mx());
    assert(spec_apply(e_age, mode, 86400, mx) == spec_apply(
        e_age.drop_first(),
        mode,
        age as int,
        mx,
    ));
    assert(e_age.drop_first() =~= Seq::<(Seq<u8>, Seq<u8>)>::empty());
    assert(spec_apply(Seq::empty(), mode, age as int, mx) == Result::<
        (Mode, int, Seq<(bool, Seq<u8>)>),
        ParseError,
    >::Ok((mode, age as int, mx)));
}

/// The decimal digits of an age are nonempty digit bytes whose value
/// reads back as the age, and are no whitespace and no line feed.
proof fn lemma_dec_digits_facts(age: u64)
    ensures
        spec_dec(age as nat).len() > 0,
        all_digits(spec_dec(age as nat)),
        spec_dec_value(spec_dec(age as nat)) == age as nat,
        !is_ascii_ws(spec_dec(age as nat)[0]),
        !is_ascii_ws(spec_dec(age as nat)[spec_dec(age as nat).len() - 1]),
        no_byte(spec_dec(age as nat), 10),
{
    crate::proto::lemma_dec_digits(age as nat);
    crate::proto::lemma_dec_round_trip(age as nat);
    let d = spec_dec(age as nat);
    assert(is_digit(d[0]));
    assert(is_digit(d[d.len() - 1]));
    assert forall|i: int| 0 <= i < d.len() implies d[i] != 10 by {
        assert(is_digit(d[i]));
    }
}


impl Policy {
    /// Writes this policy in its canonical document form, with the
    /// given `max_age` value.
    pub fn to_document(&self, max_age: u64) -> (r: Vec<u8>)
        ensures
            r@ == spec_canon(self.mode, mx_view(self.mx@), max_age),
    {
        let mut doc: Vec<u8> = Vec::new();
        push_bytes(&mut doc, key_version_v().as_slice());
        doc.push(58);
        doc.push(32);
        push_bytes(&mut doc, val_stsv1_v().as_slice());
        doc.push(10);
        let ghost l1 = canon_line(key_version(), val_stsv1());
        proof {
            assert(doc@ =~= l1);
        }
        push_bytes(&mut doc, key_mode_v().as_slice());
        doc.push(58);
        doc.push(32);
        match self.mode {
            Mode::Enforce => push_bytes(&mut doc, val_enforce_v().as_slice()),
            Mode::Testing => push_bytes(&mut doc, val_testing_v().as_slice()),
            Mode::NoPolicy => push_bytes(&mut doc, val_none_v().as_slice()),
        }
        doc.push(10);
        let ghost l2 = l1 + canon_line(key_mode(), mode_value(self.mode));
        proof {
            assert(doc@ =~= l2);
        }
        let mut i: usize = 0;
        while i < self.mx.len()
            invariant
                0 <= i <= self.mx@.len(),
                doc@ == l2 + canon_mx(mx_view(self.mx@).take(i as int)),
            decreases self.mx@.len() - i,
        {
            let ghost pre = mx_view(self.mx@).take(i as int);
            push_bytes(&mut doc, key_mx_v().as_slice());
            doc.push(58);
            doc.push(32);
            match &self.mx[i] {
                MxPattern::Equals(p) => push_bytes(&mut doc, p.as_slice()),
                MxPattern::StartsWith(p) => {
                    doc.push(42);
                    push_bytes(&mut doc, p.as_slice());
                },
            }
            doc.push(10);
            proof {
                let e = mx_view(self.mx@)[i as int];
                assert(doc@ =~= l2 + (canon_mx(pre) + canon_line(key_mx(), mx_value(e.0, e.1))));
                lemma_canon_mx_snoc(pre, e);
                assert(mx_view(self.mx@).take(i + 1 as int) =~= pre.push(e));
            }
            i = i + 1;
        }
        proof {
            assert(mx_view(self.mx@).take(self.mx@.len() as int) =~= mx_view(self.mx@));
        }
        push_bytes(&mut doc, key_max_age_v().as_slice());
        doc.push(58);
        doc.push(32);
        let digits = u64_to_dec(max_age);
        push_bytes(&mut doc, digits.as_slice());
        doc.push(10);
        proof {
            assert(doc@ =~= spec_canon(self.mode, mx_view(self.mx@), max_age));
        }
        doc
    }
}

/// Adding one pattern at the end adds one canonical line at the end.
proof fn lemma_canon_mx_snoc(mx: Seq<(bool, Seq<u8>)>, e: (bool, Seq<u8>))
    ensures
        canon_mx(mx.push(e)) == canon_mx(mx) + canon_line(key_mx(), mx_value(e.0, e.1)),
    decreases mx.len(),
{
    if mx.len() == 0 {
        assert(mx.push(e)[0] == e);
        assert(mx.push(e).drop_first() =~= Seq::<(bool, Seq<u8>)>::empty());
        assert(canon_mx(mx.push(e)) == canon_line(key_mx(), mx_value(e.0, e.1)) + canon_mx(
            mx.push(e).drop_first(),
        ));
        assert(canon_mx(Seq::<(bool, Seq<u8>)>::empty()) =~= Seq::<u8>::empty());
        assert(canon_mx(mx.push(e)) =~= canon_mx(mx) + canon_line(key_mx(), mx_value(e.0, e.1)));
    } else {
        assert(mx.push(e).drop_first() =~= mx.drop_first().push(e));
        lemma_canon_mx_snoc(mx.drop_first(), e);
        assert(mx.push(e)[0] == mx[0]);
        assert(canon_mx(mx.push(e)) == canon_line(key_mx(), mx_value(mx[0].0, mx[0].1)) + canon_mx(
            mx.drop_first().push(e),
        ));
        assert(canon_mx(mx.push(e)) =~= canon_mx(mx) + canon_line(key_mx(), mx_value(e.0, e.1)));
    }
}

} // verus!
