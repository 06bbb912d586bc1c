use vstd::prelude::*;
use vstd::string::StringSliceAdditionalSpecFns;

verus! {

/// The six ASCII whitespace bytes that surrounding-whitespace trimming removes.
pub open spec fn is_ascii_ws(b: u8) -> bool {
    b == 32 || b == 9 || b == 10 || b == 11 || b == 12 || b == 13
}

/// The byte sequence with its leading ASCII whitespace removed.
pub open spec fn spec_trim_start(s: Seq<u8>) -> Seq<u8>
    decreases s.len(),
{
    if s.len() > 0 && is_ascii_ws(s[0]) {
        spec_trim_start(s.drop_first())
    } else {
        s
    }
}

/// The byte sequence with its trailing ASCII whitespace removed.
pub open spec fn spec_trim_end(s: Seq<u8>) -> Seq<u8>
    decreases s.len(),
{
    if s.len() > 0 && is_ascii_ws(s.last()) {
        spec_trim_end(s.drop_last())
    } else {
        s
    }
}

/// The byte sequence with ASCII whitespace removed at both ends.
pub open spec fn spec_trim(s: Seq<u8>) -> Seq<u8> {
    spec_trim_end(spec_trim_start(s))
}

pub proof fn lemma_trim_start_at(s: Seq<u8>, i: int)
    requires
        0 <= i <= s.len(),
        forall|k: int| 0 <= k < i ==> is_ascii_ws(s[k]),
        i < s.len() ==> !is_ascii_ws(s[i]),
    ensures
        spec_trim_start(s) == s.subrange(i, s.len() as int),
    decreases i,
{
    if i == 0 {
        if s.len() > 0 && is_ascii_ws(s[0]) {
        } else {
            assert(s.subrange(0, s.len() as int) =~= s);
        }
    } else {
        lemma_trim_start_at(s.drop_first(), i - 1);
        assert(s.drop_first().subrange(i - 1, s.drop_first().len() as int) =~= s.subrange(
            i,
            s.len() as int,
        ));
    }
}

pub proof fn lemma_trim_end_at(s: Seq<u8>, j: int)
    requires
        0 <= j <= s.len(),
        forall|k: int| j <= k < s.len() ==> is_ascii_ws(s[k]),
        j > 0 ==> !is_ascii_ws(s[j - 1]),
    ensures
        spec_trim_end(s) == s.subrange(0, j),
    decreases s.len() - j,
{
    if j == s.len() {
        if s.len() > 0 && is_ascii_ws(s.last()) {
            lemma_trim_end_at(s.drop_last(), j - 1);
        } else {
            assert(s.subrange(0, s.len() as int) =~= s);
        }
    } else {
        lemma_trim_end_at(s.drop_last(), j);
        assert(s.drop_last().subrange(0, j) =~= s.subrange(0, j));
    }
}

fn is_ws(b: u8) -> (r: bool)
    ensures
        r == is_ascii_ws(b),
{
    b == 32 || b == 9 || b == 10 || b == 11 || b == 12 || b == 13
}

/// Copy of `s` with ASCII whitespace removed at both ends.
pub fn trim(s: &[u8]) -> (r: Vec<u8>)
    ensures
        r@ == spec_trim(s@),
{
    let mut i: usize = 0;
    while i < s.len() && is_ws(s[i])
        invariant
            0 <= i <= s@.len(),
            forall|k: int| 0 <= k < i ==> is_ascii_ws(s@[k]),
        decreases s@.len() - i,
    {
        i = i + 1;
    }
    let mut j: usize = s.len();
    while j > i && is_ws(s[j - 1])
        invariant
            i <= j <= s@.len(),
            forall|k: int| 0 <= k < i ==> is_ascii_ws(s@[k]),
            forall|k: int| j <= k < s@.len() ==> is_ascii_ws(s@[k]),
        decreases j,
    {
        j = j - 1;
    }
    proof {
        lemma_trim_start_at(s@, i as int);
        let t = s@.subrange(i as int, s@.len() as int);
        if j == i {
            lemma_trim_end_at(t, 0);
        } else {
            lemma_trim_end_at(t, j - i);
        }
    }
    let mut r: Vec<u8> = Vec::new();
    let mut k: usize = i;
    while k < j
        invariant
            i <= k <= j <= s@.len(),
            r@ == s@.subrange(i as int, k as int),
        decreases j - k,
    {
        r.push(s[k]);
        assert(r@ =~= s@.subrange(i as int, k + 1 as int));
        k = k + 1;
    }
    proof {
        assert(s@.subrange(i as int, j as int) =~= s@.subrange(i as int, s@.len() as int).subrange(
            0,
            j - i,
        ));
    }
    r
}

/// A byte folded to ASCII lower case.
pub open spec fn lower_byte(b: u8) -> u8 {
    if 65 <= b && b <= 90 {
        (b + 32) as u8
    } else {
        b
    }
}

/// A byte sequence folded to ASCII lower case.
pub open spec fn spec_lower(s: Seq<u8>) -> Seq<u8> {
    s.map_values(|b: u8| lower_byte(b))
}

/// Copy of `s` folded to ASCII lower case.
pub fn to_lowercase(s: &[u8]) -> (r: Vec<u8>)
    ensures
        r@ == spec_lower(s@),
{
    let mut r: Vec<u8> = Vec::new();
    let mut k: usize = 0;
    while k < s.len()
        invariant
            0 <= k <= s@.len(),
            r@ == spec_lower(s@.subrange(0, k as int)),
        decreases s@.len() - k,
    {
        let b = s[k];
        if 65 <= b && b <= 90 {
            r.push(b + 32);
        } else {
            r.push(b);
        }
        assert(r@ =~= spec_lower(s@.subrange(0, k + 1 as int)));
        k = k + 1;
    }
    proof {
        assert(s@.subrange(0, s@.len() as int) =~= s@);
    }
    r
}

/// Whether two byte slices hold the same bytes.
pub fn bytes_eq(a: &[u8], b: &[u8]) -> (r: bool)
    ensures
        r == (a@ == b@),
{
    if a.len() != b.len() {
        proof {
            assert(a@ != b@);
        }
        return false;
    }
    let mut k: usize = 0;
    while k < a.len()
        invariant
            0 <= k <= a@.len(),
            a@.len() == b@.len(),
            forall|j: int| 0 <= j < k ==> a@[j] == b@[j],
        decreases a@.len() - k,
    {
        if a[k] != b[k] {
            return false;
        }
        k = k + 1;
    }
    proof {
        assert(a@ =~= b@);
    }
    true
}

/// Whether two byte slices are equal once both are folded to ASCII lower case.
pub fn eq_ignore_ascii_case(a: &[u8], b: &[u8]) -> (r: bool)
    ensures
        r == (spec_lower(a@) == spec_lower(b@)),
{
    if a.len() != b.len() {
        proof {
            assert(spec_lower(a@).len() != spec_lower(b@).len());
        }
        return false;
    }
    let mut k: usize = 0;
    while k < a.len()
        invariant
            0 <= k <= a@.len(),
            a@.len() == b@.len(),
            forall|j: int| 0 <= j < k ==> lower_byte(a@[j]) == lower_byte(b@[j]),
        decreases a@.len() - k,
    {
        let x = a[k];
        let y = b[k];
        let xl = if 65 <= x && x <= 90 {
            x + 32
        } else {
            x
        };
        let yl = if 65 <= y && y <= 90 {
            y + 32
        } else {
            y
        };
        if xl != yl {
            proof {
                assert(spec_lower(a@)[k as int] != spec_lower(b@)[k as int]);
            }
            return false;
        }
        k = k + 1;
    }
    proof {
        assert(spec_lower(a@) =~= spec_lower(b@));
    }
    true
}

/// Index of the first occurrence of `b` in `s` at or after `from`, if any.
pub open spec fn spec_find(s: Seq<u8>, from: int, b: u8) -> Option<int>
    decreases s.len() - from,
{
    if from < 0 || from >= s.len() {
        Option::None
    } else if s[from] == b {
        Option::Some(from)
    } else {
        spec_find(s, from + 1, b)
    }
}

pub proof fn lemma_find_props(s: Seq<u8>, from: int, b: u8)
    requires
        0 <= from <= s.len(),
    ensures
        match spec_find(s, from, b) {
            Option::Some(i) => from <= i < s.len() && s[i] == b && (forall|k: int|
                from <= k < i ==> s[k] != b),
            Option::None => forall|k: int| from <= k < s.len() ==> s[k] != b,
        },
    decreases s.len() - from,
{
    if from < s.len() && s[from] != b {
        lemma_find_props(s, from + 1, b);
    }
}

/// First position of byte `b` in `s` at or after `from`.
pub fn find_byte(s: &[u8], from: usize, b: u8) -> (r: Option<usize>)
    requires
        from <= s@.len(),
    ensures
        match r {
            Option::Some(i) => spec_find(s@, from as int, b) == Option::Some(i as int),
            Option::None => spec_find(s@, from as int, b) == Option::<int>::None,
        },
{
    let mut k: usize = from;
    while k < s.len()
        invariant
            from <= k <= s@.len(),
            spec_find(s@, from as int, b) == spec_find(s@, k as int, b),
        decreases s@.len() - k,
    {
        if s[k] == b {
            return Option::Some(k);
        }
        k = k + 1;
    }
    Option::None
}


/// Folding to lower case twice is the same as folding once.
pub proof fn lemma_lower_idempotent(s: Seq<u8>)
    ensures
        spec_lower(spec_lower(s)) == spec_lower(s),
{
    assert forall|i: int| 0 <= i < s.len() implies spec_lower(spec_lower(s))[i] == spec_lower(s)[i]
        by {
        assert(lower_byte(lower_byte(s[i])) == lower_byte(s[i]));
    }
    assert(spec_lower(spec_lower(s)) =~= spec_lower(s));
}

/// Trimming a sequence whose ends are not whitespace changes nothing.
pub proof fn lemma_trim_of_trimmed(s: Seq<u8>)
    requires
        s.len() > 0,
        !is_ascii_ws(s[0]),
        !is_ascii_ws(s[s.len() - 1]),
    ensures
        spec_trim(s) == s,
{
    lemma_trim_start_at(s, 0);
    assert(s.subrange(0, s.len() as int) =~= s);
    lemma_trim_end_at(s, s.len() as int);
}

/// A single leading space disappears under trimming.
pub proof fn lemma_trim_space_prefix(s: Seq<u8>)
    requires
        s.len() > 0,
        !is_ascii_ws(s[0]),
        !is_ascii_ws(s[s.len() - 1]),
    ensures
        spec_trim(seq![32u8] + s) == s,
{
    let t = seq![32u8] + s;
    lemma_trim_start_at(t, 1);
    assert(t.subrange(1, t.len() as int) =~= s);
    lemma_trim_end_at(s, s.len() as int);
}

/// Trimming keeps every byte of the sequence, so a byte absent from the
/// whole sequence is absent from its trimmed form.
pub proof fn lemma_trim_no_byte(s: Seq<u8>, b: u8)
    requires
        forall|i: int| 0 <= i < s.len() ==> s[i] != b,
    ensures
        forall|i: int| 0 <= i < spec_trim(s).len() ==> spec_trim(s)[i] != b,
{
    lemma_trim_start_no_byte(s, b);
    lemma_trim_end_no_byte(spec_trim_start(s), b);
}

proof fn lemma_trim_start_no_byte(s: Seq<u8>, b: u8)
    requires
        forall|i: int| 0 <= i < s.len() ==> s[i] != b,
    ensures
        forall|i: int| 0 <= i < spec_trim_start(s).len() ==> spec_trim_start(s)[i] != b,
    decreases s.len(),
{
    if s.len() > 0 && is_ascii_ws(s[0]) {
        assert(forall|i: int| 0 <= i < s.drop_first().len() ==> #[trigger] s.drop_first()[i] != b);
        lemma_trim_start_no_byte(s.drop_first(), b);
        assert(spec_trim_start(s) == spec_trim_start(s.drop_first()));
    }
}

proof fn lemma_trim_end_no_byte(s: Seq<u8>, b: u8)
    requires
        forall|i: int| 0 <= i < s.len() ==> s[i] != b,
    ensures
        forall|i: int| 0 <= i < spec_trim_end(s).len() ==> spec_trim_end(s)[i] != b,
    decreases s.len(),
{
    if s.len() > 0 && is_ascii_ws(s.last()) {
        assert(forall|i: int| 0 <= i < s.drop_last().len() ==> #[trigger] s.drop_last()[i] != b);
        lemma_trim_end_no_byte(s.drop_last(), b);
        assert(spec_trim_end(s) == spec_trim_end(s.drop_last()));
    }
}

/// Where a byte is known to sit first, `spec_find` returns that place.
pub proof fn lemma_find_exact(s: Seq<u8>, from: int, b: u8, c: int)
    requires
        0 <= from <= c < s.len(),
        s[c] == b,
        forall|k: int| from <= k < c ==> s[k] != b,
    ensures
        spec_find(s, from, b) == Option::Some(c),
    decreases c - from,
{
    if from < c {
        lemma_find_exact(s, from + 1, b, c);
    }
}


proof fn lemma_trim_start_first(s: Seq<u8>)
    ensures
        spec_trim_start(s).len() > 0 ==> !is_ascii_ws(spec_trim_start(s)[0]),
    decreases s.len(),
{
    if s.len() > 0 && is_ascii_ws(s[0]) {
        lemma_trim_start_first(s.drop_first());
    }
}

proof fn lemma_trim_end_keeps(s: Seq<u8>)
    ensures
        spec_trim_end(s).len() > 0 ==> !is_ascii_ws(spec_trim_end(s)[spec_trim_end(s).len() - 1]),
        forall|i: int| 0 <= i < spec_trim_end(s).len() ==> spec_trim_end(s)[i] == s[i],
        spec_trim_end(s).len() <= s.len(),
    decreases s.len(),
{
    if s.len() > 0 && is_ascii_ws(s.last()) {
        lemma_trim_end_keeps(s.drop_last());
        assert(spec_trim_end(s) == spec_trim_end(s.drop_last()));
        assert forall|i: int| 0 <= i < spec_trim_end(s).len() implies spec_trim_end(s)[i] == s[i]
            by {
            assert(spec_trim_end(s)[i] == spec_trim_end(s.drop_last())[i]);
            assert(spec_trim_end(s.drop_last())[i] == s.drop_last()[i]);
            assert(s.drop_last()[i] == s[i]);
        }
    }
}

/// A nonempty trimmed sequence begins and ends with non-whitespace.
pub proof fn lemma_trim_ends(s: Seq<u8>)
    ensures
        spec_trim(s).len() > 0 ==> !is_ascii_ws(spec_trim(s)[0]) && !is_ascii_ws(
            spec_trim(s)[spec_trim(s).len() - 1],
        ),
{
    lemma_trim_start_first(s);
    lemma_trim_end_keeps(spec_trim_start(s));
}


/// Appends the bytes of `s` to `v`.
pub fn push_bytes(v: &mut Vec<u8>, s: &[u8])
    ensures
        final(v)@ == old(v)@ + s@,
{
    let mut k: usize = 0;
    while k < s.len()
        invariant
            0 <= k <= s@.len(),
            v@ == old(v)@ + s@.subrange(0, k as int),
        decreases s@.len() - k,
    {
        v.push(s[k]);
        assert(v@ =~= old(v)@ + s@.subrange(0, k + 1 as int));
        k = k + 1;
    }
    proof {
        assert(old(v)@ + s@.subrange(0, s@.len() as int) =~= old(v)@ + s@);
    }
}

/// Appends the bytes of the string `s` to `v`.
pub fn push_str(v: &mut Vec<u8>, s: &str)
    ensures
        final(v)@ == old(v)@ + s.spec_bytes(),
{
    push_bytes(v, s.as_bytes());
}

} // verus!
