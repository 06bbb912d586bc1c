use vstd::prelude::*;
use crate::envelope::{Envelope, EnvelopeKey, env_value, spec_has_key, has_key};
use crate::text::bytes_eq;

verus! {

/// One condition of a rule: the named envelope attribute must hold
/// exactly these bytes.
#[derive(Clone, Debug)]
pub struct Condition {
    pub key: EnvelopeKey,
    pub value: Vec<u8>,
}

/// One rule arm: a conjunction of conditions guarding a value.
#[derive(Clone, Debug)]
pub struct IfThen<T> {
    pub conditions: Vec<Condition>,
    pub value: T,
}

/// An ordered list of guarded values plus a default: against any
/// envelope it yields exactly one value, that of the first arm whose
/// conditions all hold, or the default.
#[derive(Clone, Debug)]
pub struct IfBlock<T> {
    pub if_then: Vec<IfThen<T>>,
    pub default: T,
}

/// Whether one condition holds of an envelope.
pub open spec fn spec_cond_holds(c: Condition, e: Envelope) -> bool {
    env_value(e, c.key) == c.value@
}

/// Whether every condition of an arm holds of an envelope.
pub open spec fn spec_arm_matches(cs: Seq<Condition>, e: Envelope) -> bool {
    forall|i: int| 0 <= i < cs.len() ==> spec_cond_holds(#[trigger] cs[i], e)
}

/// The index of the arm the evaluation takes, or the arm count when
/// the default applies.
pub open spec fn spec_chosen_arm<T>(arms: Seq<IfThen<T>>, e: Envelope) -> int
    decreases arms.len(),
{
    if arms.len() == 0 {
        0
    } else if spec_arm_matches(arms[0].conditions@, e) {
        0
    } else {
        1 + spec_chosen_arm(arms.drop_first(), e)
    }
}

/// The value an `IfBlock` yields for an envelope.
pub open spec fn spec_eval<T>(b: IfBlock<T>, e: Envelope) -> T {
    let n = spec_chosen_arm(b.if_then@, e);
    if n < b.if_then@.len() {
        b.if_then@[n].value
    } else {
        b.default
    }
}

/// Whether every key any condition of the block reads stands in the
/// allowed list.
pub open spec fn spec_keys_within<T>(b: IfBlock<T>, allowed: Seq<EnvelopeKey>) -> bool {
    forall|i: int, j: int|
        0 <= i < b.if_then@.len() && 0 <= j < b.if_then@[i].conditions@.len() ==> spec_has_key(
            allowed,
            (#[trigger] b.if_then@[i].conditions@[j]).key,
        )
}

impl Condition {
    /// Whether the condition holds of the envelope.
    pub fn holds(&self, e: &Envelope) -> (r: bool)
        ensures
            r == spec_cond_holds(*self, *e),
    {
        bytes_eq(e.value_of(self.key).as_slice(), self.value.as_slice())
    }
}

impl<T> IfBlock<T> {
    /// A block with no arms: it yields its default for every envelope.
    pub fn new(default: T) -> (r: IfBlock<T>)
        ensures
            r.if_then@.len() == 0,
            r.default == default,
    {
        IfBlock { if_then: Vec::new(), default }
    }

    /// Evaluates the block: the value of the first arm whose
    /// conditions all hold, or the default. Exactly one value comes
    /// back for every envelope.
    pub fn eval(&self, e: &Envelope) -> (r: &T)
        ensures
            *r == spec_eval(*self, *e),
    {
        let mut i: usize = 0;
        while i < self.if_then.len()
            invariant
                0 <= i <= self.if_then@.len(),
                forall|ii: int|
                    0 <= ii < i ==> !spec_arm_matches(
                        (#[trigger] self.if_then@[ii]).conditions@,
                        *e,
                    ),
            decreases self.if_then@.len() - i,
        {
            let arm = &self.if_then[i];
            let mut all = true;
            let mut j: usize = 0;
            while j < arm.conditions.len()
                invariant
                    0 <= j <= arm.conditions@.len(),
                    arm == &self.if_then@[i as int],
                    all == (forall|jj: int|
                        0 <= jj < j ==> spec_cond_holds(#[trigger] arm.conditions@[jj], *e)),
                decreases arm.conditions@.len() - j,
            {
                if !arm.conditions[j].holds(e) {
                    all = false;
                }
                j = j + 1;
            }
            if all {
                proof {
                    assert(spec_arm_matches(self.if_then@[i as int].conditions@, *e));
                    lemma_chosen_arm_at(self.if_then@, *e, i as int);
                }
                return &arm.value;
            }
            proof {
                assert(!spec_arm_matches(self.if_then@[i as int].conditions@, *e));
            }
            i = i + 1;
        }
        proof {
            lemma_chosen_arm_at(self.if_then@, *e, i as int);
        }
        &self.default
    }

    /// Whether every envelope key the block's conditions read stands
    /// in the allowed list: the load-time check that keeps a stage
    /// from observing keys outside its set.
    pub fn keys_within(&self, allowed: &Vec<EnvelopeKey>) -> (r: bool)
        ensures
            r == spec_keys_within(*self, allowed@),
    {
        let mut i: usize = 0;
        while i < self.if_then.len()
            invariant
                0 <= i <= self.if_then@.len(),
                forall|ii: int, jj: int|
                    0 <= ii < i && 0 <= jj < self.if_then@[ii].conditions@.len() ==> spec_has_key(
                        allowed@,
                        (#[trigger] self.if_then@[ii].conditions@[jj]).key,
                    ),
            decreases self.if_then@.len() - i,
        {
            let arm = &self.if_then[i];
            let mut j: usize = 0;
            while j < arm.conditions.len()
                invariant
                    0 <= j <= arm.conditions@.len(),
                    i < self.if_then@.len(),
                    *arm == self.if_then@[i as int],
                    forall|jj: int|
                        0 <= jj < j ==> spec_has_key(
                            allowed@,
                            (#[trigger] arm.conditions@[jj]).key,
                        ),
                decreases arm.conditions@.len() - j,
            {
                if !has_key(allowed, arm.conditions[j].key) {
                    proof {
                        let ii = i as int;
                        let jj = j as int;
                        assert(0 <= ii < self.if_then@.len());
                        assert(self.if_then@[ii].conditions@ == arm.conditions@);
                        assert(0 <= jj < self.if_then@[ii].conditions@.len());
                        assert(!spec_has_key(
                            allowed@,
                            (#[trigger] self.if_then@[ii].conditions@[jj]).key,
                        ));
                        assert(!spec_keys_within(*self, allowed@));
                    }
                    return false;
                }
                j = j + 1;
            }
            i = i + 1;
        }
        true
    }
}

/// The chosen arm is the first whose conditions hold.
proof fn lemma_chosen_arm_at<T>(arms: Seq<IfThen<T>>, e: Envelope, i: int)
    requires
        0 <= i <= arms.len(),
        forall|ii: int|
            0 <= ii < i ==> !spec_arm_matches((#[trigger] arms[ii]).conditions@, e),
        i < arms.len() ==> spec_arm_matches(arms[i].conditions@, e),
    ensures
        spec_chosen_arm(arms, e) == i,
    decreases i, arms.len(),
{
    if i == 0 {
        if arms.len() > 0 {
        }
    } else {
        assert(!spec_arm_matches(arms[0].conditions@, e));
        assert(forall|ii: int|
            0 <= ii < i - 1 ==> #[trigger] arms.drop_first()[ii] == arms[ii + 1]);
        lemma_chosen_arm_at(arms.drop_first(), e, i - 1);
    }
}

/// Envelope-key discipline: a block whose conditions read only allowed
/// keys cannot tell two envelopes apart that agree on those keys. What
/// a stage's rules yield depends on the stage's own key set alone.
pub proof fn lemma_key_discipline<T>(
    b: IfBlock<T>,
    allowed: Seq<EnvelopeKey>,
    e1: Envelope,
    e2: Envelope,
)
    requires
        spec_keys_within(b, allowed),
        forall|k: EnvelopeKey| spec_has_key(allowed, k) ==> env_value(e1, k) == env_value(e2, k),
    ensures
        spec_eval(b, e1) == spec_eval(b, e2),
{
    lemma_chosen_arm_agrees(b.if_then@, b, allowed, e1, e2, 0);
}

proof fn lemma_chosen_arm_agrees<T>(
    arms: Seq<IfThen<T>>,
    b: IfBlock<T>,
    allowed: Seq<EnvelopeKey>,
    e1: Envelope,
    e2: Envelope,
    off: int,
)
    requires
        0 <= off,
        off + arms.len() == b.if_then@.len(),
        arms =~= b.if_then@.skip(off),
        spec_keys_within(b, allowed),
        forall|k: EnvelopeKey| spec_has_key(allowed, k) ==> env_value(e1, k) == env_value(e2, k),
    ensures
        spec_chosen_arm(arms, e1) == spec_chosen_arm(arms, e2),
    decreases arms.len(),
{
    if arms.len() > 0 {
        let cs = arms[0].conditions@;
        assert(arms[0] == b.if_then@[off]);
        assert forall|j: int| 0 <= j < cs.len() implies (spec_cond_holds(#[trigger] cs[j], e1)
            == spec_cond_holds(cs[j], e2)) by {
            assert(spec_has_key(allowed, (b.if_then@[off].conditions@[j]).key));
            assert(env_value(e1, cs[j].key) == env_value(e2, cs[j].key));
        }
        assert(spec_arm_matches(cs, e1) == spec_arm_matches(cs, e2));
        if !spec_arm_matches(cs, e1) {
            assert(arms.drop_first() =~= b.if_then@.skip(off + 1));
            lemma_chosen_arm_agrees(arms.drop_first(), b, allowed, e1, e2, off + 1);
        }
    }
}

} // verus!
