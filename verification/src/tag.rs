use vstd::prelude::*;

verus! {

/// A narrative trait, condition or characteristic attached to a character.
/// Its kind decides how much it contributes to a roll and which mutations
/// (scratching, tier changes) apply to it.
#[derive(Debug, Clone)]
pub enum Tag {
    Power { name: String, is_scratched: bool },
    Weakness { name: String },
    Story { name: String, is_scratched: bool },
    Status { name: String, tiers: Vec<u8> },
}

/// Largest element of a sequence of tiers, or 0 for an empty sequence.
pub open spec fn seq_max(s: Seq<u8>) -> int
    decreases s.len(),
{
    if s.len() == 0 {
        0
    } else {
        let rest = seq_max(s.drop_last());
        if s.last() as int > rest {
            s.last() as int
        } else {
            rest
        }
    }
}

/// The tiers are strictly ascending: each tier occurs at most once.
pub open spec fn tiers_sorted(s: Seq<u8>) -> bool {
    forall|i: int, j: int| 0 <= i < j < s.len() ==> s[i] < s[j]
}

/// Every tier lies within 1..=6.
pub open spec fn tiers_in_range(s: Seq<u8>) -> bool {
    forall|i: int| 0 <= i < s.len() ==> 1 <= #[trigger] s[i] <= 6
}

/// The first value from `t` upward (capped at 6) that is not yet a tier.
pub open spec fn next_free(s: Seq<u8>, t: u8) -> u8
    decreases 6 - t,
{
    if t < 6 && s.contains(t) {
        next_free(s, (t + 1) as u8)
    } else {
        t
    }
}

/// All tiers decreased by one, with those that reach 0 removed; the
/// relative order of the survivors is kept.
pub open spec fn dec_tiers(s: Seq<u8>) -> Seq<u8>
    decreases s.len(),
{
    if s.len() == 0 {
        Seq::empty()
    } else {
        let rest = dec_tiers(s.drop_last());
        if s.last() > 1 {
            rest.push((s.last() - 1) as u8)
        } else {
            rest
        }
    }
}

impl Tag {
    /// The name the tag was created under, as stored.
    pub open spec fn spec_name(&self) -> String {
        match self {
            Tag::Power { name, .. } => *name,
            Tag::Weakness { name } => *name,
            Tag::Story { name, .. } => *name,
            Tag::Status { name, .. } => *name,
        }
    }

    /// Contribution of the tag to a roll: 1 for an unscratched power or
    /// story tag and for any weakness tag, 0 for a scratched one, and the
    /// highest tier for a status tag (0 with no tiers).
    pub open spec fn value_spec(&self) -> int {
        match self {
            Tag::Power { is_scratched, .. } => if *is_scratched { 0 } else { 1 },
            Tag::Weakness { .. } => 1,
            Tag::Story { is_scratched, .. } => if *is_scratched { 0 } else { 1 },
            Tag::Status { tiers, .. } => seq_max(tiers@),
        }
    }

    /// Well-formedness: the tiers of a status tag are kept strictly
    /// ascending (so each tier occurs once) and within 1..=6.
    pub open spec fn wf(&self) -> bool {
        match self {
            Tag::Status { tiers, .. } => tiers_sorted(tiers@) && tiers_in_range(tiers@),
            _ => true,
        }
    }

    /// The tag after scratching: power and story tags become scratched,
    /// every other tag is left alone.
    pub open spec fn scratch_spec(&self) -> Tag {
        match self {
            Tag::Power { name, .. } => Tag::Power { name: *name, is_scratched: true },
            Tag::Story { name, .. } => Tag::Story { name: *name, is_scratched: true },
            _ => *self,
        }
    }

    /// The tag after unscratching: power and story tags become unscratched,
    /// every other tag is left alone.
    pub open spec fn unscratch_spec(&self) -> Tag {
        match self {
            Tag::Power { name, .. } => Tag::Power { name: *name, is_scratched: false },
            Tag::Story { name, .. } => Tag::Story { name: *name, is_scratched: false },
            _ => *self,
        }
    }

    /// Get the value of the tag for roll calculations.
    pub fn get_value(&self) -> (r: u8)
        ensures
            r as int == self.value_spec(),
    {
        match self {
            Tag::Power { is_scratched, .. } => if *is_scratched { 0 } else { 1 },
            Tag::Story { is_scratched, .. } => if *is_scratched { 0 } else { 1 },
            Tag::Weakness { .. } => 1,
            Tag::Status { tiers, .. } => {
                let mut highest: u8 = 0;
                let mut i: usize = 0;
                while i < tiers.len()
                    invariant
                        i <= tiers@.len(),
                        highest as int == seq_max(tiers@.take(i as int)),
                    decreases tiers@.len() - i,
                {
                    proof {
                        assert(tiers@.take(i + 1).drop_last() =~= tiers@.take(i as int));
                        assert(tiers@.take(i + 1).last() == tiers@[i as int]);
                    }
                    if tiers[i] > highest {
                        highest = tiers[i];
                    }
                    i += 1;
                }
                proof {
                    assert(tiers@.take(tiers@.len() as int) =~= tiers@);
                }
                highest
            },
        }
    }

    /// Add a tier to a status tag, resolving collisions by stepping upward,
    /// up to a maximum of 6; with every value up to 6 taken the tier is
    /// dropped. Other tag kinds are left alone.
    pub fn add_tier(&mut self, tier: u8)
        requires
            old(self).wf(),
            1 <= tier <= 6,
        ensures
            final(self).wf(),
            !(*old(self) is Status) ==> *final(self) == *old(self),
            *old(self) is Status ==> {
                let t = next_free(old(self)->Status_tiers@, tier);
                let old_tiers = old(self)->Status_tiers@;
                let new_tiers = final(self)->Status_tiers@;
                &&& *final(self) is Status
                &&& final(self)->Status_name == old(self)->Status_name
                &&& (old_tiers.contains(t) ==> new_tiers == old_tiers)
                &&& (!old_tiers.contains(t) ==> new_tiers.len() == old_tiers.len() + 1
                        && (forall|k: u8| new_tiers.contains(k) <==> (old_tiers.contains(k)
                            || k == t)))
            },
    {
        match self {
            Tag::Status { tiers, .. } => {
                let ghost orig = tiers@;
                let mut t: u8 = tier;
                let mut taken = contains_tier(tiers, t);
                while t < 6 && taken
                    invariant
                        tier <= t <= 6,
                        tiers@ == orig,
                        taken == orig.contains(t),
                        forall|u: u8| tier <= u < t ==> orig.contains(u),
                    decreases 6 - t,
                {
                    t = t + 1;
                    taken = contains_tier(tiers, t);
                }
                proof {
                    lemma_next_free_unchanged(orig, tier, t);
                }
                if !taken {
                    insert_tier_sorted(tiers, t);
                }
            },
            _ => {},
        }
    }

    /// Decrease every tier of a status tag by 1, removing any that reach 0.
    /// Other tag kinds are left alone.
    pub fn decrease_tier(&mut self)
        requires
            old(self).wf(),
        ensures
            final(self).wf(),
            !(*old(self) is Status) ==> *final(self) == *old(self),
            *old(self) is Status ==> {
                &&& *final(self) is Status
                &&& final(self)->Status_name == old(self)->Status_name
                &&& final(self)->Status_tiers@ == dec_tiers(old(self)->Status_tiers@)
            },
    {
        match self {
            Tag::Status { tiers, .. } => {
                let ghost orig = tiers@;
                let mut out: Vec<u8> = Vec::new();
                let mut i: usize = 0;
                while i < tiers.len()
                    invariant
                        i <= orig.len(),
                        tiers@ == orig,
                        out@ == dec_tiers(orig.take(i as int)),
                    decreases orig.len() - i,
                {
                    proof {
                        assert(orig.take(i + 1).drop_last() =~= orig.take(i as int));
                        assert(orig.take(i + 1).last() == orig[i as int]);
                    }
                    if tiers[i] > 1 {
                        out.push(tiers[i] - 1);
                    }
                    i += 1;
                }
                proof {
                    assert(orig.take(orig.len() as int) =~= orig);
                    lemma_dec_tiers_wf(orig);
                }
                *tiers = out;
            },
            _ => {},
        }
    }

    /// Scratch a power or story tag; other tag kinds are left alone.
    pub fn scratch(&mut self)
        ensures
            *final(self) == old(self).scratch_spec(),
            old(self).wf() ==> final(self).wf(),
    {
        match self {
            Tag::Power { is_scratched, .. } => {
                *is_scratched = true;
            },
            Tag::Story { is_scratched, .. } => {
                *is_scratched = true;
            },
            _ => {},
        }
    }

    /// Unscratch a power or story tag; other tag kinds are left alone.
    pub fn unscratch(&mut self)
        ensures
            *final(self) == old(self).unscratch_spec(),
            old(self).wf() ==> final(self).wf(),
    {
        match self {
            Tag::Power { is_scratched, .. } => {
                *is_scratched = false;
            },
            Tag::Story { is_scratched, .. } => {
                *is_scratched = false;
            },
            _ => {},
        }
    }

    /// Create a new power tag with the given name.
    pub fn new_power(name: &str) -> (t: Tag)
        ensures
            t matches Tag::Power { name: n, is_scratched } && n@ == name@ && !is_scratched,
            t.wf(),
    {
        Tag::Power { name: String::from_str(name), is_scratched: false }
    }

    /// Create a new weakness tag with the given name.
    pub fn new_weakness(name: &str) -> (t: Tag)
        ensures
            t matches Tag::Weakness { name: n } && n@ == name@,
            t.wf(),
    {
        Tag::Weakness { name: String::from_str(name) }
    }

    /// Create a new story tag with the given name.
    pub fn new_story(name: &str) -> (t: Tag)
        ensures
            t matches Tag::Story { name: n, is_scratched } && n@ == name@ && !is_scratched,
            t.wf(),
    {
        Tag::Story { name: String::from_str(name), is_scratched: false }
    }

    /// Create a new status tag with the given name and initial tier.
    pub fn new_status(name: &str, initial_tier: usize) -> (t: Tag)
        requires
            1 <= initial_tier <= 6,
        ensures
            t matches Tag::Status { name: n, tiers } && n@ == name@
                && tiers@ =~= seq![initial_tier as u8],
            t.wf(),
            t.value_spec() == initial_tier as int,
    {
        let mut tiers: Vec<u8> = Vec::new();
        tiers.push(initial_tier as u8);
        let t = Tag::Status { name: String::from_str(name), tiers };
        proof {
            let ts = (t->Status_tiers)@;
            assert(seq_max(Seq::<u8>::empty()) == 0);
            assert(ts.drop_last() =~= Seq::<u8>::empty());
            assert(ts.last() == initial_tier as u8);
            assert(seq_max(ts) == initial_tier as int);
        }
        t
    }
}

/// Whether `t` occurs among the tiers.
fn contains_tier(v: &Vec<u8>, t: u8) -> (r: bool)
    ensures
        r == v@.contains(t),
{
    let mut i: usize = 0;
    while i < v.len()
        invariant
            i <= v@.len(),
            forall|j: int| 0 <= j < i ==> v@[j] != t,
        decreases v@.len() - i,
    {
        if v[i] == t {
            return true;
        }
        i += 1;
    }
    false
}

/// Insert a fresh tier at its place in the ascending order.
fn insert_tier_sorted(v: &mut Vec<u8>, t: u8)
    requires
        tiers_sorted(old(v)@),
        tiers_in_range(old(v)@),
        1 <= t <= 6,
        !old(v)@.contains(t),
    ensures
        tiers_sorted(final(v)@),
        tiers_in_range(final(v)@),
        final(v)@.len() == old(v)@.len() + 1,
        forall|k: u8| final(v)@.contains(k) <==> (old(v)@.contains(k) || k == t),
{
    let ghost ov = v@;
    let mut i: usize = 0;
    while i < v.len() && v[i] < t
        invariant
            i <= ov.len(),
            v@ == ov,
            forall|j: int| 0 <= j < i ==> ov[j] < t,
        decreases ov.len() - i,
    {
        i += 1;
    }
    proof {
        // every element at or after i is above t
        assert forall|j: int| i <= j < ov.len() implies ov[j] > t by {
            if ov[j] == t {
                assert(ov.contains(t));
            }
            if j > i as int {
                assert(ov[i as int] < ov[j]);
            }
        }
        ov.insert_ensures(i as int, t);
    }
    v.insert(i, t);
    proof {
        let nv = v@;
        let pos = i as int;
        assert forall|a: int, b: int| 0 <= a < b < nv.len() implies nv[a] < nv[b] by {
            if b < pos {
                assert(ov[a] < ov[b]);
            } else if a > pos {
                assert(ov[a - 1] < ov[b - 1]);
            } else if a == pos && b > pos {
                assert(nv[b] == ov[b - 1]);
            } else if b == pos {
                assert(nv[a] == ov[a]);
            } else {
                // a < pos < b
                assert(nv[a] == ov[a] && nv[b] == ov[b - 1]);
                assert(ov[a] < t);
                assert(ov[b - 1] > t);
            }
        }
        assert forall|k: u8| nv.contains(k) implies (ov.contains(k) || k == t) by {
            let j = choose|j: int| 0 <= j < nv.len() && nv[j] == k;
            if j < pos {
                assert(ov[j] == k);
            } else if j > pos {
                assert(ov[j - 1] == k);
            }
        }
        assert forall|k: u8| ov.contains(k) || k == t implies nv.contains(k) by {
            if k == t {
                assert(nv[pos] == k);
            } else {
                let j = choose|j: int| 0 <= j < ov.len() && ov[j] == k;
                if j < pos {
                    assert(nv[j] == k);
                } else {
                    assert(nv[j + 1] == k);
                }
            }
        }
    }
}

/// Stepping the start of the search past values that are already taken
/// does not change where the search ends.
proof fn lemma_next_free_unchanged(s: Seq<u8>, a: u8, b: u8)
    requires
        a <= b <= 6,
        forall|u: u8| a <= u < b ==> s.contains(u),
    ensures
        next_free(s, a) == next_free(s, b),
    decreases b - a,
{
    if a < b {
        assert(s.contains(a));
        lemma_next_free_unchanged(s, (a + 1) as u8, b);
    }
}

/// Decreasing well-formed tiers keeps them strictly ascending and in range.
proof fn lemma_dec_tiers_wf(s: Seq<u8>)
    requires
        tiers_sorted(s),
        tiers_in_range(s),
    ensures
        tiers_sorted(dec_tiers(s)),
        tiers_in_range(dec_tiers(s)),
        forall|j: int| 0 <= j < dec_tiers(s).len() ==> s.contains((#[trigger] dec_tiers(s)[j]
            + 1) as u8),
    decreases s.len(),
{
    if s.len() > 0 {
        let rest = s.drop_last();
        assert(tiers_sorted(rest));
        assert(tiers_in_range(rest));
        lemma_dec_tiers_wf(rest);
        let d = dec_tiers(s);
        let dr = dec_tiers(rest);
        assert forall|j: int| 0 <= j < dr.len() implies s.contains((#[trigger] dr[j] + 1) as u8) by {
            assert(rest.contains((dr[j] + 1) as u8));
            let w = choose|w: int| 0 <= w < rest.len() && rest[w] == (dr[j] + 1) as u8;
            assert(s[w] == (dr[j] + 1) as u8);
        }
        if s.last() > 1 {
            assert forall|j: int| 0 <= j < dr.len() implies dr[j] < (s.last() - 1) as u8 by {
                assert(rest.contains((dr[j] + 1) as u8));
                let w = choose|w: int| 0 <= w < rest.len() && rest[w] == (dr[j] + 1) as u8;
                assert(s[w] < s.last());
            }
        }
    }
}

/// A status tag's value is the maximum of its tiers: it is the value of one
/// of the tiers and no tier is above it; with no tiers it is 0.
pub proof fn lemma_status_value_is_max(t: Tag)
    requires
        t is Status,
    ensures
        t->Status_tiers@.len() == 0 ==> t.value_spec() == 0,
        t->Status_tiers@.len() > 0 ==> t->Status_tiers@.contains(t.value_spec() as u8),
        forall|i: int| 0 <= i < t->Status_tiers@.len() ==> #[trigger] t->Status_tiers@[i] as int
            <= t.value_spec(),
{
    lemma_seq_max_is_max(t->Status_tiers@);
}

/// The largest element really is one of the elements and bounds them all.
proof fn lemma_seq_max_is_max(s: Seq<u8>)
    ensures
        s.len() == 0 ==> seq_max(s) == 0,
        s.len() > 0 ==> s.contains(seq_max(s) as u8),
        forall|i: int| 0 <= i < s.len() ==> #[trigger] s[i] as int <= seq_max(s),
    decreases s.len(),
{
    if s.len() > 0 {
        let rest = s.drop_last();
        lemma_seq_max_is_max(rest);
        if s.len() > 1 && seq_max(s) == seq_max(rest) {
            let w = choose|w: int| 0 <= w < rest.len() && rest[w] == seq_max(rest) as u8;
            assert(s[w] == seq_max(s) as u8);
        }
        assert forall|i: int| 0 <= i < s.len() implies #[trigger] s[i] as int <= seq_max(s) by {
            if i < s.len() - 1 {
                assert(s[i] == rest[i]);
            }
        }
    }
}

/// Scratching a power tag and then unscratching it restores its value to 1.
pub proof fn lemma_scratch_unscratch_restores(t: Tag)
    requires
        t is Power,
    ensures
        t.scratch_spec().unscratch_spec().value_spec() == 1,
{
}

} // verus!
