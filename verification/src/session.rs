use vstd::prelude::*;
use crate::messaging::{SystemRequest, SystemResponse};
use crate::modifier::{map_total, ModEntry, ModifierMap, Polarity};

verus! {

/// Relies on rand::random: a draw from the thread-local generator, seeded
/// once per process. Nothing is promised of which value comes back.
pub assume_specification<T>[ rand::random::<T> ]() -> (r: T)
    where
        rand::distributions::Standard: rand::distributions::Distribution<T>,
;

/// One six-sided die: a uniform byte mapped into 1..=6.
fn roll_die() -> (d: i8)
    ensures
        1 <= d <= 6,
{
    let x: u8 = rand::random();
    (x % 6 + 1) as i8
}

/// The resolved total of a roll: the two dice plus the signed contribution
/// of every modifier entry.
pub open spec fn resolve_total(d1: int, d2: int, s: Seq<ModEntry>) -> int {
    d1 + d2 + map_total(s)
}

/// Every roll outcome of this modifier set stays within the wire format's
/// signed byte: already the extreme dice sums 2 and 12 keep the total in
/// the representable range.
pub open spec fn total_in_bounds(s: Seq<ModEntry>) -> bool {
    i8::MIN <= 2 + map_total(s) && 12 + map_total(s) <= i8::MAX
}

/// Sum of the signed contributions of all modifier entries, for checking
/// the wire bound before a roll is resolved.
pub fn total_contribution(mods: &ModifierMap) -> (r: i128)
    ensures
        r == map_total(mods@),
{
    let s = &mods.entries;
    let mut acc: i128 = 0;
    let mut i: usize = 0;
    #[verifier::loop_isolation(false)]
    while i < s.len()
        invariant
            i <= s@.len(),
            acc == map_total(s@.take(i as int)),
            -255 * (i as int) <= acc <= 765 * (i as int),
        decreases s@.len() - i,
    {
        proof {
            assert(s@.take(i + 1).drop_last() =~= s@.take(i as int));
            assert(s@.take(i + 1).last() == s@[i as int]);
        }
        let e = &s[i];
        let v = e.modifier.get_value();
        match e.polarity {
            Polarity::Positive => {
                if e.burned {
                    acc = acc + 3 * (v as i128);
                } else {
                    acc = acc + (v as i128);
                }
            },
            Polarity::Negative => {
                acc = acc - (v as i128);
            },
        }
        i += 1;
    }
    proof {
        assert(s@.take(s@.len() as int) =~= s@);
    }
    acc
}

/// Apply every modifier entry to an already-summed dice roll: a positive
/// entry adds its value, tripled when burned; a negative entry subtracts
/// its value.
pub fn apply_mods_to_roll(roll_total: i8, mods: &ModifierMap) -> (r: i8)
    requires
        i8::MIN <= roll_total + map_total(mods@) <= i8::MAX,
    ensures
        r as int == roll_total + map_total(mods@),
{
    let sum: i128 = (roll_total as i128) + total_contribution(mods);
    sum as i8
}

/// Resolve one inbound request to the response that is broadcast, if any: a
/// chat request echoes verbatim, a roll request draws two dice and resolves
/// the total, and the reserved update variants produce nothing.
pub fn handle_request(req: SystemRequest) -> (r: Option<SystemResponse>)
    requires
        req matches SystemRequest::Roll { modifiers, .. } ==> total_in_bounds(modifiers@),
    ensures
        req matches SystemRequest::Chat { username, role, content } ==> r == Some(
            (SystemResponse::Chat { username, role, content }),
        ),
        req matches SystemRequest::Roll { username, modifiers } ==> (r matches Some(resp)
            && resp matches SystemResponse::Roll {
            dice_values,
            username: u2,
            modifiers: m2,
            total,
        } && 1 <= dice_values.0 <= 6 && 1 <= dice_values.1 <= 6 && u2 == username && m2
            == modifiers && total as int == resolve_total(
            dice_values.0 as int,
            dice_values.1 as int,
            modifiers@,
        )),
        (req is SceneUpdate || req is HeroUpdate || req is ChallengeUpdate
            || req is FellowshipUpdate) ==> r is None,
{
    match req {
        SystemRequest::Chat { username, role, content } => Some(
            SystemResponse::Chat { username, role, content },
        ),
        SystemRequest::Roll { username, modifiers } => {
            let d1 = roll_die();
            let d2 = roll_die();
            let total = apply_mods_to_roll(d1 + d2, &modifiers);
            Some(SystemResponse::Roll { dice_values: (d1, d2), username, modifiers, total })
        },
        _ => None,
    }
}

/// For every dice pair and an empty modifier set the resolved total is the
/// plain dice sum.
pub proof fn lemma_roll_empty_map(d1: int, d2: int, s: Seq<ModEntry>)
    requires
        1 <= d1 <= 6,
        1 <= d2 <= 6,
        s.len() == 0,
    ensures
        resolve_total(d1, d2, s) == d1 + d2,
{
}

/// With exactly one positive, unburned modifier of value v the resolved
/// total is the dice sum plus v.
pub proof fn lemma_roll_single_positive(d1: int, d2: int, s: Seq<ModEntry>)
    requires
        1 <= d1 <= 6,
        1 <= d2 <= 6,
        s.len() == 1,
        s[0].polarity == Polarity::Positive,
        !s[0].burned,
    ensures
        resolve_total(d1, d2, s) == d1 + d2 + s[0].modifier.value_spec(),
{
    assert(map_total(s.drop_last()) == 0);
}

/// With exactly one positive, burned modifier of value v the resolved
/// total is the dice sum plus three times v.
pub proof fn lemma_roll_single_burned(d1: int, d2: int, s: Seq<ModEntry>)
    requires
        1 <= d1 <= 6,
        1 <= d2 <= 6,
        s.len() == 1,
        s[0].polarity == Polarity::Positive,
        s[0].burned,
    ensures
        resolve_total(d1, d2, s) == d1 + d2 + 3 * s[0].modifier.value_spec(),
{
    assert(map_total(s.drop_last()) == 0);
}

/// With exactly one negative modifier of value v the resolved total is the
/// dice sum minus v, whether or not the entry is marked burned.
pub proof fn lemma_roll_single_negative(d1: int, d2: int, s: Seq<ModEntry>)
    requires
        1 <= d1 <= 6,
        1 <= d2 <= 6,
        s.len() == 1,
        s[0].polarity == Polarity::Negative,
    ensures
        resolve_total(d1, d2, s) == d1 + d2 - s[0].modifier.value_spec(),
{
    assert(map_total(s.drop_last()) == 0);
}

} // verus!
