use vstd::prelude::*;
use crate::modifier::{ModEntry, Modifier, ModifierMap, Polarity};
use crate::tag::{tiers_in_range, Tag};

verus! {

/// The sign a polarity is drawn with.
pub open spec fn sign_char(p: Polarity) -> char {
    match p {
        Polarity::Positive => '+',
        Polarity::Negative => '-',
    }
}

/// The digit a tier within 1..=6 is drawn with.
pub open spec fn digit_char(t: u8) -> char {
    if t == 1 {
        '1'
    } else if t == 2 {
        '2'
    } else if t == 3 {
        '3'
    } else if t == 4 {
        '4'
    } else if t == 5 {
        '5'
    } else {
        '6'
    }
}

/// Tiers drawn in storage order, separated by commas.
pub open spec fn render_tiers(s: Seq<u8>) -> Seq<char>
    decreases s.len(),
{
    if s.len() == 0 {
        Seq::empty()
    } else if s.len() == 1 {
        seq![digit_char(s[0])]
    } else {
        render_tiers(s.drop_last()) + seq![',', digit_char(s.last())]
    }
}

/// One entry drawn the way the roll summary shows it: `+[name]+` for a
/// power, story or weakness tag, with the sign tripled on both sides for a
/// burned entry of a power or story tag, and `+{name:tiers}+` for a status
/// tag (negative entries use `-`). Entries wrapping a theme are not drawn.
pub open spec fn render_entry(e: ModEntry) -> Seq<char> {
    let s = sign_char(e.polarity);
    match e.modifier {
        Modifier::Tag(tag) => match tag {
            Tag::Power { .. } => if e.burned {
                seq![s, s, s, '['] + e.name@ + seq![']', s, s, s]
            } else {
                seq![s, '['] + e.name@ + seq![']', s]
            },
            Tag::Story { .. } => if e.burned {
                seq![s, s, s, '['] + e.name@ + seq![']', s, s, s]
            } else {
                seq![s, '['] + e.name@ + seq![']', s]
            },
            Tag::Weakness { .. } => seq![s, '['] + e.name@ + seq![']', s],
            Tag::Status { name, tiers } => seq![s, '{'] + name@ + seq![':'] + render_tiers(tiers@)
                + seq!['}', s],
        },
        Modifier::Theme(_) => Seq::empty(),
    }
}

/// All entries drawn in storage order, separated by single spaces.
pub open spec fn render_map(s: Seq<ModEntry>) -> Seq<char>
    decreases s.len(),
{
    if s.len() == 0 {
        Seq::empty()
    } else if s.len() == 1 {
        render_entry(s[0])
    } else {
        render_map(s.drop_last()) + seq![' '] + render_entry(s.last())
    }
}

/// The sign as a one-character string.
fn sign_str(p: Polarity) -> (r: &'static str)
    ensures
        r@ =~= seq![sign_char(p)],
{
    proof {
        reveal_strlit("+");
        reveal_strlit("-");
    }
    match p {
        Polarity::Positive => "+",
        Polarity::Negative => "-",
    }
}

/// The tier as a one-character string.
fn digit_str(t: u8) -> (r: &'static str)
    requires
        1 <= t <= 6,
    ensures
        r@ =~= seq![digit_char(t)],
{
    proof {
        reveal_strlit("1");
        reveal_strlit("2");
        reveal_strlit("3");
        reveal_strlit("4");
        reveal_strlit("5");
        reveal_strlit("6");
    }
    if t == 1 {
        "1"
    } else if t == 2 {
        "2"
    } else if t == 3 {
        "3"
    } else if t == 4 {
        "4"
    } else if t == 5 {
        "5"
    } else {
        "6"
    }
}

/// Append the comma-separated tiers to the summary being built.
fn append_tiers(out: &mut String, tiers: &Vec<u8>)
    requires
        tiers_in_range(tiers@),
    ensures
        final(out)@ == old(out)@ + render_tiers(tiers@),
{
    let ghost base = out@;
    let mut i: usize = 0;
    #[verifier::loop_isolation(false)]
    while i < tiers.len()
        invariant
            i <= tiers@.len(),
            out@ == base + render_tiers(tiers@.take(i as int)),
        decreases tiers@.len() - i,
    {
        proof {
            assert(tiers@.take(i + 1).drop_last() =~= tiers@.take(i as int));
            assert(tiers@.take(i + 1).last() == tiers@[i as int]);
        }
        if i > 0 {
            proof {
                reveal_strlit(",");
            }
            out.append(",");
        }
        out.append(digit_str(tiers[i]));
        proof {
            assert(out@ =~= base + render_tiers(tiers@.take(i + 1)));
        }
        i += 1;
    }
    proof {
        assert(tiers@.take(tiers@.len() as int) =~= tiers@);
    }
}

/// Append one drawn entry to the summary being built.
fn append_entry(out: &mut String, e: &ModEntry)
    requires
        e.modifier is Tag,
        e.wf(),
    ensures
        final(out)@ == old(out)@ + render_entry(*e),
{
    let ghost base = out@;
    proof {
        reveal_strlit("[");
        reveal_strlit("]");
        reveal_strlit("{");
        reveal_strlit("}");
        reveal_strlit(":");
    }
    let sign = sign_str(e.polarity);
    match &e.modifier {
        Modifier::Tag(tag) => {
            match tag {
                Tag::Power { .. } | Tag::Story { .. } => {
                    if e.burned {
                        out.append(sign);
                        out.append(sign);
                        out.append(sign);
                        out.append("[");
                        out.append(e.name.as_str());
                        out.append("]");
                        out.append(sign);
                        out.append(sign);
                        out.append(sign);
                    } else {
                        out.append(sign);
                        out.append("[");
                        out.append(e.name.as_str());
                        out.append("]");
                        out.append(sign);
                    }
                },
                Tag::Weakness { .. } => {
                    out.append(sign);
                    out.append("[");
                    out.append(e.name.as_str());
                    out.append("]");
                    out.append(sign);
                },
                Tag::Status { name, tiers } => {
                    out.append(sign);
                    out.append("{");
                    out.append(name.as_str());
                    out.append(":");
                    append_tiers(out, tiers);
                    out.append("}");
                    out.append(sign);
                },
            }
        },
        Modifier::Theme(_) => {
            proof {
                assert(false);
            }
        },
    }
    proof {
        assert(out@ =~= base + render_entry(*e));
    }
}

impl ModifierMap {
    /// Draw the whole map in the human-readable roll-summary form: each
    /// entry as `render_entry` says, joined by single spaces, in storage
    /// order. Entries wrapping a theme have no drawn form yet, so the map
    /// may hold only tag entries.
    pub fn summary(&self) -> (r: String)
        requires
            self.wf(),
            forall|i: int| 0 <= i < self@.len() ==> (#[trigger] self@[i]).modifier is Tag,
        ensures
            r@ == render_map(self@),
    {
        let mut out = String::new();
        let mut i: usize = 0;
        #[verifier::loop_isolation(false)]
        while i < self.entries.len()
            invariant
                i <= self@.len(),
                out@ == render_map(self@.take(i as int)),
            decreases self@.len() - i,
        {
            proof {
                assert(self@.take(i + 1).drop_last() =~= self@.take(i as int));
                assert(self@.take(i + 1).last() == self@[i as int]);
            }
            if i > 0 {
                proof {
                    reveal_strlit(" ");
                }
                out.append(" ");
            }
            append_entry(&mut out, &self.entries[i]);
            proof {
                assert(out@ =~= render_map(self@.take(i + 1)));
            }
            i += 1;
        }
        proof {
            assert(self@.take(self@.len() as int) =~= self@);
        }
        out
    }
}

} // verus!
