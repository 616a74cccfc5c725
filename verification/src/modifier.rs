use vstd::prelude::*;
use crate::tag::Tag;
use crate::theme::Theme;

verus! {

/// Either a tag or a theme, used interchangeably as a roll contribution.
#[derive(Debug, Clone)]
pub enum Modifier {
    Tag(Tag),
    Theme(Theme),
}

impl Modifier {
    /// Contribution of the wrapped tag or theme.
    pub open spec fn value_spec(&self) -> int {
        match self {
            Modifier::Tag(t) => t.value_spec(),
            Modifier::Theme(t) => t.value_spec(),
        }
    }

    /// Well-formedness of the wrapped tag; themes carry no invariant.
    pub open spec fn wf(&self) -> bool {
        match self {
            Modifier::Tag(t) => t.wf(),
            Modifier::Theme(_) => true,
        }
    }

    pub fn get_value(&self) -> (r: u8)
        ensures
            r as int == self.value_spec(),
    {
        match self {
            Modifier::Tag(tag) => tag.get_value(),
            Modifier::Theme(theme) => theme.get_value(),
        }
    }
}

/// The polarity of a modifier, indicating whether it has a positive or
/// negative effect on a roll.
#[derive(Clone, Copy, Debug, PartialEq, Eq, Structural)]
pub enum Polarity {
    Positive,
    Negative,
}

/// One named modifier together with its polarity and burned flag.
#[derive(Debug, Clone)]
pub struct ModEntry {
    pub name: String,
    pub modifier: Modifier,
    pub polarity: Polarity,
    pub burned: bool,
}

impl ModEntry {
    /// Signed contribution of the entry to a roll: a positive modifier adds
    /// its value, tripled when burned; a negative one subtracts its value,
    /// with the burned flag having no effect.
    pub open spec fn contribution(&self) -> int {
        match self.polarity {
            Polarity::Positive => if self.burned {
                3 * self.modifier.value_spec()
            } else {
                self.modifier.value_spec()
            },
            Polarity::Negative => -self.modifier.value_spec(),
        }
    }

    pub open spec fn wf(&self) -> bool {
        self.modifier.wf()
    }
}

/// Index of the first entry with the given name, or -1 if there is none.
pub open spec fn index_of_name(s: Seq<ModEntry>, n: Seq<char>) -> int
    decreases s.len(),
{
    if s.len() == 0 {
        -1
    } else if s[0].name@ == n {
        0
    } else {
        let sub = index_of_name(s.subrange(1, s.len() as int), n);
        if sub == -1 {
            -1
        } else {
            sub + 1
        }
    }
}

/// Whether some entry carries the given name.
pub open spec fn has_name(s: Seq<ModEntry>, n: Seq<char>) -> bool {
    index_of_name(s, n) != -1
}

/// The entries after inserting `e`: the entry already under that name is
/// replaced, otherwise `e` is appended.
pub open spec fn map_add(s: Seq<ModEntry>, e: ModEntry) -> Seq<ModEntry> {
    if has_name(s, e.name@) {
        s.update(index_of_name(s, e.name@), e)
    } else {
        s.push(e)
    }
}

/// The entries after deleting the given name; without such an entry the
/// entries are unchanged.
pub open spec fn map_remove(s: Seq<ModEntry>, n: Seq<char>) -> Seq<ModEntry> {
    if has_name(s, n) {
        s.remove(index_of_name(s, n))
    } else {
        s
    }
}

/// Sum of the signed contributions of all entries.
pub open spec fn map_total(s: Seq<ModEntry>) -> int
    decreases s.len(),
{
    if s.len() == 0 {
        0
    } else {
        map_total(s.drop_last()) + s.last().contribution()
    }
}

/// What `index_of_name` finds: a valid index of the first entry under the
/// name, or -1 exactly when no entry carries it.
pub proof fn lemma_index_of_name(s: Seq<ModEntry>, n: Seq<char>)
    ensures
        index_of_name(s, n) == -1 ==> (forall|j: int| 0 <= j < s.len() ==> (#[trigger] s[j].name)@
            != n),
        index_of_name(s, n) != -1 ==> {
            let i = index_of_name(s, n);
            &&& 0 <= i < s.len()
            &&& s[i].name@ == n
            &&& forall|j: int| 0 <= j < i ==> (#[trigger] s[j].name)@ != n
        },
    decreases s.len(),
{
    if s.len() > 0 && s[0].name@ != n {
        let rest = s.subrange(1, s.len() as int);
        lemma_index_of_name(rest, n);
        if index_of_name(s, n) == -1 {
            assert forall|j: int| 0 <= j < s.len() implies (#[trigger] s[j].name)@ != n by {
                if j > 0 {
                    assert(rest[j - 1] == s[j]);
                    assert(rest[j - 1].name@ != n);
                }
            }
        } else {
            let i = index_of_name(s, n);
            assert(rest[i - 1] == s[i]);
            assert forall|j: int| 0 <= j < i implies (#[trigger] s[j].name)@ != n by {
                if j > 0 {
                    assert(rest[j - 1] == s[j]);
                    assert(rest[j - 1].name@ != n);
                }
            }
        }
    }
}

/// The converse: the first matching index determines `index_of_name`.
pub proof fn lemma_index_of_name_found(s: Seq<ModEntry>, n: Seq<char>, i: int)
    requires
        0 <= i < s.len(),
        s[i].name@ == n,
        forall|j: int| 0 <= j < i ==> (#[trigger] s[j].name)@ != n,
    ensures
        index_of_name(s, n) == i,
    decreases s.len(),
{
    if i > 0 {
        let rest = s.subrange(1, s.len() as int);
        assert(forall|j: int| 0 <= j < rest.len() ==> rest[j] == s[j + 1]);
        lemma_index_of_name_found(rest, n, i - 1);
    }
}

/// A collection of modifiers applied to one roll, keyed by name: a name
/// identifies at most one entry, and the last insert for a name wins.
#[derive(Debug, Clone)]
pub struct ModifierMap {
    pub entries: Vec<ModEntry>,
}

impl View for ModifierMap {
    type V = Seq<ModEntry>;

    open spec fn view(&self) -> Seq<ModEntry> {
        self.entries@
    }
}

impl Default for ModifierMap {
    /// An empty modifier map.
    fn default() -> (m: ModifierMap)
        ensures
            m@ =~= Seq::<ModEntry>::empty(),
            m.wf(),
    {
        ModifierMap { entries: Vec::new() }
    }
}

impl ModifierMap {
    /// Well-formedness: entry names are unique and every entry is itself
    /// well formed.
    pub open spec fn wf(&self) -> bool {
        &&& forall|i: int, j: int| 0 <= i < j < self@.len() ==> (#[trigger] self@[i].name)@ != (
        #[trigger] self@[j].name)@
        &&& forall|i: int| 0 <= i < self@.len() ==> (#[trigger] self@[i]).wf()
    }

    /// Insert an entry, replacing the one already under its name.
    fn insert_entry(&mut self, e: ModEntry)
        requires
            old(self).wf(),
            e.wf(),
        ensures
            final(self).wf(),
            final(self)@ == map_add(old(self)@, e),
    {
        let ghost ov = self@;
        let mut i: usize = 0;
        #[verifier::loop_isolation(false)]
        while i < self.entries.len()
            invariant
                i <= ov.len(),
                self@ == ov,
                forall|j: int| 0 <= j < i ==> (#[trigger] ov[j].name)@ != e.name@,
            decreases ov.len() - i,
        {
            if self.entries[i].name == e.name {
                proof {
                    lemma_index_of_name_found(ov, e.name@, i as int);
                }
                self.entries.set(i, e);
                proof {
                    let nv = self@;
                    let p = i as int;
                    assert(nv == ov.update(p, e));
                    assert(ov[p].name@ == e.name@);
                    assert forall|a: int, b: int| 0 <= a < b < nv.len() implies (
                    #[trigger] nv[a].name)@ != (#[trigger] nv[b].name)@ by {
                        if a == p {
                            assert(nv[b] == ov[b]);
                            assert(ov[p].name@ != ov[b].name@);
                        } else if b == p {
                            assert(nv[a] == ov[a]);
                            assert(ov[a].name@ != ov[p].name@);
                        } else {
                            assert(nv[a] == ov[a] && nv[b] == ov[b]);
                            assert(ov[a].name@ != ov[b].name@);
                        }
                    }
                    assert forall|a: int| 0 <= a < nv.len() implies (#[trigger] nv[a]).wf() by {
                        if a != p {
                            assert(nv[a] == ov[a]);
                            assert(ov[a].wf());
                        }
                    }
                }
                return ;
            }
            i += 1;
        }
        proof {
            lemma_index_of_name(ov, e.name@);
        }
        self.entries.push(e);
    }

    /// Add a tag with the specified polarity and burned status; the entry is
    /// keyed by the tag's own name.
    pub fn add_tag(&mut self, tag: Tag, polarity: Polarity, is_burned: bool)
        requires
            old(self).wf(),
            tag.wf(),
        ensures
            final(self).wf(),
            final(self)@ == map_add(
                old(self)@,
                (ModEntry {
                    name: tag.spec_name(),
                    modifier: Modifier::Tag(tag),
                    polarity: polarity,
                    burned: is_burned,
                }),
            ),
    {
        let name = match &tag {
            Tag::Power { name, .. } => name.clone(),
            Tag::Weakness { name } => name.clone(),
            Tag::Story { name, .. } => name.clone(),
            Tag::Status { name, .. } => name.clone(),
        };
        self.insert_entry(
            ModEntry { name, modifier: Modifier::Tag(tag), polarity, burned: is_burned },
        );
    }

    /// Add a theme with the specified polarity and burned status; the entry
    /// is keyed by the theme's name.
    pub fn add_theme(&mut self, theme: Theme, polarity: Polarity, is_burned: bool)
        requires
            old(self).wf(),
        ensures
            final(self).wf(),
            final(self)@ == map_add(
                old(self)@,
                (ModEntry {
                    name: theme.name,
                    modifier: Modifier::Theme(theme),
                    polarity: polarity,
                    burned: is_burned,
                }),
            ),
    {
        let name = theme.name.clone();
        self.insert_entry(
            ModEntry { name, modifier: Modifier::Theme(theme), polarity, burned: is_burned },
        );
    }

    /// Add a burned positive tag.
    pub fn add_burned_tag(&mut self, tag: Tag)
        requires
            old(self).wf(),
            tag.wf(),
        ensures
            final(self).wf(),
            final(self)@ == map_add(
                old(self)@,
                (ModEntry {
                    name: tag.spec_name(),
                    modifier: Modifier::Tag(tag),
                    polarity: Polarity::Positive,
                    burned: true,
                }),
            ),
    {
        self.add_tag(tag, Polarity::Positive, true);
    }

    /// Add a positive, unburned tag.
    pub fn add_positive_tag(&mut self, tag: Tag)
        requires
            old(self).wf(),
            tag.wf(),
        ensures
            final(self).wf(),
            final(self)@ == map_add(
                old(self)@,
                (ModEntry {
                    name: tag.spec_name(),
                    modifier: Modifier::Tag(tag),
                    polarity: Polarity::Positive,
                    burned: false,
                }),
            ),
    {
        self.add_tag(tag, Polarity::Positive, false);
    }

    /// Add a burned positive theme.
    pub fn add_burned_theme(&mut self, theme: Theme)
        requires
            old(self).wf(),
        ensures
            final(self).wf(),
            final(self)@ == map_add(
                old(self)@,
                (ModEntry {
                    name: theme.name,
                    modifier: Modifier::Theme(theme),
                    polarity: Polarity::Positive,
                    burned: true,
                }),
            ),
    {
        self.add_theme(theme, Polarity::Positive, true);
    }

    /// Add a positive, unburned theme.
    pub fn add_positive_theme(&mut self, theme: Theme)
        requires
            old(self).wf(),
        ensures
            final(self).wf(),
            final(self)@ == map_add(
                old(self)@,
                (ModEntry {
                    name: theme.name,
                    modifier: Modifier::Theme(theme),
                    polarity: Polarity::Positive,
                    burned: false,
                }),
            ),
    {
        self.add_theme(theme, Polarity::Positive, false);
    }

    /// Add a negative tag.
    pub fn add_negative_tag(&mut self, tag: Tag)
        requires
            old(self).wf(),
            tag.wf(),
        ensures
            final(self).wf(),
            final(self)@ == map_add(
                old(self)@,
                (ModEntry {
                    name: tag.spec_name(),
                    modifier: Modifier::Tag(tag),
                    polarity: Polarity::Negative,
                    burned: false,
                }),
            ),
    {
        self.add_tag(tag, Polarity::Negative, false);
    }

    /// Add a negative theme.
    pub fn add_negative_theme(&mut self, theme: Theme)
        requires
            old(self).wf(),
        ensures
            final(self).wf(),
            final(self)@ == map_add(
                old(self)@,
                (ModEntry {
                    name: theme.name,
                    modifier: Modifier::Theme(theme),
                    polarity: Polarity::Negative,
                    burned: false,
                }),
            ),
    {
        self.add_theme(theme, Polarity::Negative, false);
    }

    /// Delete the entry under the given name, if there is one.
    pub fn remove_modifier(&mut self, name: &str)
        requires
            old(self).wf(),
        ensures
            final(self).wf(),
            final(self)@ == map_remove(old(self)@, name@),
    {
        let ghost ov = self@;
        let key = String::from_str(name);
        let mut i: usize = 0;
        #[verifier::loop_isolation(false)]
        while i < self.entries.len()
            invariant
                i <= ov.len(),
                self@ == ov,
                key@ == name@,
                forall|j: int| 0 <= j < i ==> (#[trigger] ov[j].name)@ != name@,
            decreases ov.len() - i,
        {
            if self.entries[i].name == key {
                proof {
                    lemma_index_of_name_found(ov, name@, i as int);
                    ov.remove_ensures(i as int);
                }
                self.entries.remove(i);
                proof {
                    let nv = self@;
                    let p = i as int;
                    assert(nv == ov.remove(p));
                    assert forall|a: int, b: int| 0 <= a < b < nv.len() implies (
                    #[trigger] nv[a].name)@ != (#[trigger] nv[b].name)@ by {
                        let oa = if a < p {
                            a
                        } else {
                            a + 1
                        };
                        let ob = if b < p {
                            b
                        } else {
                            b + 1
                        };
                        assert(nv[a] == ov[oa] && nv[b] == ov[ob]);
                        assert(ov[oa].name@ != ov[ob].name@);
                    }
                    assert forall|a: int| 0 <= a < nv.len() implies (#[trigger] nv[a]).wf() by {
                        let oa = if a < p {
                            a
                        } else {
                            a + 1
                        };
                        assert(nv[a] == ov[oa]);
                        assert(ov[oa].wf());
                    }
                }
                return ;
            }
            i += 1;
        }
        proof {
            lemma_index_of_name(ov, name@);
        }
    }

    /// All entries, as references to the modifier and polarity with the
    /// burned flag, in storage order.
    pub fn get_modifiers(&self) -> (r: Vec<(&Modifier, &Polarity, bool)>)
        ensures
            r@.len() == self@.len(),
            forall|i: int| 0 <= i < r@.len() ==> *(#[trigger] r@[i]).0 == self@[i].modifier
                && *r@[i].1 == self@[i].polarity && r@[i].2 == self@[i].burned,
    {
        let mut out: Vec<(&Modifier, &Polarity, bool)> = Vec::new();
        let mut i: usize = 0;
        #[verifier::loop_isolation(false)]
        while i < self.entries.len()
            invariant
                i <= self@.len(),
                out@.len() == i,
                forall|j: int| 0 <= j < i ==> *(#[trigger] out@[j]).0 == self@[j].modifier
                    && *out@[j].1 == self@[j].polarity && out@[j].2 == self@[j].burned,
            decreases self@.len() - i,
        {
            let e = &self.entries[i];
            out.push((&e.modifier, &e.polarity, e.burned));
            i += 1;
        }
        out
    }
}

/// Adding an entry under a fresh name and then removing that name restores
/// the map as it was; in particular, on an empty map the two calls yield an
/// empty map again.
pub proof fn lemma_add_remove_round_trip(s: Seq<ModEntry>, e: ModEntry)
    requires
        !has_name(s, e.name@),
    ensures
        map_remove(map_add(s, e), e.name@) == s,
{
    lemma_index_of_name(s, e.name@);
    let p = s.push(e);
    lemma_index_of_name_found(p, e.name@, s.len() as int);
    p.remove_ensures(s.len() as int);
    assert(p.remove(s.len() as int) =~= s);
}

} // verus!
