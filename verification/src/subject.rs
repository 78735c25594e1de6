//! Requirements: what a criterion is about.
//!
//! A [`Subject`] is a base (an item, a block, an entity, a location, an
//! effect, another advancement or a statistic) with optional supplements.
//! Identifiers inside a subject are stored in their short form.

use vstd::prelude::*;
use crate::json::Json;
use crate::json::JsonView;
use crate::text::views;

verus! {

#[derive(Debug, Clone, PartialEq)]
pub enum Supplement {
    Enchantment { id: String, level: Option<i32>, stored: Option<bool> },
    Effect { id: String, amplifier: Option<i32> },
    Entity { id: String, variant: Option<String> },
    Biome { id: String },
}

#[derive(Debug, PartialEq)]
pub enum BaseSubject {
    Item { ids: Vec<String>, count: Option<i32>, variant: Option<String>, custom_name: Option<String> },
    Block { ids: Vec<String>, loot_table: Option<String>, variant: Option<String> },
    Entity { id: String, variant: Option<String>, custom_name: Option<String> },
    Location {
        biomes: Vec<String>,
        structures: Vec<String>,
        dimension: Option<String>,
        x: Option<Json>,
        y: Option<Json>,
        z: Option<Json>,
    },
    Effect { id: String, amplifier: Option<i32> },
    Advancement { id: String },
    Stat { stat_type: String, target: String, value: i32 },
}

#[derive(Debug, PartialEq)]
pub struct Subject {
    pub base: BaseSubject,
    pub supplements: Vec<Supplement>,
}

pub enum SupplementView {
    Enchantment { id: Seq<char>, level: Option<i32>, stored: Option<bool> },
    Effect { id: Seq<char>, amplifier: Option<i32> },
    Entity { id: Seq<char>, variant: Option<Seq<char>> },
    Biome { id: Seq<char> },
}

pub enum BaseSubjectView {
    Item {
        ids: Seq<Seq<char>>,
        count: Option<i32>,
        variant: Option<Seq<char>>,
        custom_name: Option<Seq<char>>,
    },
    Block { ids: Seq<Seq<char>>, loot_table: Option<Seq<char>>, variant: Option<Seq<char>> },
    Entity { id: Seq<char>, variant: Option<Seq<char>>, custom_name: Option<Seq<char>> },
    Location {
        biomes: Seq<Seq<char>>,
        structures: Seq<Seq<char>>,
        dimension: Option<Seq<char>>,
        x: Option<JsonView>,
        y: Option<JsonView>,
        z: Option<JsonView>,
    },
    Effect { id: Seq<char>, amplifier: Option<i32> },
    Advancement { id: Seq<char> },
    Stat { stat_type: Seq<char>, target: Seq<char>, value: i32 },
}

pub struct SubjectView {
    pub base: BaseSubjectView,
    pub supplements: Seq<SupplementView>,
}

/// The text of an optional string.
pub open spec fn opt_view(o: Option<String>) -> Option<Seq<char>> {
    match o {
        Some(s) => Some(s@),
        None => None,
    }
}

/// The value of an optional document.
pub open spec fn opt_json_view(o: Option<Json>) -> Option<JsonView> {
    match o {
        Some(j) => Some(j@),
        None => None,
    }
}

impl View for Supplement {
    type V = SupplementView;

    open spec fn view(&self) -> SupplementView {
        match *self {
            Supplement::Enchantment { id, level, stored } => SupplementView::Enchantment {
                id: id@,
                level,
                stored,
            },
            Supplement::Effect { id, amplifier } => SupplementView::Effect { id: id@, amplifier },
            Supplement::Entity { id, variant } => SupplementView::Entity {
                id: id@,
                variant: opt_view(variant),
            },
            Supplement::Biome { id } => SupplementView::Biome { id: id@ },
        }
    }
}

/// The values of a sequence of supplements.
pub open spec fn supplements_view(s: Seq<Supplement>) -> Seq<SupplementView> {
    Seq::new(s.len(), |i: int| s[i]@)
}

impl View for BaseSubject {
    type V = BaseSubjectView;

    open spec fn view(&self) -> BaseSubjectView {
        match *self {
            BaseSubject::Item { ids, count, variant, custom_name } => BaseSubjectView::Item {
                ids: views(ids@),
                count,
                variant: opt_view(variant),
                custom_name: opt_view(custom_name),
            },
            BaseSubject::Block { ids, loot_table, variant } => BaseSubjectView::Block {
                ids: views(ids@),
                loot_table: opt_view(loot_table),
                variant: opt_view(variant),
            },
            BaseSubject::Entity { id, variant, custom_name } => BaseSubjectView::Entity {
                id: id@,
                variant: opt_view(variant),
                custom_name: opt_view(custom_name),
            },
            BaseSubject::Location { biomes, structures, dimension, x, y, z } => {
                BaseSubjectView::Location {
                    biomes: views(biomes@),
                    structures: views(structures@),
                    dimension: opt_view(dimension),
                    x: opt_json_view(x),
                    y: opt_json_view(y),
                    z: opt_json_view(z),
                }
            },
            BaseSubject::Effect { id, amplifier } => BaseSubjectView::Effect { id: id@, amplifier },
            BaseSubject::Advancement { id } => BaseSubjectView::Advancement { id: id@ },
            BaseSubject::Stat { stat_type, target, value } => BaseSubjectView::Stat {
                stat_type: stat_type@,
                target: target@,
                value,
            },
        }
    }
}

impl View for Subject {
    type V = SubjectView;

    open spec fn view(&self) -> SubjectView {
        SubjectView { base: self.base@, supplements: supplements_view(self.supplements@) }
    }
}

/// The values of a sequence of subjects.
pub open spec fn subjects_view(s: Seq<Subject>) -> Seq<SubjectView> {
    Seq::new(s.len(), |i: int| s[i]@)
}

/// The value of an optional subject.
pub open spec fn opt_subject_view(o: Option<Subject>) -> Option<SubjectView> {
    match o {
        Some(s) => Some(s@),
        None => None,
    }
}

impl SubjectView {
    /// An item with the given identifiers and nothing else.
    pub open spec fn item(ids: Seq<Seq<char>>) -> SubjectView {
        SubjectView {
            base: BaseSubjectView::Item { ids, count: None, variant: None, custom_name: None },
            supplements: Seq::empty(),
        }
    }

    /// A block with the given identifiers, loot table and variant.
    pub open spec fn block(
        ids: Seq<Seq<char>>,
        loot_table: Option<Seq<char>>,
        variant: Option<Seq<char>>,
    ) -> SubjectView {
        SubjectView {
            base: BaseSubjectView::Block { ids, loot_table, variant },
            supplements: Seq::empty(),
        }
    }

    /// An entity with the given identifier and nothing else.
    pub open spec fn entity(id: Seq<char>) -> SubjectView {
        SubjectView {
            base: BaseSubjectView::Entity { id, variant: None, custom_name: None },
            supplements: Seq::empty(),
        }
    }

    /// An effect.
    pub open spec fn effect(id: Seq<char>, amplifier: Option<i32>) -> SubjectView {
        SubjectView { base: BaseSubjectView::Effect { id, amplifier }, supplements: Seq::empty() }
    }

    /// A reference to another advancement.
    pub open spec fn advancement(id: Seq<char>) -> SubjectView {
        SubjectView { base: BaseSubjectView::Advancement { id }, supplements: Seq::empty() }
    }

    /// A potion item with the effect it holds.
    pub open spec fn potion(effect: Seq<char>) -> SubjectView {
        SubjectView {
            base: BaseSubjectView::Item {
                ids: seq!["potion"@],
                count: None,
                variant: None,
                custom_name: None,
            },
            supplements: seq![SupplementView::Effect { id: effect, amplifier: None }],
        }
    }

    /// Whether the subject keeps what every subject must: an item or a block
    /// names at least one identifier.
    pub open spec fn has_ids(self) -> bool {
        match self.base {
            BaseSubjectView::Item { ids, .. } => ids.len() > 0,
            BaseSubjectView::Block { ids, .. } => ids.len() > 0,
            _ => true,
        }
    }
}

/// Every subject of the sequence names its identifiers.
pub open spec fn all_have_ids(s: Seq<SubjectView>) -> bool {
    forall|i: int| 0 <= i < s.len() ==> (#[trigger] s[i]).has_ids()
}

/// A vector holding one string.
pub fn one_string(s: String) -> (r: Vec<String>)
    ensures
        views(r@) == seq![s@],
{
    let mut v: Vec<String> = Vec::new();
    v.push(s);
    assert(views(v@) =~= seq![s@]);
    v
}

/// Appends `s` to `dst`.
pub fn push_string(dst: &mut Vec<String>, s: String)
    ensures
        views(final(dst)@) == views(old(dst)@).push(s@),
{
    dst.push(s);
    assert(views(dst@) =~= views(old(dst)@).push(s@));
}

/// Appends the strings of `src` to `dst`.
pub fn extend_strings(dst: &mut Vec<String>, src: Vec<String>)
    ensures
        views(final(dst)@) == views(old(dst)@) + views(src@),
{
    let mut src = src;
    let ghost tail = views(src@);
    dst.append(&mut src);
    assert(views(dst@) =~= views(old(dst)@) + tail);
}

/// Appends `s` to `dst`.
pub fn push_subject(dst: &mut Vec<Subject>, s: Subject)
    ensures
        subjects_view(final(dst)@) == subjects_view(old(dst)@).push(s@),
{
    dst.push(s);
    assert(subjects_view(dst@) =~= subjects_view(old(dst)@).push(s@));
}

/// Appends `s` to `dst` where there is one.
pub fn push_opt_subject(dst: &mut Vec<Subject>, s: Option<Subject>)
    ensures
        subjects_view(final(dst)@) == subjects_view(old(dst)@) + opt_seq(opt_subject_view(s)),
{
    match s {
        Some(s) => {
            dst.push(s);
            assert(subjects_view(dst@) =~= subjects_view(old(dst)@) + seq![s@]);
        },
        None => {
            assert(subjects_view(dst@) =~= subjects_view(old(dst)@) + Seq::empty());
        },
    }
}

/// The sequence of what an option holds: one item or none.
pub open spec fn opt_seq<T>(o: Option<T>) -> Seq<T> {
    match o {
        Some(t) => seq![t],
        None => Seq::empty(),
    }
}

/// Appends the subjects of `src` to `dst`.
pub fn extend_subjects(dst: &mut Vec<Subject>, src: Vec<Subject>)
    ensures
        subjects_view(final(dst)@) == subjects_view(old(dst)@) + subjects_view(src@),
{
    let mut src = src;
    let ghost tail = subjects_view(src@);
    dst.append(&mut src);
    assert(subjects_view(dst@) =~= subjects_view(old(dst)@) + tail);
}

/// Appends `s` to `dst`.
pub fn push_supplement(dst: &mut Vec<Supplement>, s: Supplement)
    ensures
        supplements_view(final(dst)@) == supplements_view(old(dst)@).push(s@),
{
    dst.push(s);
    assert(supplements_view(dst@) =~= supplements_view(old(dst)@).push(s@));
}

/// Appends the supplements of `src` to `dst`.
pub fn extend_supplements(dst: &mut Vec<Supplement>, src: Vec<Supplement>)
    ensures
        supplements_view(final(dst)@) == supplements_view(old(dst)@) + supplements_view(src@),
{
    let mut src = src;
    let ghost tail = supplements_view(src@);
    dst.append(&mut src);
    assert(supplements_view(dst@) =~= supplements_view(old(dst)@) + tail);
}

/// An item subject with the given identifiers and no supplements.
pub fn create_item_subject(
    ids: Vec<String>,
    count: Option<i32>,
    variant: Option<String>,
    custom_name: Option<String>,
) -> (r: Subject)
    ensures
        r@ == (SubjectView {
            base: BaseSubjectView::Item {
                ids: views(ids@),
                count,
                variant: opt_view(variant),
                custom_name: opt_view(custom_name),
            },
            supplements: Seq::empty(),
        }),
{
    let r = Subject {
        base: BaseSubject::Item { ids, count, variant, custom_name },
        supplements: Vec::new(),
    };
    assert(supplements_view(r.supplements@) =~= Seq::empty());
    r
}

/// A block subject with the given identifiers and no supplements.
pub fn create_block_subject(ids: Vec<String>, loot_table: Option<String>, variant: Option<String>) -> (r:
    Subject)
    ensures
        r@ == SubjectView::block(views(ids@), opt_view(loot_table), opt_view(variant)),
{
    let r = Subject { base: BaseSubject::Block { ids, loot_table, variant }, supplements: Vec::new() };
    assert(supplements_view(r.supplements@) =~= Seq::empty());
    r
}

/// An entity subject with no supplements.
pub fn create_entity_subject(id: &str, variant: Option<String>, custom_name: Option<String>) -> (r:
    Subject)
    ensures
        r@ == (SubjectView {
            base: BaseSubjectView::Entity {
                id: id@,
                variant: opt_view(variant),
                custom_name: opt_view(custom_name),
            },
            supplements: Seq::empty(),
        }),
{
    let r = Subject {
        base: BaseSubject::Entity { id: id.to_owned(), variant, custom_name },
        supplements: Vec::new(),
    };
    assert(supplements_view(r.supplements@) =~= Seq::empty());
    r
}

/// An effect subject.
pub fn create_effect_subject(id: String, amplifier: Option<i32>) -> (r: Subject)
    ensures
        r@ == SubjectView::effect(id@, amplifier),
{
    let r = Subject { base: BaseSubject::Effect { id, amplifier }, supplements: Vec::new() };
    assert(supplements_view(r.supplements@) =~= Seq::empty());
    r
}

/// A subject that refers to another advancement.
pub fn create_advancement_subject(id: String) -> (r: Subject)
    ensures
        r@ == SubjectView::advancement(id@),
{
    let r = Subject { base: BaseSubject::Advancement { id }, supplements: Vec::new() };
    assert(supplements_view(r.supplements@) =~= Seq::empty());
    r
}

/// A potion item with the effect it holds as its supplement.
pub fn create_potion_subject(effect: String) -> (r: Subject)
    ensures
        r@ == SubjectView::potion(effect@),
{
    let ids = one_string("potion".to_owned());
    let mut supplements: Vec<Supplement> = Vec::new();
    supplements.push(Supplement::Effect { id: effect, amplifier: None });
    let r = Subject {
        base: BaseSubject::Item { ids, count: None, variant: None, custom_name: None },
        supplements,
    };
    assert(supplements_view(r.supplements@) =~= seq![
        SupplementView::Effect { id: effect@, amplifier: None },
    ]);
    r
}

/// A copy of a list of strings.
pub fn duplicate_strings(v: &Vec<String>) -> (r: Vec<String>)
    ensures
        views(r@) == views(v@),
{
    let mut out: Vec<String> = Vec::new();
    let mut i: usize = 0;
    while i < v.len()
        invariant
            i <= v@.len(),
            out@.len() == i,
            forall|k: int| 0 <= k < i ==> out@[k]@ == v@[k]@,
        decreases v@.len() - i,
    {
        out.push(v[i].clone());
        i += 1;
    }
    assert(views(out@) =~= views(v@));
    out
}

/// A copy of an optional string.
pub fn duplicate_opt_string(s: &Option<String>) -> (r: Option<String>)
    ensures
        opt_view(r) == opt_view(*s),
{
    match s {
        Some(s) => Some(s.clone()),
        None => None,
    }
}

/// A copy of an optional document.
pub fn duplicate_opt_json(j: &Option<Json>) -> (r: Option<Json>)
    ensures
        opt_json_view(r) == opt_json_view(*j),
{
    match j {
        Some(j) => Some(j.duplicate()),
        None => None,
    }
}

impl Supplement {
    /// A copy of the supplement.
    pub fn duplicate(&self) -> (r: Supplement)
        ensures
            r@ == self@,
    {
        match self {
            Supplement::Enchantment { id, level, stored } => Supplement::Enchantment {
                id: id.clone(),
                level: *level,
                stored: *stored,
            },
            Supplement::Effect { id, amplifier } => Supplement::Effect {
                id: id.clone(),
                amplifier: *amplifier,
            },
            Supplement::Entity { id, variant } => Supplement::Entity {
                id: id.clone(),
                variant: duplicate_opt_string(variant),
            },
            Supplement::Biome { id } => Supplement::Biome { id: id.clone() },
        }
    }
}

impl BaseSubject {
    /// A copy of the base.
    pub fn duplicate(&self) -> (r: BaseSubject)
        ensures
            r@ == self@,
    {
        match self {
            BaseSubject::Item { ids, count, variant, custom_name } => BaseSubject::Item {
                ids: duplicate_strings(ids),
                count: *count,
                variant: duplicate_opt_string(variant),
                custom_name: duplicate_opt_string(custom_name),
            },
            BaseSubject::Block { ids, loot_table, variant } => BaseSubject::Block {
                ids: duplicate_strings(ids),
                loot_table: duplicate_opt_string(loot_table),
                variant: duplicate_opt_string(variant),
            },
            BaseSubject::Entity { id, variant, custom_name } => BaseSubject::Entity {
                id: id.clone(),
                variant: duplicate_opt_string(variant),
                custom_name: duplicate_opt_string(custom_name),
            },
            BaseSubject::Location { biomes, structures, dimension, x, y, z } => {
                BaseSubject::Location {
                    biomes: duplicate_strings(biomes),
                    structures: duplicate_strings(structures),
                    dimension: duplicate_opt_string(dimension),
                    x: duplicate_opt_json(x),
                    y: duplicate_opt_json(y),
                    z: duplicate_opt_json(z),
                }
            },
            BaseSubject::Effect { id, amplifier } => BaseSubject::Effect {
                id: id.clone(),
                amplifier: *amplifier,
            },
            BaseSubject::Advancement { id } => BaseSubject::Advancement { id: id.clone() },
            BaseSubject::Stat { stat_type, target, value } => BaseSubject::Stat {
                stat_type: stat_type.clone(),
                target: target.clone(),
                value: *value,
            },
        }
    }
}

impl Subject {
    /// A copy of the subject.
    pub fn duplicate(&self) -> (r: Subject)
        ensures
            r@ == self@,
    {
        let mut supplements: Vec<Supplement> = Vec::new();
        let mut i: usize = 0;
        while i < self.supplements.len()
            invariant
                i <= self.supplements@.len(),
                supplements@.len() == i,
                forall|k: int| 0 <= k < i ==> supplements@[k]@ == self.supplements@[k]@,
            decreases self.supplements@.len() - i,
        {
            supplements.push(self.supplements[i].duplicate());
            i += 1;
        }
        assert(supplements_view(supplements@) =~= supplements_view(self.supplements@));
        Subject { base: self.base.duplicate(), supplements }
    }
}

/// A copy of a list of subjects.
pub fn duplicate_subjects(v: &Vec<Subject>) -> (r: Vec<Subject>)
    ensures
        subjects_view(r@) == subjects_view(v@),
{
    let mut out: Vec<Subject> = Vec::new();
    let mut i: usize = 0;
    while i < v.len()
        invariant
            i <= v@.len(),
            out@.len() == i,
            forall|k: int| 0 <= k < i ==> out@[k]@ == v@[k]@,
        decreases v@.len() - i,
    {
        out.push(v[i].duplicate());
        i += 1;
    }
    assert(subjects_view(out@) =~= subjects_view(v@));
    out
}

} // verus!
