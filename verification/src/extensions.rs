//! Extension collections: installed Skills grouped by the source they came
//! from, in the order of their identifiers.
use vstd::prelude::*;
use crate::skills::SkillRecord;
use crate::sorting::{
    Keyed, KeyedExec, lemma_sort_map, lemma_sort_multiset, lemma_sort_sorted, sort_keyed,
    sorted_keyed, stable_sort,
};
use crate::text::{
    chars_of, concat, copy_opt, opt_view, same, seq_lt, split_any, split_on, string_of,
    trim_end_char, trim_end_matches_char, trim_end_matches_seq, trim_end_seq,
};

verus! {

/// The kinds of component an Extension holds.
#[derive(Debug, Clone, Copy, PartialEq, Eq)]
pub enum ExtensionComponentType {
    Skill,
}

/// One component of an Extension.
#[derive(Debug, Clone, PartialEq, Eq)]
pub struct ExtensionComponent {
    pub id: String,
    pub component_type: ExtensionComponentType,
    pub name: String,
    pub description: Option<String>,
    pub skill_id: String,
}

/// Where an Extension came from.
#[derive(Debug, Clone, PartialEq, Eq)]
pub struct ExtensionSource {
    pub source_type: String,
    pub source_ref: Option<String>,
}

/// Skills that came from one source, shown as one collection.
#[derive(Debug, Clone, PartialEq, Eq)]
pub struct Extension {
    pub id: String,
    pub name: String,
    pub source: ExtensionSource,
    pub components: Vec<ExtensionComponent>,
}

/// The text of a component.
pub struct ComponentView {
    pub id: Seq<char>,
    pub component_type: ExtensionComponentType,
    pub name: Seq<char>,
    pub description: Option<Seq<char>>,
    pub skill_id: Seq<char>,
}

/// The text of an Extension.
pub struct ExtensionView {
    pub id: Seq<char>,
    pub name: Seq<char>,
    pub source_type: Seq<char>,
    pub source_ref: Option<Seq<char>>,
    pub components: Seq<ComponentView>,
}

impl View for ExtensionComponent {
    type V = ComponentView;

    open spec fn view(&self) -> ComponentView {
        ComponentView {
            id: self.id@,
            component_type: self.component_type,
            name: self.name@,
            description: opt_view(self.description),
            skill_id: self.skill_id@,
        }
    }
}

/// The view function of components.
pub open spec fn component_view_fn() -> spec_fn(ExtensionComponent) -> ComponentView {
    |c: ExtensionComponent| c@
}

/// The view function of Extensions.
pub open spec fn extension_view_fn() -> spec_fn(Extension) -> ExtensionView {
    |e: Extension| e@
}

impl View for Extension {
    type V = ExtensionView;

    open spec fn view(&self) -> ExtensionView {
        ExtensionView {
            id: self.id@,
            name: self.name@,
            source_type: self.source.source_type@,
            source_ref: opt_view(self.source.source_ref),
            components: self.components@.map_values(component_view_fn()),
        }
    }
}

impl Keyed for ComponentView {
    open spec fn key(&self) -> Seq<char> {
        self.name
    }
}

impl Keyed for ExtensionComponent {
    open spec fn key(&self) -> Seq<char> {
        self.name@
    }
}

impl KeyedExec for ExtensionComponent {
    fn key_chars(&self) -> (r: Vec<char>) {
        chars_of(self.name.as_str())
    }
}

impl Keyed for ExtensionView {
    open spec fn key(&self) -> Seq<char> {
        self.id
    }
}

impl Keyed for Extension {
    open spec fn key(&self) -> Seq<char> {
        self.id@
    }
}

impl KeyedExec for Extension {
    fn key_chars(&self) -> (r: Vec<char>) {
        chars_of(self.id.as_str())
    }
}

/// The Extension a Skill belongs to: its source type, a colon, and its
/// source reference (or, without one, the Skill's own id).
pub open spec fn ext_id(s: SkillRecord) -> Seq<char> {
    s.source_type@ + ":"@ + match s.source_ref {
        Some(r) => r@,
        None => s.id@,
    }
}

/// The display name of an Extension whose first Skill is `s`: the last path
/// segment of the source reference without trailing `/` and `.git`, or the
/// Skill's name when that is empty or there is no reference.
pub open spec fn ext_name(s: SkillRecord) -> Seq<char> {
    match s.source_ref {
        Some(r) => {
            let last = split_any(trim_end_char(r@, '/'), seq!['/']).last();
            let name = trim_end_seq(last, ".git"@);
            if name.len() > 0 {
                name
            } else {
                s.name@
            }
        },
        None => s.name@,
    }
}

/// The component that stands for a Skill.
pub open spec fn component_of(s: SkillRecord) -> ComponentView {
    ComponentView {
        id: s.id@,
        component_type: ExtensionComponentType::Skill,
        name: s.name@,
        description: opt_view(s.description),
        skill_id: s.id@,
    }
}

/// The position of the first Skill of Extension `id`, or -1.
pub open spec fn first_index(skills: Seq<SkillRecord>, id: Seq<char>) -> int
    decreases skills.len(),
{
    if skills.len() == 0 {
        -1
    } else {
        let r = first_index(skills.drop_last(), id);
        if r >= 0 {
            r
        } else if ext_id(skills.last()) == id {
            skills.len() - 1
        } else {
            -1
        }
    }
}

/// The Extension ids, each once, in the order of their first Skill.
pub open spec fn first_ids(skills: Seq<SkillRecord>) -> Seq<Seq<char>>
    decreases skills.len(),
{
    if skills.len() == 0 {
        Seq::<Seq<char>>::empty()
    } else {
        let r = first_ids(skills.drop_last());
        if first_index(skills.drop_last(), ext_id(skills.last())) >= 0 {
            r
        } else {
            r.push(ext_id(skills.last()))
        }
    }
}

/// The components of the Skills of Extension `id`, in input order.
pub open spec fn members(skills: Seq<SkillRecord>, id: Seq<char>) -> Seq<ComponentView>
    decreases skills.len(),
{
    if skills.len() == 0 {
        Seq::<ComponentView>::empty()
    } else if ext_id(skills.last()) == id {
        members(skills.drop_last(), id).push(component_of(skills.last()))
    } else {
        members(skills.drop_last(), id)
    }
}

/// Extension `id`: named and sourced after its first Skill, holding the
/// components of all its Skills sorted stably by name.
pub open spec fn extension_of(skills: Seq<SkillRecord>, id: Seq<char>) -> ExtensionView {
    let first = skills[first_index(skills, id)];
    ExtensionView {
        id: id,
        name: ext_name(first),
        source_type: first.source_type@,
        source_ref: opt_view(first.source_ref),
        components: sort_keyed(members(skills, id)),
    }
}

/// `extension_of` for the given Skills, as a function of the id.
pub open spec fn extension_of_fn(skills: Seq<SkillRecord>) -> spec_fn(Seq<char>) -> ExtensionView {
    |id: Seq<char>| extension_of(skills, id)
}

/// The Extensions of `skills`, sorted by id.
pub open spec fn extensions_of(skills: Seq<SkillRecord>) -> Seq<ExtensionView> {
    sort_keyed(first_ids(skills).map_values(extension_of_fn(skills)))
}

/// An Extension id is among the ids seen so far exactly when some Skill so
/// far belongs to it.
pub proof fn lemma_first_ids_contains(skills: Seq<SkillRecord>, id: Seq<char>)
    ensures
        first_ids(skills).contains(id) <==> first_index(skills, id) >= 0,
        first_index(skills, id) < skills.len(),
        first_index(skills, id) >= 0 ==> ext_id(skills[first_index(skills, id)]) == id,
    decreases skills.len(),
{
    if skills.len() > 0 {
        lemma_first_ids_contains(skills.drop_last(), id);
        lemma_first_ids_contains(skills.drop_last(), ext_id(skills.last()));
        let r = first_ids(skills.drop_last());
        if first_index(skills.drop_last(), ext_id(skills.last())) < 0 {
            if r.push(ext_id(skills.last())).contains(id) && !r.contains(id) {
                let k = choose|k: int| 0 <= k < r.len() + 1 && r.push(ext_id(skills.last()))[k] == id;
                assert(k == r.len());
            }
            if r.contains(id) {
                let k = choose|k: int| 0 <= k < r.len() && r[k] == id;
                assert(r.push(ext_id(skills.last()))[k] == id);
            }
            if id == ext_id(skills.last()) {
                assert(r.push(ext_id(skills.last()))[r.len() as int] == id);
            }
        }
    }
}

/// The first Skill of Extension `id` is still first with more Skills after it.
pub proof fn lemma_first_index_prefix(skills: Seq<SkillRecord>, n: int, id: Seq<char>)
    requires
        0 <= n <= skills.len(),
        first_index(skills.take(n), id) >= 0,
    ensures
        first_index(skills, id) == first_index(skills.take(n), id),
    decreases skills.len() - n,
{
    if n < skills.len() {
        assert(skills.take(n + 1).drop_last() =~= skills.take(n));
        lemma_first_index_prefix(skills, n + 1, id);
    } else {
        assert(skills.take(n) =~= skills);
    }
}

/// The ids seen so far are distinct.
pub proof fn lemma_first_ids_distinct(skills: Seq<SkillRecord>)
    ensures
        first_ids(skills).no_duplicates(),
    decreases skills.len(),
{
    if skills.len() > 0 {
        lemma_first_ids_distinct(skills.drop_last());
        let r = first_ids(skills.drop_last());
        let x = ext_id(skills.last());
        lemma_first_ids_contains(skills.drop_last(), x);
        if first_index(skills.drop_last(), x) < 0 {
            assert forall|i: int, j: int|
                0 <= i < r.len() + 1 && 0 <= j < r.len() + 1 && i != j implies r.push(x)[i] != r.push(
                x,
            )[j] by {
                if i == r.len() {
                    assert(r[j] != x);
                } else if j == r.len() {
                    assert(r[i] != x);
                }
            }
        }
    }
}

/// Every element of the sorted Extensions is the Extension of one of the ids.
proof fn lemma_extensions_member(skills: Seq<SkillRecord>, k: int)
    requires
        0 <= k < extensions_of(skills).len(),
    ensures
        first_ids(skills).contains(extensions_of(skills)[k].id),
        extensions_of(skills)[k] == extension_of(skills, extensions_of(skills)[k].id),
{
    broadcast use vstd::seq_lib::group_to_multiset_ensures;
    let mapped = first_ids(skills).map_values(extension_of_fn(skills));
    lemma_sort_multiset(mapped);
    let e = extensions_of(skills)[k];
    assert(sort_keyed(mapped).contains(e));
    assert(sort_keyed(mapped).to_multiset().count(e) > 0);
    assert(mapped.to_multiset().count(e) > 0);
    assert(mapped.contains(e));
    let m = choose|m: int| 0 <= m < mapped.len() && mapped[m] == e;
    assert(mapped[m] == extension_of(skills, first_ids(skills)[m]));
}

/// Law: the Extensions come in strictly increasing id order, so no two
/// Extensions share an id.
pub proof fn law_extension_ids_increase(skills: Seq<SkillRecord>)
    ensures
        forall|i: int, j: int|
            0 <= i < j < extensions_of(skills).len() ==> seq_lt(
                #[trigger] extensions_of(skills)[i].id,
                #[trigger] extensions_of(skills)[j].id,
            ),
{
    broadcast use vstd::seq_lib::group_to_multiset_ensures;
    let ids = first_ids(skills);
    let mapped = ids.map_values(extension_of_fn(skills));
    let sorted = extensions_of(skills);
    lemma_first_ids_distinct(skills);
    assert forall|a: int, b: int| 0 <= a < mapped.len() && 0 <= b < mapped.len() && a != b implies mapped[a]
        != mapped[b] by {
        assert(mapped[a].id == ids[a]);
        assert(mapped[b].id == ids[b]);
    }
    assert(mapped.no_duplicates());
    mapped.lemma_multiset_has_no_duplicates();
    lemma_sort_multiset(mapped);
    sorted.lemma_multiset_has_no_duplicates_conv();
    lemma_sort_sorted(mapped);
    assert forall|i: int, j: int| 0 <= i < j < sorted.len() implies seq_lt(
        #[trigger] sorted[i].id,
        #[trigger] sorted[j].id,
    ) by {
        lemma_extensions_member(skills, i);
        lemma_extensions_member(skills, j);
        if sorted[i].id == sorted[j].id {
            assert(sorted[i] == sorted[j]);
        }
        assert(sorted[i].key() == sorted[i].id);
        assert(crate::text::seq_le(sorted[i].key(), sorted[j].key()));
    }
}

/// Law: the components of every Extension are sorted by name.
pub proof fn law_extension_components_sorted(skills: Seq<SkillRecord>, k: int)
    requires
        0 <= k < extensions_of(skills).len(),
    ensures
        sorted_keyed(extensions_of(skills)[k].components),
{
    lemma_extensions_member(skills, k);
    lemma_sort_sorted(members(skills, extensions_of(skills)[k].id));
}

/// The components of Extension `id` include every Skill of that id.
proof fn lemma_members_contains(skills: Seq<SkillRecord>, i: int)
    requires
        0 <= i < skills.len(),
    ensures
        members(skills, ext_id(skills[i])).contains(component_of(skills[i])),
    decreases skills.len(),
{
    let id = ext_id(skills[i]);
    if i == skills.len() - 1 {
        assert(members(skills, id).last() == component_of(skills[i]));
    } else {
        assert(skills.drop_last()[i] == skills[i]);
        lemma_members_contains(skills.drop_last(), i);
        let m = members(skills.drop_last(), id);
        let k = choose|k: int| 0 <= k < m.len() && m[k] == component_of(skills[i]);
        if ext_id(skills.last()) == id {
            assert(members(skills, id)[k] == m[k]);
        }
    }
}

/// Law: every Skill is a component of exactly one Extension, the one whose
/// id is the Skill's source id (Skill ids being unique, as in the store).
pub proof fn law_skill_in_its_extension(skills: Seq<SkillRecord>, i: int)
    requires
        0 <= i < skills.len(),
        forall|a: int, b: int|
            0 <= a < skills.len() && 0 <= b < skills.len() && a != b ==> #[trigger] skills[a].id@
                != #[trigger] skills[b].id@,
    ensures
        exists|k: int|
            0 <= k < extensions_of(skills).len() && #[trigger] extensions_of(skills)[k].id == ext_id(
                skills[i],
            ) && extensions_of(skills)[k].components.contains(component_of(skills[i])),
        forall|k: int|
            0 <= k < extensions_of(skills).len() && #[trigger] extensions_of(skills)[k].id
                != ext_id(skills[i]) ==> !extensions_of(skills)[k].components.contains(
                component_of(skills[i]),
            ),
{
    broadcast use vstd::seq_lib::group_to_multiset_ensures;
    let id = ext_id(skills[i]);
    let ids = first_ids(skills);
    let mapped = ids.map_values(extension_of_fn(skills));
    let sorted = extensions_of(skills);
    lemma_first_ids_contains(skills, id);
    assert(first_index(skills, id) >= 0) by {
        lemma_first_index_member(skills, i);
    }
    let m = choose|m: int| 0 <= m < ids.len() && ids[m] == id;
    let e = mapped[m];
    assert(mapped.contains(e));
    lemma_sort_multiset(mapped);
    assert(mapped.to_multiset().count(e) > 0);
    assert(sorted.to_multiset().count(e) > 0);
    assert(sorted.contains(e));
    let k = choose|k: int| 0 <= k < sorted.len() && sorted[k] == e;
    lemma_members_contains(skills, i);
    lemma_sort_multiset(members(skills, id));
    assert(members(skills, id).to_multiset().count(component_of(skills[i])) > 0);
    assert(sort_keyed(members(skills, id)).to_multiset().count(component_of(skills[i])) > 0);
    assert(sort_keyed(members(skills, id)).contains(component_of(skills[i])));
    assert(sorted[k].id == id);
    assert forall|k2: int|
        0 <= k2 < sorted.len() && #[trigger] sorted[k2].id != id implies !sorted[k2].components.contains(
        component_of(skills[i]),
    ) by {
        lemma_extensions_member(skills, k2);
        let other = sorted[k2].id;
        lemma_sort_multiset(members(skills, other));
        if sorted[k2].components.contains(component_of(skills[i])) {
            assert(sort_keyed(members(skills, other)).to_multiset().count(component_of(skills[i])) > 0);
            assert(members(skills, other).to_multiset().count(component_of(skills[i])) > 0);
            assert(members(skills, other).contains(component_of(skills[i])));
            lemma_members_only(skills, other, component_of(skills[i]));
            let j = choose|j: int|
                0 <= j < skills.len() && ext_id(skills[j]) == other && component_of(skills[j])
                    == component_of(skills[i]);
            assert(skills[j].id@ == skills[i].id@);
        }
    }
}

/// A Skill belongs to an Extension that some Skill starts.
proof fn lemma_first_index_member(skills: Seq<SkillRecord>, i: int)
    requires
        0 <= i < skills.len(),
    ensures
        first_index(skills, ext_id(skills[i])) >= 0,
    decreases skills.len(),
{
    if i < skills.len() - 1 {
        assert(skills.drop_last()[i] == skills[i]);
        lemma_first_index_member(skills.drop_last(), i);
    }
}

/// A component of Extension `id` comes from a Skill of that id.
proof fn lemma_members_only(skills: Seq<SkillRecord>, id: Seq<char>, c: ComponentView)
    requires
        members(skills, id).contains(c),
    ensures
        exists|j: int| 0 <= j < skills.len() && ext_id(skills[j]) == id && component_of(skills[j]) == c,
    decreases skills.len(),
{
    if skills.len() > 0 {
        let d = skills.drop_last();
        if ext_id(skills.last()) == id && c == component_of(skills.last()) {
            assert(ext_id(skills[skills.len() - 1]) == id);
        } else {
            let ms = members(skills, id);
            let k = choose|k: int| 0 <= k < ms.len() && ms[k] == c;
            if ext_id(skills.last()) == id {
                assert(k < ms.len() - 1);
                assert(members(d, id)[k] == c);
            }
            assert(members(d, id).contains(c));
            lemma_members_only(d, id, c);
            let j = choose|j: int| 0 <= j < d.len() && ext_id(d[j]) == id && component_of(d[j]) == c;
            assert(skills[j] == d[j]);
        }
    }
}

/// The Extension name of a Skill.
pub fn extension_name(skill: &SkillRecord) -> (r: String)
    ensures
        r@ == ext_name(*skill),
{
    match &skill.source_ref {
        Some(source_ref) => {
            let chars = chars_of(source_ref.as_str());
            let trimmed = trim_end_matches_char(&chars, '/');
            let mut slash: Vec<char> = Vec::new();
            slash.push('/');
            assert(slash@ =~= seq!['/']);
            let pieces = split_on(&trimmed, &slash);
            let last = &pieces[pieces.len() - 1];
            assert(crate::text::seqs(pieces@).last() == last@);
            let git = chars_of(".git");
            proof {
                reveal_strlit(".git");
            }
            let name = trim_end_matches_seq(last, &git);
            if name.len() > 0 {
                string_of(&name)
            } else {
                skill.name.clone()
            }
        },
        None => skill.name.clone(),
    }
}

/// The Extension id of a Skill.
fn skill_ext_id(skill: &SkillRecord) -> (r: Vec<char>)
    ensures
        r@ == ext_id(*skill),
{
    let head = chars_of(skill.source_type.as_str());
    let colon = chars_of(":");
    let identity = match &skill.source_ref {
        Some(r) => chars_of(r.as_str()),
        None => chars_of(skill.id.as_str()),
    };
    concat(&concat(&head, &colon), &identity)
}

/// The component for a Skill.
fn make_component(skill: &SkillRecord) -> (r: ExtensionComponent)
    ensures
        r@ == component_of(*skill),
{
    ExtensionComponent {
        id: skill.id.clone(),
        component_type: ExtensionComponentType::Skill,
        name: skill.name.clone(),
        description: copy_opt(&skill.description),
        skill_id: skill.id.clone(),
    }
}

/// Builds Extension `id` from the Skills.
fn build_extension(skills: &Vec<SkillRecord>, ids: &Vec<Vec<char>>, id: &Vec<char>) -> (r: Extension)
    requires
        first_index(skills@, id@) >= 0,
    ensures
        r@ == extension_of(skills@, id@),
{
    let mut comps: Vec<ExtensionComponent> = Vec::new();
    let mut first: usize = 0;
    let mut found = false;
    let mut i: usize = 0;
    while i < skills.len()
        invariant
            i <= skills.len(),
            comps@.map_values(component_view_fn()) == members(skills@.take(i as int), id@),
            found <==> first_index(skills@.take(i as int), id@) >= 0,
            found ==> first == first_index(skills@.take(i as int), id@),
        decreases skills.len() - i,
    {
        assert(skills@.take(i + 1).drop_last() =~= skills@.take(i as int));
        assert(skills@.take(i + 1).last() == skills@[i as int]);
        let sid = skill_ext_id(&skills[i]);
        if same(&sid, id) {
            let c = make_component(&skills[i]);
            let ghost before = comps@;
            comps.push(c);
            assert(comps@.map_values(component_view_fn()) =~= before.map_values(
                component_view_fn(),
            ).push(component_of(skills@[i as int])));
            if !found {
                found = true;
                first = i;
            }
        }
        i = i + 1;
    }
    assert(skills@.take(skills.len() as int) =~= skills@);
    proof {
        lemma_first_ids_contains(skills@, id@);
    }
    let sorted = stable_sort(comps);
    proof {
        lemma_sort_map(comps@, component_view_fn());
    }
    let f = &skills[first];
    Extension {
        id: string_of(id),
        name: extension_name(f),
        source: ExtensionSource {
            source_type: f.source_type.clone(),
            source_ref: copy_opt(&f.source_ref),
        },
        components: sorted,
    }
}

/// Groups Skills into Extensions by source: one Extension per distinct
/// source type and reference (a Skill without a reference is its own
/// source), named after the first Skill's source, its components sorted by
/// name; Extensions sorted by id.
pub fn map_skills_to_extensions(skills: Vec<SkillRecord>) -> (r: Vec<Extension>)
    ensures
        r@.map_values(extension_view_fn()) == extensions_of(skills@),
{
    let mut ids: Vec<Vec<char>> = Vec::new();
    let mut i: usize = 0;
    while i < skills.len()
        invariant
            i <= skills.len(),
            crate::text::seqs(ids@) == first_ids(skills@.take(i as int)),
        decreases skills.len() - i,
    {
        let ghost pre = skills@.take(i as int);
        assert(skills@.take(i + 1).drop_last() =~= pre);
        assert(skills@.take(i + 1).last() == skills@[i as int]);
        let sid = skill_ext_id(&skills[i]);
        let mut seen = false;
        let mut k: usize = 0;
        while k < ids.len()
            invariant
                k <= ids.len(),
                crate::text::seqs(ids@) == first_ids(pre),
                sid@ == ext_id(skills@[i as int]),
                seen <==> exists|m: int| 0 <= m < k && ids@[m]@ == sid@,
            decreases ids.len() - k,
        {
            if same(&ids[k], &sid) {
                seen = true;
            }
            k = k + 1;
        }
        proof {
            lemma_first_ids_contains(pre, sid@);
            if seen {
                let m = choose|m: int| 0 <= m < k && ids@[m]@ == sid@;
                assert(first_ids(pre)[m] == sid@);
            } else {
                assert forall|m: int| 0 <= m < first_ids(pre).len() implies first_ids(pre)[m] != sid@ by {
                    assert(first_ids(pre)[m] == ids@[m]@);
                }
            }
        }
        if !seen {
            let ghost before = ids@;
            ids.push(sid);
            assert(crate::text::seqs(ids@) =~= crate::text::seqs(before).push(ext_id(skills@[i as int])));
        }
        i = i + 1;
    }
    assert(skills@.take(skills.len() as int) =~= skills@);
    let ghost all_ids = first_ids(skills@);
    let mut exts: Vec<Extension> = Vec::new();
    let mut g: usize = 0;
    while g < ids.len()
        invariant
            g <= ids.len(),
            crate::text::seqs(ids@) == all_ids,
            all_ids == first_ids(skills@),
            exts@.map_values(extension_view_fn()) == all_ids.take(g as int).map_values(
                extension_of_fn(skills@),
            ),
        decreases ids.len() - g,
    {
        proof {
            assert(all_ids[g as int] == ids@[g as int]@);
            assert(all_ids.contains(ids@[g as int]@));
            lemma_first_ids_contains(skills@, ids@[g as int]@);
        }
        let e = build_extension(&skills, &ids, &ids[g]);
        let ghost ev = e@;
        let ghost before = exts@;
        exts.push(e);
        assert(all_ids.take(g + 1) =~= all_ids.take(g as int).push(all_ids[g as int]));
        assert(exts@ =~= before.push(e));
        assert(exts@.map_values(extension_view_fn()) =~= before.map_values(extension_view_fn()).push(
            extension_of(skills@, all_ids[g as int]),
        ));
        assert(all_ids.take(g + 1).map_values(extension_of_fn(skills@)) =~= all_ids.take(
            g as int,
        ).map_values(extension_of_fn(skills@)).push(extension_of(skills@, all_ids[g as int])));
        g = g + 1;
    }
    assert(all_ids.take(ids.len() as int) =~= all_ids);
    let sorted = stable_sort(exts);
    proof {
        lemma_sort_map(exts@, extension_view_fn());
    }
    sorted
}

} // verus!
