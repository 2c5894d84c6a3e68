//! The composer: turns a page row and its joined modules into the
//! render-ready view model. Flat modules become scalar fields keyed by
//! title (a later duplicate title wins); category groups become array
//! fields keyed by the category's title, member order preserved.

use vstd::prelude::*;

use crate::errors::CustomHttpError;
use crate::module_models::CategoryDTOView;
use crate::module_models::FieldsDTO;
use crate::module_models::FieldsDTOView;
use crate::module_models::Module;
use crate::module_models::ModuleView;
use crate::page_models::Page;
use crate::page_models::PageView;

verus! {

broadcast use vstd::seq::Seq::lemma_push_map_commute;

/// The map that inserting a sequence of key-value pairs in order produces:
/// a later pair with the same key overwrites an earlier one.
pub open spec fn assoc_map<V>(es: Seq<(Seq<char>, V)>) -> Map<Seq<char>, V>
    decreases es.len(),
{
    if es.len() == 0 {
        Map::empty()
    } else {
        assoc_map(es.drop_last()).insert(es.last().0, es.last().1)
    }
}

/// Pairwise-distinct keys in a pair sequence.
pub open spec fn entry_keys_unique<V>(es: Seq<(Seq<char>, V)>) -> bool {
    forall|i: int, j: int| 0 <= i < j < es.len() ==> (#[trigger] es[i]).0 != (#[trigger] es[j]).0
}

/// Appending a pair inserts its key.
pub proof fn lemma_assoc_push<V>(es: Seq<(Seq<char>, V)>, p: (Seq<char>, V))
    ensures
        assoc_map(es.push(p)) == assoc_map(es).insert(p.0, p.1),
{
    assert(es.push(p).drop_last() =~= es);
    assert(es.push(p).last() == p);
}

/// Replacing the pair that holds a key is the same as inserting that key.
pub proof fn lemma_assoc_update<V>(es: Seq<(Seq<char>, V)>, i: int, p: (Seq<char>, V))
    requires
        entry_keys_unique(es),
        0 <= i < es.len(),
        es[i].0 == p.0,
    ensures
        assoc_map(es.update(i, p)) == assoc_map(es).insert(p.0, p.1),
    decreases es.len(),
{
    let upd = es.update(i, p);
    if i == es.len() - 1 {
        assert(upd.drop_last() =~= es.drop_last());
        assert(upd.last() == p);
        assert(assoc_map(upd) == assoc_map(es.drop_last()).insert(p.0, p.1));
        assert(assoc_map(es).insert(p.0, p.1) =~= assoc_map(es.drop_last()).insert(p.0, p.1));
    } else {
        let last = es.last();
        assert(upd.last() == last);
        assert(upd.drop_last() =~= es.drop_last().update(i, p));
        lemma_assoc_update(es.drop_last(), i, p);
        assert(last.0 != p.0);
        assert(assoc_map(upd) == assoc_map(es.drop_last()).insert(p.0, p.1).insert(
            last.0,
            last.1,
        ));
        assert(assoc_map(es.drop_last()).insert(p.0, p.1).insert(last.0, last.1)
            =~= assoc_map(es.drop_last()).insert(last.0, last.1).insert(p.0, p.1));
    }
}

/// In a pair sequence with distinct keys, the map holds exactly the keys of
/// the pairs, each bound to its pair's value.
pub proof fn lemma_assoc_lookup<V>(es: Seq<(Seq<char>, V)>, i: int)
    requires
        entry_keys_unique(es),
        0 <= i < es.len(),
    ensures
        assoc_map(es).contains_key(es[i].0),
        assoc_map(es)[es[i].0] == es[i].1,
    decreases es.len(),
{
    if i == es.len() - 1 {
    } else {
        lemma_assoc_lookup(es.drop_last(), i);
        assert(es.drop_last()[i] == es[i]);
        assert(es.last().0 != es[i].0);
    }
}

/// The value bound to a key is the value of one of the pairs that carry
/// that key.
pub proof fn lemma_assoc_value_witness<V>(es: Seq<(Seq<char>, V)>, k: Seq<char>)
    requires
        assoc_map(es).contains_key(k),
    ensures
        exists|i: int|
            0 <= i < es.len() && (#[trigger] es[i]).0 == k && es[i].1 == assoc_map(es)[k],
    decreases es.len(),
{
    if es.len() > 0 {
        if es.last().0 == k {
            assert(es[es.len() - 1].0 == k && es[es.len() - 1].1 == assoc_map(es)[k]);
        } else {
            lemma_assoc_value_witness(es.drop_last(), k);
            let i = choose|i: int|
                0 <= i < es.drop_last().len() && (#[trigger] es.drop_last()[i]).0 == k
                    && es.drop_last()[i].1 == assoc_map(es.drop_last())[k];
            assert(es[i].0 == k && es[i].1 == assoc_map(es)[k]);
        }
    }
}

/// A key of the map is the key of one of the pairs.
pub proof fn lemma_assoc_key_witness<V>(es: Seq<(Seq<char>, V)>, k: Seq<char>)
    requires
        assoc_map(es).contains_key(k),
    ensures
        exists|i: int| 0 <= i < es.len() && (#[trigger] es[i]).0 == k,
    decreases es.len(),
{
    if es.len() > 0 {
        if es.last().0 == k {
            assert(es[es.len() - 1].0 == k);
        } else {
            lemma_assoc_key_witness(es.drop_last(), k);
            let i = choose|i: int| 0 <= i < es.drop_last().len() && (#[trigger] es.drop_last()[i]).0 == k;
            assert(es[i].0 == k);
        }
    }
}

/// The pairs that a module sequence contributes to the scalar-field map.
pub open spec fn module_entries(ms: Seq<ModuleView>) -> Seq<(Seq<char>, ModuleView)> {
    ms.map_values(|m: ModuleView| (m.title, m))
}

/// The scalar-field map of a module sequence: each module under its title,
/// a later module with the same title overwriting an earlier one.
pub open spec fn fields_map_of(ms: Seq<ModuleView>) -> Map<Seq<char>, ModuleView> {
    assoc_map(module_entries(ms))
}

/// The pairs that a category sequence contributes to the array-field map.
pub open spec fn category_entries(cs: Seq<CategoryDTOView>) -> Seq<(Seq<char>, Seq<ModuleView>)> {
    cs.map_values(|c: CategoryDTOView| (c.title, c.modules))
}

/// The array-field map of a category sequence: each member list under its
/// category's title, a later category with the same title overwriting an
/// earlier one.
pub open spec fn array_fields_map_of(cs: Seq<CategoryDTOView>) -> Map<Seq<char>, Seq<ModuleView>> {
    assoc_map(category_entries(cs))
}

/// The views of a module list, in order.
pub open spec fn mod_views(v: Seq<Module>) -> Seq<ModuleView> {
    v.map_values(|m: Module| m@)
}

/// One named, ordered group of modules on the composed page.
pub struct ArrayField {
    pub title: String,
    pub modules: Vec<Module>,
}

#[verifier::ext_equal]
pub struct ArrayFieldView {
    pub title: Seq<char>,
    pub modules: Seq<ModuleView>,
}

impl View for ArrayField {
    type V = ArrayFieldView;

    open spec fn view(&self) -> ArrayFieldView {
        ArrayFieldView {
            title: self.title@,
            modules: self.modules@.map_values(|m: Module| m@),
        }
    }
}

/// Used in the displaying of pages: the composed, render-ready view model.
/// The scalar fields are kept as entries with pairwise-distinct titles, so
/// the structure denotes the two maps of its view exactly.
pub struct PageModuleDisplayDTO {
    pub uuid: String,
    pub page_name: String,
    pub page_url: String,
    pub page_title: String,
    pub time_created: u64,
    /// One module per title; see the scalar lookup on the default helpers
    /// for how templates read it.
    pub fields: Vec<Module>,
    pub array_fields: Vec<ArrayField>,
}

#[verifier::ext_equal]
pub struct PageModuleDisplayDTOView {
    pub uuid: Seq<char>,
    pub page_name: Seq<char>,
    pub page_url: Seq<char>,
    pub page_title: Seq<char>,
    pub time_created: u64,
    pub fields: Map<Seq<char>, ModuleView>,
    pub array_fields: Map<Seq<char>, Seq<ModuleView>>,
}

impl PageModuleDisplayDTO {
    /// The entries of the scalar-field table, as pairs.
    pub open spec fn field_entries(&self) -> Seq<(Seq<char>, ModuleView)> {
        module_entries(self.fields@.map_values(|m: Module| m@))
    }

    /// The entries of the array-field table, as pairs.
    pub open spec fn array_entries(&self) -> Seq<(Seq<char>, Seq<ModuleView>)> {
        self.array_fields@.map_values(|a: ArrayField| (a@.title, a@.modules))
    }

    /// Each title occurs at most once in each table.
    pub open spec fn wf(&self) -> bool {
        entry_keys_unique(self.field_entries()) && entry_keys_unique(self.array_entries())
    }
}

impl View for PageModuleDisplayDTO {
    type V = PageModuleDisplayDTOView;

    open spec fn view(&self) -> PageModuleDisplayDTOView {
        PageModuleDisplayDTOView {
            uuid: self.uuid@,
            page_name: self.page_name@,
            page_url: self.page_url@,
            page_title: self.page_title@,
            time_created: self.time_created,
            fields: assoc_map(self.field_entries()),
            array_fields: assoc_map(self.array_entries()),
        }
    }
}

impl PageModuleDisplayDTO {
    /// The display model of a bare page: its metadata with both field maps
    /// empty, before any module is folded in.
    pub fn from_page(origin_page: Page) -> (r: PageModuleDisplayDTO)
        ensures
            r.wf(),
            r@.uuid == origin_page@.uuid,
            r@.page_name == origin_page@.page_name,
            r@.page_url == origin_page@.page_url,
            r@.page_title == origin_page@.page_title,
            r@.time_created == origin_page@.time_created,
            r@.fields == Map::<Seq<char>, ModuleView>::empty(),
            r@.array_fields == Map::<Seq<char>, Seq<ModuleView>>::empty(),
    {
        let r = PageModuleDisplayDTO {
            page_name: origin_page.page_name,
            uuid: origin_page.uuid,
            page_url: origin_page.page_url,
            page_title: origin_page.page_title,
            time_created: origin_page.time_created,
            fields: Vec::new(),
            array_fields: Vec::new(),
        };
        proof {
            assert(r.field_entries() =~= Seq::<(Seq<char>, ModuleView)>::empty());
            assert(r.array_entries() =~= Seq::<(Seq<char>, Seq<ModuleView>)>::empty());
        }
        r
    }
}

/// The view of a page and its joined modules, composed: the page metadata,
/// the scalar-field map of the flat modules (last write per title wins), and
/// the array-field map of the category groups (last category per title
/// wins), or no array fields at all when the join carried none.
pub open spec fn spec_parse_page(p: PageView, f: FieldsDTOView) -> PageModuleDisplayDTOView {
    PageModuleDisplayDTOView {
        uuid: p.uuid,
        page_name: p.page_name,
        page_url: p.page_url,
        page_title: p.page_title,
        time_created: p.time_created,
        fields: fields_map_of(f.modules),
        array_fields: (match f.categories {
            Some(cs) => array_fields_map_of(cs),
            None => Map::empty(),
        }),
    }
}

/// Binds a module under its title, replacing the entry that holds the title
/// if one does.
#[verifier::loop_isolation(false)]
fn insert_field(fields: &mut Vec<Module>, m: Module)
    requires
        entry_keys_unique(module_entries(mod_views(old(fields)@))),
    ensures
        entry_keys_unique(module_entries(mod_views(final(fields)@))),
        assoc_map(module_entries(mod_views(final(fields)@))) == assoc_map(
            module_entries(mod_views(old(fields)@)),
        ).insert(m@.title, m@),
{
    let ghost f0 = fields@;
    let ghost es0 = module_entries(mod_views(f0));
    let ghost pair = (m@.title, m@);
    let mut i: usize = 0;
    while i < fields.len()
        invariant
            0 <= i <= fields.len(),
            fields@ == f0,
            entry_keys_unique(es0),
            es0 == module_entries(mod_views(f0)),
            pair == (m@.title, m@),
            forall|j: int| 0 <= j < i ==> (#[trigger] es0[j]).0 != m@.title,
        decreases fields.len() - i,
    {
        if fields[i].title == m.title {
            proof {
                assert(es0[i as int].0 == m@.title);
            }
            fields[i] = m;
            proof {
                assert(module_entries(mod_views(fields@)) =~= es0.update(i as int, pair));
                lemma_assoc_update(es0, i as int, pair);
                assert forall|a: int, b: int|
                    0 <= a < b < es0.update(i as int, pair).len() implies (#[trigger] es0.update(
                    i as int,
                    pair,
                )[a]).0 != (#[trigger] es0.update(i as int, pair)[b]).0 by {
                    assert(es0.update(i as int, pair)[a].0 == es0[a].0);
                    assert(es0.update(i as int, pair)[b].0 == es0[b].0);
                }
            }
            return ;
        }
        proof {
            assert(es0[i as int].0 == mod_views(f0)[i as int].title);
        }
        i += 1;
    }
    fields.push(m);
    proof {
        assert(module_entries(mod_views(fields@)) =~= es0.push(pair));
        lemma_assoc_push(es0, pair);
        assert forall|a: int, b: int| 0 <= a < b < es0.push(pair).len() implies (#[trigger] es0
            .push(pair)[a]).0 != (#[trigger] es0.push(pair)[b]).0 by {
            if b == es0.len() {
                assert(es0[a].0 != m@.title);
            }
        }
    }
}

/// Binds a member list under its category title, replacing the entry that
/// holds the title if one does.
#[verifier::loop_isolation(false)]
fn insert_array_field(afs: &mut Vec<ArrayField>, af: ArrayField)
    requires
        entry_keys_unique(old(afs)@.map_values(|a: ArrayField| (a@.title, a@.modules))),
    ensures
        entry_keys_unique(final(afs)@.map_values(|a: ArrayField| (a@.title, a@.modules))),
        assoc_map(final(afs)@.map_values(|a: ArrayField| (a@.title, a@.modules))) == assoc_map(
            old(afs)@.map_values(|a: ArrayField| (a@.title, a@.modules)),
        ).insert(af@.title, af@.modules),
{
    let ghost f0 = afs@;
    let ghost es0 = f0.map_values(|a: ArrayField| (a@.title, a@.modules));
    let ghost pair = (af@.title, af@.modules);
    let mut i: usize = 0;
    while i < afs.len()
        invariant
            0 <= i <= afs.len(),
            afs@ == f0,
            entry_keys_unique(es0),
            es0 == f0.map_values(|a: ArrayField| (a@.title, a@.modules)),
            pair == (af@.title, af@.modules),
            forall|j: int| 0 <= j < i ==> (#[trigger] es0[j]).0 != af@.title,
        decreases afs.len() - i,
    {
        if afs[i].title == af.title {
            proof {
                assert(es0[i as int].0 == af@.title);
            }
            afs[i] = af;
            proof {
                assert(afs@.map_values(|a: ArrayField| (a@.title, a@.modules)) =~= es0.update(
                    i as int,
                    pair,
                ));
                lemma_assoc_update(es0, i as int, pair);
                assert forall|a: int, b: int|
                    0 <= a < b < es0.update(i as int, pair).len() implies (#[trigger] es0.update(
                    i as int,
                    pair,
                )[a]).0 != (#[trigger] es0.update(i as int, pair)[b]).0 by {
                    assert(es0.update(i as int, pair)[a].0 == es0[a].0);
                    assert(es0.update(i as int, pair)[b].0 == es0[b].0);
                }
            }
            return ;
        }
        i += 1;
    }
    afs.push(af);
    proof {
        assert(afs@.map_values(|a: ArrayField| (a@.title, a@.modules)) =~= es0.push(pair));
        lemma_assoc_push(es0, pair);
        assert forall|a: int, b: int| 0 <= a < b < es0.push(pair).len() implies (#[trigger] es0
            .push(pair)[a]).0 != (#[trigger] es0.push(pair)[b]).0 by {
            if b == es0.len() {
                assert(es0[a].0 != af@.title);
            }
        }
    }
}

/// Copies a module list, in order.
pub(crate) fn clone_modules(v: &Vec<Module>) -> (r: Vec<Module>)
    ensures
        mod_views(r@) == mod_views(v@),
{
    let mut out: Vec<Module> = Vec::new();
    let mut i: usize = 0;
    while i < v.len()
        invariant
            0 <= i <= v.len(),
            mod_views(out@) =~= mod_views(v@).subrange(0, i as int),
        decreases v.len() - i,
    {
        out.push(v[i].clone());
        proof {
            assert(mod_views(out@) =~= mod_views(v@).subrange(0, i + 1));
        }
        i += 1;
    }
    proof {
        assert(mod_views(v@).subrange(0, v@.len() as int) =~= mod_views(v@));
    }
    out
}

/// Composes a page row and its joined modules into the display model: flat
/// modules become scalar fields keyed by title, category groups become
/// array fields keyed by category title; on a duplicate title the later one
/// wins, and member order is preserved. A page with no modules composes to
/// empty maps, not an error.
#[verifier::loop_isolation(false)]
pub fn parse_page(page: (Page, FieldsDTO)) -> (r: Result<PageModuleDisplayDTO, CustomHttpError>)
    ensures
        r is Ok,
        r->Ok_0.wf(),
        r->Ok_0@ == spec_parse_page(page.0@, page.1@),
{
    let (origin_page, fdto) = page;
    let ghost p0 = origin_page@;
    let ghost f0 = fdto@;

    // cast the origin page that is always standard into a new object that
    // has the modules as a vec of children.
    let mut res = PageModuleDisplayDTO::from_page(origin_page);

    match &fdto.categories {
        Some(cats) => {
            let ghost cviews = cats@.map_values(|c: crate::module_models::CategoryDTO| c@);
            let mut i: usize = 0;
            while i < cats.len()
                invariant
                    0 <= i <= cats.len(),
                    res.wf(),
                    res@.uuid == p0.uuid,
                    res@.page_name == p0.page_name,
                    res@.page_url == p0.page_url,
                    res@.page_title == p0.page_title,
                    res@.time_created == p0.time_created,
                    res@.fields == Map::<Seq<char>, ModuleView>::empty(),
                    res@.array_fields == assoc_map(
                        category_entries(cviews.subrange(0, i as int)),
                    ),
                decreases cats.len() - i,
            {
                let c = &cats[i];
                let af = ArrayField { title: c.title.clone(), modules: clone_modules(&c.modules) };
                proof {
                    assert(af@.title == cviews[i as int].title);
                    assert(af@.modules =~= cviews[i as int].modules);
                }
                insert_array_field(&mut res.array_fields, af);
                proof {
                    assert(category_entries(cviews.subrange(0, i + 1)) =~= category_entries(
                        cviews.subrange(0, i as int),
                    ).push((cviews[i as int].title, cviews[i as int].modules)));
                    lemma_assoc_push(
                        category_entries(cviews.subrange(0, i as int)),
                        (cviews[i as int].title, cviews[i as int].modules),
                    );
                }
                i += 1;
            }
            proof {
                assert(cviews.subrange(0, cviews.len() as int) =~= cviews);
            }
        },
        None => {},
    }

    let mods = fdto.modules;
    let ghost mviews = mods@.map_values(|m: Module| m@);
    let mut k: usize = 0;
    while k < mods.len()
        invariant
            0 <= k <= mods.len(),
            res.wf(),
            res@.uuid == p0.uuid,
            res@.page_name == p0.page_name,
            res@.page_url == p0.page_url,
            res@.page_title == p0.page_title,
            res@.time_created == p0.time_created,
            res@.array_fields == spec_parse_page(p0, f0).array_fields,
            res@.fields == assoc_map(module_entries(mviews.subrange(0, k as int))),
        decreases mods.len() - k,
    {
        let m = mods[k].clone();
        proof {
            assert(m@ == mviews[k as int]);
        }
        insert_field(&mut res.fields, m);
        proof {
            assert(module_entries(mviews.subrange(0, k + 1)) =~= module_entries(
                mviews.subrange(0, k as int),
            ).push((mviews[k as int].title, mviews[k as int])));
            lemma_assoc_push(
                module_entries(mviews.subrange(0, k as int)),
                (mviews[k as int].title, mviews[k as int]),
            );
        }
        k += 1;
    }
    proof {
        assert(mviews.subrange(0, mviews.len() as int) =~= mviews);
        assert(res@ =~= spec_parse_page(p0, f0));
    }

    Ok(res)
}

/// Law: composing a page that has no modules and no categories yields a
/// display model whose field maps are both empty — never an error.
pub proof fn lemma_compose_empty_page(p: PageView, f: FieldsDTOView)
    requires
        f.modules.len() == 0,
        f.categories matches Some(cs) ==> cs.len() == 0,
    ensures
        spec_parse_page(p, f).fields == Map::<Seq<char>, ModuleView>::empty(),
        spec_parse_page(p, f).array_fields == Map::<Seq<char>, Seq<ModuleView>>::empty(),
{
    assert(module_entries(f.modules).len() == 0);
    match f.categories {
        Some(cs) => {
            assert(category_entries(cs).len() == 0);
        },
        None => {},
    }
}

/// The scalar-field map binds a title to the last module that carries it.
pub proof fn lemma_fields_map_last(ms: Seq<ModuleView>, j: int)
    requires
        0 <= j < ms.len(),
        forall|k: int| j < k < ms.len() ==> (#[trigger] ms[k]).title != ms[j].title,
    ensures
        fields_map_of(ms).contains_key(ms[j].title),
        fields_map_of(ms)[ms[j].title] == ms[j],
    decreases ms.len(),
{
    let es = module_entries(ms);
    if j == ms.len() - 1 {
        assert(es.last() == (ms[j].title, ms[j]));
    } else {
        lemma_fields_map_last(ms.drop_last(), j);
        assert(ms.drop_last()[j] == ms[j]);
        assert(module_entries(ms.drop_last()) =~= es.drop_last());
        assert(ms[ms.len() - 1].title != ms[j].title);
        assert(es.last() == (ms[ms.len() - 1].title, ms[ms.len() - 1]));
    }
}

/// Law: when two flat modules on one page carry the same title, the
/// composed scalar field under that title holds whichever of them the
/// store returned last.
pub proof fn lemma_fields_last_wins(ms: Seq<ModuleView>, i: int, j: int)
    requires
        0 <= i < j < ms.len(),
        ms[i].title == ms[j].title,
        forall|k: int| j < k < ms.len() ==> (#[trigger] ms[k]).title != ms[j].title,
    ensures
        fields_map_of(ms).contains_key(ms[j].title),
        fields_map_of(ms)[ms[j].title] == ms[j],
{
    lemma_fields_map_last(ms, j);
}

/// The categories of one page carry pairwise-distinct titles.
pub open spec fn page_category_titles_unique(
    s: crate::store::StoreView,
    p: PageView,
) -> bool {
    forall|i: int, j: int|
        0 <= i < j < crate::module_models::spec_page_categories(s, p).len()
            ==> (#[trigger] crate::module_models::spec_page_categories(s, p)[i]).title
            != (#[trigger] crate::module_models::spec_page_categories(s, p)[j]).title
}

/// Law: composing a page's join result binds, under the title of each of
/// the page's categories, exactly the modules of that category, in store
/// order; and every module bound there carries that category, so no flat
/// module appears in any array field. This holds when the page's category
/// titles are distinct; with a duplicated title the later category wins
/// and the earlier one is shadowed.
pub proof fn lemma_array_fields_exact(s: crate::store::StoreView, p: PageView, k: int)
    requires
        page_category_titles_unique(s, p),
        0 <= k < crate::module_models::spec_page_categories(s, p).len(),
    ensures
        ({
            let cats = crate::module_models::spec_page_categories(s, p);
            let composed = spec_parse_page(p, crate::module_models::spec_fields_dto(s, p));
            &&& composed.array_fields.contains_key(cats[k].title)
            &&& composed.array_fields[cats[k].title]
                == crate::module_models::spec_category_members(s, cats[k])
            &&& forall|i: int|
                0 <= i < crate::module_models::spec_category_members(s, cats[k]).len()
                    ==> (#[trigger] crate::module_models::spec_category_members(s, cats[k])[i])
                    .category_uuid == Some(cats[k].uuid)
        }),
{
    broadcast use vstd::seq_lib::group_filter_ensures;

    let cats = crate::module_models::spec_page_categories(s, p);
    let dtos = cats.map_values(
        |c: crate::module_models::ModuleCategoryView| crate::module_models::spec_category_dto(
            s,
            c,
        ),
    );
    let es = category_entries(dtos);
    assert(es[k].0 == cats[k].title);
    assert(es[k].1 == crate::module_models::spec_category_members(s, cats[k]));
    assert(entry_keys_unique(es)) by {
        assert forall|a: int, b: int| 0 <= a < b < es.len() implies (#[trigger] es[a]).0 != (
        #[trigger] es[b]).0 by {
            assert(es[a].0 == cats[a].title);
            assert(es[b].0 == cats[b].title);
        }
    }
    lemma_assoc_lookup(es, k);
    let members = crate::module_models::spec_category_members(s, cats[k]);
    let pred = |m: ModuleView| m.category_uuid == Some(cats[k].uuid);
    assert forall|i: int| 0 <= i < members.len() implies (#[trigger] members[i]).category_uuid
        == Some(cats[k].uuid) by {
        s.modules.lemma_filter_pred(pred, i);
    }
}

/// Law: whatever title an array field of a composed page stands under —
/// whether or not the page's category titles are distinct — every module in
/// it carries a category, so a flat module appears in no array field.
pub proof fn lemma_array_fields_never_flat(
    s: crate::store::StoreView,
    p: PageView,
    t: Seq<char>,
)
    requires
        spec_parse_page(p, crate::module_models::spec_fields_dto(s, p)).array_fields.contains_key(
            t,
        ),
    ensures
        forall|i: int|
            0 <= i < spec_parse_page(
                p,
                crate::module_models::spec_fields_dto(s, p),
            ).array_fields[t].len() ==> (#[trigger] spec_parse_page(
                p,
                crate::module_models::spec_fields_dto(s, p),
            ).array_fields[t][i]).category_uuid is Some,
{
    let cats = crate::module_models::spec_page_categories(s, p);
    let dtos = cats.map_values(
        |c: crate::module_models::ModuleCategoryView| crate::module_models::spec_category_dto(
            s,
            c,
        ),
    );
    let es = category_entries(dtos);
    lemma_assoc_value_witness(es, t);
    let k = choose|k: int|
        0 <= k < es.len() && (#[trigger] es[k]).0 == t && es[k].1 == assoc_map(es)[t];
    let members = crate::module_models::spec_category_members(s, cats[k]);
    assert(es[k].1 == members);
    let pred = |m: ModuleView| m.category_uuid == Some(cats[k].uuid);
    assert forall|i: int| 0 <= i < members.len() implies (#[trigger] members[i]).category_uuid is Some by {
        s.modules.lemma_filter_pred(pred, i);
    }
}

} // verus!
