//! The module and module-category row types, their mutation payloads, and the
//! grouped DTO shapes used by the join queries.

use vstd::prelude::*;

use crate::errors::CustomHttpError;
use crate::store::categories_uuid_unique;
use crate::store::category_by_uuid;
use crate::store::has_category_uuid;
use crate::store::has_module_uuid;
use crate::store::lemma_category_by_uuid_is;
use crate::store::lemma_filter_members;
use crate::store::lemma_filter_push;
use crate::store::lemma_module_by_uuid_is;
use crate::store::module_by_uuid;
use crate::store::modules_uuid_unique;
use crate::store::Store;

verus! {

broadcast use vstd::seq::Seq::lemma_push_map_commute;

/// A stored module row. A module with `category_uuid == None` is a flat
/// field, addressed directly by its title; one with `category_uuid == Some`
/// is a member of that category's array field.
pub struct Module {
    pub uuid: String,
    pub page_uuid: String,
    pub category_uuid: Option<String>,
    pub title: String,
    pub content: String,
}

#[verifier::ext_equal]
pub struct ModuleView {
    pub uuid: Seq<char>,
    pub page_uuid: Seq<char>,
    pub category_uuid: Option<Seq<char>>,
    pub title: Seq<char>,
    pub content: Seq<char>,
}

impl View for Module {
    type V = ModuleView;

    open spec fn view(&self) -> ModuleView {
        ModuleView {
            uuid: self.uuid@,
            page_uuid: self.page_uuid@,
            category_uuid: match self.category_uuid {
                Some(c) => Some(c@),
                None => None,
            },
            title: self.title@,
            content: self.content@,
        }
    }
}

impl Clone for Module {
    fn clone(&self) -> (r: Self)
        ensures
            r@ == self@,
    {
        Module {
            uuid: self.uuid.clone(),
            page_uuid: self.page_uuid.clone(),
            category_uuid: match &self.category_uuid {
                Some(c) => Some(c.clone()),
                None => None,
            },
            title: self.title.clone(),
            content: self.content.clone(),
        }
    }
}

/// The mutable columns of the module table.
pub struct MutModule {
    pub uuid: Option<String>,
    pub title: String,
    pub page_uuid: String,
    pub category_uuid: Option<String>,
    pub content: String,
}

#[verifier::ext_equal]
pub struct MutModuleView {
    pub uuid: Option<Seq<char>>,
    pub title: Seq<char>,
    pub page_uuid: Seq<char>,
    pub category_uuid: Option<Seq<char>>,
    pub content: Seq<char>,
}

impl View for MutModule {
    type V = MutModuleView;

    open spec fn view(&self) -> MutModuleView {
        MutModuleView {
            uuid: match self.uuid {
                Some(u) => Some(u@),
                None => None,
            },
            title: self.title@,
            page_uuid: self.page_uuid@,
            category_uuid: match self.category_uuid {
                Some(c) => Some(c@),
                None => None,
            },
            content: self.content@,
        }
    }
}

impl Clone for MutModule {
    fn clone(&self) -> (r: Self)
        ensures
            r@ == self@,
    {
        MutModule {
            uuid: match &self.uuid {
                Some(u) => Some(u.clone()),
                None => None,
            },
            title: self.title.clone(),
            page_uuid: self.page_uuid.clone(),
            category_uuid: match &self.category_uuid {
                Some(c) => Some(c.clone()),
                None => None,
            },
            content: self.content.clone(),
        }
    }
}

impl MutModule {
    /// The same payload with a fresh identifier filled in, as the create
    /// endpoint does before inserting.
    pub fn with_new_uuid(&self) -> (r: MutModule)
        ensures
            r@.uuid is Some,
            r@.uuid.unwrap().len() == 36,
            r@.title == self@.title,
            r@.page_uuid == self@.page_uuid,
            r@.category_uuid == self@.category_uuid,
            r@.content == self@.content,
    {
        MutModule {
            uuid: Some(crate::ids::new_uuid()),
            title: self.title.clone(),
            page_uuid: self.page_uuid.clone(),
            category_uuid: match &self.category_uuid {
                Some(c) => Some(c.clone()),
                None => None,
            },
            content: self.content.clone(),
        }
    }
}

/// A stored module-category row: a named group of modules on one page.
pub struct ModuleCategory {
    pub uuid: String,
    pub page_uuid: String,
    pub title: String,
}

#[verifier::ext_equal]
pub struct ModuleCategoryView {
    pub uuid: Seq<char>,
    pub page_uuid: Seq<char>,
    pub title: Seq<char>,
}

impl View for ModuleCategory {
    type V = ModuleCategoryView;

    open spec fn view(&self) -> ModuleCategoryView {
        ModuleCategoryView {
            uuid: self.uuid@,
            page_uuid: self.page_uuid@,
            title: self.title@,
        }
    }
}

impl Clone for ModuleCategory {
    fn clone(&self) -> (r: Self)
        ensures
            r@ == self@,
    {
        ModuleCategory {
            uuid: self.uuid.clone(),
            page_uuid: self.page_uuid.clone(),
            title: self.title.clone(),
        }
    }
}

/// The mutable columns of the module-category table.
pub struct MutCategory {
    pub title: String,
    pub page_uuid: String,
    pub uuid: Option<String>,
}

#[verifier::ext_equal]
pub struct MutCategoryView {
    pub title: Seq<char>,
    pub page_uuid: Seq<char>,
    pub uuid: Option<Seq<char>>,
}

impl View for MutCategory {
    type V = MutCategoryView;

    open spec fn view(&self) -> MutCategoryView {
        MutCategoryView {
            title: self.title@,
            page_uuid: self.page_uuid@,
            uuid: match self.uuid {
                Some(u) => Some(u@),
                None => None,
            },
        }
    }
}

impl Clone for MutCategory {
    fn clone(&self) -> (r: Self)
        ensures
            r@ == self@,
    {
        MutCategory {
            title: self.title.clone(),
            page_uuid: self.page_uuid.clone(),
            uuid: match &self.uuid {
                Some(u) => Some(u.clone()),
                None => None,
            },
        }
    }
}

impl MutCategory {
    /// The same payload with a fresh identifier filled in, as the create
    /// endpoint does before inserting.
    pub fn with_new_uuid(&self) -> (r: MutCategory)
        ensures
            r@.uuid is Some,
            r@.uuid.unwrap().len() == 36,
            r@.title == self@.title,
            r@.page_uuid == self@.page_uuid,
    {
        MutCategory {
            title: self.title.clone(),
            page_uuid: self.page_uuid.clone(),
            uuid: Some(crate::ids::new_uuid()),
        }
    }
}

/// One category together with the modules that belong to it, in store order.
pub struct CategoryDTO {
    pub uuid: String,
    pub title: String,
    pub modules: Vec<Module>,
}

#[verifier::ext_equal]
pub struct CategoryDTOView {
    pub uuid: Seq<char>,
    pub title: Seq<char>,
    pub modules: Seq<ModuleView>,
}

impl View for CategoryDTO {
    type V = CategoryDTOView;

    open spec fn view(&self) -> CategoryDTOView {
        CategoryDTOView {
            uuid: self.uuid@,
            title: self.title@,
            modules: self.modules@.map_values(|m: Module| m@),
        }
    }
}

/// A page's modules split by category: the flat ones, then one group per
/// category of the page.
pub struct FieldsDTO {
    pub modules: Vec<Module>,
    pub categories: Option<Vec<CategoryDTO>>,
}

#[verifier::ext_equal]
pub struct FieldsDTOView {
    pub modules: Seq<ModuleView>,
    pub categories: Option<Seq<CategoryDTOView>>,
}

impl View for FieldsDTO {
    type V = FieldsDTOView;

    open spec fn view(&self) -> FieldsDTOView {
        FieldsDTOView {
            modules: self.modules@.map_values(|m: Module| m@),
            categories: match self.categories {
                Some(cs) => Some(cs@.map_values(|c: CategoryDTO| c@)),
                None => None,
            },
        }
    }
}

/// The row that inserting a module create payload produces.
pub open spec fn spec_new_module(m: MutModuleView) -> ModuleView
    recommends
        m.uuid is Some,
{
    ModuleView {
        uuid: m.uuid.unwrap(),
        page_uuid: m.page_uuid,
        category_uuid: m.category_uuid,
        title: m.title,
        content: m.content,
    }
}

/// The row that applying a module update payload produces: the identifier is
/// immutable, and a payload without a category leaves the stored category
/// untouched (a partial payload skips that column).
pub open spec fn spec_module_update(p: ModuleView, m: MutModuleView) -> ModuleView {
    ModuleView {
        uuid: p.uuid,
        page_uuid: m.page_uuid,
        category_uuid: (if m.category_uuid is Some {
            m.category_uuid
        } else {
            p.category_uuid
        }),
        title: m.title,
        content: m.content,
    }
}

impl Module {
    /// Inserts a module row, or does nothing when its primary key is already
    /// taken (insert-or-ignore). Returns how many rows were inserted. No
    /// foreign-key check is made: the schema declares no cascade, so a
    /// module may reference a page that is gone.
    pub fn create(new_module: &MutModule, db: &mut Store) -> (r: Result<usize, CustomHttpError>)
        requires
            old(db)@.wf(),
            new_module@.uuid is Some,
        ensures
            r is Ok,
            final(db)@.wf(),
            final(db)@.pages == old(db)@.pages,
            final(db)@.categories == old(db)@.categories,
            final(db)@.users == old(db)@.users,
            has_module_uuid(old(db)@.modules, new_module@.uuid.unwrap()) ==> (final(db)@.modules
                == old(db)@.modules && r == Ok::<usize, CustomHttpError>(0)),
            !has_module_uuid(old(db)@.modules, new_module@.uuid.unwrap()) ==> (final(db)@.modules
                == old(db)@.modules.push(spec_new_module(new_module@)) && r == Ok::<
                usize,
                CustomHttpError,
            >(1)),
    {
        let ghost db0 = db@;
        let uuid_ref: &String = match &new_module.uuid {
            Some(u) => u,
            None => unreached(),
        };
        let mut conflict = false;
        let mut i: usize = 0;
        while i < db.modules.len()
            invariant
                0 <= i <= db.modules.len(),
                conflict == exists|j: int|
                    0 <= j < i && (#[trigger] db0.modules[j]).uuid == uuid_ref@,
                db@ == db0,
                new_module@.uuid == Some(uuid_ref@),
            decreases db.modules.len() - i,
        {
            let m = &db.modules[i];
            if m.uuid == *uuid_ref {
                proof {
                    assert(db0.modules[i as int].uuid == uuid_ref@);
                }
                conflict = true;
            }
            i += 1;
        }
        if conflict {
            proof {
                assert(has_module_uuid(db0.modules, uuid_ref@));
            }
            Ok(0)
        } else {
            let module = Module {
                uuid: uuid_ref.clone(),
                page_uuid: new_module.page_uuid.clone(),
                category_uuid: match &new_module.category_uuid {
                    Some(c) => Some(c.clone()),
                    None => None,
                },
                title: new_module.title.clone(),
                content: new_module.content.clone(),
            };
            db.modules.push(module);
            proof {
                assert(db@.modules =~= db0.modules.push(spec_new_module(new_module@)));
                assert(db@.pages =~= db0.pages);
                assert(db@.categories =~= db0.categories);
                assert(db@.users =~= db0.users);
                let n = db0.modules.len() as int;
                assert forall|a: int, b: int| 0 <= a < b < db@.modules.len() implies #[trigger] db@
                    .modules[a].uuid != #[trigger] db@.modules[b].uuid by {
                    if b == n {
                        assert(db0.modules[a].uuid != uuid_ref@);
                    }
                }
                if has_module_uuid(db0.modules, uuid_ref@) {
                    let j = choose|j: int|
                        0 <= j < db0.modules.len() && #[trigger] db0.modules[j].uuid == uuid_ref@;
                    assert(false);
                }
            }
            Ok(1)
        }
    }

    /// Reads the module with the given primary key, or reports that no such
    /// row exists.
    pub fn read_one(mod_id: String, db: &Store) -> (r: Result<Module, CustomHttpError>)
        requires
            db@.wf(),
        ensures
            match r {
                Ok(m) => has_module_uuid(db@.modules, mod_id@) && m@ == module_by_uuid(
                    db@.modules,
                    mod_id@,
                ),
                Err(e) => e == CustomHttpError::NotFound && !has_module_uuid(db@.modules, mod_id@),
            },
    {
        let mut i: usize = 0;
        while i < db.modules.len()
            invariant
                0 <= i <= db.modules.len(),
                db@.wf(),
                forall|j: int| 0 <= j < i ==> (#[trigger] db@.modules[j]).uuid != mod_id@,
            decreases db.modules.len() - i,
        {
            let m = &db.modules[i];
            if m.uuid == mod_id {
                proof {
                    lemma_module_by_uuid_is(db@.modules, mod_id@, i as int);
                }
                return Ok(m.clone());
            }
            i += 1;
        }
        Err(CustomHttpError::NotFound)
    }

    /// Reads the flat modules: every module without a category, in store
    /// order. Category-grouped modules are reachable only through the
    /// category join, not through this listing. Never fails.
    pub fn read_all(db: &Store) -> (r: Result<Vec<Module>, CustomHttpError>)
        ensures
            r is Ok,
            r->Ok_0@.map_values(|m: Module| m@) == db@.modules.filter(
                |m: ModuleView| m.category_uuid is None,
            ),
    {
        let ghost pred = |m: ModuleView| m.category_uuid is None;
        let mut out: Vec<Module> = Vec::new();
        let mut i: usize = 0;
        proof {
            assert(db@.modules.subrange(0, 0).filter(pred) =~= Seq::<ModuleView>::empty());
            assert(out@.map_values(|m: Module| m@) =~= Seq::<ModuleView>::empty());
        }
        while i < db.modules.len()
            invariant
                0 <= i <= db.modules.len(),
                out@.map_values(|m: Module| m@) == db@.modules.subrange(0, i as int).filter(pred),
                pred == |m: ModuleView| m.category_uuid is None,
            decreases db.modules.len() - i,
        {
            let m = &db.modules[i];
            let keep = match &m.category_uuid {
                Some(_) => false,
                None => true,
            };
            if keep {
                let ghost before = out@.map_values(|q: Module| q@);
                out.push(m.clone());
                proof {
                    assert(out@.map_values(|q: Module| q@) =~= before.push(db@.modules[i as int]));
                }
            }
            proof {
                let prefix = db@.modules.subrange(0, i as int);
                assert(db@.modules.subrange(0, i + 1) =~= prefix.push(db@.modules[i as int]));
                lemma_filter_push(prefix, db@.modules[i as int], pred);
                assert(out@.map_values(|q: Module| q@) =~= db@.modules.subrange(0, i + 1).filter(
                    pred,
                ));
            }
            i += 1;
        }
        proof {
            assert(db@.modules.subrange(0, db@.modules.len() as int) =~= db@.modules);
        }
        Ok(out)
    }

    /// Updates the module with the given primary key from the payload; the
    /// identifier is immutable. Returns how many rows matched (zero when the
    /// module does not exist, which is not an error).
    #[verifier::loop_isolation(false)]
    pub fn update(mod_id: String, new_module: &MutModule, db: &mut Store) -> (r: Result<
        usize,
        CustomHttpError,
    >)
        requires
            old(db)@.wf(),
        ensures
            final(db)@.wf(),
            final(db)@.pages == old(db)@.pages,
            final(db)@.categories == old(db)@.categories,
            final(db)@.users == old(db)@.users,
            r is Ok,
            r->Ok_0 == (if has_module_uuid(old(db)@.modules, mod_id@) {
                1int
            } else {
                0int
            }),
            final(db)@.modules.len() == old(db)@.modules.len(),
            forall|j: int|
                0 <= j < old(db)@.modules.len() ==> final(db)@.modules[j] == (
                if old(db)@.modules[j].uuid == mod_id@ {
                    spec_module_update(#[trigger] old(db)@.modules[j], new_module@)
                } else {
                    old(db)@.modules[j]
                }),
    {
        let ghost db0 = db@;
        let ghost pre = db0.modules;
        let mut count: usize = 0;
        let mut k: usize = 0;
        while k < db.modules.len()
            invariant
                0 <= k <= db.modules.len(),
                db@.pages == db0.pages,
                db@.categories == db0.categories,
                db@.users == db0.users,
                db@.modules.len() == pre.len(),
                forall|j: int|
                    k <= j < pre.len() ==> #[trigger] db@.modules[j] == pre[j],
                forall|j: int|
                    0 <= j < k ==> #[trigger] db@.modules[j] == (if pre[j].uuid == mod_id@ {
                        spec_module_update(pre[j], new_module@)
                    } else {
                        pre[j]
                    }),
                count == (if exists|j: int| 0 <= j < k && (#[trigger] pre[j]).uuid == mod_id@ {
                    1int
                } else {
                    0int
                }),
            decreases db.modules.len() - k,
        {
            let ghost cur = db@.modules;
            let matches = db.modules[k].uuid == mod_id;
            proof {
                assert(db@.modules[k as int] == pre[k as int]);
                assert(matches == (pre[k as int].uuid == mod_id@));
            }
            if matches {
                let updated = Module {
                    uuid: db.modules[k].uuid.clone(),
                    page_uuid: new_module.page_uuid.clone(),
                    category_uuid: match &new_module.category_uuid {
                        Some(c) => Some(c.clone()),
                        None => match &db.modules[k].category_uuid {
                            Some(c) => Some(c.clone()),
                            None => None,
                        },
                    },
                    title: new_module.title.clone(),
                    content: new_module.content.clone(),
                };
                proof {
                    assert(count == 0) by {
                        if exists|j: int| 0 <= j < k && (#[trigger] pre[j]).uuid == mod_id@ {
                            let j = choose|j: int|
                                0 <= j < k && (#[trigger] pre[j]).uuid == mod_id@;
                            assert(pre[j].uuid == pre[k as int].uuid);
                            assert(modules_uuid_unique(pre));
                        }
                    }
                    assert(updated@ =~= spec_module_update(pre[k as int], new_module@));
                }
                let ghost uv = updated@;
                db.modules[k] = updated;
                proof {
                    assert(db@.modules =~= cur.update(k as int, uv));
                }
                count += 1;
            }
            proof {
                if pre[k as int].uuid == mod_id@ {
                    assert(exists|j: int| 0 <= j < k + 1 && (#[trigger] pre[j]).uuid == mod_id@);
                } else {
                    assert((exists|j: int|
                        0 <= j < k + 1 && (#[trigger] pre[j]).uuid == mod_id@) == (exists|j: int|
                        0 <= j < k && (#[trigger] pre[j]).uuid == mod_id@));
                }
            }
            k += 1;
        }
        proof {
            assert(count == (if has_module_uuid(pre, mod_id@) {
                1int
            } else {
                0int
            }));
            assert(modules_uuid_unique(db@.modules)) by {
                assert(forall|j: int|
                    0 <= j < pre.len() ==> (#[trigger] db@.modules[j]).uuid == pre[j].uuid);
            }
        }
        Ok(count)
    }

    /// Deletes the module with the given primary key. Returns how many rows
    /// were removed; deleting an id that is not present returns zero, not an
    /// error.
    pub fn delete(mod_id: String, db: &mut Store) -> (r: Result<usize, CustomHttpError>)
        requires
            old(db)@.wf(),
        ensures
            final(db)@.wf(),
            final(db)@.pages == old(db)@.pages,
            final(db)@.categories == old(db)@.categories,
            final(db)@.users == old(db)@.users,
            final(db)@.modules == old(db)@.modules.filter(|m: ModuleView| m.uuid != mod_id@),
            r is Ok,
            r->Ok_0 as int == old(db)@.modules.len() - final(db)@.modules.len(),
    {
        let ghost db0 = db@;
        let ghost pred = |m: ModuleView| m.uuid != mod_id@;
        let mut kept: Vec<Module> = Vec::new();
        let mut i: usize = 0;
        proof {
            assert(db0.modules.subrange(0, 0).filter(pred) =~= Seq::<ModuleView>::empty());
            assert(kept@.map_values(|m: Module| m@) =~= Seq::<ModuleView>::empty());
        }
        while i < db.modules.len()
            invariant
                0 <= i <= db.modules.len(),
                db@ == db0,
                kept@.map_values(|m: Module| m@) == db0.modules.subrange(0, i as int).filter(pred),
                pred == |m: ModuleView| m.uuid != mod_id@,
            decreases db.modules.len() - i,
        {
            let m = &db.modules[i];
            if !(m.uuid == mod_id) {
                let ghost before = kept@.map_values(|q: Module| q@);
                kept.push(m.clone());
                proof {
                    assert(kept@.map_values(|q: Module| q@) =~= before.push(db@.modules[i as int]));
                }
            }
            proof {
                let prefix = db0.modules.subrange(0, i as int);
                assert(db0.modules.subrange(0, i + 1) =~= prefix.push(db0.modules[i as int]));
                lemma_filter_push(prefix, db0.modules[i as int], pred);
                assert(kept@.map_values(|q: Module| q@) =~= db0.modules.subrange(0, i + 1).filter(
                    pred,
                ));
            }
            i += 1;
        }
        proof {
            assert(db0.modules.subrange(0, db0.modules.len() as int) =~= db0.modules);
            db0.modules.lemma_filter_len(pred);
        }
        let removed = db.modules.len() - kept.len();
        db.modules = kept;
        proof {
            let fmods = db0.modules.filter(pred);
            assert(modules_uuid_unique(fmods)) by {
                assert forall|a: int, b: int| 0 <= a < b < fmods.len() implies #[trigger] fmods[a].uuid
                    != #[trigger] fmods[b].uuid by {
                    lemma_filter_members(db0.modules, pred, a, b);
                }
            }
        }
        Ok(removed)
    }
}

/// The flat modules of a page: those that reference it and carry no
/// category, in store order.
pub open spec fn spec_flat_modules(s: crate::store::StoreView, p: crate::page_models::PageView) -> Seq<ModuleView> {
    s.modules.filter(|m: ModuleView| m.page_uuid == p.uuid && m.category_uuid is None)
}

/// The members of a category: the modules that reference it, in store order.
pub open spec fn spec_category_members(s: crate::store::StoreView, c: ModuleCategoryView) -> Seq<ModuleView> {
    s.modules.filter(|m: ModuleView| m.category_uuid == Some(c.uuid))
}

/// The categories of a page, in store order.
pub open spec fn spec_page_categories(s: crate::store::StoreView, p: crate::page_models::PageView) -> Seq<ModuleCategoryView> {
    s.categories.filter(|c: ModuleCategoryView| c.page_uuid == p.uuid)
}

/// One category as the join returns it: its row together with its members.
pub open spec fn spec_category_dto(s: crate::store::StoreView, c: ModuleCategoryView) -> CategoryDTOView {
    CategoryDTOView { uuid: c.uuid, title: c.title, modules: spec_category_members(s, c) }
}

/// A page's modules as the join queries return them: the flat ones, and one
/// group per category of the page, in store order.
pub open spec fn spec_fields_dto(s: crate::store::StoreView, p: crate::page_models::PageView) -> FieldsDTOView {
    FieldsDTOView {
        modules: spec_flat_modules(s, p),
        categories: Some(
            spec_page_categories(s, p).map_values(|c: ModuleCategoryView| spec_category_dto(s, c)),
        ),
    }
}

/// Collects the modules whose category is the given one, in store order.
pub(crate) fn collect_members(db: &Store, cat_uuid: &String) -> (out: Vec<Module>)
    ensures
        out@.map_values(|m: Module| m@) == db@.modules.filter(
            |m: ModuleView| m.category_uuid == Some(cat_uuid@),
        ),
{
    let ghost pred = |m: ModuleView| m.category_uuid == Some(cat_uuid@);
    let mut out: Vec<Module> = Vec::new();
    let mut i: usize = 0;
    proof {
        assert(db@.modules.subrange(0, 0).filter(pred) =~= Seq::<ModuleView>::empty());
        assert(out@.map_values(|m: Module| m@) =~= Seq::<ModuleView>::empty());
    }
    while i < db.modules.len()
        invariant
            0 <= i <= db.modules.len(),
            out@.map_values(|m: Module| m@) == db@.modules.subrange(0, i as int).filter(pred),
            pred == |m: ModuleView| m.category_uuid == Some(cat_uuid@),
        decreases db.modules.len() - i,
    {
        let m = &db.modules[i];
        let keep = match &m.category_uuid {
            Some(cu) => *cu == *cat_uuid,
            None => false,
        };
        if keep {
            let ghost before = out@.map_values(|q: Module| q@);
            out.push(m.clone());
            proof {
                assert(out@.map_values(|q: Module| q@) =~= before.push(db@.modules[i as int]));
            }
        }
        proof {
            let prefix = db@.modules.subrange(0, i as int);
            assert(db@.modules.subrange(0, i + 1) =~= prefix.push(db@.modules[i as int]));
            lemma_filter_push(prefix, db@.modules[i as int], pred);
            assert(out@.map_values(|q: Module| q@) =~= db@.modules.subrange(0, i + 1).filter(
                pred,
            ));
        }
        i += 1;
    }
    proof {
        assert(db@.modules.subrange(0, db@.modules.len() as int) =~= db@.modules);
    }
    out
}

/// Collects the flat modules of a page, in store order.
pub(crate) fn collect_flat_modules(db: &Store, page: &crate::page_models::Page) -> (out: Vec<
    Module,
>)
    ensures
        out@.map_values(|m: Module| m@) == spec_flat_modules(db@, page@),
{
    let ghost pred = |m: ModuleView| m.page_uuid == page@.uuid && m.category_uuid is None;
    let mut out: Vec<Module> = Vec::new();
    let mut i: usize = 0;
    proof {
        assert(db@.modules.subrange(0, 0).filter(pred) =~= Seq::<ModuleView>::empty());
        assert(out@.map_values(|m: Module| m@) =~= Seq::<ModuleView>::empty());
    }
    while i < db.modules.len()
        invariant
            0 <= i <= db.modules.len(),
            out@.map_values(|m: Module| m@) == db@.modules.subrange(0, i as int).filter(pred),
            pred == |m: ModuleView| m.page_uuid == page@.uuid && m.category_uuid is None,
        decreases db.modules.len() - i,
    {
        let m = &db.modules[i];
        let keep = m.page_uuid == page.uuid && match &m.category_uuid {
            Some(_) => false,
            None => true,
        };
        if keep {
            let ghost before = out@.map_values(|q: Module| q@);
            out.push(m.clone());
            proof {
                assert(out@.map_values(|q: Module| q@) =~= before.push(db@.modules[i as int]));
            }
        }
        proof {
            let prefix = db@.modules.subrange(0, i as int);
            assert(db@.modules.subrange(0, i + 1) =~= prefix.push(db@.modules[i as int]));
            lemma_filter_push(prefix, db@.modules[i as int], pred);
            assert(out@.map_values(|q: Module| q@) =~= db@.modules.subrange(0, i + 1).filter(
                pred,
            ));
        }
        i += 1;
    }
    proof {
        assert(db@.modules.subrange(0, db@.modules.len() as int) =~= db@.modules);
    }
    out
}

/// Collects a page's modules as the join queries return them: the flat
/// modules, and every category of the page with its members.
pub(crate) fn collect_fields(db: &Store, page: &crate::page_models::Page) -> (out: FieldsDTO)
    ensures
        out@ == spec_fields_dto(db@, page@),
{
    let flat = collect_flat_modules(db, page);
    let ghost cpred = |c: ModuleCategoryView| c.page_uuid == page@.uuid;
    let ghost cmap = |c: ModuleCategoryView| spec_category_dto(db@, c);
    let mut cats: Vec<CategoryDTO> = Vec::new();
    let mut i: usize = 0;
    proof {
        assert(db@.categories.subrange(0, 0).filter(cpred) =~= Seq::<ModuleCategoryView>::empty());
        assert(cats@.map_values(|c: CategoryDTO| c@) =~= Seq::<ModuleCategoryView>::empty()
            .map_values(cmap));
    }
    while i < db.categories.len()
        invariant
            0 <= i <= db.categories.len(),
            cats@.map_values(|c: CategoryDTO| c@) == db@.categories.subrange(0, i as int).filter(
                cpred,
            ).map_values(cmap),
            cpred == |c: ModuleCategoryView| c.page_uuid == page@.uuid,
            cmap == |c: ModuleCategoryView| spec_category_dto(db@, c),
        decreases db.categories.len() - i,
    {
        let c = &db.categories[i];
        if c.page_uuid == page.uuid {
            let members = collect_members(db, &c.uuid);
            let dto = CategoryDTO { uuid: c.uuid.clone(), title: c.title.clone(), modules: members };
            let ghost before = cats@.map_values(|q: CategoryDTO| q@);
            proof {
                assert(dto@ =~= spec_category_dto(db@, db@.categories[i as int]));
            }
            cats.push(dto);
            proof {
                assert(cats@.map_values(|q: CategoryDTO| q@) =~= before.push(
                    cmap(db@.categories[i as int]),
                ));
            }
        }
        proof {
            let prefix = db@.categories.subrange(0, i as int);
            assert(db@.categories.subrange(0, i + 1) =~= prefix.push(db@.categories[i as int]));
            lemma_filter_push(prefix, db@.categories[i as int], cpred);
            if cpred(db@.categories[i as int]) {
                assert(prefix.filter(cpred).push(db@.categories[i as int]) =~= prefix.filter(cpred)
                    + seq![db@.categories[i as int]]);
            }
            assert(cats@.map_values(|q: CategoryDTO| q@) =~= db@.categories.subrange(
                0,
                i + 1,
            ).filter(cpred).map_values(cmap));
        }
        i += 1;
    }
    proof {
        assert(db@.categories.subrange(0, db@.categories.len() as int) =~= db@.categories);
    }
    let out = FieldsDTO { modules: flat, categories: Some(cats) };
    proof {
        assert(out@ =~= spec_fields_dto(db@, page@));
    }
    out
}

/// The row that inserting a category create payload produces.
pub open spec fn spec_new_category(m: MutCategoryView) -> ModuleCategoryView
    recommends
        m.uuid is Some,
{
    ModuleCategoryView { uuid: m.uuid.unwrap(), page_uuid: m.page_uuid, title: m.title }
}

/// The row that applying a category update payload produces: the identifier
/// is immutable, the rest is replaced.
pub open spec fn spec_category_update(p: ModuleCategoryView, m: MutCategoryView) -> ModuleCategoryView {
    ModuleCategoryView { uuid: p.uuid, page_uuid: m.page_uuid, title: m.title }
}

impl ModuleCategory {
    /// The modules that belong to the category with the given primary key,
    /// in store order; `NotFound` when no such category exists.
    pub fn join(_id: String, db: &Store) -> (r: Result<Vec<Module>, CustomHttpError>)
        requires
            db@.wf(),
        ensures
            match r {
                Ok(v) => has_category_uuid(db@.categories, _id@) && v@.map_values(|m: Module| m@)
                    == db@.modules.filter(|m: ModuleView| m.category_uuid == Some(_id@)),
                Err(e) => e == CustomHttpError::NotFound && !has_category_uuid(
                    db@.categories,
                    _id@,
                ),
            },
    {
        let mut found = false;
        let mut c: usize = 0;
        while c < db.categories.len()
            invariant
                0 <= c <= db.categories.len(),
                found == exists|j: int|
                    0 <= j < c && (#[trigger] db@.categories[j]).uuid == _id@,
            decreases db.categories.len() - c,
        {
            if db.categories[c].uuid == _id {
                proof {
                    assert(db@.categories[c as int].uuid == _id@);
                }
                found = true;
            }
            c += 1;
        }
        if !found {
            return Err(CustomHttpError::NotFound);
        }
        Ok(collect_members(db, &_id))
    }

    /// Inserts a category row, or does nothing when its primary key is
    /// already taken (insert-or-ignore). Returns how many rows were inserted.
    pub fn create(new: &MutCategory, db: &mut Store) -> (r: Result<usize, CustomHttpError>)
        requires
            old(db)@.wf(),
            new@.uuid is Some,
        ensures
            r is Ok,
            final(db)@.wf(),
            final(db)@.pages == old(db)@.pages,
            final(db)@.modules == old(db)@.modules,
            final(db)@.users == old(db)@.users,
            has_category_uuid(old(db)@.categories, new@.uuid.unwrap()) ==> (final(db)@.categories
                == old(db)@.categories && r == Ok::<usize, CustomHttpError>(0)),
            !has_category_uuid(old(db)@.categories, new@.uuid.unwrap()) ==> (final(db)@.categories
                == old(db)@.categories.push(spec_new_category(new@)) && r == Ok::<
                usize,
                CustomHttpError,
            >(1)),
    {
        let ghost db0 = db@;
        let uuid_ref: &String = match &new.uuid {
            Some(u) => u,
            None => unreached(),
        };
        let mut conflict = false;
        let mut i: usize = 0;
        while i < db.categories.len()
            invariant
                0 <= i <= db.categories.len(),
                conflict == exists|j: int|
                    0 <= j < i && (#[trigger] db0.categories[j]).uuid == uuid_ref@,
                db@ == db0,
                new@.uuid == Some(uuid_ref@),
            decreases db.categories.len() - i,
        {
            let cat = &db.categories[i];
            if cat.uuid == *uuid_ref {
                proof {
                    assert(db0.categories[i as int].uuid == uuid_ref@);
                }
                conflict = true;
            }
            i += 1;
        }
        if conflict {
            proof {
                assert(has_category_uuid(db0.categories, uuid_ref@));
            }
            Ok(0)
        } else {
            let category = ModuleCategory {
                uuid: uuid_ref.clone(),
                page_uuid: new.page_uuid.clone(),
                title: new.title.clone(),
            };
            db.categories.push(category);
            proof {
                assert(db@.categories =~= db0.categories.push(spec_new_category(new@)));
                assert(db@.pages =~= db0.pages);
                assert(db@.modules =~= db0.modules);
                assert(db@.users =~= db0.users);
                let n = db0.categories.len() as int;
                assert forall|a: int, b: int| 0 <= a < b < db@.categories.len() implies #[trigger] db@
                    .categories[a].uuid != #[trigger] db@.categories[b].uuid by {
                    if b == n {
                        assert(db0.categories[a].uuid != uuid_ref@);
                    }
                }
                if has_category_uuid(db0.categories, uuid_ref@) {
                    let j = choose|j: int|
                        0 <= j < db0.categories.len() && #[trigger] db0.categories[j].uuid
                            == uuid_ref@;
                    assert(false);
                }
            }
            Ok(1)
        }
    }

    /// Reads the category with the given primary key, or reports that no
    /// such row exists.
    pub fn read_one(_id: String, db: &Store) -> (r: Result<ModuleCategory, CustomHttpError>)
        requires
            db@.wf(),
        ensures
            match r {
                Ok(c) => has_category_uuid(db@.categories, _id@) && c@ == category_by_uuid(
                    db@.categories,
                    _id@,
                ),
                Err(e) => e == CustomHttpError::NotFound && !has_category_uuid(
                    db@.categories,
                    _id@,
                ),
            },
    {
        let mut i: usize = 0;
        while i < db.categories.len()
            invariant
                0 <= i <= db.categories.len(),
                db@.wf(),
                forall|j: int| 0 <= j < i ==> (#[trigger] db@.categories[j]).uuid != _id@,
            decreases db.categories.len() - i,
        {
            let c = &db.categories[i];
            if c.uuid == _id {
                proof {
                    lemma_category_by_uuid_is(db@.categories, _id@, i as int);
                }
                return Ok(c.clone());
            }
            i += 1;
        }
        Err(CustomHttpError::NotFound)
    }

    /// Updates the category with the given primary key from the payload; the
    /// identifier is immutable. Returns how many rows matched (zero when the
    /// category does not exist, which is not an error).
    #[verifier::loop_isolation(false)]
    pub fn update(_id: String, new: &MutCategory, db: &mut Store) -> (r: Result<
        usize,
        CustomHttpError,
    >)
        requires
            old(db)@.wf(),
        ensures
            final(db)@.wf(),
            final(db)@.pages == old(db)@.pages,
            final(db)@.modules == old(db)@.modules,
            final(db)@.users == old(db)@.users,
            r is Ok,
            r->Ok_0 == (if has_category_uuid(old(db)@.categories, _id@) {
                1int
            } else {
                0int
            }),
            final(db)@.categories.len() == old(db)@.categories.len(),
            forall|j: int|
                0 <= j < old(db)@.categories.len() ==> final(db)@.categories[j] == (
                if old(db)@.categories[j].uuid == _id@ {
                    spec_category_update(#[trigger] old(db)@.categories[j], new@)
                } else {
                    old(db)@.categories[j]
                }),
    {
        let ghost db0 = db@;
        let ghost pre = db0.categories;
        let mut count: usize = 0;
        let mut k: usize = 0;
        while k < db.categories.len()
            invariant
                0 <= k <= db.categories.len(),
                db@.pages == db0.pages,
                db@.modules == db0.modules,
                db@.users == db0.users,
                db@.categories.len() == pre.len(),
                forall|j: int|
                    k <= j < pre.len() ==> #[trigger] db@.categories[j] == pre[j],
                forall|j: int|
                    0 <= j < k ==> #[trigger] db@.categories[j] == (if pre[j].uuid == _id@ {
                        spec_category_update(pre[j], new@)
                    } else {
                        pre[j]
                    }),
                count == (if exists|j: int| 0 <= j < k && (#[trigger] pre[j]).uuid == _id@ {
                    1int
                } else {
                    0int
                }),
            decreases db.categories.len() - k,
        {
            let ghost cur = db@.categories;
            let matches = db.categories[k].uuid == _id;
            proof {
                assert(db@.categories[k as int] == pre[k as int]);
                assert(matches == (pre[k as int].uuid == _id@));
            }
            if matches {
                let updated = ModuleCategory {
                    uuid: db.categories[k].uuid.clone(),
                    page_uuid: new.page_uuid.clone(),
                    title: new.title.clone(),
                };
                proof {
                    assert(count == 0) by {
                        if exists|j: int| 0 <= j < k && (#[trigger] pre[j]).uuid == _id@ {
                            let j = choose|j: int| 0 <= j < k && (#[trigger] pre[j]).uuid == _id@;
                            assert(pre[j].uuid == pre[k as int].uuid);
                            assert(categories_uuid_unique(pre));
                        }
                    }
                    assert(updated@ =~= spec_category_update(pre[k as int], new@));
                }
                let ghost uv = updated@;
                db.categories[k] = updated;
                proof {
                    assert(db@.categories =~= cur.update(k as int, uv));
                }
                count += 1;
            }
            proof {
                if pre[k as int].uuid == _id@ {
                    assert(exists|j: int| 0 <= j < k + 1 && (#[trigger] pre[j]).uuid == _id@);
                } else {
                    assert((exists|j: int|
                        0 <= j < k + 1 && (#[trigger] pre[j]).uuid == _id@) == (exists|j: int|
                        0 <= j < k && (#[trigger] pre[j]).uuid == _id@));
                }
            }
            k += 1;
        }
        proof {
            assert(count == (if has_category_uuid(pre, _id@) {
                1int
            } else {
                0int
            }));
            assert(categories_uuid_unique(db@.categories)) by {
                assert(forall|j: int|
                    0 <= j < pre.len() ==> (#[trigger] db@.categories[j]).uuid == pre[j].uuid);
            }
        }
        Ok(count)
    }

    /// Deletes the category with the given primary key. Returns how many
    /// rows were removed; deleting an id that is not present returns zero,
    /// not an error.
    pub fn delete(_id: String, db: &mut Store) -> (r: Result<usize, CustomHttpError>)
        requires
            old(db)@.wf(),
        ensures
            final(db)@.wf(),
            final(db)@.pages == old(db)@.pages,
            final(db)@.modules == old(db)@.modules,
            final(db)@.users == old(db)@.users,
            final(db)@.categories == old(db)@.categories.filter(
                |c: ModuleCategoryView| c.uuid != _id@,
            ),
            r is Ok,
            r->Ok_0 as int == old(db)@.categories.len() - final(db)@.categories.len(),
    {
        let ghost db0 = db@;
        let ghost pred = |c: ModuleCategoryView| c.uuid != _id@;
        let mut kept: Vec<ModuleCategory> = Vec::new();
        let mut i: usize = 0;
        proof {
            assert(db0.categories.subrange(0, 0).filter(pred) =~= Seq::<
                ModuleCategoryView,
            >::empty());
            assert(kept@.map_values(|c: ModuleCategory| c@) =~= Seq::<ModuleCategoryView>::empty());
        }
        while i < db.categories.len()
            invariant
                0 <= i <= db.categories.len(),
                db@ == db0,
                kept@.map_values(|c: ModuleCategory| c@) == db0.categories.subrange(
                    0,
                    i as int,
                ).filter(pred),
                pred == |c: ModuleCategoryView| c.uuid != _id@,
            decreases db.categories.len() - i,
        {
            let c = &db.categories[i];
            if !(c.uuid == _id) {
                let ghost before = kept@.map_values(|q: ModuleCategory| q@);
                kept.push(c.clone());
                proof {
                    assert(kept@.map_values(|q: ModuleCategory| q@) =~= before.push(
                        db@.categories[i as int],
                    ));
                }
            }
            proof {
                let prefix = db0.categories.subrange(0, i as int);
                assert(db0.categories.subrange(0, i + 1) =~= prefix.push(
                    db0.categories[i as int],
                ));
                lemma_filter_push(prefix, db0.categories[i as int], pred);
                assert(kept@.map_values(|q: ModuleCategory| q@) =~= db0.categories.subrange(
                    0,
                    i + 1,
                ).filter(pred));
            }
            i += 1;
        }
        proof {
            assert(db0.categories.subrange(0, db0.categories.len() as int) =~= db0.categories);
            db0.categories.lemma_filter_len(pred);
        }
        let removed = db.categories.len() - kept.len();
        db.categories = kept;
        proof {
            let fcats = db0.categories.filter(pred);
            assert(categories_uuid_unique(fcats)) by {
                assert forall|a: int, b: int| 0 <= a < b < fcats.len() implies #[trigger] fcats[a].uuid
                    != #[trigger] fcats[b].uuid by {
                    lemma_filter_members(db0.categories, pred, a, b);
                }
            }
        }
        Ok(removed)
    }
}

} // verus!
