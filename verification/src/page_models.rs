//! The page table's row type, its mutation payload, and the DTO shapes that
//! the REST layer sends back.

use vstd::prelude::*;

use crate::errors::CustomHttpError;
use crate::module_models::FieldsDTO;
use crate::module_models::FieldsDTOView;
use crate::store::has_page_uuid;
use crate::store::lemma_filter_members;
use crate::store::lemma_filter_push;
use crate::store::lemma_page_by_uuid_is;
use crate::store::lemma_page_by_url_is;
use crate::store::has_page_url;
use crate::store::page_by_url;
use crate::store::page_by_uuid;
use crate::store::pages_uuid_unique;
use crate::store::pages_url_unique;
use crate::store::Store;

verus! {

broadcast use vstd::seq::Seq::lemma_push_map_commute;

/// A stored page row. `page_url` is the routing key and is unique across the
/// store; `time_created` is set on insert (seconds since the epoch) and never
/// changed afterwards.
pub struct Page {
    pub uuid: String,
    /// This should match the name of the HTML file.
    pub page_name: String,
    /// This should be the path which the program matches on.
    pub page_url: String,
    pub page_title: String,
    pub time_created: u64,
}

#[verifier::ext_equal]
pub struct PageView {
    pub uuid: Seq<char>,
    pub page_name: Seq<char>,
    pub page_url: Seq<char>,
    pub page_title: Seq<char>,
    pub time_created: u64,
}

impl View for Page {
    type V = PageView;

    open spec fn view(&self) -> PageView {
        PageView {
            uuid: self.uuid@,
            page_name: self.page_name@,
            page_url: self.page_url@,
            page_title: self.page_title@,
            time_created: self.time_created,
        }
    }
}

impl Clone for Page {
    fn clone(&self) -> (r: Self)
        ensures
            r@ == self@,
    {
        Page {
            uuid: self.uuid.clone(),
            page_name: self.page_name.clone(),
            page_url: self.page_url.clone(),
            page_title: self.page_title.clone(),
            time_created: self.time_created,
        }
    }
}

/// The mutable columns of the page table: what a create or update request
/// carries. A missing `uuid` is filled in before an insert.
pub struct MutPage {
    pub uuid: Option<String>,
    pub page_name: String,
    pub page_url: String,
    pub page_title: String,
}

#[verifier::ext_equal]
pub struct MutPageView {
    pub uuid: Option<Seq<char>>,
    pub page_name: Seq<char>,
    pub page_url: Seq<char>,
    pub page_title: Seq<char>,
}

impl View for MutPage {
    type V = MutPageView;

    open spec fn view(&self) -> MutPageView {
        MutPageView {
            uuid: match self.uuid {
                Some(u) => Some(u@),
                None => None,
            },
            page_name: self.page_name@,
            page_url: self.page_url@,
            page_title: self.page_title@,
        }
    }
}

impl Clone for MutPage {
    fn clone(&self) -> (r: Self)
        ensures
            r@ == self@,
    {
        MutPage {
            uuid: match &self.uuid {
                Some(u) => Some(u.clone()),
                None => None,
            },
            page_name: self.page_name.clone(),
            page_url: self.page_url.clone(),
            page_title: self.page_title.clone(),
        }
    }
}

impl MutPage {
    /// The same payload with a fresh identifier filled in, as the create
    /// endpoint does before inserting.
    pub fn with_new_uuid(&self) -> (r: MutPage)
        ensures
            r@.uuid is Some,
            r@.uuid.unwrap().len() == 36,
            r@.page_name == self@.page_name,
            r@.page_url == self@.page_url,
            r@.page_title == self@.page_title,
    {
        MutPage {
            uuid: Some(crate::ids::new_uuid()),
            page_name: self.page_name.clone(),
            page_url: self.page_url.clone(),
            page_title: self.page_title.clone(),
        }
    }
}

/// The page row as the JSON API returns it.
pub struct PageDTO {
    pub uuid: String,
    pub page_name: String,
    pub page_url: String,
    pub page_title: String,
    pub time_created: u64,
}

#[verifier::ext_equal]
pub struct PageDTOView {
    pub uuid: Seq<char>,
    pub page_name: Seq<char>,
    pub page_url: Seq<char>,
    pub page_title: Seq<char>,
    pub time_created: u64,
}

impl View for PageDTO {
    type V = PageDTOView;

    open spec fn view(&self) -> PageDTOView {
        PageDTOView {
            uuid: self.uuid@,
            page_name: self.page_name@,
            page_url: self.page_url@,
            page_title: self.page_title@,
            time_created: self.time_created,
        }
    }
}

/// The DTO view that a stored page projects to.
pub open spec fn spec_page_dto(p: PageView) -> PageDTOView {
    PageDTOView {
        uuid: p.uuid,
        page_name: p.page_name,
        page_url: p.page_url,
        page_title: p.page_title,
        time_created: p.time_created,
    }
}

impl From<Page> for PageDTO {
    fn from(origin_page: Page) -> (r: PageDTO) {
        PageDTO {
            uuid: origin_page.uuid,
            page_name: origin_page.page_name,
            page_url: origin_page.page_url,
            page_title: origin_page.page_title,
            time_created: origin_page.time_created,
        }
    }
}

impl vstd::std_specs::convert::FromSpecImpl<Page> for PageDTO {
    open spec fn obeys_from_spec() -> bool {
        true
    }

    open spec fn from_spec(origin_page: Page) -> PageDTO {
        PageDTO {
            uuid: origin_page.uuid,
            page_name: origin_page.page_name,
            page_url: origin_page.page_url,
            page_title: origin_page.page_title,
            time_created: origin_page.time_created,
        }
    }
}

/// The row that inserting a create payload at a given time produces.
pub open spec fn spec_new_page(m: MutPageView, now: u64) -> PageView
    recommends
        m.uuid is Some,
{
    PageView {
        uuid: m.uuid.unwrap(),
        page_name: m.page_name,
        page_url: m.page_url,
        page_title: m.page_title,
        time_created: now,
    }
}

/// The row that applying an update payload to a stored row produces: the
/// identifier and the creation time are immutable, the rest is replaced.
pub open spec fn spec_page_update(p: PageView, m: MutPageView) -> PageView {
    PageView {
        uuid: p.uuid,
        page_name: m.page_name,
        page_url: m.page_url,
        page_title: m.page_title,
        time_created: p.time_created,
    }
}

/// A row that blocks inserting this create payload: same primary key or same
/// routing URL.
pub open spec fn page_create_conflict(p: PageView, m: MutPageView) -> bool {
    p.uuid == m.uuid.unwrap() || p.page_url == m.page_url
}

/// A row, other than the updated one, that already holds the URL an update
/// wants to move its page to.
pub open spec fn page_update_conflict(pages: Seq<PageView>, id: Seq<char>, m: MutPageView) -> bool {
    exists|j: int|
        0 <= j < pages.len() && (#[trigger] pages[j]).uuid != id && pages[j].page_url == m.page_url
}

impl Page {
    /// Inserts a page row, or does nothing when its primary key or routing
    /// URL is already taken (insert-or-ignore). Returns how many rows were
    /// inserted. The creation time of the new row is `now`.
    pub fn create(new_page: &MutPage, now: u64, db: &mut Store) -> (r: Result<
        usize,
        CustomHttpError,
    >)
        requires
            old(db)@.wf(),
            new_page@.uuid is Some,
        ensures
            r is Ok,
            final(db)@.wf(),
            final(db)@.modules == old(db)@.modules,
            final(db)@.categories == old(db)@.categories,
            final(db)@.users == old(db)@.users,
            (exists|j: int|
                0 <= j < old(db)@.pages.len() && page_create_conflict(
                    #[trigger] old(db)@.pages[j],
                    new_page@,
                )) ==> (final(db)@.pages == old(db)@.pages && r == Ok::<usize, CustomHttpError>(
                0,
            )),
            (forall|j: int|
                0 <= j < old(db)@.pages.len() ==> !page_create_conflict(
                    #[trigger] old(db)@.pages[j],
                    new_page@,
                )) ==> (final(db)@.pages == old(db)@.pages.push(spec_new_page(new_page@, now)) && r
                == Ok::<usize, CustomHttpError>(1)),
    {
        let ghost db0 = db@;
        let uuid_ref: &String = match &new_page.uuid {
            Some(u) => u,
            None => unreached(),
        };
        let mut conflict = false;
        let mut i: usize = 0;
        while i < db.pages.len()
            invariant
                0 <= i <= db.pages.len(),
                conflict == exists|j: int|
                    0 <= j < i && page_create_conflict(#[trigger] db0.pages[j], new_page@),
                db@ == db0,
                new_page@.uuid == Some(uuid_ref@),
            decreases db.pages.len() - i,
        {
            let p = &db.pages[i];
            if p.uuid == *uuid_ref || p.page_url == new_page.page_url {
                proof {
                    assert(page_create_conflict(db0.pages[i as int], new_page@));
                }
                conflict = true;
            }
            i += 1;
        }
        if conflict {
            Ok(0)
        } else {
            let page = Page {
                uuid: uuid_ref.clone(),
                page_name: new_page.page_name.clone(),
                page_url: new_page.page_url.clone(),
                page_title: new_page.page_title.clone(),
                time_created: now,
            };
            db.pages.push(page);
            proof {
                assert(db@.pages =~= db0.pages.push(spec_new_page(new_page@, now)));
                assert(db@.modules =~= db0.modules);
                assert(db@.categories =~= db0.categories);
                assert(db@.users =~= db0.users);
                let n = db0.pages.len() as int;
                assert forall|a: int, b: int| 0 <= a < b < db@.pages.len() implies #[trigger] db@
                    .pages[a].uuid != #[trigger] db@.pages[b].uuid by {
                    if b == n {
                        assert(!page_create_conflict(db0.pages[a], new_page@));
                    }
                }
                assert forall|a: int, b: int| 0 <= a < b < db@.pages.len() implies #[trigger] db@
                    .pages[a].page_url != #[trigger] db@.pages[b].page_url by {
                    if b == n {
                        assert(!page_create_conflict(db0.pages[a], new_page@));
                    }
                }
            }
            Ok(1)
        }
    }

    /// Reads the page with the given primary key as a DTO, or reports that no
    /// such row exists.
    pub fn read_one(_id: String, db: &Store) -> (r: Result<PageDTO, CustomHttpError>)
        requires
            db@.wf(),
        ensures
            match r {
                Ok(dto) => has_page_uuid(db@.pages, _id@) && dto@ == spec_page_dto(
                    page_by_uuid(db@.pages, _id@),
                ),
                Err(e) => e == CustomHttpError::NotFound && !has_page_uuid(db@.pages, _id@),
            },
    {
        let mut i: usize = 0;
        while i < db.pages.len()
            invariant
                0 <= i <= db.pages.len(),
                db@.wf(),
                forall|j: int| 0 <= j < i ==> (#[trigger] db@.pages[j]).uuid != _id@,
            decreases db.pages.len() - i,
        {
            let p = &db.pages[i];
            if p.uuid == _id {
                proof {
                    lemma_page_by_uuid_is(db@.pages, _id@, i as int);
                }
                return Ok(PageDTO {
                    uuid: p.uuid.clone(),
                    page_name: p.page_name.clone(),
                    page_url: p.page_url.clone(),
                    page_title: p.page_title.clone(),
                    time_created: p.time_created,
                });
            }
            i += 1;
        }
        Err(CustomHttpError::NotFound)
    }

    /// Reads every page row as a DTO, in store order. Never fails.
    pub fn read_all(db: &Store) -> (r: Result<Vec<PageDTO>, CustomHttpError>)
        ensures
            r is Ok,
            r->Ok_0@.map_values(|d: PageDTO| d@) == db@.pages.map_values(
                |p: PageView| spec_page_dto(p),
            ),
    {
        let mut out: Vec<PageDTO> = Vec::new();
        let mut i: usize = 0;
        while i < db.pages.len()
            invariant
                0 <= i <= db.pages.len(),
                out@.map_values(|d: PageDTO| d@) =~= db@.pages.subrange(0, i as int).map_values(
                    |p: PageView| spec_page_dto(p),
                ),
            decreases db.pages.len() - i,
        {
            let p = &db.pages[i];
            let dto = PageDTO {
                uuid: p.uuid.clone(),
                page_name: p.page_name.clone(),
                page_url: p.page_url.clone(),
                page_title: p.page_title.clone(),
                time_created: p.time_created,
            };
            proof {
                assert(dto@ =~= spec_page_dto(db@.pages[i as int]));
            }
            out.push(dto);
            proof {
                assert(db@.pages.subrange(0, i + 1) =~= db@.pages.subrange(0, i as int).push(
                    db@.pages[i as int],
                ));
                assert(out@.map_values(|d: PageDTO| d@) =~= db@.pages.subrange(0, i + 1).map_values(
                    |p: PageView| spec_page_dto(p),
                ));
            }
            i += 1;
        }
        proof {
            assert(db@.pages.subrange(0, db@.pages.len() as int) =~= db@.pages);
        }
        Ok(out)
    }

    /// Updates the page with the given primary key from the payload; the
    /// identifier and creation time stay. Returns how many rows matched
    /// (zero when the page does not exist, which is not an error), or
    /// `Unknown` when the move would take a routing URL that another page
    /// already holds.
    #[verifier::loop_isolation(false)]
    pub fn update(_id: String, new_page: &MutPage, db: &mut Store) -> (r: Result<
        usize,
        CustomHttpError,
    >)
        requires
            old(db)@.wf(),
        ensures
            final(db)@.wf(),
            final(db)@.modules == old(db)@.modules,
            final(db)@.categories == old(db)@.categories,
            final(db)@.users == old(db)@.users,
            match r {
                Ok(n) => {
                    &&& !page_update_conflict(old(db)@.pages, _id@, new_page@)
                    &&& n == (if has_page_uuid(old(db)@.pages, _id@) {
                        1int
                    } else {
                        0int
                    })
                    &&& final(db)@.pages.len() == old(db)@.pages.len()
                    &&& forall|j: int|
                        0 <= j < old(db)@.pages.len() ==> final(db)@.pages[j] == (
                        if old(db)@.pages[j].uuid == _id@ {
                            spec_page_update(#[trigger] old(db)@.pages[j], new_page@)
                        } else {
                            old(db)@.pages[j]
                        })
                },
                Err(e) => {
                    &&& e == CustomHttpError::Unknown
                    &&& page_update_conflict(old(db)@.pages, _id@, new_page@)
                    &&& final(db)@.pages == old(db)@.pages
                },
            },
    {
        let ghost db0 = db@;
        let mut i: usize = 0;
        while i < db.pages.len()
            invariant
                0 <= i <= db.pages.len(),
                db@ == db0,
                forall|j: int|
                    0 <= j < i ==> !((#[trigger] db0.pages[j]).uuid != _id@ && db0.pages[j].page_url
                        == new_page@.page_url),
            decreases db.pages.len() - i,
        {
            let p = &db.pages[i];
            if !(p.uuid == _id) && p.page_url == new_page.page_url {
                proof {
                    assert(db0.pages[i as int].uuid != _id@ && db0.pages[i as int].page_url
                        == new_page@.page_url);
                    assert(page_update_conflict(db0.pages, _id@, new_page@));
                }
                return Err(CustomHttpError::Unknown);
            }
            i += 1;
        }
        let ghost pre = db0.pages;
        let mut count: usize = 0;
        let mut k: usize = 0;
        while k < db.pages.len()
            invariant
                0 <= k <= db.pages.len(),
                db@.modules == db0.modules,
                db@.categories == db0.categories,
                db@.users == db0.users,
                pre == db0.pages,
                db@.pages.len() == pre.len(),
                db0.wf(),
                forall|j: int|
                    0 <= j < pre.len() ==> !((#[trigger] pre[j]).uuid != _id@ && pre[j].page_url
                        == new_page@.page_url),
                forall|j: int|
                    k <= j < pre.len() ==> #[trigger] db@.pages[j] == pre[j],
                forall|j: int|
                    0 <= j < k ==> #[trigger] db@.pages[j] == (if pre[j].uuid == _id@ {
                        spec_page_update(pre[j], new_page@)
                    } else {
                        pre[j]
                    }),
                count == (if exists|j: int| 0 <= j < k && (#[trigger] pre[j]).uuid == _id@ {
                    1int
                } else {
                    0int
                }),
            decreases db.pages.len() - k,
        {
            let ghost cur = db@.pages;
            let matches = db.pages[k].uuid == _id;
            proof {
                assert(db@.pages[k as int] == pre[k as int]);
                assert(matches == (pre[k as int].uuid == _id@));
            }
            if matches {
                let updated = Page {
                    uuid: db.pages[k].uuid.clone(),
                    page_name: new_page.page_name.clone(),
                    page_url: new_page.page_url.clone(),
                    page_title: new_page.page_title.clone(),
                    time_created: db.pages[k].time_created,
                };
                proof {
                    assert(count == 0) by {
                        if exists|j: int| 0 <= j < k && (#[trigger] pre[j]).uuid == _id@ {
                            let j = choose|j: int|
                                0 <= j < k && (#[trigger] pre[j]).uuid == _id@;
                            assert(pre[j].uuid == pre[k as int].uuid);
                            assert(pages_uuid_unique(pre));
                        }
                    }
                }
                let ghost uv = updated@;
                db.pages[k] = updated;
                proof {
                    assert(db@.pages =~= cur.update(k as int, uv));
                }
                count += 1;
            }
            proof {
                if pre[k as int].uuid == _id@ {
                    assert(exists|j: int| 0 <= j < k + 1 && (#[trigger] pre[j]).uuid == _id@);
                } else {
                    assert((exists|j: int|
                        0 <= j < k + 1 && (#[trigger] pre[j]).uuid == _id@) == (exists|j: int|
                        0 <= j < k && (#[trigger] pre[j]).uuid == _id@));
                }
            }
            k += 1;
        }
        proof {
            assert(count == (if has_page_uuid(pre, _id@) {
                1int
            } else {
                0int
            }));
            assert(pages_uuid_unique(db@.pages)) by {
                assert(forall|j: int|
                    0 <= j < pre.len() ==> (#[trigger] db@.pages[j]).uuid == pre[j].uuid);
            }
            assert(pages_url_unique(db@.pages)) by {
                assert forall|a: int, b: int| 0 <= a < b < db@.pages.len() implies #[trigger] db@
                    .pages[a].page_url != #[trigger] db@.pages[b].page_url by {
                    if db@.pages[a].page_url == db@.pages[b].page_url {
                        if pre[a].uuid == _id@ && pre[b].uuid == _id@ {
                            assert(pre[a].uuid != pre[b].uuid);
                        } else if pre[a].uuid == _id@ {
                            assert(db@.pages[b] == pre[b]);
                            assert(!(pre[b].uuid != _id@ && pre[b].page_url
                                == new_page@.page_url));
                        } else if pre[b].uuid == _id@ {
                            assert(db@.pages[a] == pre[a]);
                            assert(!(pre[a].uuid != _id@ && pre[a].page_url
                                == new_page@.page_url));
                        } else {
                            assert(pre[a].page_url != pre[b].page_url);
                        }
                    }
                }
            }
        }
        Ok(count)
    }

    /// Deletes the page with the given primary key. Returns how many rows
    /// were removed; deleting an id that is not present returns zero, not an
    /// error. The delete does not cascade: the page's modules and
    /// categories stay behind as orphans, as the contract states.
    pub fn delete(_id: String, db: &mut Store) -> (r: Result<usize, CustomHttpError>)
        requires
            old(db)@.wf(),
        ensures
            final(db)@.wf(),
            final(db)@.modules == old(db)@.modules,
            final(db)@.categories == old(db)@.categories,
            final(db)@.users == old(db)@.users,
            final(db)@.pages == old(db)@.pages.filter(|p: PageView| p.uuid != _id@),
            r is Ok,
            r->Ok_0 as int == old(db)@.pages.len() - final(db)@.pages.len(),
    {
        let ghost db0 = db@;
        let ghost pred = |p: PageView| p.uuid != _id@;
        let mut kept: Vec<Page> = Vec::new();
        let mut i: usize = 0;
        proof {
            assert(db0.pages.subrange(0, 0).filter(pred) =~= Seq::<PageView>::empty());
            assert(kept@.map_values(|p: Page| p@) =~= Seq::<PageView>::empty());
        }
        while i < db.pages.len()
            invariant
                0 <= i <= db.pages.len(),
                db@ == db0,
                kept@.map_values(|p: Page| p@) == db0.pages.subrange(0, i as int).filter(
                    pred,
                ),
                pred == |p: PageView| p.uuid != _id@,
            decreases db.pages.len() - i,
        {
            let p = &db.pages[i];
            if !(p.uuid == _id) {
                let ghost before = kept@.map_values(|q: Page| q@);
                kept.push(p.clone());
                proof {
                    assert(kept@.map_values(|q: Page| q@) =~= before.push(db@.pages[i as int]));
                }
            }
            proof {
                let prefix = db0.pages.subrange(0, i as int);
                assert(db0.pages.subrange(0, i + 1) =~= prefix.push(
                    db0.pages[i as int],
                ));
                lemma_filter_push(prefix, db0.pages[i as int], pred);
                assert(kept@.map_values(|q: Page| q@) =~= db0.pages.subrange(0, i + 1).filter(
                    pred,
                ));
            }
            i += 1;
        }
        proof {
            assert(db0.pages.subrange(0, db0.pages.len() as int) =~= db0.pages);
        }
        proof {
            db0.pages.lemma_filter_len(pred);
        }
        let removed = db.pages.len() - kept.len();
        db.pages = kept;
        proof {
            let fpages = db0.pages.filter(pred);
            assert(pages_uuid_unique(fpages)) by {
                assert forall|a: int, b: int| 0 <= a < b < fpages.len() implies #[trigger] fpages[a].uuid
                    != #[trigger] fpages[b].uuid by {
                    lemma_filter_members(db0.pages, pred, a, b);
                }
            }
            assert(pages_url_unique(fpages)) by {
                assert forall|a: int, b: int| 0 <= a < b < fpages.len() implies #[trigger] fpages[a].page_url
                    != #[trigger] fpages[b].page_url by {
                    lemma_filter_members(db0.pages, pred, a, b);
                }
            }
        }
        Ok(removed)
    }
}

/// Law: creating a page whose key and routing URL are free, then resolving
/// that URL, finds exactly the created row, so its metadata round-trips the
/// payload unchanged.
pub proof fn lemma_create_then_resolve(s: crate::store::StoreView, m: MutPageView, now: u64)
    requires
        s.wf(),
        m.uuid is Some,
        forall|j: int| 0 <= j < s.pages.len() ==> !page_create_conflict(#[trigger] s.pages[j], m),
    ensures
        ({
            let pages2 = s.pages.push(spec_new_page(m, now));
            &&& has_page_url(pages2, m.page_url)
            &&& page_by_url(pages2, m.page_url) == spec_new_page(m, now)
            &&& page_by_url(pages2, m.page_url).uuid == m.uuid.unwrap()
            &&& page_by_url(pages2, m.page_url).page_name == m.page_name
            &&& page_by_url(pages2, m.page_url).page_title == m.page_title
            &&& page_by_url(pages2, m.page_url).time_created == now
        }),
{
    let pages2 = s.pages.push(spec_new_page(m, now));
    assert(pages_url_unique(pages2)) by {
        assert forall|a: int, b: int| 0 <= a < b < pages2.len() implies #[trigger] pages2[a].page_url
            != #[trigger] pages2[b].page_url by {
            if b == s.pages.len() {
                assert(!page_create_conflict(s.pages[a], m));
            }
        }
    }
    lemma_page_by_url_is(pages2, m.page_url, s.pages.len() as int);
}

/// Law: deleting a page id that no row holds removes nothing — the count is
/// zero and the table is untouched, not an error.
pub proof fn lemma_delete_missing_is_noop(pages: Seq<PageView>, id: Seq<char>)
    requires
        !has_page_uuid(pages, id),
    ensures
        pages.filter(|p: PageView| p.uuid != id) == pages,
{
    assert forall|i: int| 0 <= i < pages.len() implies ((|p: PageView| p.uuid != id)(
        #[trigger] pages[i],
    )) by {
        if pages[i].uuid == id {
            assert(has_page_uuid(pages, id));
        }
    }
    crate::store::lemma_filter_all(pages, |p: PageView| p.uuid != id);
}

/// Used in the JSON response of pages: the page row together with its flat
/// modules and its categorized module groups.
pub struct PageModuleDTO {
    pub uuid: String,
    pub page_name: String,
    pub page_url: String,
    pub page_title: String,
    pub time_created: u64,
    pub fields: FieldsDTO,
}

#[verifier::ext_equal]
pub struct PageModuleDTOView {
    pub uuid: Seq<char>,
    pub page_name: Seq<char>,
    pub page_url: Seq<char>,
    pub page_title: Seq<char>,
    pub time_created: u64,
    pub fields: FieldsDTOView,
}

impl View for PageModuleDTO {
    type V = PageModuleDTOView;

    open spec fn view(&self) -> PageModuleDTOView {
        PageModuleDTOView {
            uuid: self.uuid@,
            page_name: self.page_name@,
            page_url: self.page_url@,
            page_title: self.page_title@,
            time_created: self.time_created,
            fields: self.fields@,
        }
    }
}

/// The full join result for one page: its row together with its flat modules
/// and its categorized module groups.
pub open spec fn spec_page_module_dto(s: crate::store::StoreView, p: PageView) -> PageModuleDTOView {
    PageModuleDTOView {
        uuid: p.uuid,
        page_name: p.page_name,
        page_url: p.page_url,
        page_title: p.page_title,
        time_created: p.time_created,
        fields: crate::module_models::spec_fields_dto(s, p),
    }
}

impl Page {
    /// Resolves a page by primary key together with its flat modules and its
    /// categorized module groups, for the JSON API.
    pub fn read_one_join_on(_id: String, db: &Store) -> (r: Result<
        PageModuleDTO,
        CustomHttpError,
    >)
        requires
            db@.wf(),
        ensures
            match r {
                Ok(dto) => has_page_uuid(db@.pages, _id@) && dto@ == spec_page_module_dto(
                    db@,
                    page_by_uuid(db@.pages, _id@),
                ),
                Err(e) => e == CustomHttpError::NotFound && !has_page_uuid(db@.pages, _id@),
            },
    {
        let mut i: usize = 0;
        while i < db.pages.len()
            invariant
                0 <= i <= db.pages.len(),
                db@.wf(),
                forall|j: int| 0 <= j < i ==> (#[trigger] db@.pages[j]).uuid != _id@,
            decreases db.pages.len() - i,
        {
            if db.pages[i].uuid == _id {
                proof {
                    lemma_page_by_uuid_is(db@.pages, _id@, i as int);
                }
                let page = db.pages[i].clone();
                let fields = crate::module_models::collect_fields(db, &page);
                let dto = PageModuleDTO {
                    uuid: page.uuid,
                    page_name: page.page_name,
                    page_url: page.page_url,
                    page_title: page.page_title,
                    time_created: page.time_created,
                    fields,
                };
                proof {
                    assert(dto@ =~= spec_page_module_dto(db@, page_by_uuid(db@.pages, _id@)));
                }
                return Ok(dto);
            }
            i += 1;
        }
        Err(CustomHttpError::NotFound)
    }

    /// Resolves a page by its routing URL together with its flat modules and
    /// its categorized module groups. This is the query behind displaying a
    /// page; a miss is what the display route turns into the not-found
    /// template.
    pub fn read_one_join_on_url(id: String, db: &Store) -> (r: Result<
        (Page, FieldsDTO),
        CustomHttpError,
    >)
        requires
            db@.wf(),
        ensures
            match r {
                Ok(pair) => has_page_url(db@.pages, id@) && pair.0@ == page_by_url(db@.pages, id@)
                    && pair.1@ == crate::module_models::spec_fields_dto(
                    db@,
                    page_by_url(db@.pages, id@),
                ),
                Err(e) => e == CustomHttpError::NotFound && !has_page_url(db@.pages, id@),
            },
    {
        let mut i: usize = 0;
        while i < db.pages.len()
            invariant
                0 <= i <= db.pages.len(),
                db@.wf(),
                forall|j: int| 0 <= j < i ==> (#[trigger] db@.pages[j]).page_url != id@,
            decreases db.pages.len() - i,
        {
            if db.pages[i].page_url == id {
                proof {
                    lemma_page_by_url_is(db@.pages, id@, i as int);
                }
                let page = db.pages[i].clone();
                let fields = crate::module_models::collect_fields(db, &page);
                return Ok((page, fields));
            }
            i += 1;
        }
        Err(CustomHttpError::NotFound)
    }
}

} // verus!
