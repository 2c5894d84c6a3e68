//! The relational store, held in memory: one table per entity, with the
//! uniqueness constraints the schema declares (primary keys, the page's
//! routing URL, the user's name).

use vstd::prelude::*;
use vstd::seq_lib::*;

use crate::module_models::Module;
use crate::module_models::ModuleCategory;
use crate::module_models::ModuleCategoryView;
use crate::module_models::ModuleView;
use crate::page_models::Page;
use crate::page_models::PageView;
use crate::user_models::User;
use crate::user_models::UserView;

verus! {

/// The whole relational state: the four tables, each in insertion order.
pub struct Store {
    pub pages: Vec<Page>,
    pub modules: Vec<Module>,
    pub categories: Vec<ModuleCategory>,
    pub users: Vec<User>,
}

#[verifier::ext_equal]
pub struct StoreView {
    pub pages: Seq<PageView>,
    pub modules: Seq<ModuleView>,
    pub categories: Seq<ModuleCategoryView>,
    pub users: Seq<UserView>,
}

impl View for Store {
    type V = StoreView;

    open spec fn view(&self) -> StoreView {
        StoreView {
            pages: self.pages@.map_values(|p: Page| p@),
            modules: self.modules@.map_values(|m: Module| m@),
            categories: self.categories@.map_values(|c: ModuleCategory| c@),
            users: self.users@.map_values(|u: User| u@),
        }
    }
}

pub open spec fn pages_uuid_unique(pages: Seq<PageView>) -> bool {
    forall|i: int, j: int|
        0 <= i < j < pages.len() ==> #[trigger] pages[i].uuid != #[trigger] pages[j].uuid
}

pub open spec fn pages_url_unique(pages: Seq<PageView>) -> bool {
    forall|i: int, j: int|
        0 <= i < j < pages.len() ==> #[trigger] pages[i].page_url != #[trigger] pages[j].page_url
}

pub open spec fn modules_uuid_unique(modules: Seq<ModuleView>) -> bool {
    forall|i: int, j: int|
        0 <= i < j < modules.len() ==> #[trigger] modules[i].uuid != #[trigger] modules[j].uuid
}

pub open spec fn categories_uuid_unique(categories: Seq<ModuleCategoryView>) -> bool {
    forall|i: int, j: int|
        0 <= i < j < categories.len() ==> #[trigger] categories[i].uuid
            != #[trigger] categories[j].uuid
}

pub open spec fn users_uuid_unique(users: Seq<UserView>) -> bool {
    forall|i: int, j: int|
        0 <= i < j < users.len() ==> #[trigger] users[i].uuid != #[trigger] users[j].uuid
}

pub open spec fn usernames_unique(users: Seq<UserView>) -> bool {
    forall|i: int, j: int|
        0 <= i < j < users.len() ==> #[trigger] users[i].username != #[trigger] users[j].username
}

impl StoreView {
    /// The uniqueness constraints that every store operation preserves:
    /// primary keys are unique per table, a page's routing URL is unique,
    /// and a user's name is unique.
    pub open spec fn wf(self) -> bool {
        &&& pages_uuid_unique(self.pages)
        &&& pages_url_unique(self.pages)
        &&& modules_uuid_unique(self.modules)
        &&& categories_uuid_unique(self.categories)
        &&& users_uuid_unique(self.users)
        &&& usernames_unique(self.users)
    }
}

pub open spec fn has_page_uuid(pages: Seq<PageView>, id: Seq<char>) -> bool {
    exists|i: int| 0 <= i < pages.len() && #[trigger] pages[i].uuid == id
}

pub open spec fn page_by_uuid(pages: Seq<PageView>, id: Seq<char>) -> PageView {
    pages[choose|i: int| 0 <= i < pages.len() && #[trigger] pages[i].uuid == id]
}

pub open spec fn has_page_url(pages: Seq<PageView>, url: Seq<char>) -> bool {
    exists|i: int| 0 <= i < pages.len() && #[trigger] pages[i].page_url == url
}

pub open spec fn page_by_url(pages: Seq<PageView>, url: Seq<char>) -> PageView {
    pages[choose|i: int| 0 <= i < pages.len() && #[trigger] pages[i].page_url == url]
}

pub open spec fn has_module_uuid(modules: Seq<ModuleView>, id: Seq<char>) -> bool {
    exists|i: int| 0 <= i < modules.len() && #[trigger] modules[i].uuid == id
}

pub open spec fn module_by_uuid(modules: Seq<ModuleView>, id: Seq<char>) -> ModuleView {
    modules[choose|i: int| 0 <= i < modules.len() && #[trigger] modules[i].uuid == id]
}

pub open spec fn has_category_uuid(categories: Seq<ModuleCategoryView>, id: Seq<char>) -> bool {
    exists|i: int| 0 <= i < categories.len() && #[trigger] categories[i].uuid == id
}

pub open spec fn category_by_uuid(
    categories: Seq<ModuleCategoryView>,
    id: Seq<char>,
) -> ModuleCategoryView {
    categories[choose|i: int| 0 <= i < categories.len() && #[trigger] categories[i].uuid == id]
}

pub open spec fn has_username(users: Seq<UserView>, name: Seq<char>) -> bool {
    exists|i: int| 0 <= i < users.len() && #[trigger] users[i].username == name
}

pub open spec fn user_by_username(users: Seq<UserView>, name: Seq<char>) -> UserView {
    users[choose|i: int| 0 <= i < users.len() && #[trigger] users[i].username == name]
}

/// When page uuids are unique, a row whose uuid matches is the row that the
/// uuid lookup denotes.
pub proof fn lemma_page_by_uuid_is(pages: Seq<PageView>, id: Seq<char>, i: int)
    requires
        pages_uuid_unique(pages),
        0 <= i < pages.len(),
        pages[i].uuid == id,
    ensures
        has_page_uuid(pages, id),
        page_by_uuid(pages, id) == pages[i],
{
    assert(has_page_uuid(pages, id));
    let k = choose|k: int| 0 <= k < pages.len() && #[trigger] pages[k].uuid == id;
    if k < i {
        assert(pages[k].uuid != pages[i].uuid);
    } else if i < k {
        assert(pages[i].uuid != pages[k].uuid);
    }
}

/// When page URLs are unique, a row whose URL matches is the row that the
/// URL lookup denotes.
pub proof fn lemma_page_by_url_is(pages: Seq<PageView>, url: Seq<char>, i: int)
    requires
        pages_url_unique(pages),
        0 <= i < pages.len(),
        pages[i].page_url == url,
    ensures
        has_page_url(pages, url),
        page_by_url(pages, url) == pages[i],
{
    assert(has_page_url(pages, url));
    let k = choose|k: int| 0 <= k < pages.len() && #[trigger] pages[k].page_url == url;
    if k < i {
        assert(pages[k].page_url != pages[i].page_url);
    } else if i < k {
        assert(pages[i].page_url != pages[k].page_url);
    }
}

/// When module uuids are unique, a row whose uuid matches is the row that the
/// uuid lookup denotes.
pub proof fn lemma_module_by_uuid_is(modules: Seq<ModuleView>, id: Seq<char>, i: int)
    requires
        modules_uuid_unique(modules),
        0 <= i < modules.len(),
        modules[i].uuid == id,
    ensures
        has_module_uuid(modules, id),
        module_by_uuid(modules, id) == modules[i],
{
    assert(has_module_uuid(modules, id));
    let k = choose|k: int| 0 <= k < modules.len() && #[trigger] modules[k].uuid == id;
    if k < i {
        assert(modules[k].uuid != modules[i].uuid);
    } else if i < k {
        assert(modules[i].uuid != modules[k].uuid);
    }
}

/// When category uuids are unique, a row whose uuid matches is the row that
/// the uuid lookup denotes.
pub proof fn lemma_category_by_uuid_is(categories: Seq<ModuleCategoryView>, id: Seq<char>, i: int)
    requires
        categories_uuid_unique(categories),
        0 <= i < categories.len(),
        categories[i].uuid == id,
    ensures
        has_category_uuid(categories, id),
        category_by_uuid(categories, id) == categories[i],
{
    assert(has_category_uuid(categories, id));
    let k = choose|k: int| 0 <= k < categories.len() && #[trigger] categories[k].uuid == id;
    if k < i {
        assert(categories[k].uuid != categories[i].uuid);
    } else if i < k {
        assert(categories[i].uuid != categories[k].uuid);
    }
}

/// When usernames are unique, a row whose username matches is the row that
/// the username lookup denotes.
pub proof fn lemma_user_by_username_is(users: Seq<UserView>, name: Seq<char>, i: int)
    requires
        usernames_unique(users),
        0 <= i < users.len(),
        users[i].username == name,
    ensures
        has_username(users, name),
        user_by_username(users, name) == users[i],
{
    assert(has_username(users, name));
    let k = choose|k: int| 0 <= k < users.len() && #[trigger] users[k].username == name;
    if k < i {
        assert(users[k].username != users[i].username);
    } else if i < k {
        assert(users[i].username != users[k].username);
    }
}

impl Store {
    /// An empty store: no rows in any table.
    pub fn new() -> (s: Store)
        ensures
            s@.pages == Seq::<PageView>::empty(),
            s@.modules == Seq::<ModuleView>::empty(),
            s@.categories == Seq::<ModuleCategoryView>::empty(),
            s@.users == Seq::<UserView>::empty(),
            s@.wf(),
    {
        let s = Store {
            pages: Vec::new(),
            modules: Vec::new(),
            categories: Vec::new(),
            users: Vec::new(),
        };
        proof {
            assert(s@.pages =~= Seq::<PageView>::empty());
            assert(s@.modules =~= Seq::<ModuleView>::empty());
            assert(s@.categories =~= Seq::<ModuleCategoryView>::empty());
            assert(s@.users =~= Seq::<UserView>::empty());
        }
        s
    }
}

/// What filtering does to a one-element sequence.
pub proof fn lemma_filter_one<A>(x: A, pred: spec_fn(A) -> bool)
    ensures
        seq![x].filter(pred) == (if pred(x) {
            seq![x]
        } else {
            Seq::<A>::empty()
        }),
{
    reveal(Seq::filter);
    assert(seq![x].drop_last() =~= Seq::<A>::empty());
    assert(Seq::<A>::empty().filter(pred) =~= Seq::<A>::empty());
    if pred(x) {
        assert(seq![x].filter(pred) =~= seq![x]);
    } else {
        assert(seq![x].filter(pred) =~= Seq::<A>::empty());
    }
}

/// Filtering a sequence extended by one element keeps the filtered prefix and
/// appends the element exactly when it satisfies the predicate.
pub proof fn lemma_filter_push<A>(s: Seq<A>, x: A, pred: spec_fn(A) -> bool)
    ensures
        s.push(x).filter(pred) == s.filter(pred) + (if pred(x) {
            seq![x]
        } else {
            Seq::<A>::empty()
        }),
{
    assert(s.push(x) =~= s + seq![x]);
    Seq::<A>::filter_distributes_over_add(s, seq![x], pred);
    lemma_filter_one(x, pred);
}

/// Every element of a filtered sequence occurs in the original.
pub proof fn lemma_filter_witness<A>(s: Seq<A>, pred: spec_fn(A) -> bool, a: int)
    requires
        0 <= a < s.filter(pred).len(),
    ensures
        exists|i: int| 0 <= i < s.len() && s[i] == s.filter(pred)[a],
    decreases s.len(),
{
    reveal(Seq::filter);
    if s.len() > 0 {
        let fd = s.drop_last().filter(pred);
        if pred(s.last()) && a == s.filter(pred).len() - 1 {
            assert(s[s.len() - 1] == s.filter(pred)[a]);
        } else {
            lemma_filter_witness(s.drop_last(), pred, a);
            let i = choose|i: int| 0 <= i < s.drop_last().len() && s.drop_last()[i] == fd[a];
            assert(s[i] == s.filter(pred)[a]);
        }
    }
}

/// Two positions of a filtered sequence come, in order, from two positions
/// of the original: filtering keeps relative order and invents nothing.
pub proof fn lemma_filter_members<A>(s: Seq<A>, pred: spec_fn(A) -> bool, a: int, b: int)
    requires
        0 <= a < b < s.filter(pred).len(),
    ensures
        exists|i: int, j: int|
            0 <= i < j < s.len() && s[i] == s.filter(pred)[a] && s[j] == s.filter(pred)[b],
    decreases s.len(),
{
    reveal(Seq::filter);
    if s.len() > 0 {
        let f = s.filter(pred);
        let fd = s.drop_last().filter(pred);
        if pred(s.last()) && b == f.len() - 1 {
            lemma_filter_witness(s.drop_last(), pred, a);
            let i = choose|i: int| 0 <= i < s.drop_last().len() && s.drop_last()[i] == fd[a];
            assert(s[i] == f[a] && s[s.len() - 1] == f[b]);
            assert(0 <= i < s.len() - 1 < s.len());
        } else {
            lemma_filter_members(s.drop_last(), pred, a, b);
            let (i, j) = choose|i: int, j: int|
                0 <= i < j < s.drop_last().len() && s.drop_last()[i] == fd[a] && s.drop_last()[j]
                    == fd[b];
            assert(s[i] == f[a] && s[j] == f[b]);
        }
    }
}

/// A filter whose predicate holds of every element changes nothing.
pub proof fn lemma_filter_all<A>(s: Seq<A>, pred: spec_fn(A) -> bool)
    requires
        forall|i: int| 0 <= i < s.len() ==> pred(#[trigger] s[i]),
    ensures
        s.filter(pred) == s,
    decreases s.len(),
{
    reveal(Seq::filter);
    if s.len() == 0 {
        assert(s.filter(pred) =~= s);
    } else {
        lemma_filter_all(s.drop_last(), pred);
        assert(pred(s.last()));
        assert(s.filter(pred) =~= s.drop_last().push(s.last()));
        assert(s.drop_last().push(s.last()) =~= s);
    }
}

} // verus!
