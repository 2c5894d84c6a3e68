use rcms::module_models::MutModule;
use rcms::page_models::MutPage;
use rcms::page_models::Page;
use rcms::response::HttpResponseBuilder;
use rcms::store::Store;

fn test_page(name: &str, url: &str) -> MutPage {
    MutPage {
        uuid: None,
        page_name: name.to_string(),
        page_url: url.to_string(),
        page_title: name.to_string(),
    }
    .with_new_uuid()
}

fn create_test_page(db: &mut Store) -> String {
    let new_page = test_page("Hello world!", "/");
    let uuid = new_page.uuid.clone().unwrap();
    let n = Page::create(&new_page, 7, db).unwrap();
    assert_eq!(n, 1);
    uuid
}

fn create_test_module(db: &mut Store, page_uuid: &str) -> String {
    let new_module = MutModule {
        uuid: None,
        title: "test".to_string(),
        page_uuid: page_uuid.to_string(),
        category_uuid: None,
        content: "Hello world!".to_string(),
    }
    .with_new_uuid();
    let uuid = new_module.uuid.clone().unwrap();
    let n = rcms::module_models::Module::create(&new_module, db).unwrap();
    assert_eq!(n, 1);
    uuid
}

#[test]
fn create_page() {
    let mut db = Store::new();
    let new_page = test_page("create_page_ut", "/create_page_ut");
    let inserted = Page::create(&new_page, 11, &mut db).unwrap();
    assert_eq!(inserted, 1);
    // the create endpoint answers with the created status in the envelope.
    let resp = HttpResponseBuilder::new(201, &"\"ok\"".to_string());
    assert_eq!(resp.code, 201);
}

#[test]
fn read_all_pages() {
    let mut db = Store::new();
    create_test_page(&mut db);
    let pages = Page::read_all(&db).unwrap();
    assert_eq!(pages.len(), 1);
    assert_eq!(pages[0].page_name, "Hello world!");
}

#[test]
fn read_one_page() {
    let mut db = Store::new();
    let uuid = create_test_page(&mut db);
    let page = Page::read_one(uuid.clone(), &db).unwrap();
    assert_eq!(page.uuid, uuid);
    assert_eq!(page.page_url, "/");
}

#[test]
fn read_one_page_join() {
    let mut db = Store::new();
    let page_uuid = create_test_page(&mut db);
    create_test_module(&mut db, &page_uuid);
    let dto = Page::read_one_join_on(page_uuid.clone(), &db).unwrap();
    assert_eq!(dto.uuid, page_uuid);
    assert_eq!(dto.fields.modules.len(), 1);
    assert_eq!(dto.fields.modules[0].title, "test");
    assert_eq!(dto.fields.categories.as_ref().unwrap().len(), 0);
}

#[test]
fn update_page() {
    let mut db = Store::new();
    let uuid = create_test_page(&mut db);
    let changed = MutPage {
        uuid: None,
        page_name: "Hello world!".to_string(),
        page_url: "/".to_string(),
        page_title: "Hello world!".to_string(),
    };
    let n = Page::update(uuid.clone(), &changed, &mut db).unwrap();
    assert_eq!(n, 1);
    let read_back = Page::read_one(uuid, &db).unwrap();
    assert_eq!(read_back.page_title, "Hello world!");
}

#[test]
fn create_page_ignores_taken_url() {
    let mut db = Store::new();
    create_test_page(&mut db);
    let other = test_page("another", "/");
    let inserted = Page::create(&other, 9, &mut db).unwrap();
    assert_eq!(inserted, 0);
    assert_eq!(Page::read_all(&db).unwrap().len(), 1);
}

#[test]
fn update_page_rejects_taken_url() {
    let mut db = Store::new();
    create_test_page(&mut db);
    let second = test_page("second", "/second");
    let second_uuid = second.uuid.clone().unwrap();
    assert_eq!(Page::create(&second, 9, &mut db).unwrap(), 1);
    let steal = MutPage {
        uuid: None,
        page_name: "second".to_string(),
        page_url: "/".to_string(),
        page_title: "second".to_string(),
    };
    assert!(Page::update(second_uuid, &steal, &mut db).is_err());
}

#[test]
fn read_one_page_missing_is_not_found() {
    let db = Store::new();
    let r = Page::read_one("nope".to_string(), &db);
    assert!(matches!(r, Err(rcms::errors::CustomHttpError::NotFound)));
}

#[test]
fn delete_page_twice_counts_zero() {
    let mut db = Store::new();
    let uuid = create_test_page(&mut db);
    assert_eq!(Page::delete(uuid.clone(), &mut db).unwrap(), 1);
    // deleting an id that is already gone is a zero count, not an error.
    assert_eq!(Page::delete(uuid, &mut db).unwrap(), 0);
}

#[test]
fn create_then_resolve_round_trip() {
    let mut db = Store::new();
    let payload = test_page("foo", "/foo");
    assert_eq!(Page::create(&payload, 42, &mut db).unwrap(), 1);
    let (page, _fields) = Page::read_one_join_on_url("/foo".to_string(), &db).unwrap();
    assert_eq!(page.uuid, payload.uuid.clone().unwrap());
    assert_eq!(page.page_name, "foo");
    assert_eq!(page.page_url, "/foo");
    assert_eq!(page.page_title, "foo");
    assert_eq!(page.time_created, 42);
}

#[test]
fn resolve_missing_url_is_not_found() {
    let db = Store::new();
    let r = Page::read_one_join_on_url("/absent".to_string(), &db);
    assert!(matches!(r, Err(rcms::errors::CustomHttpError::NotFound)));
}
