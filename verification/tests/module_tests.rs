use rcms::module_models::Module;
use rcms::module_models::ModuleCategory;
use rcms::module_models::MutCategory;
use rcms::module_models::MutModule;
use rcms::page_models::MutPage;
use rcms::page_models::Page;
use rcms::store::Store;

fn seeded_page(db: &mut Store) -> String {
    let page = MutPage {
        uuid: None,
        page_name: "Hello world!".to_string(),
        page_url: "/".to_string(),
        page_title: "Hello world!".to_string(),
    }
    .with_new_uuid();
    let uuid = page.uuid.clone().unwrap();
    assert_eq!(Page::create(&page, 1, db).unwrap(), 1);
    uuid
}

fn flat_module(page_uuid: &str, title: &str, content: &str) -> MutModule {
    MutModule {
        uuid: None,
        title: title.to_string(),
        page_uuid: page_uuid.to_string(),
        category_uuid: None,
        content: content.to_string(),
    }
    .with_new_uuid()
}

#[test]
fn create_modules() {
    let mut db = Store::new();
    let page_uuid = seeded_page(&mut db);
    let new_module = flat_module(&page_uuid, "title", "Hello world!");
    let inserted = Module::create(&new_module, &mut db).unwrap();
    assert_eq!(inserted, 1);
    let resp = rcms::response::HttpResponseBuilder::new(201, &"\"ok\"".to_string());
    assert_eq!(resp.code, 201);
}

#[test]
fn read_all_modules() {
    let mut db = Store::new();
    let page_uuid = seeded_page(&mut db);
    let m = flat_module(&page_uuid, "test", "Hello world!");
    assert_eq!(Module::create(&m, &mut db).unwrap(), 1);
    let all = Module::read_all(&db).unwrap();
    assert_eq!(all.len(), 1);
    assert_eq!(all[0].title, "test");
}

#[test]
fn read_one_module() {
    let mut db = Store::new();
    let page_uuid = seeded_page(&mut db);
    let m = flat_module(&page_uuid, "test", "Hello world!");
    let uuid = m.uuid.clone().unwrap();
    assert_eq!(Module::create(&m, &mut db).unwrap(), 1);
    let read_back = Module::read_one(uuid.clone(), &db).unwrap();
    assert_eq!(read_back.uuid, uuid);
    assert_eq!(read_back.content, "Hello world!");
}

#[test]
fn update_modules() {
    let mut db = Store::new();
    let page_uuid = seeded_page(&mut db);
    let m = flat_module(&page_uuid, "old title", "old content");
    let uuid = m.uuid.clone().unwrap();
    assert_eq!(Module::create(&m, &mut db).unwrap(), 1);
    let changed = MutModule {
        uuid: None,
        title: "title".to_string(),
        page_uuid: page_uuid.clone(),
        category_uuid: None,
        content: "Hello world!".to_string(),
    };
    let n = Module::update(uuid.clone(), &changed, &mut db).unwrap();
    assert_eq!(n, 1);
    let read_back = Module::read_one(uuid, &db).unwrap();
    assert_eq!(read_back.title, "title");
    assert_eq!(read_back.content, "Hello world!");
}

#[test]
fn flat_listing_skips_categorized_modules() {
    let mut db = Store::new();
    let page_uuid = seeded_page(&mut db);
    let category = MutCategory {
        title: "gallery".to_string(),
        page_uuid: page_uuid.clone(),
        uuid: None,
    }
    .with_new_uuid();
    let cat_uuid = category.uuid.clone().unwrap();
    assert_eq!(ModuleCategory::create(&category, &mut db).unwrap(), 1);
    let mut member = flat_module(&page_uuid, "slide", "one");
    member.category_uuid = Some(cat_uuid.clone());
    assert_eq!(Module::create(&member, &mut db).unwrap(), 1);
    let flat = flat_module(&page_uuid, "headline", "hello");
    assert_eq!(Module::create(&flat, &mut db).unwrap(), 1);

    // the flat listing holds only the module without a category...
    let all = Module::read_all(&db).unwrap();
    assert_eq!(all.len(), 1);
    assert_eq!(all[0].title, "headline");

    // ...and the categorized one is reachable through the category join.
    let members = ModuleCategory::join(cat_uuid, &db).unwrap();
    assert_eq!(members.len(), 1);
    assert_eq!(members[0].title, "slide");
}

#[test]
fn category_join_keeps_store_order() {
    let mut db = Store::new();
    let page_uuid = seeded_page(&mut db);
    let category = MutCategory {
        title: "gallery".to_string(),
        page_uuid: page_uuid.clone(),
        uuid: None,
    }
    .with_new_uuid();
    let cat_uuid = category.uuid.clone().unwrap();
    assert_eq!(ModuleCategory::create(&category, &mut db).unwrap(), 1);
    for content in ["first", "second", "third"] {
        let mut member = flat_module(&page_uuid, content, content);
        member.category_uuid = Some(cat_uuid.clone());
        assert_eq!(Module::create(&member, &mut db).unwrap(), 1);
    }
    let members = ModuleCategory::join(cat_uuid, &db).unwrap();
    let contents: Vec<&str> = members.iter().map(|m| m.content.as_str()).collect();
    assert_eq!(contents, vec!["first", "second", "third"]);
}

#[test]
fn category_join_missing_is_not_found() {
    let db = Store::new();
    let r = ModuleCategory::join("nope".to_string(), &db);
    assert!(matches!(r, Err(rcms::errors::CustomHttpError::NotFound)));
}

#[test]
fn category_crud_round_trip() {
    let mut db = Store::new();
    let page_uuid = seeded_page(&mut db);
    let category = MutCategory {
        title: "links".to_string(),
        page_uuid: page_uuid.clone(),
        uuid: None,
    }
    .with_new_uuid();
    let cat_uuid = category.uuid.clone().unwrap();
    assert_eq!(ModuleCategory::create(&category, &mut db).unwrap(), 1);
    // a second insert of the same key silently does nothing.
    assert_eq!(ModuleCategory::create(&category, &mut db).unwrap(), 0);
    let read_back = ModuleCategory::read_one(cat_uuid.clone(), &db).unwrap();
    assert_eq!(read_back.title, "links");
    let renamed = MutCategory {
        title: "footer links".to_string(),
        page_uuid: page_uuid.clone(),
        uuid: None,
    };
    assert_eq!(ModuleCategory::update(cat_uuid.clone(), &renamed, &mut db).unwrap(), 1);
    assert_eq!(
        ModuleCategory::read_one(cat_uuid.clone(), &db).unwrap().title,
        "footer links"
    );
    assert_eq!(ModuleCategory::delete(cat_uuid.clone(), &mut db).unwrap(), 1);
    assert_eq!(ModuleCategory::delete(cat_uuid, &mut db).unwrap(), 0);
}

#[test]
fn module_delete_twice_counts_zero() {
    let mut db = Store::new();
    let page_uuid = seeded_page(&mut db);
    let m = flat_module(&page_uuid, "gone", "soon");
    let uuid = m.uuid.clone().unwrap();
    assert_eq!(Module::create(&m, &mut db).unwrap(), 1);
    assert_eq!(Module::delete(uuid.clone(), &mut db).unwrap(), 1);
    assert_eq!(Module::delete(uuid, &mut db).unwrap(), 0);
}

#[test]
fn module_update_keeps_category_when_payload_has_none() {
    let mut db = Store::new();
    let page_uuid = seeded_page(&mut db);
    let category = MutCategory {
        title: "gallery".to_string(),
        page_uuid: page_uuid.clone(),
        uuid: None,
    }
    .with_new_uuid();
    let cat_uuid = category.uuid.clone().unwrap();
    assert_eq!(ModuleCategory::create(&category, &mut db).unwrap(), 1);
    let mut member = flat_module(&page_uuid, "slide", "one");
    member.category_uuid = Some(cat_uuid.clone());
    let member_uuid = member.uuid.clone().unwrap();
    assert_eq!(Module::create(&member, &mut db).unwrap(), 1);
    let changed = MutModule {
        uuid: None,
        title: "slide".to_string(),
        page_uuid: page_uuid.clone(),
        category_uuid: None,
        content: "two".to_string(),
    };
    assert_eq!(Module::update(member_uuid.clone(), &changed, &mut db).unwrap(), 1);
    let read_back = Module::read_one(member_uuid, &db).unwrap();
    // a payload without a category leaves the stored category untouched.
    assert_eq!(read_back.category_uuid, Some(cat_uuid));
    assert_eq!(read_back.content, "two");
}
