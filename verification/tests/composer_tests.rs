use rcms::composer::parse_page;
use rcms::helpers::ArrayHelper;
use rcms::helpers::get;
use rcms::module_models::CategoryDTO;
use rcms::module_models::FieldsDTO;
use rcms::module_models::Module;
use rcms::module_models::MutModule;
use rcms::page_models::MutPage;
use rcms::page_models::Page;
use rcms::store::Store;

fn bare_page(name: &str, url: &str) -> Page {
    Page {
        uuid: format!("uuid-of-{}", name),
        page_name: name.to_string(),
        page_url: url.to_string(),
        page_title: name.to_string(),
        time_created: 5,
    }
}

fn flat(title: &str, content: &str) -> Module {
    Module {
        uuid: format!("module-{}-{}", title, content),
        page_uuid: "p1".to_string(),
        category_uuid: None,
        title: title.to_string(),
        content: content.to_string(),
    }
}

#[test]
fn compose_page_without_modules_yields_empty_maps() {
    let page = bare_page("empty", "/empty");
    let fields = FieldsDTO { modules: vec![], categories: Some(vec![]) };
    let dto = parse_page((page, fields)).unwrap();
    assert_eq!(dto.fields.len(), 0);
    assert_eq!(dto.array_fields.len(), 0);
    assert_eq!(dto.page_name, "empty");
}

#[test]
fn compose_duplicate_titles_last_wins() {
    let page = bare_page("dup", "/dup");
    let fields = FieldsDTO {
        modules: vec![flat("headline", "first"), flat("headline", "second")],
        categories: None,
    };
    let dto = parse_page((page, fields)).unwrap();
    assert_eq!(dto.fields.len(), 1);
    assert_eq!(dto.fields[0].content, "second");
}

#[test]
fn compose_splits_flat_and_categorized() {
    let page = bare_page("mixed", "/mixed");
    let gallery = CategoryDTO {
        uuid: "cat-1".to_string(),
        title: "gallery".to_string(),
        modules: vec![
            Module {
                uuid: "m-a".to_string(),
                page_uuid: "p1".to_string(),
                category_uuid: Some("cat-1".to_string()),
                title: "slide".to_string(),
                content: "one".to_string(),
            },
            Module {
                uuid: "m-b".to_string(),
                page_uuid: "p1".to_string(),
                category_uuid: Some("cat-1".to_string()),
                title: "slide".to_string(),
                content: "two".to_string(),
            },
        ],
    };
    let fields = FieldsDTO {
        modules: vec![flat("headline", "hello")],
        categories: Some(vec![gallery]),
    };
    let dto = parse_page((page, fields)).unwrap();

    // the flat module is a scalar field and appears in no array field.
    assert_eq!(dto.fields.len(), 1);
    assert_eq!(dto.fields[0].title, "headline");
    assert_eq!(dto.array_fields.len(), 1);
    assert_eq!(dto.array_fields[0].title, "gallery");

    // the array field holds exactly the category's members, in order.
    let members = ArrayHelper.call_inner(&dto, &"gallery".to_string());
    let contents: Vec<&str> = members.iter().map(|m| m.content.as_str()).collect();
    assert_eq!(contents, vec!["one", "two"]);
}

#[test]
fn display_scenario_resolves_created_content() {
    let mut db = Store::new();
    let page = MutPage {
        uuid: None,
        page_name: "t1".to_string(),
        page_url: "/t1".to_string(),
        page_title: "T1".to_string(),
    }
    .with_new_uuid();
    let page_uuid = page.uuid.clone().unwrap();
    assert_eq!(Page::create(&page, 1, &mut db).unwrap(), 1);
    let module = MutModule {
        uuid: None,
        title: "greeting".to_string(),
        page_uuid: page_uuid.clone(),
        category_uuid: None,
        content: "hi".to_string(),
    }
    .with_new_uuid();
    assert_eq!(rcms::module_models::Module::create(&module, &mut db).unwrap(), 1);

    let joined = Page::read_one_join_on_url("/t1".to_string(), &db).unwrap();
    let dto = parse_page(joined).unwrap();
    assert_eq!(dto.page_title, "T1");
    assert_eq!(get(&dto, &"greeting".to_string()), "hi");
}

#[test]
fn get_on_missing_field_names_it_inline() {
    let page = bare_page("plain", "/plain");
    let fields = FieldsDTO { modules: vec![], categories: None };
    let dto = parse_page((page, fields)).unwrap();
    let rendered = get(&dto, &"missing".to_string());
    assert_eq!(rendered, "Field `missing` does not exist on the page.");
    assert!(rendered.contains("missing"));
}

#[test]
fn get_array_on_missing_field_is_empty() {
    let page = bare_page("plain2", "/plain2");
    let fields = FieldsDTO { modules: vec![], categories: None };
    let dto = parse_page((page, fields)).unwrap();
    let members = ArrayHelper.call_inner(&dto, &"missing".to_string());
    assert_eq!(members.len(), 0);
}

#[test]
fn compose_duplicate_category_titles_last_wins() {
    let page = bare_page("dupcat", "/dupcat");
    let early = CategoryDTO {
        uuid: "cat-early".to_string(),
        title: "list".to_string(),
        modules: vec![flat("a", "early")],
    };
    let late = CategoryDTO {
        uuid: "cat-late".to_string(),
        title: "list".to_string(),
        modules: vec![flat("b", "late")],
    };
    let fields = FieldsDTO { modules: vec![], categories: Some(vec![early, late]) };
    let dto = parse_page((page, fields)).unwrap();
    assert_eq!(dto.array_fields.len(), 1);
    let members = ArrayHelper.call_inner(&dto, &"list".to_string());
    assert_eq!(members.len(), 1);
    assert_eq!(members[0].content, "late");
}
