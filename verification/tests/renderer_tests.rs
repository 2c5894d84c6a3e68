use handlebars::Context;
use handlebars::Handlebars;
use handlebars::Helper;
use handlebars::HelperResult;
use handlebars::Output;
use handlebars::RenderContext;
use rcms::composer::parse_page;
use rcms::module_models::FieldsDTO;
use rcms::module_models::Module;
use rcms::page_models::Page;

fn composed_dto(modules: Vec<Module>) -> rcms::composer::PageModuleDisplayDTO {
    let page = Page {
        uuid: "p1".to_string(),
        page_name: "home".to_string(),
        page_url: "/".to_string(),
        page_title: "Home".to_string(),
        time_created: 3,
    };
    let fields = FieldsDTO { modules, categories: None };
    parse_page((page, fields)).unwrap()
}

fn renderer_with_get(dto: rcms::composer::PageModuleDisplayDTO) -> Handlebars<'static> {
    let mut hb = Handlebars::new();
    hb.register_helper(
        "get",
        Box::new(
            move |h: &Helper,
                  _r: &Handlebars,
                  _ctx: &Context,
                  _rc: &mut RenderContext,
                  out: &mut dyn Output|
                  -> HelperResult {
                let title = match h.param(0) {
                    Some(v) => v.value().as_str().unwrap_or("").to_string(),
                    None => String::new(),
                };
                let rendered = rcms::helpers::get(&dto, &title);
                out.write(&rendered)?;
                Ok(())
            },
        ),
    );
    hb
}

#[test]
fn render_with_missing_field_names_it_and_does_not_throw() {
    let dto = composed_dto(vec![]);
    let mut hb = renderer_with_get(dto);
    hb.register_template_string("page", "<p>{{get \"missing\"}}</p>")
        .unwrap();
    let html = hb.render("page", &()).unwrap();
    assert_eq!(html, "<p>Field `missing` does not exist on the page.</p>");
}

#[test]
fn render_with_bound_field_inlines_its_content() {
    let dto = composed_dto(vec![Module {
        uuid: "m1".to_string(),
        page_uuid: "p1".to_string(),
        category_uuid: None,
        title: "greeting".to_string(),
        content: "hi".to_string(),
    }]);
    let mut hb = renderer_with_get(dto);
    hb.register_template_string("page", "<p>{{get \"greeting\"}}</p>")
        .unwrap();
    let html = hb.render("page", &()).unwrap();
    assert_eq!(html, "<p>hi</p>");
}
