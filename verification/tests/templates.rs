use dirserve::finfo::{FolderInfo, RawEntry};
use dirserve::router::{handle_directory, RenderSettings};
use dirserve::template::{
    build_registry, AssetBundle, Template, TemplateContent, TemplateDef, TemplateError,
};

fn def_with_content(content: &str) -> TemplateDef {
    TemplateDef {
        disabled: None,
        path: None,
        is_embedded: None,
        content: Some(content.to_string()),
        content_type: None,
    }
}

fn empty_bundle() -> AssetBundle {
    AssetBundle { files: vec![] }
}

fn settings() -> RenderSettings {
    RenderSettings {
        default_type: "html".to_string(),
        timezone: "UTC".to_string(),
        time_format: "%Y-%m-%d".to_string(),
    }
}

fn snapshot() -> FolderInfo {
    let entries = vec![
        RawEntry { name: "a.txt".to_string(), path: "./sub/a.txt".to_string(), metadata: None },
        RawEntry { name: "b.txt".to_string(), path: "./sub/b.txt".to_string(), metadata: None },
    ];
    FolderInfo::new("./sub".to_string(), &vec!["sub".to_string()], entries, false)
}

#[test]
fn inline_template_gets_default_content_type() {
    let t = Template::from("html".to_string(), def_with_content("x")).unwrap().unwrap();
    assert_eq!(t.content_type, "text/html; charset=UTF-8");
    assert!(matches!(t.content, TemplateContent::Content(c) if c == "x"));
}

#[test]
fn disabled_template_is_omitted() {
    let mut def = def_with_content("x");
    def.disabled = Some(true);
    assert!(Template::from("html".to_string(), def).unwrap().is_none());
    let mut def = def_with_content("x");
    def.disabled = Some(false);
    assert!(Template::from("html".to_string(), def).unwrap().is_some());
}

#[test]
fn definition_without_content_is_rejected() {
    let def = TemplateDef {
        disabled: None,
        path: None,
        is_embedded: None,
        content: None,
        content_type: None,
    };
    let r = Template::from("x".to_string(), def);
    assert!(matches!(r, Err(TemplateError::MissingContent)));
}

#[test]
fn embedded_reference_resolves_against_bundle() {
    let bundle = AssetBundle {
        files: vec![("tpl/list.html".to_string(), b"hello".to_vec())],
    };
    let def = TemplateDef {
        disabled: None,
        path: Some("tpl/list.html".to_string()),
        is_embedded: Some(true),
        content: None,
        content_type: Some("text/html".to_string()),
    };
    let t = Template::from("html".to_string(), def).unwrap().unwrap();
    assert_eq!(t.get_content(&bundle).as_deref(), Some("hello"));
}

#[test]
fn missing_embedded_asset_fails_registry_build() {
    let def = TemplateDef {
        disabled: None,
        path: Some("tpl/absent.html".to_string()),
        is_embedded: Some(true),
        content: None,
        content_type: None,
    };
    let r = build_registry(vec![("html".to_string(), def)], &empty_bundle());
    assert_eq!(r.err(), Some(TemplateError::UnresolvedContent));
}

#[test]
fn external_path_reference_fails_registry_build() {
    let def = TemplateDef {
        disabled: None,
        path: Some("/tmp/tpl.html".to_string()),
        is_embedded: Some(false),
        content: None,
        content_type: None,
    };
    let r = build_registry(vec![("html".to_string(), def)], &empty_bundle());
    assert_eq!(r.err(), Some(TemplateError::UnresolvedContent));
}

#[test]
fn registry_skips_disabled_and_keeps_order() {
    let mut off = def_with_content("off");
    off.disabled = Some(true);
    let defs = vec![
        ("a".to_string(), def_with_content("one")),
        ("b".to_string(), off),
        ("c".to_string(), def_with_content("three")),
    ];
    let reg = build_registry(defs, &empty_bundle()).unwrap();
    let names: Vec<&str> = reg.templates.iter().map(|t| t.name.as_str()).collect();
    assert_eq!(names, vec!["a", "c"]);
    assert!(reg.find("b").is_none());
    assert_eq!(reg.find("c").unwrap().content, "three");
}

#[test]
fn directory_render_interpolates_snapshot() {
    let defs = vec![("html".to_string(), def_with_content("Hello {{ info.name }}!"))];
    let reg = build_registry(defs, &empty_bundle()).unwrap();
    let r = handle_directory(&reg, &settings(), &snapshot(), "");
    assert_eq!(r.status, 200);
    assert_eq!(r.content_type.as_deref(), Some("text/html; charset=UTF-8"));
    assert_eq!(String::from_utf8(r.body).unwrap(), "Hello sub!");
}

#[test]
fn directory_render_lists_children() {
    let tpl = "{% for c in info.children %}{{ c.name }};{% endfor %}";
    let defs = vec![("html".to_string(), def_with_content(tpl))];
    let reg = build_registry(defs, &empty_bundle()).unwrap();
    let r = handle_directory(&reg, &settings(), &snapshot(), "");
    assert_eq!(r.status, 200);
    assert_eq!(String::from_utf8(r.body).unwrap(), "a.txt;b.txt;");
}

#[test]
fn type_parameter_selects_template() {
    let defs = vec![
        ("html".to_string(), def_with_content("H")),
        ("json".to_string(), TemplateDef {
            disabled: None,
            path: None,
            is_embedded: None,
            content: Some("J".to_string()),
            content_type: Some("application/json".to_string()),
        }),
    ];
    let reg = build_registry(defs, &empty_bundle()).unwrap();
    let r = handle_directory(&reg, &settings(), &snapshot(), "type=json");
    assert_eq!(r.status, 200);
    assert_eq!(r.content_type.as_deref(), Some("application/json"));
    assert_eq!(String::from_utf8(r.body).unwrap(), "J");
}

#[test]
fn empty_type_parameter_falls_back_to_default() {
    let defs = vec![("html".to_string(), def_with_content("H"))];
    let reg = build_registry(defs, &empty_bundle()).unwrap();
    let r = handle_directory(&reg, &settings(), &snapshot(), "type=");
    assert_eq!(r.status, 200);
    assert_eq!(String::from_utf8(r.body).unwrap(), "H");
}

#[test]
fn unknown_type_is_bad_request_never_404_or_500() {
    let defs = vec![("html".to_string(), def_with_content("H"))];
    let reg = build_registry(defs, &empty_bundle()).unwrap();
    let r = handle_directory(&reg, &settings(), &snapshot(), "type=nonexistent");
    assert_eq!(r.status, 400);
    assert!(!r.body.is_empty());
    assert_eq!(r.content_type.as_deref(), Some("text/plain; charset=utf-8"));
}

#[test]
fn malformed_template_is_internal_error() {
    let defs = vec![("html".to_string(), def_with_content("{{ broken"))];
    let reg = build_registry(defs, &empty_bundle()).unwrap();
    let r = handle_directory(&reg, &settings(), &snapshot(), "");
    assert_eq!(r.status, 500);
    assert!(!r.body.is_empty());
}

#[test]
fn same_request_renders_byte_identical_bodies() {
    let tpl = "{{ info.urlpath }}:{% for c in info.children %}{{ c.urlpath }} {% endfor %}";
    let defs = vec![("html".to_string(), def_with_content(tpl))];
    let reg = build_registry(defs, &empty_bundle()).unwrap();
    let r1 = handle_directory(&reg, &settings(), &snapshot(), "type=html");
    let r2 = handle_directory(&reg, &settings(), &snapshot(), "type=html");
    assert_eq!(r1.status, r2.status);
    assert_eq!(r1.body, r2.body);
    assert_eq!(r1.content_type, r2.content_type);
}

#[test]
fn render_pairs_body_with_declared_content_type() {
    let defs = vec![("html".to_string(), def_with_content("n={{ info.name }}"))];
    let reg = build_registry(defs, &empty_bundle()).unwrap();
    let t = reg.find("html").unwrap();
    let (ct, body) = t
        .render("{\"info\":{\"name\":\"x\",\"path\":\"\",\"urlpath\":\"\",\"children\":[]}}")
        .unwrap();
    assert_eq!(ct, "text/html; charset=UTF-8");
    assert_eq!(body, "n=x");
    assert!(t.render("not json").is_none());
}
