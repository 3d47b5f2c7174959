use tui_gpu::layout::{ComponentKind, Display, FlexDirection, FrontMatter};
use tui_gpu::template::{
    build_document, parse_attributes, parse_components, split_frontmatter, TemplateError,
};

#[test]
fn parses_attributes() {
    let attrs = parse_attributes(r#"id="main" rows=40 label="Primary""#).unwrap();
    assert_eq!(attrs.get("id").unwrap(), "main");
    assert_eq!(attrs.get("rows").unwrap(), "40");
    assert_eq!(attrs.get("label").unwrap(), "Primary");
}

#[test]
fn builds_nodes_from_body() {
    let body = "<TerminalPane id=\"main\" rows=40 />\n<OverlayRegion id=\"status\" z=900 />";
    let nodes = parse_components(body).unwrap();
    assert_eq!(nodes.len(), 2);
    assert_eq!(nodes[0].id, "main");
    assert!(matches!(nodes[0].component, ComponentKind::TerminalPane));
    assert_eq!(nodes[1].layout.z_index, 900);
}

#[test]
fn later_attribute_overrides_earlier() {
    let attrs = parse_attributes("id=a id = \"b c\" x=1.5").unwrap();
    assert_eq!(attrs.get("id").unwrap(), "b c");
    assert_eq!(attrs.get("x").unwrap(), "1.5");
    assert_eq!(attrs.len(), 2);
    assert!(attrs.get("missing").is_none());
}

#[test]
fn repeated_attribute_counts_once() {
    let attrs = parse_attributes("a=1 a=2").unwrap();
    assert_eq!(attrs.len(), 1);
    assert_eq!(attrs.get("a").unwrap(), "2");
    let empty = parse_attributes("").unwrap();
    assert_eq!(empty.len(), 0);
}

#[test]
fn nodes_take_defaults_and_accessibility() {
    let body = "<MenuBar label=\"Top\" tabIndex=3 mnemonic=\"M\" role=menubar /> <Widget z=abc />";
    let nodes = parse_components(body).unwrap();
    assert_eq!(nodes.len(), 2);
    assert_eq!(nodes[0].id, "menubar_0");
    assert!(matches!(nodes[0].component, ComponentKind::MenuBar));
    assert_eq!(nodes[0].accessibility.label.as_deref(), Some("Top"));
    assert_eq!(nodes[0].accessibility.tab_index, 3);
    assert_eq!(nodes[0].accessibility.mnemonic.as_deref(), Some("M"));
    assert_eq!(nodes[0].accessibility.role.as_deref(), Some("menubar"));
    assert_eq!(nodes[1].id, "widget_1");
    assert!(matches!(nodes[1].component, ComponentKind::Unknown));
    assert_eq!(nodes[1].layout.z_index, 0);
    assert!(matches!(nodes[1].layout.display, Display::Flex));
    assert!(matches!(nodes[1].layout.flex_direction, FlexDirection::Column));
}

#[test]
fn body_without_components_is_refused() {
    assert_eq!(parse_components("just text").err(), Some(TemplateError::NoComponents));
    assert_eq!(parse_components("<Pane/>").err(), Some(TemplateError::NoComponents));
}

#[test]
fn splits_front_matter_from_body() {
    let (front, body) =
        split_frontmatter("---\nid: main\ntitle: Main  \n---\n\n<TerminalPane id=\"t\" />\n\n")
            .unwrap();
    assert_eq!(front, "id: main\ntitle: Main");
    assert_eq!(body, "<TerminalPane id=\"t\" />");
}

#[test]
fn front_matter_markers_are_required() {
    assert_eq!(
        split_frontmatter("id: x\n---\n").err(),
        Some(TemplateError::MissingFrontmatterStart)
    );
    assert_eq!(
        split_frontmatter("---\nid: x\n").err(),
        Some(TemplateError::MissingFrontmatterEnd)
    );
    let (front, body) = split_frontmatter("---\r\nid: x\r\n  ---  \r\nbody").unwrap();
    assert_eq!(front, "id: x");
    assert_eq!(body, "body");
}

#[test]
fn documents_need_an_id_and_components() {
    let meta = FrontMatter { id: "  ".to_string(), title: None };
    assert_eq!(
        build_document(meta, "<TerminalPane id=\"t\" />").err(),
        Some(TemplateError::MissingId)
    );
    let meta = FrontMatter { id: "main".to_string(), title: Some("Main".to_string()) };
    assert_eq!(build_document(meta, "nothing").err(), Some(TemplateError::NoComponents));
    let meta = FrontMatter { id: "main".to_string(), title: None };
    let doc = build_document(meta, "<TerminalPane id=\"t\" />").unwrap();
    assert_eq!(doc.meta.id, "main");
    assert_eq!(doc.nodes.len(), 1);
}

#[test]
fn front_matter_round_trips() {
    let meta = ["id: main", "title: Main screen  ", "", "hotkeys: [F9]"];
    let body = "\n<TerminalPane id=\"main\" />\n<MenuBar id=\"menu\" />\n";
    let mut template = String::from("---\n");
    for line in meta {
        template.push_str(line);
        template.push('\n');
    }
    template.push_str("---\n");
    template.push_str(body);
    let (front, parsed_body) = split_frontmatter(&template).unwrap();
    assert_eq!(front, "id: main\ntitle: Main screen  \n\nhotkeys: [F9]");
    assert_eq!(parsed_body, body.trim());
}
