use notion_mapper::blocks::{extract_text_from_blocks, text_to_blocks};
use notion_mapper::entity::{extract_entities, extract_page_info};
use notion_mapper::error::NotionMcpError;
use notion_mapper::filter::build_database_filter;
use notion_mapper::payload::{
    api_key_format_ok, content_text, create_page_payload, query_payload, results_of,
    search_payload, update_page_payload,
};
use notion_mapper::value::DocValue;

fn obj(pairs: Vec<(&str, DocValue)>) -> DocValue {
    DocValue::Object(pairs.into_iter().map(|(k, v)| (k.to_string(), v)).collect())
}

fn text(s: &str) -> DocValue {
    DocValue::Text(s.to_string())
}

fn arr(items: Vec<DocValue>) -> DocValue {
    DocValue::Array(items)
}

fn run(content: &str) -> DocValue {
    obj(vec![
        ("type", text("text")),
        ("text", obj(vec![("content", text(content))])),
    ])
}

fn block(kind: &str, contents: Vec<&str>) -> DocValue {
    obj(vec![
        ("object", text("block")),
        ("type", text(kind)),
        (
            kind,
            obj(vec![(
                "rich_text",
                arr(contents.into_iter().map(run).collect()),
            )]),
        ),
    ])
}

fn prop_run(s: &str) -> DocValue {
    obj(vec![("plain_text", text(s))])
}

fn title_prop(s: &str) -> DocValue {
    obj(vec![("title", arr(vec![prop_run(s)]))])
}

fn rich_prop(s: &str) -> DocValue {
    obj(vec![("rich_text", arr(vec![prop_run(s)]))])
}

fn url_prop(s: &str) -> DocValue {
    obj(vec![("url", text(s))])
}

fn file_direct(url: &str) -> DocValue {
    obj(vec![("url", text(url))])
}

fn file_nested(url: &str) -> DocValue {
    obj(vec![("file", obj(vec![("url", text(url))]))])
}

fn files_prop(files: Vec<DocValue>) -> DocValue {
    obj(vec![("files", arr(files))])
}

fn page(props: Vec<(&str, DocValue)>) -> DocValue {
    obj(vec![("id", text("page-1")), ("properties", obj(props))])
}

// ---- block-to-text projection ----

#[test]
fn empty_blocks_yield_empty_string() {
    let blocks: Vec<DocValue> = Vec::new();
    assert_eq!(extract_text_from_blocks(&blocks), "");
}

#[test]
fn heading_then_paragraph_projects_with_separator() {
    let blocks = vec![block("heading_1", vec!["Title"]), block("paragraph", vec!["Body"])];
    assert_eq!(extract_text_from_blocks(&blocks), "Title\n\nBody");
}

#[test]
fn all_recognized_kinds_contribute() {
    let blocks = vec![
        block("paragraph", vec!["p"]),
        block("heading_1", vec!["h1"]),
        block("heading_2", vec!["h2"]),
        block("heading_3", vec!["h3"]),
        block("bulleted_list_item", vec!["b"]),
        block("numbered_list_item", vec!["n"]),
    ];
    assert_eq!(extract_text_from_blocks(&blocks), "p\n\nh1\n\nh2\n\nh3\n\nb\n\nn");
}

#[test]
fn unrecognized_kind_contributes_nothing() {
    let blocks = vec![
        block("paragraph", vec!["before"]),
        block("toggle", vec!["hidden"]),
        block("paragraph", vec!["after"]),
    ];
    assert_eq!(extract_text_from_blocks(&blocks), "before\n\nafter");
}

#[test]
fn malformed_rich_text_drops_the_block() {
    let no_rich_text = obj(vec![
        ("type", text("paragraph")),
        ("paragraph", obj(vec![])),
    ]);
    let rich_text_not_array = obj(vec![
        ("type", text("paragraph")),
        ("paragraph", obj(vec![("rich_text", text("oops"))])),
    ]);
    let blocks = vec![no_rich_text, rich_text_not_array, block("paragraph", vec!["kept"])];
    assert_eq!(extract_text_from_blocks(&blocks), "kept");
}

#[test]
fn runs_concatenate_without_separator() {
    let blocks = vec![block("paragraph", vec!["Hello", " ", "world"])];
    assert_eq!(extract_text_from_blocks(&blocks), "Hello world");
}

#[test]
fn separator_count_is_blocks_minus_one() {
    let blocks = vec![
        block("paragraph", vec!["a"]),
        block("paragraph", vec!["b"]),
        block("paragraph", vec!["c"]),
    ];
    let out = extract_text_from_blocks(&blocks);
    assert_eq!(out.matches("\n\n").count(), 2);
}

// ---- text-to-block building ----

#[test]
fn empty_string_yields_single_empty_paragraph() {
    let blocks = text_to_blocks("");
    assert_eq!(blocks.len(), 1);
    assert_eq!(blocks[0], block("paragraph", vec![""]));
}

#[test]
fn paragraphs_split_on_blank_lines() {
    let blocks = text_to_blocks("a\n\nb\n\nc");
    assert_eq!(blocks.len(), 3);
    assert_eq!(blocks[0], block("paragraph", vec!["a"]));
    assert_eq!(blocks[1], block("paragraph", vec!["b"]));
    assert_eq!(blocks[2], block("paragraph", vec!["c"]));
}

#[test]
fn empty_segments_become_empty_paragraphs() {
    let blocks = text_to_blocks("a\n\n\n\nb");
    assert_eq!(blocks.len(), 3);
    assert_eq!(blocks[1], block("paragraph", vec![""]));
}

#[test]
fn single_newline_does_not_split() {
    let blocks = text_to_blocks("a\nb");
    assert_eq!(blocks.len(), 1);
    assert_eq!(blocks[0], block("paragraph", vec!["a\nb"]));
}

#[test]
fn round_trip_without_blank_lines() {
    let s = "just one paragraph, one line";
    assert_eq!(extract_text_from_blocks(&text_to_blocks(s)), s);
}

#[test]
fn round_trip_multi_paragraph() {
    let s = "first\n\nsecond\n\nthird";
    assert_eq!(extract_text_from_blocks(&text_to_blocks(s)), s);
}

// ---- entity projection ----

#[test]
fn entity_absent_when_brand_name_missing() {
    let p = page(vec![("Website", url_prop("https://x.example"))]);
    assert!(extract_page_info(&p).is_none());
}

#[test]
fn entity_absent_when_title_empty() {
    let p = page(vec![("Brand Name", obj(vec![("title", arr(vec![]))]))]);
    assert!(extract_page_info(&p).is_none());
}

#[test]
fn entity_absent_when_id_missing() {
    let p = obj(vec![(
        "properties",
        obj(vec![("Brand Name", title_prop("Acme"))]),
    )]);
    assert!(extract_page_info(&p).is_none());
}

#[test]
fn minimal_entity_defaults() {
    let p = page(vec![("Brand Name", title_prop("Acme"))]);
    let e = extract_page_info(&p).unwrap();
    assert_eq!(e.id, "page-1");
    assert_eq!(e.name, "Acme");
    assert!(e.services.is_empty());
    assert_eq!(e.description, "");
    assert_eq!(e.website, "");
    assert_eq!(e.tagline, "");
    assert_eq!(e.slug, "");
    assert!(e.media.images.is_empty());
    assert!(e.media.hero_image.is_none());
    assert!(e.media.cover.is_none());
    assert!(e.media.avatar.is_none());
    assert!(e.media.square_image_1.is_none());
    assert!(e.media.square_image_2.is_none());
    assert!(e.videos.video_1.is_none());
    assert!(e.videos.video_2.is_none());
}

#[test]
fn full_entity_extraction() {
    let p = page(vec![
        ("Brand Name", title_prop("Acme")),
        (
            "Services",
            obj(vec![(
                "multi_select",
                arr(vec![
                    obj(vec![("name", text("Design"))]),
                    obj(vec![("name", text("Development"))]),
                ]),
            )]),
        ),
        ("Description", rich_prop("What they do")),
        ("Website", url_prop("https://acme.example")),
        ("Tagline", rich_prop("The best")),
        ("Slug", rich_prop("acme")),
        ("Video 1", url_prop("https://v.example/1")),
    ]);
    let e = extract_page_info(&p).unwrap();
    assert_eq!(e.name, "Acme");
    assert_eq!(e.services, vec!["Design".to_string(), "Development".to_string()]);
    assert_eq!(e.description, "What they do");
    assert_eq!(e.website, "https://acme.example");
    assert_eq!(e.tagline, "The best");
    assert_eq!(e.slug, "acme");
    assert_eq!(e.videos.video_1.as_deref(), Some("https://v.example/1"));
    assert!(e.videos.video_2.is_none());
}

#[test]
fn image_slot_three_two_files_in_order() {
    let p = page(vec![
        ("Brand Name", title_prop("Acme")),
        (
            "Image [3]",
            files_prop(vec![
                file_direct("https://img.example/a"),
                file_nested("https://img.example/b"),
            ]),
        ),
    ]);
    let e = extract_page_info(&p).unwrap();
    assert_eq!(e.media.images.len(), 2);
    assert_eq!(e.media.images[0].slot, 3);
    assert_eq!(e.media.images[0].url, "https://img.example/a");
    assert_eq!(e.media.images[1].slot, 3);
    assert_eq!(e.media.images[1].url, "https://img.example/b");
    assert!(e.media.hero_image.is_none());
    assert!(e.media.cover.is_none());
    assert!(e.media.avatar.is_none());
    assert!(e.media.square_image_1.is_none());
    assert!(e.media.square_image_2.is_none());
}

#[test]
fn image_slots_keep_slot_order() {
    let p = page(vec![
        ("Brand Name", title_prop("Acme")),
        ("Image [10]", files_prop(vec![file_direct("https://img.example/ten")])),
        ("Image [1]", files_prop(vec![file_direct("https://img.example/one")])),
    ]);
    let e = extract_page_info(&p).unwrap();
    assert_eq!(e.media.images.len(), 2);
    assert_eq!(e.media.images[0].slot, 1);
    assert_eq!(e.media.images[0].url, "https://img.example/one");
    assert_eq!(e.media.images[1].slot, 10);
    assert_eq!(e.media.images[1].url, "https://img.example/ten");
}

#[test]
fn unresolvable_file_entries_are_skipped() {
    let p = page(vec![
        ("Brand Name", title_prop("Acme")),
        (
            "Image [2]",
            files_prop(vec![
                obj(vec![("name", text("no url here"))]),
                file_direct("https://img.example/ok"),
            ]),
        ),
    ]);
    let e = extract_page_info(&p).unwrap();
    assert_eq!(e.media.images.len(), 1);
    assert_eq!(e.media.images[0].url, "https://img.example/ok");
}

#[test]
fn special_image_takes_first_file_only() {
    let p = page(vec![
        ("Brand Name", title_prop("Acme")),
        (
            "Hero Image",
            files_prop(vec![
                file_nested("https://img.example/hero"),
                file_direct("https://img.example/second"),
            ]),
        ),
        ("Cover", files_prop(vec![obj(vec![("name", text("unresolvable"))])])),
    ]);
    let e = extract_page_info(&p).unwrap();
    assert_eq!(e.media.hero_image.as_deref(), Some("https://img.example/hero"));
    assert!(e.media.cover.is_none());
}

#[test]
fn square_image_slots_resolved() {
    let p = page(vec![
        ("Brand Name", title_prop("Acme")),
        ("Image [7.1] square image", files_prop(vec![file_direct("https://img.example/s1")])),
        ("Image [7.2] square image", files_prop(vec![file_nested("https://img.example/s2")])),
    ]);
    let e = extract_page_info(&p).unwrap();
    assert_eq!(e.media.square_image_1.as_deref(), Some("https://img.example/s1"));
    assert_eq!(e.media.square_image_2.as_deref(), Some("https://img.example/s2"));
}

#[test]
fn query_results_skip_unextractable_pages() {
    let good = page(vec![("Brand Name", title_prop("Acme"))]);
    let bad = page(vec![("Website", url_prop("https://x.example"))]);
    let pages = vec![bad, good];
    let entities = extract_entities(&pages);
    assert_eq!(entities.len(), 1);
    assert_eq!(entities[0].name, "Acme");
}

// ---- filter building ----

#[test]
fn services_override_highlighted() {
    let services = Some(vec!["A".to_string(), "B".to_string()]);
    let f = build_database_filter(Some(true), &services).unwrap();
    let expected = obj(vec![
        ("property", text("Services")),
        ("multi_select", obj(vec![("contains", text("A"))])),
    ]);
    assert_eq!(f, expected);
}

#[test]
fn no_filter_when_both_absent() {
    assert!(build_database_filter(None, &None).is_none());
}

#[test]
fn highlighted_alone_builds_checkbox_filter() {
    let f = build_database_filter(Some(true), &None).unwrap();
    let expected = obj(vec![
        ("property", text("00. Highlighted")),
        ("checkbox", obj(vec![("equals", DocValue::Bool(true))])),
    ]);
    assert_eq!(f, expected);
}

#[test]
fn highlighted_false_is_kept_in_filter() {
    let f = build_database_filter(Some(false), &None).unwrap();
    let expected = obj(vec![
        ("property", text("00. Highlighted")),
        ("checkbox", obj(vec![("equals", DocValue::Bool(false))])),
    ]);
    assert_eq!(f, expected);
}

#[test]
fn empty_services_fall_back_to_highlighted() {
    let services = Some(Vec::new());
    let f = build_database_filter(Some(true), &services).unwrap();
    let expected = obj(vec![
        ("property", text("00. Highlighted")),
        ("checkbox", obj(vec![("equals", DocValue::Bool(true))])),
    ]);
    assert_eq!(f, expected);
}

#[test]
fn empty_services_without_flag_build_no_filter() {
    let services = Some(Vec::new());
    assert!(build_database_filter(None, &services).is_none());
}

// ---- request payloads and response reading ----

#[test]
fn search_payload_shape_and_default_limit() {
    let p = search_payload("acme", None);
    let expected = obj(vec![
        ("query", text("acme")),
        ("page_size", DocValue::Int(10)),
        (
            "sort",
            obj(vec![
                ("direction", text("descending")),
                ("timestamp", text("last_edited_time")),
            ]),
        ),
    ]);
    assert_eq!(p, expected);
}

#[test]
fn search_payload_explicit_limit() {
    let p = search_payload("x", Some(5));
    if let DocValue::Object(pairs) = p {
        assert_eq!(pairs[1].1, DocValue::Int(5));
    } else {
        panic!("expected an object");
    }
}

#[test]
fn query_payload_without_filter() {
    let p = query_payload(None, None);
    let expected = obj(vec![("page_size", DocValue::Int(100))]);
    assert_eq!(p, expected);
}

#[test]
fn query_payload_with_filter() {
    let f = obj(vec![("property", text("Services"))]);
    let p = query_payload(Some(f), Some(7));
    let same_filter = obj(vec![("property", text("Services"))]);
    let expected = obj(vec![("page_size", DocValue::Int(7)), ("filter", same_filter)]);
    assert_eq!(p, expected);
}

#[test]
fn create_payload_dashed_parent_is_database() {
    let props = obj(vec![("Brand Name", title_prop("Acme"))]);
    let p = create_page_payload("abc-def", props, None);
    if let DocValue::Object(pairs) = &p {
        assert_eq!(pairs.len(), 2);
        let parent = &pairs[0].1;
        let expected = obj(vec![("database_id", text("abc-def"))]);
        assert_eq!(parent, &expected);
    } else {
        panic!("expected an object");
    }
}

#[test]
fn create_payload_plain_parent_is_page() {
    let props = obj(vec![]);
    let p = create_page_payload("abcdef", props, None);
    if let DocValue::Object(pairs) = &p {
        let expected = obj(vec![("page_id", text("abcdef"))]);
        assert_eq!(&pairs[0].1, &expected);
    } else {
        panic!("expected an object");
    }
}

#[test]
fn create_payload_carries_children() {
    let props = obj(vec![]);
    let children = vec![block("paragraph", vec!["hi"])];
    let p = create_page_payload("abcdef", props, Some(children));
    if let DocValue::Object(pairs) = &p {
        assert_eq!(pairs.len(), 3);
        assert_eq!(pairs[2].0, "children");
        assert_eq!(pairs[2].1, arr(vec![block("paragraph", vec!["hi"])]));
    } else {
        panic!("expected an object");
    }
}

#[test]
fn update_payload_wraps_properties() {
    let props = obj(vec![("Slug", rich_prop("acme"))]);
    let p = update_page_payload(props);
    let expected = obj(vec![("properties", obj(vec![("Slug", rich_prop("acme"))]))]);
    assert_eq!(p, expected);
}

#[test]
fn results_of_reads_the_array() {
    let resp = obj(vec![("results", arr(vec![text("a"), text("b")]))]);
    let items = results_of(&resp).unwrap();
    assert_eq!(items.len(), 2);
}

#[test]
fn results_of_missing_field_is_json_parse_error() {
    let resp = obj(vec![("object", text("list"))]);
    match results_of(&resp) {
        Err(NotionMcpError::JsonParse(m)) => {
            assert_eq!(m, "No se encontro campo 'results'");
        }
        other => panic!("expected a shape error, got {:?}", other),
    }
}

#[test]
fn content_text_projects_fetched_blocks() {
    let resp = obj(vec![(
        "results",
        arr(vec![block("heading_1", vec!["Title"]), block("paragraph", vec!["Body"])]),
    )]);
    assert_eq!(content_text(&resp).unwrap(), "Title\n\nBody");
}

#[test]
fn api_key_prefixes() {
    assert!(api_key_format_ok("ntn_abc123"));
    assert!(api_key_format_ok("secret_abc123"));
    assert!(!api_key_format_ok("token_abc123"));
    assert!(!api_key_format_ok(""));
}

#[test]
fn error_messages_carry_prefix_and_detail() {
    assert_eq!(
        NotionMcpError::JsonParse("bad".to_string()).message(),
        "Error al analizar JSON: bad"
    );
    assert_eq!(
        NotionMcpError::Authentication("expired".to_string()).message(),
        "Error de autenticacion: expired"
    );
    assert_eq!(
        NotionMcpError::NotionApi("500".to_string()).message(),
        "Error en la API de Notion: 500"
    );
}
