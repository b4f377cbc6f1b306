use glyphshift_adapters::qt_document_refresh::{plan_document_refresh, replacement_from_answer, DocumentRefresh};
use glyphshift_adapters::qt_quick::{eligible_text, plan_label_update, LabelAction, LabelText, MAX_TEXT_UNITS};
use glyphshift_adapters::qt_text_document::{DocumentText, HtmlTextTemplate};

#[test]
fn generation_changes_restore_the_source() {
    let mut label = LabelText::new("File".into());
    label.mark_written("文件".into());
    label.observe("文件");
    label.mark_written("文件菜单".into());
    assert_eq!(label.restore("文件菜单"), Some("File"));
}

#[test]
fn host_update_wins_over_old_snapshot() {
    let mut label = LabelText::new("Old".into());
    label.mark_written("旧".into());
    label.host_write("New".into());
    label.mark_written("新".into());
    assert_eq!(label.restore("新"), Some("New"));
}

#[test]
fn host_may_intentionally_write_the_same_translation() {
    let mut label = LabelText::new("File".into());
    label.mark_written("文件".into());
    label.host_write("文件".into());
    assert_eq!(label.restore("文件"), None);
    assert_eq!(label.source(), "文件");
}

#[test]
fn unrelated_host_change_is_never_overwritten_on_stop() {
    let mut label = LabelText::new("File".into());
    label.mark_written("文件".into());
    assert_eq!(label.restore("New"), None);
    label.observe("New");
    assert_eq!(label.source(), "New");
}

#[test]
fn complex_or_unbounded_text_is_rejected() {
    assert!(eligible_text("Open...", 2));
    assert!(eligible_text("A < B", 0));
    assert!(!eligible_text("<b>Open</b>", 2));
    assert!(!eligible_text("Open", 1));
    assert!(!eligible_text("Open", 4));
    assert!(!eligible_text(" ", 0));
    assert!(!eligible_text(&"x".repeat(MAX_TEXT_UNITS + 1), 0));
}

#[test]
fn observing_our_own_write_keeps_the_source() {
    let mut label = LabelText::new("File".into());
    label.mark_written("文件".into());
    label.observe("文件");
    assert_eq!(label.source(), "File");
    assert_eq!(label.restore("文件"), Some("File"));
}

#[test]
fn label_update_writes_a_new_replacement_and_restores_without_one() {
    let mut label = LabelText::new("File".into());
    assert_eq!(plan_label_update(&label, "File", Some("文件".into())), LabelAction::Write("文件".into()));
    assert_eq!(plan_label_update(&label, "文件", Some("文件".into())), LabelAction::Nothing);
    label.mark_written("文件".into());
    assert_eq!(plan_label_update(&label, "文件", None), LabelAction::Restore("File".into()));
    assert_eq!(plan_label_update(&label, "Other", None), LabelAction::Nothing);
}

#[test]
fn plain_and_single_run_rich_html_preserve_the_host_template() {
    let plain = HtmlTextTemplate::parse("The currently active Desktop").unwrap();
    assert_eq!(plain.source(), "The currently active Desktop");
    assert_eq!(plain.render("当前活动桌面").as_deref(), Some("当前活动桌面"));

    let html = "<style>p { margin: 4px; }</style><p class=\"summary\">Creates a cube.</p>";
    let rich = HtmlTextTemplate::parse(html).unwrap();
    assert_eq!(rich.source(), "Creates a cube.");
    assert_eq!(
        rich.render("创建 <立方体> & 更多").as_deref(),
        Some("<style>p { margin: 4px; }</style><p class=\"summary\">创建 &lt;立方体&gt; &amp; 更多</p>")
    );
    assert_eq!(rich.original_html(), html);
}

#[test]
fn multiline_style_with_one_visible_summary_is_supported() {
    let html = r#"<style>
p {margin-top: 4px; margin-bottom: 4px }
div.fig {margin-top: 6px; margin-bottom: 6px;}
figcaption {color: #808080}
dt, .label {font-weight: bold; margin-bottom: 0}
dd, .content {margin-left: 12px; margin-top: 0}
</style><p class="summary">Creates a tube.</p>"#;
    let template = HtmlTextTemplate::parse(html).unwrap();
    assert_eq!(template.source(), "Creates a tube.");
    assert_eq!(template.render("创建管体。"), Some(html.replace("Creates a tube.", "创建管体。")));
}

#[test]
fn complex_or_ambiguous_html_fails_open() {
    assert!(HtmlTextTemplate::parse("<b>Open</b>").is_some());
    assert!(HtmlTextTemplate::parse("<p>Save &amp; Close</p>").is_none());
    assert!(HtmlTextTemplate::parse("<p>Hello <b>world</b></p>").is_none());
    assert!(HtmlTextTemplate::parse("<p>one</p><p>two</p>").is_none());
    assert!(HtmlTextTemplate::parse("A < B").is_none());
    assert!(HtmlTextTemplate::parse("line one\nline two").is_none());
    assert!(HtmlTextTemplate::parse(" \t ").is_none());
    assert!(HtmlTextTemplate::parse("<style>x</style><p>text").is_none());
    assert!(HtmlTextTemplate::parse(&"x".repeat(glyphshift_adapters::qt_text_document::MAX_TEXT_UNITS + 1)).is_none());
}

#[test]
fn one_logical_inline_flow_is_flattened_without_fragmenting_the_source() {
    let html: String = [
        "<style>p { margin: 4px; }</style>",
        "When <strong>safe selection</strong> is on, use the ",
        "<img src='image://example/select' width='16' height='16'> Select tool. ",
        "Hold <span class=\"keys\"><kbd>S</kbd></span> temporarily.\n",
        "This remains one logical help sentence."
    ].concat();
    let template = HtmlTextTemplate::parse(&html).unwrap();
    assert_eq!(
        template.source(),
        "When safe selection is on, use the Select tool. Hold S temporarily. This remains one logical help sentence."
    );
    assert_eq!(
        template.render("启用安全选择后，请使用选择工具；按 S 可临时切换。"),
        Some("<style>p { margin: 4px; }</style>启用安全选择后，请使用选择工具；按 S 可临时切换。".into())
    );
}

#[test]
fn restoration_only_overwrites_our_last_write() {
    let mut text = DocumentText::new("Open".into());
    text.mark_written("打开".into());
    assert_eq!(text.restore("打开"), Some("Open"));
    assert_eq!(text.restore("Application changed it"), None);

    text.host_write("New source".into());
    text.mark_written("新文本".into());
    assert_eq!(text.restore("新文本"), Some("New source"));
}

#[test]
fn document_refresh_writes_restores_and_forgets() {
    let html = "<p>Open</p>";
    let template = HtmlTextTemplate::parse(html).unwrap();
    let mut text = DocumentText::new("Open".into());
    assert_eq!(
        plan_document_refresh(&text, &template, "Open", true, Some("打开".into())),
        DocumentRefresh::Write { visible: "打开".into(), html: "<p>打开</p>".into() }
    );
    assert_eq!(plan_document_refresh(&text, &template, "Changed", true, Some("打开".into())), DocumentRefresh::Forget);
    text.mark_written("打开".into());
    assert_eq!(plan_document_refresh(&text, &template, "打开", true, Some("打开".into())), DocumentRefresh::Keep);
    assert_eq!(
        plan_document_refresh(&text, &template, "打开", false, Some("打开".into())),
        DocumentRefresh::Restore { html: html.into() }
    );
    assert_eq!(
        plan_document_refresh(&text, &template, "打开", true, None),
        DocumentRefresh::Restore { html: html.into() }
    );
}

#[test]
fn document_replacement_requires_a_decided_non_blank_different_text() {
    let units: Vec<u16> = "打开xxxx".encode_utf16().collect();
    assert_eq!(replacement_from_answer(true, true, true, 2, &units, "Open"), Some("打开".into()));
    assert_eq!(replacement_from_answer(true, true, true, 20, &units, "Open"), None);
    assert_eq!(replacement_from_answer(false, true, true, 2, &units, "Open"), None);
    assert_eq!(replacement_from_answer(true, false, true, 2, &units, "Open"), None);
    assert_eq!(replacement_from_answer(true, true, false, 2, &units, "Open"), None);
    assert_eq!(replacement_from_answer(true, true, true, 2, &units, "打开"), None);
    let blank: Vec<u16> = "  ".encode_utf16().collect();
    assert_eq!(replacement_from_answer(true, true, true, 2, &blank, "Open"), None);
    assert_eq!(replacement_from_answer(true, true, true, 1, &[0xd800], "Open"), None);
}

#[test]
fn a_leading_style_block_keeps_the_parsed_source() {
    let source = |html: &str| HtmlTextTemplate::parse(html).map(|t| t.source().to_owned());
    assert_eq!(source("<style>p { color: red }</style><b>Hello</b>"), source("<b>Hello</b>"));
    assert_eq!(source("<style>p { color: red }</style><b>Hello</b>"), Some("Hello".to_string()));
    assert_eq!(source("<style></style><p>One</p><p>Two</p>"), source("<p>One</p><p>Two</p>"));
}

#[test]
fn rendering_splices_the_escaped_replacement_into_a_fixed_region() {
    let template = HtmlTextTemplate::parse("<html><body><p>Hello</p></body></html>").unwrap();
    assert_eq!(template.render("a<b & c>"), Some("<html><body><p>a&lt;b &amp; c&gt;</p></body></html>".to_string()));
    assert_eq!(template.render("你好"), Some("<html><body><p>你好</p></body></html>".to_string()));
    assert_eq!(template.render("   "), None);
    assert_eq!(template.render("a\tb"), None);
}
