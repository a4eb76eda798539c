use aster::json::JsonValue;
use aster::read::{
    create_shared_history, extract_line_range, image_data_url, path_extension, path_file_name, pdf_placeholder,
    line_count, plan_read, read_tool_result, render_notebook, render_text, render_text_content, FileReadRecord, LineRange,
    ReadKind, ReadTool,
};
use aster::tool::{ToolContext, ToolError};

fn create_read_tool() -> ReadTool {
    ReadTool::new(create_shared_history())
}

fn s(t: &str) -> JsonValue {
    JsonValue::String(t.to_string())
}

fn obj(es: Vec<(&str, JsonValue)>) -> JsonValue {
    JsonValue::Object(es.into_iter().map(|(k, v)| (k.to_string(), v)).collect())
}

#[test]
fn test_line_range_new() {
    let range = LineRange::new(5, Some(10));
    assert_eq!(range.start, 5);
    assert_eq!(range.end, Some(10));
}

#[test]
fn test_line_range_from_start() {
    let range = LineRange::from_start(5);
    assert_eq!(range.start, 5);
    assert_eq!(range.end, None);
}

#[test]
fn test_line_range_lines() {
    let range = LineRange::lines(5, 10);
    assert_eq!(range.start, 5);
    assert_eq!(range.end, Some(14));
}

#[test]
fn test_is_image_file() {
    assert!(ReadTool::is_image_file("test.png"));
    assert!(ReadTool::is_image_file("test.jpg"));
    assert!(ReadTool::is_image_file("test.JPEG"));
    assert!(ReadTool::is_image_file("test.gif"));
    assert!(!ReadTool::is_image_file("test.txt"));
    assert!(!ReadTool::is_image_file("test.rs"));
}

#[test]
fn test_is_pdf_file() {
    assert!(ReadTool::is_pdf_file("test.pdf"));
    assert!(ReadTool::is_pdf_file("test.PDF"));
    assert!(!ReadTool::is_pdf_file("test.txt"));
}

#[test]
fn test_is_notebook_file() {
    assert!(ReadTool::is_notebook_file("test.ipynb"));
    assert!(ReadTool::is_notebook_file("test.IPYNB"));
    assert!(!ReadTool::is_notebook_file("test.py"));
}

#[test]
fn test_is_text_file() {
    assert!(ReadTool::is_text_file("test.txt"));
    assert!(ReadTool::is_text_file("test.rs"));
    assert!(ReadTool::is_text_file("test.py"));
    assert!(ReadTool::is_text_file("test.json"));
    assert!(ReadTool::is_text_file("test.unknown"));
}

#[test]
fn read_test_tool_name() {
    let tool = create_read_tool();
    assert_eq!(tool.name(), "read");
}

#[test]
fn read_tool_description_and_schema() {
    let tool = create_read_tool();
    assert!(tool.description().contains("Read"));
    match tool.input_schema() {
        JsonValue::Object(es) => {
            assert_eq!(es[0].1, s("object"));
            match &es[1].1 {
                JsonValue::Object(ps) => {
                    assert_eq!(ps[0].0, "path");
                    assert_eq!(ps[1].0, "start_line");
                    assert_eq!(ps[2].0, "end_line");
                }
                _ => panic!("expected properties"),
            }
        }
        _ => panic!("expected an object"),
    }
}

#[test]
fn read_path_parts() {
    assert_eq!(path_file_name("/a/b/c.txt"), Some("c.txt".to_string()));
    assert_eq!(path_file_name("/a/b/"), Some("b".to_string()));
    assert_eq!(path_file_name("/a/.."), None);
    assert_eq!(path_file_name("/"), None);
    assert_eq!(path_extension("x/.gitignore"), None);
    assert_eq!(path_extension("x/archive.tar.gz"), Some("gz".to_string()));
    assert_eq!(path_extension("x/name."), Some("".to_string()));
    assert!(!ReadTool::is_text_file("photo.PNG"));
    assert!(ReadTool::is_text_file("README"));
}

#[test]
fn read_render_text_numbers_lines() {
    let text = "Line 1\nLine 2\nLine 3\n";
    assert_eq!(render_text(text, None), "1 | Line 1\n2 | Line 2\n3 | Line 3");
    let ten: String = (1..=10).map(|i| format!("Line {}\n", i)).collect();
    let out = render_text(&ten, Some(LineRange::new(3, Some(5))));
    assert_eq!(out, "3 | Line 3\n4 | Line 4\n5 | Line 5");
    let out = render_text(&ten, Some(LineRange::new(9, None)));
    assert_eq!(out, " 9 | Line 9\n10 | Line 10");
    assert_eq!(render_text("", None), "");
    assert_eq!(render_text("a\r\nb", Some(LineRange::new(0, Some(99)))), "1 | a\n2 | b");
}

#[test]
fn read_render_content_refuses_inverted_range() {
    assert_eq!(render_text_content(b"a\nb\nc\n", Some(LineRange::new(3, Some(1)))), None);
    assert_eq!(render_text_content(b"a\nb\n", None), Some("1 | a\n2 | b".to_string()));
}

#[test]
fn read_image_url() {
    let url = image_data_url("dir/pic.PNG", &[0x89, 0x50, 0x4E, 0x47]);
    assert_eq!(url, "data:image/png;base64,iVBORw==");
    assert!(image_data_url("x.svg", b"").starts_with("data:image/svg+xml;base64,"));
}

#[test]
fn read_pdf_placeholder_text() {
    assert_eq!(
        pdf_placeholder("/tmp/a.pdf", 12),
        "[PDF file: /tmp/a.pdf (12 bytes)]\nPDF text extraction requires additional dependencies.\nConsider using an external tool to convert PDF to text."
    );
    let tool = create_read_tool();
    assert!(matches!(tool.check_pdf_enabled(), Err(ToolError::ExecutionFailed(_))));
    assert!(tool.with_pdf_enabled(true).check_pdf_enabled().is_ok());
}

#[test]
fn read_notebook_rendering() {
    let nb = obj(vec![(
        "cells",
        JsonValue::Array(vec![
            obj(vec![
                ("cell_type", s("code")),
                ("source", JsonValue::Array(vec![s("print('Hello')")])),
                ("outputs", JsonValue::Array(vec![obj(vec![("text", s("Hello"))])])),
            ]),
            obj(vec![("cell_type", s("markdown")), ("source", JsonValue::Array(vec![s("# Title")]))]),
        ]),
    )]);
    let text = render_notebook("nb.ipynb", &nb).unwrap();
    assert_eq!(
        text,
        "# Notebook: nb.ipynb\n\n## Cell 1 [code]\n```\nprint('Hello')\n```\n\n### Output:\n```\nHello\n```\n## Cell 2 [markdown]\n\n# Title\n"
    );
    assert!(matches!(render_notebook("x", &obj(vec![])), Err(ToolError::ExecutionFailed(_))));
}

#[test]
fn read_plan_and_result() {
    let ctx = ToolContext::new("/tmp".to_string());
    let params = obj(vec![("path", s("a.txt")), ("start_line", JsonValue::Number("2".to_string())), ("end_line", JsonValue::Number("4".to_string()))]);
    let plan = plan_read(&params, &ctx).unwrap();
    assert_eq!(plan.kind, ReadKind::Text);
    assert_eq!(plan.range, Some(LineRange::new(2, Some(4))));
    let plan = plan_read(&obj(vec![("path", s("a.png"))]), &ctx).unwrap();
    assert_eq!(plan.kind, ReadKind::Image);
    assert!(matches!(plan_read(&obj(vec![]), &ctx), Err(ToolError::InvalidParams(_))));
    assert_eq!(extract_line_range(&obj(vec![("end_line", JsonValue::Number("7".to_string()))])), Some(LineRange::new(1, Some(7))));
    assert_eq!(extract_line_range(&obj(vec![("start_line", JsonValue::Number("-1".to_string()))])), None);
    let r = read_tool_result(ReadKind::Text, "Hello, World!");
    assert!(r.is_success());
    assert_eq!(r.metadata_get("file_type"), Some(&s("text")));
}

#[test]
fn read_history_records() {
    let mut tool = create_read_tool();
    assert!(!tool.read_history().has_read("/tmp/a.txt"));
    tool.record_read(FileReadRecord { path: "/tmp/a.txt".to_string(), size: 3, line_count: 1 });
    assert!(tool.read_history().has_read("/tmp/a.txt"));
    assert!(!tool.read_history().has_read("/tmp/b.txt"));
    let params = obj(vec![]);
    assert!(tool.check_permissions(&params).is_denied());
    assert!(tool.check_permissions(&obj(vec![("path", s("test.txt"))])).is_allowed());
}

#[test]
fn read_test_tool_description() {
    let tool = create_read_tool();
    assert!(!tool.description().is_empty());
    assert!(tool.description().contains("Read"));
}

#[test]
fn read_test_tool_input_schema() {
    let tool = create_read_tool();
    let schema = tool.input_schema();
    assert_eq!(schema.get("type"), Some(&s("object")));
    let props = schema.get("properties").unwrap();
    assert!(props.get("path").unwrap().is_object());
    assert!(props.get("start_line").unwrap().is_object());
    assert!(props.get("end_line").unwrap().is_object());
}

#[test]
fn invalid_utf8_is_replaced_in_rendered_text() {
    assert_eq!(render_text_content(b"ok\n\xff\xfe!", None), Some("1 | ok\n2 | \u{FFFD}\u{FFFD}!".to_string()));
    assert_eq!(line_count(b"a\n\xffb\nc"), 3);
}

#[test]
fn resolve_path_joins_relative_paths() {
    let tool = create_read_tool();
    let context = ToolContext::new("/work".to_string());
    assert_eq!(tool.resolve_path("notes.txt", &context), "/work/notes.txt");
    assert_eq!(tool.resolve_path("/etc/hosts", &context), "/etc/hosts");
    let context = ToolContext::new("/work/".to_string());
    assert_eq!(tool.resolve_path("a/b.txt", &context), "/work/a/b.txt");
}

#[test]
fn text_files_are_the_rest() {
    for p in ["a.txt", "b.PNG", "c.pdf", "d.ipynb", "e", "f.unknown", "g.SVG", "h.rs"].iter() {
        let other = ReadTool::is_image_file(p) || ReadTool::is_pdf_file(p) || ReadTool::is_notebook_file(p);
        assert_eq!(ReadTool::is_text_file(p), !other, "{}", p);
    }
}
