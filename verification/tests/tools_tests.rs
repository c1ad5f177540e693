use rust_mcp_server::json::{Json, Member};
use rust_mcp_server::names::insert_name;
use rust_mcp_server::tools::{app_identity, collect_app_names, load_tools, DirItem, Tool, ToolRegistry};

fn file(name: &str) -> DirItem {
    DirItem { file_name: name.to_string(), is_dir: false }
}

fn dir(name: &str) -> DirItem {
    DirItem { file_name: name.to_string(), is_dir: true }
}

fn text_of(j: &Json, key: &str) -> Option<String> {
    j.get_str(key).map(|s| s.to_string())
}

#[test]
fn tool_derives_name_and_description() {
    let tool = Tool::new("Google Chrome".to_string());
    assert_eq!(tool.app_name, "Google Chrome");
    assert_eq!(tool.name, "app.google-chrome");
    assert_eq!(
        tool.description,
        "Execute AppleScript commands in the Google Chrome application context."
    );
}

#[test]
fn tool_descriptor_requires_a_script_string() {
    let d = Tool::new("Finder".to_string()).description();
    assert_eq!(d.name, "app.finder");
    assert_eq!(d.description, "Execute AppleScript commands in the Finder application context.");
    let schema = d.input_schema.expect("schema");
    assert_eq!(text_of(&schema, "type"), Some("object".to_string()));
    assert_eq!(schema.get("required"), Some(&Json::Array(vec![Json::Str("script".to_string())])));
    let script = schema.get("properties").and_then(|p| p.get("script")).expect("script");
    assert_eq!(
        script,
        &Json::Object(vec![
            Member {
                name: "description".to_string(),
                value: Json::Str(
                    "AppleScript commands to execute inside a 'tell application' block".to_string()
                ),
            },
            Member { name: "type".to_string(), value: Json::Str("string".to_string()) },
        ])
    );
}

#[test]
fn catalog_of_pdf_and_text_entries() {
    let root = vec![file("Finder.pdf"), dir("text")];
    let text = vec![file("Notes.txt")];
    let registry = load_tools(Some(&root), Some(&text));
    let listed = registry.descriptions();
    assert_eq!(listed.len(), 2);
    assert_eq!(listed[0].name, "app.finder");
    assert_eq!(listed[1].name, "app.notes");
    for d in &listed {
        let schema = d.input_schema.as_ref().expect("schema");
        assert_eq!(schema.get("required"), Some(&Json::Array(vec![Json::Str("script".to_string())])));
        let kind = schema.get("properties").and_then(|p| p.get("script")).and_then(|s| s.get_str("type"));
        assert_eq!(kind, Some("string"));
    }
    assert_eq!(registry.get("app.finder").map(|t| t.app_name.as_str()), Some("Finder"));
    assert_eq!(registry.get("app.notes").map(|t| t.app_name.as_str()), Some("Notes"));
    assert!(registry.get("app.safari").is_none());
    assert!(registry.get("Finder").is_none());
}

#[test]
fn missing_root_gives_an_empty_catalog() {
    let text = vec![file("Notes.txt")];
    assert!(load_tools(None, None).tools.is_empty());
    assert!(load_tools(None, Some(&text)).tools.is_empty());
    assert!(load_tools(Some(&Vec::new()), None).descriptions().is_empty());
}

#[test]
fn catalog_is_sorted_and_without_duplicates() {
    let root = vec![file("Safari.pdf"), file("Mail.PDF"), file("Finder.pdf"), file("finder.pdf")];
    let text = vec![file("Mail.txt"), file("Calendar.TXT"), file("Zed.pdf")];
    let registry = load_tools(Some(&root), Some(&text));
    let apps: Vec<&str> = registry.tools.iter().map(|t| t.app_name.as_str()).collect();
    assert_eq!(apps, vec!["Calendar", "Finder", "Mail", "Safari", "finder"]);
}

#[test]
fn each_directory_has_its_own_extensions() {
    let root = vec![file("A.txt"), file("B.pdf"), file("C.doc"), file("D")];
    let text = vec![file("E.pdf"), file("F.txt")];
    let registry = load_tools(Some(&root), Some(&text));
    let apps: Vec<&str> = registry.tools.iter().map(|t| t.app_name.as_str()).collect();
    assert_eq!(apps, vec!["B", "F"]);
}

#[test]
fn directories_and_odd_names_are_skipped() {
    let exts = ["pdf"];
    assert_eq!(app_identity(&dir("Finder.pdf"), &exts), None);
    assert_eq!(app_identity(&file(".pdf"), &exts), None);
    assert_eq!(app_identity(&file("pdf"), &exts), None);
    assert_eq!(app_identity(&file("Finder."), &exts), None);
    assert_eq!(app_identity(&file("Finder.pdfx"), &exts), None);
    assert_eq!(app_identity(&file(""), &exts), None);
    assert_eq!(app_identity(&file("Finder.pdf"), &[]), None);
}

#[test]
fn stem_is_what_stands_before_the_last_dot() {
    let exts = ["pdf", "txt"];
    assert_eq!(app_identity(&file("Finder.pdf"), &exts), Some("Finder".to_string()));
    assert_eq!(app_identity(&file("System Events.v2.PdF"), &exts), Some("System Events.v2".to_string()));
    assert_eq!(app_identity(&file(".hidden.txt"), &exts), Some(".hidden".to_string()));
    assert_eq!(app_identity(&file("Caf\u{e9}.txt"), &exts), Some("Caf\u{e9}".to_string()));
}

#[test]
fn collecting_adds_to_what_is_there() {
    let mut names = vec!["Mail".to_string()];
    collect_app_names(&vec![file("Zoom.pdf"), file("Arc.pdf"), file("Mail.pdf")], &mut names, &["pdf"]);
    assert_eq!(names, vec!["Arc", "Mail", "Zoom"]);
}

#[test]
fn names_keep_their_order_and_occur_once() {
    let mut names: Vec<String> = Vec::new();
    for n in ["b", "a", "c", "a", "B", "ab", "", "b"] {
        insert_name(&mut names, n.to_string());
    }
    assert_eq!(names, vec!["", "B", "a", "ab", "b", "c"]);
}

#[test]
fn registry_lists_in_the_order_given() {
    let registry = ToolRegistry::new(vec![Tool::new("Zoom".to_string()), Tool::new("Arc".to_string())]);
    let names: Vec<String> = registry.descriptions().into_iter().map(|d| d.name).collect();
    assert_eq!(names, vec!["app.zoom", "app.arc"]);
}

#[test]
fn registry_lookup_prefers_the_tool_listed_last() {
    let registry = ToolRegistry::new(vec![Tool::new("Finder".to_string()), Tool::new("finder".to_string())]);
    assert_eq!(registry.descriptions().len(), 2);
    assert_eq!(registry.get("app.finder").map(|t| t.app_name.as_str()), Some("finder"));
}
