use antikythera::tool_server::{ServerToolInfo, TaskSupport, ToolAnnotations, PROTOCOL_VERSION};

#[test]
fn tool_metadata_and_task_support() {
    assert_eq!(PROTOCOL_VERSION, "2024-11-05");
    assert_eq!(TaskSupport::Unsupported.as_str(), "none");
    assert_eq!(TaskSupport::Parallel.as_str(), "parallel");
    let info = ServerToolInfo {
        name: "search".to_string(),
        description: None,
        annotations: Some(ToolAnnotations { read_only_hint: Some(true), ..Default::default() }),
    };
    assert_eq!(info.annotations.unwrap().title, None);
}
