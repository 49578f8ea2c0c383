use antikythera::content::{ContentItem, FileContent, FileMetadata};

fn meta(name: &str, mime: &str) -> FileMetadata {
    FileMetadata {
        filename: name.to_string(),
        mime_type: mime.to_string(),
        size_bytes: 3,
        created_at: "t".to_string(),
    }
}

#[test]
fn file_kinds_and_extension() {
    let pdf = FileContent { metadata: meta("report.final.pdf", "application/pdf"), data: "x".to_string() };
    assert!(pdf.is_pdf());
    assert!(!pdf.is_image());
    assert_eq!(pdf.extension(), Some("pdf"));
    let img = FileContent { metadata: meta("photo", "image/png"), data: String::new() };
    assert!(img.is_image());
    assert_eq!(img.extension(), None);
}

#[test]
fn resources_become_files() {
    let item = ContentItem {
        content_type: "resource".to_string(),
        text: Some("notes.txt".to_string()),
        data: Some("héllo".to_string()),
        mime_type: Some("text/plain".to_string()),
        metadata: None,
    };
    assert!(item.is_resource());
    assert!(!item.is_text());
    let f = item.to_file_content("2024").unwrap();
    assert_eq!(f.data, "héllo");
    assert_eq!(f.metadata.size_bytes, 6);
    assert_eq!(f.metadata.created_at, "2024");
    assert_eq!(f.metadata.filename, "unknown");
    assert_eq!(f.metadata.mime_type, "text/plain");
    let named = ContentItem {
        content_type: "resource".to_string(),
        text: Some("Generated file: chart.png".to_string()),
        data: Some("AAA".to_string()),
        mime_type: None,
        metadata: None,
    };
    let g = named.to_file_content("t").unwrap();
    assert_eq!(g.metadata.filename, "chart.png");
    assert_eq!(g.metadata.mime_type, "application/octet-stream");
    let text = ContentItem {
        content_type: "text".to_string(),
        text: Some("hi".to_string()),
        data: None,
        mime_type: None,
        metadata: None,
    };
    assert!(text.is_text());
    assert!(text.to_file_content("t").is_none());
}
