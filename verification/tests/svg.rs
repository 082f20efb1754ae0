use vizardra::document::Document;
use vizardra::object::{ObjectData, ObjectKind};
use vizardra::svg::{document_to_svg, escape_xml};

#[test]
fn escape_xml_all_entities() {
    assert_eq!(escape_xml("a&b<c>d\"e'f"), "a&amp;b&lt;c&gt;d&quot;e&apos;f");
}

#[test]
fn escape_xml_plain_and_empty() {
    assert_eq!(escape_xml("héllo"), "héllo");
    assert_eq!(escape_xml(""), "");
    assert_eq!(escape_xml("&amp;"), "&amp;amp;");
}

#[test]
fn empty_document_svg() {
    let d = Document::new(640, 480);
    assert_eq!(
        document_to_svg(&d, &vec![]),
        "<svg xmlns=\"http://www.w3.org/2000/svg\" width=\"640\" height=\"480\" viewBox=\"0 0 640 480\">\n  <rect width=\"640\" height=\"480\" fill=\"#1E1E1E\"/>\n</svg>\n"
    );
}

#[test]
fn svg_skips_hidden_objects() {
    let mut d = Document::new(1, 2);
    d.add_object(ObjectData::new("a".into(), ObjectKind::Rectangle));
    d.add_object(ObjectData::new("b".into(), ObjectKind::Rectangle));
    d.add_object(ObjectData::new("c".into(), ObjectKind::Rectangle));
    d.objects[1].visible = false;
    let svg = document_to_svg(&d, &vec!["A\n".to_string(), "B\n".to_string(), "C\n".to_string()]);
    assert!(svg.ends_with("/>\nA\nC\n</svg>\n"));
    assert!(!svg.contains("B\n"));
}

#[test]
fn escape_xml_leaves_plain_text() {
    let s = "Plain text, 100% (ok)";
    assert_eq!(escape_xml(s), s);
}
