use assignments::interlinker::scanner::{anchor_href, Attribute};

fn attribute(key: &str, value: &str) -> Attribute {
    Attribute { key: key.as_bytes().to_vec(), value: value.as_bytes().to_vec() }
}

#[test]
fn the_first_href_of_an_anchor_is_the_candidate() {
    let attributes = vec![
        attribute("class", "x"),
        attribute("href", "https://b.example/x"),
        attribute("href", "https://c.example/"),
    ];
    assert_eq!(
        anchor_href(&b"a".to_vec(), &attributes),
        Some(&b"https://b.example/x".to_vec())
    );
}

#[test]
fn other_tags_and_anchors_without_href_have_no_candidate() {
    let attributes = vec![attribute("href", "https://b.example/x")];
    assert_eq!(anchor_href(&b"link".to_vec(), &attributes), None);
    assert_eq!(anchor_href(&b"A".to_vec(), &attributes), None);
    assert_eq!(anchor_href(&b"".to_vec(), &attributes), None);
    assert_eq!(anchor_href(&b"a".to_vec(), &vec![attribute("HREF", "x"), attribute("hre", "y")]), None);
    assert_eq!(anchor_href(&b"a".to_vec(), &Vec::new()), None);
}
