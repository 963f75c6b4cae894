use derive_survey::path::ResponsePath;

#[test]
fn new() {
    let path = ResponsePath::new("name");
    assert_eq!(path.as_str(), "name");
}

#[test]
fn child() {
    let path = ResponsePath::new("address").child("street");
    assert_eq!(path.as_str(), "address.street");
}

#[test]
fn child_from_empty() {
    let path = ResponsePath::empty().child("name");
    assert_eq!(path.as_str(), "name");
}

#[test]
fn strip_prefix() {
    let path = ResponsePath::new("address.street");
    let stripped = path.strip_prefix("address").unwrap();
    assert_eq!(stripped.as_str(), "street");

    assert!(path.strip_prefix("other").is_none());
}

#[test]
fn strip_prefix_exact_match() {
    let path = ResponsePath::new("name");
    let stripped = path.strip_prefix("name").unwrap();
    assert!(stripped.is_empty());
}

#[test]
fn segments() {
    let path = ResponsePath::new("address.location.city");
    let segments: Vec<_> = path.segments();
    assert_eq!(segments, vec!["address", "location", "city"]);
}

#[test]
fn display() {
    let path = ResponsePath::new("address.street");
    assert_eq!(path.to_string(), "address.street");
}

#[test]
fn from_str() {
    let path: ResponsePath = ResponsePath::from_string("address.street".to_string());
    assert_eq!(path.as_str(), "address.street");
}

#[test]
fn child_with_empty_name_keeps_path() {
    let path = ResponsePath::new("address").child("");
    assert_eq!(path.as_str(), "address");
}

#[test]
fn strip_prefix_needs_segment_boundary() {
    let path = ResponsePath::new("addresses.street");
    assert!(path.strip_prefix("address").is_none());
    let deep = ResponsePath::new("a.b.c");
    assert_eq!(deep.strip_prefix("a.b").unwrap().as_str(), "c");
    let root = ResponsePath::new(".x");
    assert_eq!(root.strip_prefix("").unwrap().as_str(), "x");
}

#[test]
fn strip_path_prefix_undoes_child() {
    let base = ResponsePath::new("payment.card");
    let full = base.child("number");
    assert_eq!(full.strip_path_prefix(&base).unwrap().as_str(), "number");
}

#[test]
fn len_counts_pieces() {
    assert_eq!(ResponsePath::empty().len(), 0);
    assert_eq!(ResponsePath::new("a").len(), 1);
    assert_eq!(ResponsePath::new("a.b.c").len(), 3);
    assert_eq!(ResponsePath::new("a..b").len(), 2);
    assert_eq!(ResponsePath::new("a").child("b").len(), 2);
}

#[test]
fn segments_skip_empty_pieces() {
    let path = ResponsePath::new(".a..b.");
    assert_eq!(path.segments(), vec!["a", "b"]);
    assert!(ResponsePath::empty().segments().is_empty());
}

#[test]
fn first_and_last() {
    let path = ResponsePath::new("address.location.city");
    assert_eq!(path.first(), Some("address"));
    assert_eq!(path.last(), Some("city"));
    assert_eq!(ResponsePath::new("a.").last(), Some("a"));
    assert_eq!(ResponsePath::new("a.").len(), 1);
    assert_eq!(ResponsePath::new("a..b").len(), 2);
    assert_eq!(ResponsePath::new(".a").first(), Some("a"));
    assert_eq!(ResponsePath::empty().first(), None);
    assert_eq!(ResponsePath::empty().last(), None);
}

#[test]
fn parent_drops_last_segment() {
    assert_eq!(ResponsePath::new("a.b.c").parent().as_str(), "a.b");
    assert_eq!(ResponsePath::new("a").parent().as_str(), "");
    assert_eq!(ResponsePath::new("x").child("y").parent().as_str(), "x");
}
