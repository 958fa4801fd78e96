use pond::trigger::split_droplet_trigger;

fn split(s: &str) -> Option<(String, String)> {
    split_droplet_trigger(s.as_bytes())
        .map(|(x, y)| (String::from_utf8(x).unwrap(), String::from_utf8(y).unwrap()))
}

#[test]
fn splits_coordinates() {
    assert_eq!(split("droplet:0.25,0.75"), Some(("0.25".to_string(), "0.75".to_string())));
}

#[test]
fn ignores_fields_after_second_comma() {
    assert_eq!(split("droplet:1,2,3"), Some(("1".to_string(), "2".to_string())));
}

#[test]
fn empty_fields_are_kept() {
    assert_eq!(split("droplet:,"), Some((String::new(), String::new())));
    assert_eq!(split("droplet:0.5,"), Some(("0.5".to_string(), String::new())));
}

#[test]
fn rejects_missing_prefix_or_comma() {
    assert_eq!(split("drop:0.5,0.5"), None);
    assert_eq!(split("Droplet:0.5,0.5"), None);
    assert_eq!(split("droplet"), None);
    assert_eq!(split("droplet:0.5"), None);
    assert_eq!(split(""), None);
    assert_eq!(split("x droplet:1,2"), None);
}
