use lucide_slint::discovery::read_icon_names;

fn names(entries: &[&str]) -> Vec<String> {
    let v: Vec<String> = entries.iter().map(|e| e.to_string()).collect();
    read_icon_names(&v)
}

#[test]
fn sorted_and_deduplicated() {
    let r = names(&["b.svg", "a.svg", "a.svg", "c.txt", "a.json"]);
    assert_eq!(r, vec!["a".to_string(), "b".to_string()]);
}

#[test]
fn order_independent() {
    let r1 = names(&["zap.svg", "anchor.svg", "bell.svg"]);
    let r2 = names(&["bell.svg", "zap.svg", "anchor.svg"]);
    assert_eq!(r1, r2);
    assert_eq!(
        r1,
        vec!["anchor".to_string(), "bell".to_string(), "zap".to_string()]
    );
}

#[test]
fn non_svg_entries_dropped() {
    let r = names(&["readme.md", "icon.png", ".svg"]);
    // a bare ".svg" entry has an empty stem, which is kept
    assert_eq!(r, vec!["".to_string()]);
}

#[test]
fn empty_listing() {
    let r = names(&[]);
    assert!(r.is_empty());
}
