use pr_attribution::{ClaudePrAttributionModel, DirectoryEntry};

fn file(name: &str, contents: &str) -> DirectoryEntry {
    DirectoryEntry {
        is_file: true,
        name: Some(name.to_string()),
        contents: Some(contents.to_string()),
    }
}

fn loaded(entries: Vec<DirectoryEntry>) -> ClaudePrAttributionModel {
    let mut model = ClaudePrAttributionModel::new();
    model.reload(Some(&entries));
    model
}

#[test]
fn a_new_model_knows_of_nothing() {
    let model = ClaudePrAttributionModel::new();
    assert!(model.prs_for(&[0, 1]).is_empty());
    assert!(model.prs_for_hex("0001").is_empty());
    assert!(model.prs_for_hex("").is_empty());
}

#[test]
fn sessions_are_found_by_uuid_and_by_key() {
    let model = loaded(vec![file("0102030f10", "u1\nu2\tT\n"), file("ff00", "u3\n")]);
    assert_eq!(model.prs_for(&[1, 2, 3, 15, 16]), vec!["u1", "u2"]);
    assert_eq!(model.prs_for_hex("0102030f10"), vec!["u1", "u2"]);
    assert_eq!(model.prs_for(&[0xff, 0]), vec!["u3"]);
    assert!(model.prs_for_hex("FF00").is_empty());
    assert!(model.prs_for(&[0xff]).is_empty());
}

#[test]
fn every_byte_has_its_two_digits() {
    for byte in 0..=255u8 {
        let key = format!("{byte:02x}{:02x}", 255 - byte);
        let model = loaded(vec![file(&key, "u\n")]);
        assert_eq!(model.prs_for(&[byte, 255 - byte]), vec!["u"], "{key}");
    }
}

#[test]
fn only_readable_files_with_urls_count() {
    let model = loaded(vec![
        DirectoryEntry {
            is_file: false,
            name: Some("aa".to_string()),
            contents: Some("u\n".to_string()),
        },
        DirectoryEntry {
            is_file: true,
            name: None,
            contents: Some("u\n".to_string()),
        },
        DirectoryEntry {
            is_file: true,
            name: Some("bb".to_string()),
            contents: None,
        },
        file("cc", "\n \n\tT\n"),
        file("dd", "u\n"),
    ]);
    assert!(model.prs_for_hex("aa").is_empty());
    assert!(model.prs_for_hex("bb").is_empty());
    assert!(model.prs_for_hex("cc").is_empty());
    assert_eq!(model.prs_for_hex("dd"), vec!["u"]);
}

#[test]
fn a_reload_forgets_what_is_gone() {
    let mut model = loaded(vec![file("aa", "u\n"), file("bb", "v\n")]);
    model.reload(Some(&vec![file("bb", "w\n")]));
    assert!(model.prs_for_hex("aa").is_empty());
    assert_eq!(model.prs_for_hex("bb"), vec!["w"]);
    model.reload(None);
    assert!(model.prs_for_hex("bb").is_empty());
}

#[test]
fn the_order_of_a_listing_does_not_matter() {
    let one = loaded(vec![file("aa", "u\n"), file("bb", "v\nw\n")]);
    let other = loaded(vec![file("bb", "v\nw\n"), file("aa", "u\n")]);
    for key in ["aa", "bb", "cc"] {
        assert_eq!(one.prs_for_hex(key), other.prs_for_hex(key));
    }
}

#[test]
fn of_two_records_with_one_name_the_later_counts() {
    let model = loaded(vec![file("aa", "u\n"), file("aa", "v\n"), file("aa", "\n")]);
    assert_eq!(model.prs_for_hex("aa"), vec!["v"]);
}

#[test]
fn urls_that_are_set_are_read_back() {
    let mut model = loaded(vec![file("aa", "u\n"), file("bb", "v\n")]);
    model.set_prs_for_hex("aa", vec!["x".to_string(), "y".to_string()]);
    assert_eq!(model.prs_for(&[0xaa]), vec!["x", "y"]);
    assert_eq!(model.prs_for_hex("bb"), vec!["v"]);
    model.set_prs_for_hex("aa", Vec::new());
    assert!(model.prs_for_hex("aa").is_empty());
    model.set_prs_for_hex("cc", vec!["z".to_string()]);
    assert_eq!(model.prs_for_hex("cc"), vec!["z"]);
}

#[test]
fn sessions_with_other_uuids_are_not_touched() {
    let mut model = ClaudePrAttributionModel::new();
    model.set_prs_for_hex("0a10", vec!["u".to_string()]);
    assert_eq!(model.prs_for(&[0x0a, 0x10]), vec!["u"]);
    assert!(model.prs_for(&[0xa1]).is_empty());
    assert!(model.prs_for(&[0xa1, 0x00]).is_empty());
    assert!(model.prs_for(&[0x0a, 0x10, 0x00]).is_empty());
}
