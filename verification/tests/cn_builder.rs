use classlist_core::cn_builder::{CnBuilder, CnPart};

#[test]
fn builder_of_nothing_is_empty() {
    assert_eq!(CnBuilder::new().to_classlist(), "");
}

#[test]
fn builder_takes_every_shape_of_part() {
    let qw: Option<&str> = Some("item");
    let qw2: Option<&str> = None;
    let classlist = CnBuilder::new()
        .add("item")
        .add(String::from("test"))
        .add(qw)
        .add(qw2)
        .add(Some("aaa"))
        .add((true, "true-once"))
        .add((false, "false-once"))
        .add((true, "true-two", "false-two"))
        .add((false, "true-two", "false-two"))
        .to_classlist();
    assert_eq!(classlist, "test item aaa true-once true-two false-two");
}

#[test]
fn optional_part_counts_once_at_its_last_feed() {
    let present: Option<&str> = Some("item");
    let absent: Option<&str> = None;
    let classlist = CnBuilder::new()
        .add(present)
        .add("other")
        .add(absent)
        .add(present)
        .to_classlist();
    assert_eq!(classlist, "other item");
}

#[test]
fn owned_optional_part() {
    let classlist = CnBuilder::new()
        .add(Some(String::from("from-row")))
        .add(None::<String>)
        .to_classlist();
    assert_eq!(classlist, "from-row");
}

#[test]
fn part_from_a_condition() {
    let yes: CnPart = (true, "a", "b").into();
    let no: CnPart = (false, "a", "b").into();
    let none: CnPart = (false, "a").into();
    assert_eq!(CnBuilder::new().add(yes).add(no).add(none).to_classlist(), "a b");
}
