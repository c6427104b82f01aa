use mersh::tag::TagSet;

#[test]
fn get_registered_indexes() {
    let tag_set = TagSet::default();
    let indexes = tag_set.get_registered_indexes(&"tag_name_0".to_string());
    assert_eq!(indexes, None);
}

#[test]
fn register() {
    let mut tag_set = TagSet::default();
    let name0 = String::from("tag_name_0");
    let name1 = String::from("tag_name_1");
    let name2 = String::from("tag_name_2");

    tag_set.register(&name0, 0);
    tag_set.register(&name0, 85);
    tag_set.register(&name1, 2);

    match tag_set.get_registered_indexes(&name0) {
        Some(indexes) => {
            assert_eq!(indexes[0], 0);
            assert_eq!(indexes[1], 85);
        }
        None => {
            assert!(false);
        }
    }

    match tag_set.get_registered_indexes(&name1) {
        Some(indexes) => {
            assert_eq!(indexes[0], 2);
        }
        None => {
            assert!(false);
        }
    }

    if let Some(_) = tag_set.get_registered_indexes(&name2) {
        assert!(false);
    }
}

#[test]
fn register_keeps_the_order_and_the_repeats() {
    let mut tag_set = TagSet::default();
    tag_set.register("wall", 7);
    tag_set.register("inlet", 1);
    tag_set.register("wall", 3);
    tag_set.register("wall", 7);
    assert_eq!(tag_set.get_registered_indexes("wall"), Some(&vec![7, 3, 7]));
    assert_eq!(tag_set.get_registered_indexes("inlet"), Some(&vec![1]));
    assert_eq!(tag_set.get_registered_indexes("outlet"), None);
    // Names are told apart to the letter.
    assert_eq!(tag_set.get_registered_indexes("Wall"), None);
    assert_eq!(tag_set.get_registered_indexes(""), None);
    tag_set.register("", 0);
    assert_eq!(tag_set.get_registered_indexes(""), Some(&vec![0]));
}

#[test]
fn names_holds_each_name_once() {
    let mut tag_set = TagSet::default();
    assert!(tag_set.names().is_empty());
    tag_set.register("wall", 7);
    tag_set.register("inlet", 1);
    tag_set.register("wall", 3);
    let mut names = tag_set.names();
    names.sort();
    assert_eq!(names, vec!["inlet".to_string(), "wall".to_string()]);
}
