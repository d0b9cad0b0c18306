use ggez_assets_manager::layers::{
    list_layered, read_layered, unique_names, RootResult, SourceError,
};

fn found(text: &str) -> RootResult<Vec<u8>> {
    RootResult::Found(text.as_bytes().to_vec())
}

#[test]
fn first_root_wins() {
    let r = read_layered(vec![found("one"), found("two")]);
    assert!(matches!(r, Ok(ref b) if b.as_slice() == b"one"));
}

#[test]
fn absent_first_root_falls_through() {
    let r = read_layered(vec![RootResult::Absent, found("two")]);
    assert!(matches!(r, Ok(ref b) if b.as_slice() == b"two"));
}

#[test]
fn failed_root_falls_through() {
    let r = read_layered(vec![RootResult::Failed(SourceError::NotFound), found("two")]);
    assert!(matches!(r, Ok(ref b) if b.as_slice() == b"two"));
}

#[test]
fn last_error_is_returned() {
    let r = read_layered::<Vec<u8>>(vec![
        RootResult::Failed(SourceError::Other(String::from("denied"))),
        RootResult::Absent,
        RootResult::Failed(SourceError::NotFound),
        RootResult::Absent,
    ]);
    assert!(matches!(r, Err(SourceError::NotFound)));
}

#[test]
fn all_roots_absent_is_no_valid_source() {
    let r = read_layered::<Vec<u8>>(vec![RootResult::Absent, RootResult::Absent]);
    assert!(matches!(r, Err(SourceError::NoValidSource)));
    let r = read_layered::<Vec<u8>>(vec![]);
    assert!(matches!(r, Err(SourceError::NoValidSource)));
}

#[test]
fn listing_is_union_of_roots() {
    let r = list_layered(vec![
        RootResult::Found(vec![1u8, 2]),
        RootResult::Failed(SourceError::NotFound),
        RootResult::Absent,
        RootResult::Found(vec![3u8]),
    ]);
    assert!(matches!(r, Ok(ref v) if v == &vec![1u8, 2, 3]));
}

#[test]
fn listing_with_no_root_fails_with_last_error() {
    let r = list_layered::<u8>(vec![
        RootResult::Failed(SourceError::NotFound),
        RootResult::Failed(SourceError::Other(String::from("io"))),
    ]);
    assert!(matches!(r, Err(SourceError::Other(ref m)) if m == "io"));
    let r = list_layered::<u8>(vec![RootResult::Absent]);
    assert!(matches!(r, Err(SourceError::NoValidSource)));
}

#[test]
fn repeated_names_are_kept_once() {
    let files = vec![
        (String::from("a.png"), false),
        (String::from("b"), true),
        (String::from("a.png"), false),
        (String::from("c.wgsl"), false),
        (String::from("b"), true),
    ];
    let kept = unique_names(files);
    assert_eq!(
        kept,
        vec![
            (String::from("a.png"), false),
            (String::from("b"), true),
            (String::from("c.wgsl"), false),
        ]
    );
    assert!(unique_names(vec![]).is_empty());
}
