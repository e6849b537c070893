use render_engine::game_loader::history_layout;

#[test]
fn lookup_lines_give_consecutive_parts() {
    let layout = history_layout(b"12\n34\n5\n6\n", 57).unwrap();
    assert_eq!(layout.ecs_bytes, (0, 12));
    assert_eq!(layout.tree_bytes, (12, 46));
    assert_eq!(layout.change_bytes, vec![(46, 51), (51, 57)]);
}

#[test]
fn lookup_without_changes_and_with_a_plus_sign() {
    let layout = history_layout(b"+3\n4\n", 10).unwrap();
    assert_eq!(layout.ecs_bytes, (0, 3));
    assert_eq!(layout.tree_bytes, (3, 7));
    assert!(layout.change_bytes.is_empty());
}

#[test]
fn last_line_is_not_read() {
    let layout = history_layout(b"1\n2\n3\nnot a size", 6).unwrap();
    assert_eq!(layout.change_bytes, vec![(3, 6)]);
}

#[test]
fn malformed_lookups_are_refused() {
    // no line after the tree's size
    assert!(history_layout(b"3\n4", 7).is_none());
    // a size that is not a number
    assert!(history_layout(b"3x\n4\n", 7).is_none());
    assert!(history_layout(b"+\n4\n", 7).is_none());
    assert!(history_layout(b"-3\n4\n", 7).is_none());
    // a size that does not fit in usize
    assert!(history_layout(b"99999999999999999999999\n1\n", 7).is_none());
    // parts beyond the end of the file
    assert!(history_layout(b"3\n4\n", 6).is_none());
    assert!(history_layout(b"", 0).is_none());
}
