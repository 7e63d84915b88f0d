use afm::conflict::{
    move_with_conflict, needs_times, numbered_name, resolve_conflict, Moment, MovePlan,
};
use afm::policy::ConflictPolicy;

fn at(secs: i64, nanos: u32) -> Moment {
    Moment { secs, nanos }
}

#[test]
fn free_path_is_taken_as_it_is() {
    let r = resolve_conflict("/d/a.txt", false, ConflictPolicy::Rename, Some("a"), Some("txt"), |_| {
        panic!("no name is to be looked for")
    });
    assert_eq!(r, Ok(None));
}

#[test]
fn only_renaming_looks_for_another_name() {
    for policy in [ConflictPolicy::Skip, ConflictPolicy::Overwrite, ConflictPolicy::Newest] {
        let r = resolve_conflict("/d/a.txt", true, policy, Some("a"), Some("txt"), |_| {
            panic!("no name is to be looked for")
        });
        assert_eq!(r, Ok(None));
    }
}

#[test]
fn first_free_name_is_found() {
    let taken = ["a (1).txt", "a (2).txt", "a (4).txt"];
    let r = resolve_conflict("/d/a.txt", true, ConflictPolicy::Rename, Some("a"), Some("txt"), |n| {
        taken.contains(&n)
    });
    assert_eq!(r, Ok(Some("a (3).txt".to_string())));
}

#[test]
fn names_without_stem_or_extension() {
    assert_eq!(numbered_name(None, None, 7), "file (7)");
    assert_eq!(numbered_name(Some("README"), None, 1), "README (1)");
    assert_eq!(numbered_name(None, Some("gz"), 12), "file (12).gz");
}

#[test]
fn search_for_a_name_gives_up() {
    let r = resolve_conflict("/d/a.txt", true, ConflictPolicy::Rename, Some("a"), Some("txt"), |_| true);
    assert_eq!(r, Err("could not find available duplicate name for /d/a.txt".to_string()));
}

#[test]
fn last_name_that_is_tried_has_four_digits() {
    let r = resolve_conflict("/d/a", true, ConflictPolicy::Rename, Some("a"), None, |n| {
        n != "a (9999)"
    });
    assert_eq!(r, Ok(Some("a (9999)".to_string())));
    let r = resolve_conflict("/d/a", true, ConflictPolicy::Rename, Some("a"), None, |n| {
        n != "a (10000)"
    });
    assert!(r.is_err());
}

#[test]
fn free_destination_is_moved_to() {
    for policy in [
        ConflictPolicy::Skip,
        ConflictPolicy::Overwrite,
        ConflictPolicy::Rename,
        ConflictPolicy::Newest,
    ] {
        assert_eq!(move_with_conflict(false, policy, None), MovePlan::Move);
        assert!(!needs_times(false, policy));
    }
}

#[test]
fn taken_destination_follows_the_policy() {
    assert_eq!(move_with_conflict(true, ConflictPolicy::Skip, None), MovePlan::Leave);
    assert_eq!(move_with_conflict(true, ConflictPolicy::Overwrite, None), MovePlan::Replace);
    assert_eq!(move_with_conflict(true, ConflictPolicy::Rename, None), MovePlan::Move);
    assert!(needs_times(true, ConflictPolicy::Newest));
    assert!(!needs_times(true, ConflictPolicy::Skip));
}

#[test]
fn only_an_older_file_is_replaced() {
    let older = at(10, 5);
    let newer = at(10, 6);
    let plan = |src, dest| move_with_conflict(true, ConflictPolicy::Newest, Some((src, dest)));
    assert_eq!(plan(newer, older), MovePlan::Replace);
    assert_eq!(plan(older, newer), MovePlan::Leave);
    assert_eq!(plan(older, older), MovePlan::Leave);
    assert_eq!(plan(at(-1, 0), at(0, 0)), MovePlan::Leave);
}

#[test]
fn moments_count_nanoseconds() {
    assert_eq!(at(2, 3).as_nanos(), 2_000_000_003);
    assert_eq!(at(-1, 1).as_nanos(), -999_999_999);
}
