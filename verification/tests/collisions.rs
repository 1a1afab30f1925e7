use exif_sorter::collision::{
    claims_target, first_free_target, holds_target, resolve_collisions, Target,
};
use exif_sorter::date::Date;
use exif_sorter::image::{Image, Status, Tier};
use exif_sorter::sorter::{claim_of, search_for_duplicates};

fn target(directory: &str, filename: &str, filetype: Option<&str>) -> Target {
    Target {
        directory: directory.to_string(),
        filename: filename.to_string(),
        filetype: filetype.map(|e| e.to_string()),
    }
}

fn photo(stem: &str) -> Option<Target> {
    Some(target("/out/2024-01-01", stem, Some("jpg")))
}

/// A record that asks for `directory/stem.jpg`.
fn planned(source: &str, directory: &str, stem: &str) -> Image {
    let mut image = Image::new(source.to_string());
    image.resolved_date = Date::from_ymd_opt(2024, 1, 1);
    image.tier = Some(Tier::Embedded);
    image.target_path = directory.to_string();
    image.target_filename = Some(stem.to_string());
    image.target_filetype = Some("jpg".to_string());
    image.status = Status::Resolved;
    image
}

fn stems(files: &Vec<Image>) -> Vec<String> {
    files.iter().map(|f| f.target_filename.clone().unwrap()).collect()
}

#[test]
fn targets_are_the_same_where_all_parts_are() {
    let a = target("/out", "photo", Some("jpg"));
    assert!(a.same_as(&target("/out", "photo", Some("jpg"))));
    assert!(!a.same_as(&target("/out2", "photo", Some("jpg"))));
    assert!(!a.same_as(&target("/out", "photo_1", Some("jpg"))));
    assert!(!a.same_as(&target("/out", "photo", Some("png"))));
    assert!(!a.same_as(&target("/out", "photo", None)));
    assert!(target("/out", "photo", None).same_as(&target("/out", "photo", None)));
    assert_eq!(a.duplicate(), a);
}

#[test]
fn a_counter_goes_behind_the_stem() {
    let a = target("/out", "photo", Some("jpg"));
    assert_eq!(a.with_counter(1), target("/out", "photo_1", Some("jpg")));
    assert_eq!(a.with_counter(12), target("/out", "photo_12", Some("jpg")));
    assert_eq!(target("/out", "noext", None).with_counter(3), target("/out", "noext_3", None));
}

#[test]
fn membership_is_by_all_parts() {
    let pool = vec![target("/out", "a", Some("jpg")), target("/out", "b", None)];
    assert!(holds_target(&pool, &target("/out", "a", Some("jpg"))));
    assert!(holds_target(&pool, &target("/out", "b", None)));
    assert!(!holds_target(&pool, &target("/out", "b", Some("jpg"))));
    assert!(!holds_target(&Vec::new(), &target("/out", "a", Some("jpg"))));
    let claims = vec![photo("a"), None, photo("b")];
    assert!(claims_target(&claims, 3, &photo("b").unwrap()));
    assert!(!claims_target(&claims, 2, &photo("b").unwrap()));
    assert!(claims_target(&claims, 1, &photo("a").unwrap()));
    assert!(!claims_target(&claims, 0, &photo("a").unwrap()));
}

#[test]
fn the_first_free_counter_is_the_least() {
    let key = photo("photo").unwrap();
    let none: Vec<Target> = Vec::new();
    assert_eq!(first_free_target(&key, &vec![photo("photo")], &none, &none), photo("photo_1").unwrap());
    assert_eq!(
        first_free_target(&key, &vec![photo("photo"), photo("photo_1")], &none, &none),
        photo("photo_2").unwrap()
    );
    assert_eq!(
        first_free_target(&key, &vec![photo("photo")], &vec![photo("photo_1").unwrap()], &vec![photo("photo_2").unwrap()]),
        photo("photo_3").unwrap()
    );
    assert_eq!(
        first_free_target(&key, &vec![photo("photo_2")], &none, &none),
        photo("photo_1").unwrap()
    );
}

#[test]
fn two_files_with_one_name_get_photo_and_photo_1() {
    let mut files = vec![
        planned("/in/a/photo.jpg", "/out/2024-01-01", "photo"),
        planned("/in/b/photo.jpg", "/out/2024-01-01", "photo"),
    ];
    search_for_duplicates(&mut files, &Vec::new(), false);
    assert_eq!(stems(&files), vec!["photo", "photo_1"]);
    assert_eq!(files[0].status, Status::Resolved);
    assert_eq!(files[1].status, Status::Collided);
    assert_eq!(files[1].target_path, "/out/2024-01-01");
    assert_eq!(files[1].target_filetype, Some("jpg".to_string()));
    assert_eq!(files[1].source_path, "/in/b/photo.jpg");
}

#[test]
fn the_second_gets_1_the_third_2_and_so_on() {
    let claims = vec![photo("photo"), photo("photo"), photo("photo"), photo("photo"), photo("photo")];
    let resolved = resolve_collisions(&claims, &Vec::new());
    assert_eq!(
        resolved,
        vec![photo("photo"), photo("photo_1"), photo("photo_2"), photo("photo_3"), photo("photo_4")]
    );
    let again = resolve_collisions(&claims, &Vec::new());
    assert_eq!(again, resolved);
}

#[test]
fn counters_go_past_nine() {
    let mut claims: Vec<Option<Target>> = Vec::new();
    for _ in 0..12 {
        claims.push(photo("photo"));
    }
    let resolved = resolve_collisions(&claims, &Vec::new());
    assert_eq!(resolved[9], photo("photo_9"));
    assert_eq!(resolved[10], photo("photo_10"));
    assert_eq!(resolved[11], photo("photo_11"));
}

#[test]
fn groups_are_counted_apart() {
    let other = Some(target("/out/2024-01-02", "photo", Some("jpg")));
    let claims = vec![photo("a"), other.clone(), photo("b"), photo("a"), other.clone(), photo("a"), photo("b")];
    let resolved = resolve_collisions(&claims, &Vec::new());
    assert_eq!(
        resolved,
        vec![
            photo("a"),
            other,
            photo("b"),
            photo("a_1"),
            Some(target("/out/2024-01-02", "photo_1", Some("jpg"))),
            photo("a_2"),
            photo("b_1"),
        ]
    );
}

#[test]
fn a_record_that_takes_no_part_is_passed_by() {
    let claims = vec![photo("a"), None, photo("a"), None];
    let resolved = resolve_collisions(&claims, &Vec::new());
    assert_eq!(resolved, vec![photo("a"), None, photo("a_1"), None]);
    assert_eq!(resolve_collisions(&Vec::new(), &Vec::new()), Vec::new());
}

#[test]
fn a_name_that_is_nobodys_else_is_never_changed() {
    let claims = vec![photo("photo"), photo("photo"), photo("photo_1")];
    let resolved = resolve_collisions(&claims, &Vec::new());
    assert_eq!(resolved, vec![photo("photo"), photo("photo_2"), photo("photo_1")]);
    let claims = vec![photo("photo_1"), photo("photo"), photo("photo"), photo("photo")];
    let resolved = resolve_collisions(&claims, &Vec::new());
    assert_eq!(resolved, vec![photo("photo_1"), photo("photo"), photo("photo_2"), photo("photo_3")]);
}

#[test]
fn a_file_on_disk_counts_as_a_collision() {
    let existing = vec![photo("photo").unwrap()];
    let claims = vec![photo("photo"), photo("photo"), photo("other")];
    let resolved = resolve_collisions(&claims, &existing);
    assert_eq!(resolved, vec![photo("photo_1"), photo("photo_2"), photo("other")]);
    let existing = vec![photo("photo").unwrap(), photo("photo_1").unwrap()];
    let resolved = resolve_collisions(&claims, &existing);
    assert_eq!(resolved, vec![photo("photo_2"), photo("photo_3"), photo("other")]);
}

#[test]
fn resolving_twice_gives_what_resolving_once_gives() {
    let existing = vec![photo("b").unwrap(), photo("a_2").unwrap()];
    let claims = vec![photo("a"), photo("b"), photo("a"), None, photo("a_1"), photo("a"), photo("b"), photo("a")];
    let once = resolve_collisions(&claims, &existing);
    let twice = resolve_collisions(&once, &existing);
    assert_eq!(twice, once);
    assert_eq!(
        once,
        vec![photo("a"), photo("b_1"), photo("a_3"), None, photo("a_1"), photo("a_4"), photo("b_2"), photo("a_5")]
    );
    for i in 0..once.len() {
        for j in 0..once.len() {
            if i != j && once[i].is_some() {
                assert_ne!(once[i], once[j]);
            }
        }
        if let Some(t) = &once[i] {
            assert!(!holds_target(&existing, t));
        }
    }
}

#[test]
fn a_batch_that_went_through_once_goes_through_unchanged() {
    let mut files = vec![
        planned("/in/a/photo.jpg", "/out/2024-01-01", "photo"),
        planned("/in/b/photo.jpg", "/out/2024-01-01", "photo"),
        planned("/in/c/photo.jpg", "/out/2024-01-02", "photo"),
        planned("/in/d/photo.jpg", "/out/2024-01-01", "photo"),
        planned("/in/e/photo_1.jpg", "/out/2024-01-01", "photo_1"),
    ];
    let existing = vec![target("/out/2024-01-02", "photo", Some("jpg"))];
    search_for_duplicates(&mut files, &existing, false);
    assert_eq!(stems(&files), vec!["photo", "photo_2", "photo_1", "photo_3", "photo_1"]);
    let once = files.clone();
    search_for_duplicates(&mut files, &existing, false);
    assert_eq!(files, once);
}

#[test]
fn a_dry_run_does_not_look_at_the_disk() {
    let existing = vec![photo("photo").unwrap()];
    let mut files = vec![
        planned("/in/a/photo.jpg", "/out/2024-01-01", "photo"),
        planned("/in/b/photo.jpg", "/out/2024-01-01", "photo"),
    ];
    search_for_duplicates(&mut files, &existing, true);
    assert_eq!(stems(&files), vec!["photo", "photo_1"]);
    let mut files = vec![
        planned("/in/a/photo.jpg", "/out/2024-01-01", "photo"),
        planned("/in/b/photo.jpg", "/out/2024-01-01", "photo"),
    ];
    search_for_duplicates(&mut files, &existing, false);
    assert_eq!(stems(&files), vec!["photo_1", "photo_2"]);
    assert_eq!(files[0].status, Status::Collided);
}

#[test]
fn only_records_with_a_target_ask_for_one() {
    let mut image = Image::new("/in/photo.jpg".to_string());
    assert_eq!(claim_of(&image), None);
    image.status = Status::Resolved;
    assert_eq!(claim_of(&image), None);
    let image = planned("/in/photo.jpg", "/out", "photo");
    assert_eq!(claim_of(&image), Some(target("/out", "photo", Some("jpg"))));
    let mut moved = planned("/in/photo.jpg", "/out", "photo");
    moved.status = Status::Moved;
    assert_eq!(claim_of(&moved), None);
    let mut failed = planned("/in/photo.jpg", "/out", "photo");
    failed.status = Status::Failed;
    assert_eq!(claim_of(&failed), None);
}

#[test]
fn failed_and_pending_records_keep_out_of_collisions() {
    let mut failed = planned("/in/a/photo.jpg", "/out", "photo");
    failed.status = Status::Failed;
    let pending = Image::new("/in/b/photo.jpg".to_string());
    let mut files = vec![failed, pending, planned("/in/c/photo.jpg", "/out", "photo")];
    let before = files.clone();
    search_for_duplicates(&mut files, &Vec::new(), false);
    assert_eq!(files, before);
}
