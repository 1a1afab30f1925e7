use exif_sorter::path::{
    file_name, file_name_from, find_last, find_last_before, join_path, parent, split_file_name,
    trimmed_length, within,
};

#[test]
fn the_last_occurrence_is_found() {
    assert_eq!(find_last(&vec!['a', '.', 'b', '.', 'c'], '.'), Some(3));
    assert_eq!(find_last(&vec!['a', 'b'], '.'), None);
    assert_eq!(find_last(&Vec::new(), '.'), None);
    assert_eq!(find_last(&vec!['.'], '.'), Some(0));
}

#[test]
fn the_file_name_follows_the_last_separator() {
    assert_eq!(file_name("/tmp/images/DSC_1234.NEF"), "DSC_1234.NEF");
    assert_eq!(file_name("photo.jpg"), "photo.jpg");
    assert_eq!(file_name("./a/b"), "b");
    assert_eq!(file_name(""), "");
}

#[test]
fn separators_at_the_end_do_not_count() {
    assert_eq!(file_name("/tmp/images/"), "images");
    assert_eq!(file_name("a/"), "a");
    assert_eq!(file_name("a//"), "a");
    assert_eq!(file_name("a/b/."), "b");
    assert_eq!(file_name("a/b/./"), "b");
    assert_eq!(file_name("a/b/.//./"), "b");
    assert_eq!(file_name("a/b."), "b.");
    assert_eq!(file_name("a/.b"), ".b");
}

#[test]
fn dots_and_the_root_are_no_file_names() {
    assert_eq!(file_name("/"), "");
    assert_eq!(file_name("//"), "");
    assert_eq!(file_name("."), "");
    assert_eq!(file_name("./"), "");
    assert_eq!(file_name("/."), "");
    assert_eq!(file_name(".."), "");
    assert_eq!(file_name("a/.."), "");
    assert_eq!(file_name("a/../"), "");
    assert_eq!(file_name("a/..."), "...");
    assert_eq!(file_name("a/..b"), "..b");
}

#[test]
fn the_file_name_is_the_one_of_the_standard_library() {
    let paths: Vec<&str> = vec![
        "/tmp/images/DSC_1234.NEF", "/tmp/images/", "/tmp/images", "photo.jpg", "./a/b", "a/", "a//", "a/b/.",
        "a/b/./", "a/./b", "/", "//", ".", "./", "/.", "..", "a/..", "a/../", "../a", "a/...", "a/..b", "",
        "a/b.", ".hidden", "./.hidden/", "/a", "a/.//./", ".//.", "/./a/",
    ];
    for path in paths {
        let theirs = std::path::Path::new(path).file_name().and_then(|n| n.to_str()).unwrap_or("");
        assert_eq!(file_name(path), theirs, "for {:?}", path);
    }
}

#[test]
fn what_does_not_count_at_the_end_is_measured() {
    assert_eq!(trimmed_length(&vec!['a', '/', 'b', '/', '.', '/']), 3);
    assert_eq!(trimmed_length(&vec!['a', '/', 'b']), 3);
    assert_eq!(trimmed_length(&vec!['/']), 0);
    assert_eq!(trimmed_length(&vec!['.']), 1);
    assert_eq!(trimmed_length(&vec!['a', '.']), 2);
    assert_eq!(trimmed_length(&Vec::new()), 0);
    assert_eq!(find_last_before(&vec!['a', '/', 'b', '/', 'c'], 3, '/'), Some(1));
    assert_eq!(find_last_before(&vec!['a', '/', 'b', '/', 'c'], 5, '/'), Some(3));
    assert_eq!(find_last_before(&vec!['a', '/', 'b', '/', 'c'], 1, '/'), None);
    assert_eq!(find_last_before(&vec!['a', '/', 'b', '/', 'c'], 0, '/'), None);
}

#[test]
fn the_parent_precedes_the_last_separator() {
    assert_eq!(parent("/out/2024-01-01/photo.jpg"), "/out/2024-01-01");
    assert_eq!(parent("photo.jpg"), "");
    assert_eq!(parent("/photo.jpg"), "/");
    assert_eq!(parent("/out/2024-01-01/"), "/out");
    assert_eq!(parent("a/b/."), "a");
    assert_eq!(parent("/"), "");
    assert_eq!(parent(""), "");
}

#[test]
fn a_parent_and_a_file_name_make_the_path_again() {
    let paths: Vec<&str> = vec!["/out/2024-01-01/photo.jpg", "/photo.jpg", "photo.jpg", "a/b", "./a"];
    for path in paths {
        assert_eq!(join_path(&parent(path), &file_name(path)), path);
    }
}

#[test]
fn a_file_name_parts_at_its_last_dot() {
    assert_eq!(split_file_name("photo.jpg"), ("photo".to_string(), Some("jpg".to_string())));
    assert_eq!(split_file_name("a.tar.gz"), ("a.tar".to_string(), Some("gz".to_string())));
    assert_eq!(split_file_name("noext"), ("noext".to_string(), None));
    assert_eq!(split_file_name(".bashrc"), (".bashrc".to_string(), None));
    assert_eq!(split_file_name("a."), ("a".to_string(), Some("".to_string())));
    assert_eq!(split_file_name(""), ("".to_string(), None));
}

#[test]
fn parting_agrees_with_the_standard_library() {
    let names: Vec<&str> = vec!["photo.jpg", "a.tar.gz", "noext", ".bashrc", "a.", "DSC_1.NEF", ".a.b"];
    for name in names {
        let (stem, extension) = split_file_name(name);
        let path = std::path::Path::new(name);
        assert_eq!(Some(stem.as_str()), path.file_stem().and_then(|s| s.to_str()));
        assert_eq!(extension.as_deref(), path.extension().and_then(|s| s.to_str()));
    }
}

#[test]
fn a_stem_and_an_extension_make_a_file_name() {
    assert_eq!(file_name_from("photo", &Some("jpg".to_string())), "photo.jpg");
    assert_eq!(file_name_from("photo_1", &Some("jpg".to_string())), "photo_1.jpg");
    assert_eq!(file_name_from("noext", &None), "noext");
    assert_eq!(file_name_from("a", &Some("".to_string())), "a.");
}

#[test]
fn parting_and_joining_give_the_name_back() {
    let names: Vec<&str> = vec!["photo.jpg", "a.tar.gz", "noext", ".bashrc", "a.", "", ".", ".."];
    for name in names {
        let (stem, extension) = split_file_name(name);
        assert_eq!(file_name_from(stem.as_str(), &extension), name);
    }
}

#[test]
fn joining_puts_one_separator_between() {
    assert_eq!(join_path("/out", "2024-01-01"), "/out/2024-01-01");
    assert_eq!(join_path("/out/", "2024-01-01"), "/out/2024-01-01");
    assert_eq!(join_path("", "photo.jpg"), "photo.jpg");
    assert_eq!(join_path("./sorted", "a"), "./sorted/a");
    assert_eq!(join_path("/", "a"), "/a");
}

#[test]
fn a_path_lies_within_its_ancestors_only() {
    assert!(within("./sorted/2024-01-01/a.jpg", "./sorted"));
    assert!(within("./sorted/a.jpg", "./sorted/"));
    assert!(!within("./sorted", "./sorted"));
    assert!(!within("./sorted2/a.jpg", "./sorted"));
    assert!(!within("./a.jpg", "./sorted"));
    assert!(!within("./sorted/a.jpg", ""));
    assert!(!within("", "./sorted"));
}
