use jpg_cleanup::filename::Filename;

fn rec(name: &str) -> Filename {
    Filename::from_full_name(name.to_string())
}

#[test]
fn splits_name_and_extension() {
    let f = rec("img001.arw");
    assert_eq!(f.filename, "img001.arw");
    assert_eq!(f.name, "img001");
    assert_eq!(f.extension, "arw");
}

#[test]
fn extension_is_lowercased() {
    let f = rec("IMG.ARW");
    assert_eq!(f.filename, "IMG.ARW");
    assert_eq!(f.name, "IMG");
    assert_eq!(f.extension, "arw");
}

#[test]
fn mixed_case_extension_is_lowercased() {
    let f = rec("photo.JpEg");
    assert_eq!(f.name, "photo");
    assert_eq!(f.extension, "jpeg");
}

#[test]
fn name_without_dot_is_all_stem() {
    let f = rec("file");
    assert_eq!(f.filename, "file");
    assert_eq!(f.name, "file");
    assert_eq!(f.extension, "");
}

#[test]
fn only_the_final_dot_splits() {
    let f = rec("a.b.c");
    assert_eq!(f.name, "a.b");
    assert_eq!(f.extension, "c");
}

#[test]
fn empty_name_gives_empty_record() {
    let f = rec("");
    assert_eq!(f.filename, "");
    assert_eq!(f.name, "");
    assert_eq!(f.extension, "");
}

#[test]
fn leading_dot_name_splits_at_its_dot() {
    let f = rec(".hidden");
    assert_eq!(f.name, "");
    assert_eq!(f.extension, "hidden");
}

#[test]
fn trailing_dot_gives_empty_extension() {
    let f = rec("file.");
    assert_eq!(f.name, "file");
    assert_eq!(f.extension, "");
}
