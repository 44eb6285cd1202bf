use jpg_cleanup::dedup::find_duplicate_file;
use jpg_cleanup::filename::Filename;
use jpg_cleanup::pipeline::select_files_for_deletion;
use jpg_cleanup::scan::{
    get_filenames_of_folder_with_valid_extension, jpg_allowed_extensions, raw_allowed_extensions,
};

fn rec(name: &str) -> Filename {
    Filename::from_full_name(name.to_string())
}

fn recs(names: &[&str]) -> Vec<Filename> {
    names.iter().map(|n| rec(n)).collect()
}

fn full_names(files: &[Filename]) -> Vec<String> {
    files.iter().map(|f| f.filename.clone()).collect()
}

fn stems(files: &[Filename]) -> Vec<String> {
    files.iter().map(|f| f.name.clone()).collect()
}

#[test]
fn test_get_filenames_of_folder_with_valid_extension() {
    let number_of_files = 10;
    let mut listing: Vec<Filename> = Vec::new();
    for i in 0..number_of_files {
        listing.push(rec(&format!("test{}.arw", i)));
    }
    for i in 0..number_of_files {
        listing.push(rec(&format!("test{}.jpg", i)));
    }

    let filenames =
        get_filenames_of_folder_with_valid_extension(listing, &vec!["arw".to_string()]);

    assert_eq!(filenames.len(), number_of_files);
}

#[test]
fn test_get_filename_and_extension() {
    let number_of_raw_files = 10;
    let number_of_jpg_files = 11;
    let mut raw_listing: Vec<Filename> = Vec::new();
    for i in 0..number_of_raw_files {
        raw_listing.push(rec(&format!("test{}.arw", i)));
    }
    let mut jpg_listing: Vec<Filename> = Vec::new();
    for i in 0..number_of_jpg_files {
        jpg_listing.push(rec(&format!("test{}.jpg", i)));
    }

    let raw_files =
        get_filenames_of_folder_with_valid_extension(raw_listing, &vec!["arw".to_string()]);
    let jpg_files =
        get_filenames_of_folder_with_valid_extension(jpg_listing, &vec!["jpg".to_string()]);

    let unused_files_in_jpg_folder = find_duplicate_file(raw_files, jpg_files);

    assert_eq!(
        unused_files_in_jpg_folder.len(),
        number_of_jpg_files - number_of_raw_files
    );
}

#[test]
fn filtered_scan_is_exactly_the_matching_subset() {
    let listing = recs(&["a.arw", "b.jpg", "c.arw", "d.txt", "e"]);
    let kept = get_filenames_of_folder_with_valid_extension(listing, &vec!["arw".to_string()]);
    assert_eq!(full_names(&kept), vec!["a.arw", "c.arw"]);
}

#[test]
fn filtered_scan_of_empty_listing_is_empty() {
    let kept =
        get_filenames_of_folder_with_valid_extension(Vec::new(), &vec!["arw".to_string()]);
    assert_eq!(kept.len(), 0);
}

#[test]
fn filtered_scan_with_zero_matches_is_empty() {
    let listing = recs(&["a.jpg", "b.txt"]);
    let kept = get_filenames_of_folder_with_valid_extension(listing, &vec!["arw".to_string()]);
    assert_eq!(kept.len(), 0);
}

#[test]
fn extension_filter_is_case_insensitive() {
    let listing = recs(&["IMG.ARW"]);
    let kept = get_filenames_of_folder_with_valid_extension(listing, &raw_allowed_extensions());
    assert_eq!(full_names(&kept), vec!["IMG.ARW"]);
}

#[test]
fn allowed_extension_lists_hold_the_layout_contract() {
    let raw: Vec<String> = raw_allowed_extensions();
    let jpg: Vec<String> = jpg_allowed_extensions();
    assert_eq!(raw, vec!["arw".to_string()]);
    assert_eq!(jpg, vec!["jpg".to_string(), "jpeg".to_string()]);
}

#[test]
fn unmatched_keeps_order_and_duplicates() {
    let refs = recs(&["a.arw", "b.arw"]);
    let cands = recs(&["a.jpg", "c.jpg", "b.jpg", "d.jpg"]);
    let unused = find_duplicate_file(refs, cands);
    assert_eq!(stems(&unused), vec!["c", "d"]);
}

#[test]
fn unmatched_emits_duplicate_stems_twice() {
    let refs = recs(&["a.arw"]);
    let cands = recs(&["c.jpg", "c.jpeg", "a.jpg"]);
    let unused = find_duplicate_file(refs, cands);
    assert_eq!(full_names(&unused), vec!["c.jpg", "c.jpeg"]);
}

#[test]
fn unmatched_of_no_candidates_is_empty() {
    let refs = recs(&["a.arw"]);
    let unused = find_duplicate_file(refs, Vec::new());
    assert_eq!(unused.len(), 0);
}

#[test]
fn unmatched_is_deterministic_and_idempotent() {
    let refs = recs(&["a.arw", "b.arw"]);
    let cands = recs(&["a.jpg", "c.jpg", "b.jpg", "d.jpg"]);
    let first = find_duplicate_file(recs(&["a.arw", "b.arw"]), recs(&[
        "a.jpg", "c.jpg", "b.jpg", "d.jpg",
    ]));
    let second = find_duplicate_file(refs, cands);
    assert_eq!(full_names(&first), full_names(&second));

    let refs_again = recs(&["a.arw", "b.arw"]);
    let third = find_duplicate_file(refs_again, second);
    assert_eq!(full_names(&first), full_names(&third));
}

#[test]
fn selection_keeps_only_jpegs_without_raw_counterpart() {
    let raw_listing = recs(&["img001.arw"]);
    let jpg_listing = recs(&["img001.jpg", "img002.jpg"]);
    let unused = select_files_for_deletion(raw_listing, jpg_listing);
    assert_eq!(full_names(&unused), vec!["img002.jpg"]);
}

#[test]
fn selection_reads_uppercase_raw_extensions() {
    let raw_listing = recs(&["IMG001.ARW", "keeper.txt"]);
    let jpg_listing = recs(&["IMG001.jpg", "IMG002.jpeg", "keeper.jpg"]);
    let unused = select_files_for_deletion(raw_listing, jpg_listing);
    assert_eq!(full_names(&unused), vec!["IMG002.jpeg", "keeper.jpg"]);
}

#[test]
fn selection_of_empty_jpg_folder_is_empty() {
    let raw_listing = recs(&["img001.arw"]);
    let unused = select_files_for_deletion(raw_listing, Vec::new());
    assert_eq!(unused.len(), 0);
}
