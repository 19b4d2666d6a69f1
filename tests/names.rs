use ldraw_viewer::names::{has_prefix, has_suffix, is_part_file_name, normalize_entry_name, normalize_query_name};

#[test]
fn strips_ldraw_prefix_once() {
    assert_eq!(normalize_entry_name("ldraw/parts/3001.dat"), "parts/3001.dat");
}

#[test]
fn strips_parts_prefix_keeping_inner_slashes() {
    assert_eq!(normalize_entry_name("parts/8/4-4cyli.dat"), "8/4-4cyli.dat");
    assert_eq!(normalize_entry_name("parts/s/3001s01.dat"), "s/3001s01.dat");
}

#[test]
fn strips_primitive_and_model_prefixes() {
    assert_eq!(normalize_entry_name("p/4-4edge.dat"), "4-4edge.dat");
    assert_eq!(normalize_entry_name("models/car.ldr"), "car.ldr");
}

#[test]
fn first_listed_prefix_wins() {
    assert_eq!(normalize_entry_name("parts/p/x.dat"), "p/x.dat");
    assert_eq!(normalize_entry_name("p/parts/x.dat"), "parts/x.dat");
}

#[test]
fn unprefixed_and_case_differing_names_stay() {
    assert_eq!(normalize_entry_name("LDConfig.ldr"), "LDConfig.ldr");
    assert_eq!(normalize_entry_name("Parts/3001.dat"), "Parts/3001.dat");
    assert_eq!(normalize_entry_name(""), "");
    assert_eq!(normalize_entry_name("ldraw"), "ldraw");
}

#[test]
fn recognizes_model_extensions() {
    assert!(is_part_file_name("car.ldr"));
    assert!(is_part_file_name("8/4-4cyli.dat"));
    assert!(!is_part_file_name("readme.txt"));
    assert!(!is_part_file_name("car.LDR"));
    assert!(!is_part_file_name(".da"));
    assert!(is_part_file_name(".dat"));
}

#[test]
fn query_backslashes_become_slashes() {
    assert_eq!(normalize_query_name("8\\4-4cyli.dat"), "8/4-4cyli.dat");
    assert_eq!(normalize_query_name("s\\a\\b.dat"), "s/a/b.dat");
    assert_eq!(normalize_query_name("plain.dat"), "plain.dat");
}

#[test]
fn prefix_and_suffix_checks() {
    assert!(has_prefix("ldraw/x", "ldraw/"));
    assert!(!has_prefix("ldra", "ldraw/"));
    assert!(has_prefix("abc", ""));
    assert!(has_suffix("abc.dat", ".dat"));
    assert!(!has_suffix("abc.dot", ".dat"));
}
