use wowedit::loader::{adt_path, skin_path};
use wowedit::mpq::{abnormalize, normalise};
use wowedit::storage::{
    infer_priority, merge_file_lists, normalise_path_to_fs, patch_number, priority_fits,
    priority_order,
};
use wowedit::text::parse_i32;
use wowedit::version::{StorageType, WoWVersion};

fn chars(s: &str) -> Vec<char> {
    s.chars().collect()
}

#[test]
fn archive_paths_use_backslashes_and_upper_case() {
    assert_eq!(normalise("world/maps/Azeroth/Azeroth_32_48.adt"), "WORLD\\MAPS\\AZEROTH\\AZEROTH_32_48.ADT");
    assert_eq!(abnormalize("WORLD\\Maps\\X.ADT"), "world/maps/x.adt");
    assert_eq!(normalise_path_to_fs("Tileset\\Elwynn\\grass.blp"), "Tileset/Elwynn/grass.blp");
}

#[test]
fn normalise_then_abnormalize_lowers_the_path() {
    let p = "Creature/Bear\\Bear.M2";
    assert_eq!(abnormalize(&normalise(p)), "creature/bear/bear.m2");
}

#[test]
fn tile_paths_follow_the_map_layout() {
    assert_eq!(adt_path("Azeroth", 32, 48), "world/maps/Azeroth/Azeroth_32_48.adt");
    assert_eq!(adt_path("Kalimdor", 0, 255), "world/maps/Kalimdor/Kalimdor_0_255.adt");
    assert_eq!(adt_path("M", 7, 100), "world/maps/M/M_7_100.adt");
}

#[test]
fn skin_paths_replace_the_extension() {
    assert_eq!(skin_path("Creature/Bear/bear.m2"), "CREATURE/BEAR/BEAR00.SKIN");
    assert_eq!(skin_path("a.m2.m2"), "A00.SKIN00.SKIN");
    assert_eq!(skin_path("noext"), "NOEXT");
}

#[test]
fn patch_numbers_follow_the_last_dash() {
    assert_eq!(patch_number("patch-2"), 2);
    assert_eq!(patch_number("patch-enus-3"), 3);
    assert_eq!(patch_number("patch"), 0);
    assert_eq!(patch_number("patch-x"), 0);
    assert_eq!(patch_number("patch-+7"), 7);
    assert_eq!(patch_number("patch-99999999999"), 0);
    assert_eq!(patch_number("patch-"), 0);
}

#[test]
fn integers_parse_like_str_parse() {
    assert_eq!(parse_i32(&chars("-2147483648")), Some(i32::MIN));
    assert_eq!(parse_i32(&chars("2147483647")), Some(i32::MAX));
    assert_eq!(parse_i32(&chars("2147483648")), None);
    assert_eq!(parse_i32(&chars("+12")), Some(12));
    assert_eq!(parse_i32(&chars("-")), None);
    assert_eq!(parse_i32(&chars("")), None);
    assert_eq!(parse_i32(&chars("1a")), None);
    assert_eq!(parse_i32(&chars("007")), Some(7));
}

#[test]
fn archive_priorities() {
    assert_eq!(infer_priority("patch-enUS-3", "enUS", true), 1003);
    assert_eq!(infer_priority("patch-3", "enUS", false), 803);
    assert_eq!(infer_priority("Patch", "enUS", false), 800);
    assert_eq!(infer_priority("lichking-locale-enUS", "enUS", true), 600);
    assert_eq!(infer_priority("expansion-locale-enUS", "enUS", true), 500);
    assert_eq!(infer_priority("locale-enUS", "enUS", true), 400);
    assert_eq!(infer_priority("speech-enUS", "enUS", true), 390);
    assert_eq!(infer_priority("backup-enUS", "enUS", true), 300);
    assert_eq!(infer_priority("patch-3", "enUS", true), 300);
    assert_eq!(infer_priority("LichKing", "enUS", false), 200);
    assert_eq!(infer_priority("expansion", "enUS", false), 150);
    assert_eq!(infer_priority("common-2", "enUS", false), 100);
    assert_eq!(infer_priority("common", "enUS", false), 50);
    assert_eq!(infer_priority("other", "enUS", false), 25);
}

#[test]
fn priorities_that_overflow_are_detected() {
    assert!(priority_fits("patch-5", "enUS", false));
    assert!(priority_fits("common", "enUS", false));
    assert!(!priority_fits("patch-2147483000", "enUS", false));
    assert!(priority_fits("patch-2147482847", "enUS", false));
    assert_eq!(infer_priority("patch-2147482847", "enUS", false), i32::MAX);
    assert!(priority_fits("patch-enUS-2147482647", "enUS", true));
    assert_eq!(infer_priority("patch-enUS-2147482647", "enUS", true), i32::MAX);
    assert!(!priority_fits("patch-enUS-2147482648", "enUS", true));
    assert!(priority_fits("patch-2147483000", "enUS", true));
}

#[test]
fn patches_outrank_base_archives() {
    let patch = infer_priority("patch-0", "enUS", false);
    for base in ["lichking", "expansion", "common-2", "common", "x"] {
        assert!(patch > infer_priority(base, "enUS", false));
        assert!(infer_priority(base, "enUS", true) > infer_priority(base, "enUS", false));
    }
    assert!(infer_priority("patch-enus", "enUS", true) > infer_priority("lichking-locale", "enUS", true));
}

#[test]
fn archives_are_searched_by_priority_then_order() {
    assert_eq!(priority_order(&vec![25, 800, 200, 800]), vec![1, 3, 2, 0]);
    assert_eq!(priority_order(&vec![]), Vec::<usize>::new());
    assert_eq!(priority_order(&vec![5, 5, 5]), vec![0, 1, 2]);
}

#[test]
fn file_lists_merge_without_repeats() {
    let lists = vec![
        vec!["a".to_string(), "b".to_string()],
        vec!["b".to_string(), "c".to_string(), "a".to_string()],
        vec!["d".to_string(), "d".to_string()],
    ];
    assert_eq!(merge_file_lists(&lists), vec!["a", "b", "c", "d"]);
    assert!(merge_file_lists(&vec![]).is_empty());
}

#[test]
fn wotlk_reads_mpq_archives() {
    assert_eq!(WoWVersion::WotLK.storage_type(), StorageType::Mpq);
}
