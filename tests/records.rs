use pdf_city_names::record::{chunk_lines, is_city, process_line, RecordChunk};
use pdf_city_names::suffix::{
    administrative_suffixes, municipality_suffixes, remove_municipality_suffix,
};
use pdf_city_names::text::first_word;

fn lines(items: &[&str]) -> Vec<String> {
    items.iter().map(|s| s.to_string()).collect()
}

fn chunk(local: &str, foreign: &str, label: &str) -> RecordChunk {
    let v = lines(&["0", "1", local, "3", foreign, "5", "6", label]);
    RecordChunk::from_lines(&v, 0)
}

#[test]
fn chunking_counts_complete_groups() {
    for n in 0..=25usize {
        let v: Vec<String> = (0..n).map(|i| format!("line{}", i)).collect();
        let chunks = chunk_lines(&v);
        assert_eq!(chunks.len(), n / 8);
        for (k, c) in chunks.iter().enumerate() {
            assert_eq!(c.reserved0, format!("line{}", 8 * k));
            assert_eq!(c.local_name, format!("line{}", 8 * k + 2));
            assert_eq!(c.foreign_name, format!("line{}", 8 * k + 4));
            assert_eq!(c.classification, format!("line{}", 8 * k + 7));
        }
    }
}

#[test]
fn chunking_drops_trailing_lines() {
    let v: Vec<String> = (0..17).map(|i| format!("x{}", i)).collect();
    let chunks = chunk_lines(&v);
    assert_eq!(chunks.len(), 2);
    assert_eq!(chunks[1].classification, "x15");
    for c in &chunks {
        assert_ne!(c.reserved0, "x16");
        assert_ne!(c.classification, "x16");
    }
}

#[test]
fn chunking_empty_input() {
    assert!(chunk_lines(&Vec::new()).is_empty());
}

#[test]
fn classifier_labels() {
    assert!(is_city(&chunk("a", "b", "Municipality")));
    assert!(is_city(&chunk("a", "b", "Populated Area")));
    assert!(!is_city(&chunk("a", "b", "Lake")));
    assert!(!is_city(&chunk("a", "b", "")));
    assert!(!is_city(&chunk("a", "b", "municipality")));
    assert!(!is_city(&chunk("a", "b", " Municipality")));
}

#[test]
fn classifier_reads_only_the_label() {
    let a = lines(&["x", "y", "z", "w", "v", "u", "t", "Municipality"]);
    let b = lines(&["Lake", "Lake", "Lake", "Lake", "Lake", "Lake", "Lake", "Municipality"]);
    let c = lines(&["Municipality"; 8]);
    let mut d = c.clone();
    d[7] = "Lake".to_string();
    assert!(is_city(&RecordChunk::from_lines(&a, 0)));
    assert!(is_city(&RecordChunk::from_lines(&b, 0)));
    assert!(is_city(&RecordChunk::from_lines(&c, 0)));
    assert!(!is_city(&RecordChunk::from_lines(&d, 0)));
}

#[test]
fn normalizer_verbatim_without_stripping() {
    let table = municipality_suffixes();
    let r = process_line(&chunk("東京都", "Tokyo Metropolis", "Municipality"), false, &table);
    assert_eq!(r.local_name, "東京都");
    assert_eq!(r.foreign_name, "Tokyo Metropolis");
    let r = process_line(&chunk("横浜市", "Yokohama City", "Municipality"), false, &table);
    assert_eq!(r.local_name, "横浜市");
    assert_eq!(r.foreign_name, "Yokohama City");
}

#[test]
fn normalizer_strips_suffix_and_qualifier() {
    let table = municipality_suffixes();
    let r = process_line(&chunk("横浜市", "Yokohama City", "Municipality"), true, &table);
    assert_eq!(r.local_name, "横浜");
    assert_eq!(r.foreign_name, "Yokohama");
    let r = process_line(&chunk("東京都", "Tokyo (capital)", "Municipality"), true, &table);
    assert_eq!(r.local_name, "東京都");
    assert_eq!(r.foreign_name, "Tokyo");
}

#[test]
fn wider_table_strips_prefecture_suffix() {
    let table = administrative_suffixes();
    assert_eq!(table.len(), 9);
    assert_eq!(remove_municipality_suffix("東京都", &table), "東京");
    assert_eq!(remove_municipality_suffix("北海道", &table), "北海");
    assert_eq!(remove_municipality_suffix("大阪府", &table), "大阪");
    assert_eq!(municipality_suffixes().len(), 5);
}

#[test]
fn only_one_suffix_is_removed() {
    let table = municipality_suffixes();
    assert_eq!(remove_municipality_suffix("中郡町", &table), "中郡");
    assert_eq!(remove_municipality_suffix("市市", &table), "市");
    let mut reversed = table.clone();
    reversed.reverse();
    assert_eq!(remove_municipality_suffix("中郡町", &reversed), "中郡");
    assert_eq!(remove_municipality_suffix("市市", &reversed), "市");
}

#[test]
fn first_matching_suffix_in_table_order_wins() {
    let table = vec!["市".to_string(), "川市".to_string()];
    assert_eq!(remove_municipality_suffix("市川市", &table), "市川");
    let table = vec!["川市".to_string(), "市".to_string()];
    assert_eq!(remove_municipality_suffix("市川市", &table), "市");
}

#[test]
fn suffix_removal_edge_cases() {
    let table = municipality_suffixes();
    assert_eq!(remove_municipality_suffix("", &table), "");
    assert_eq!(remove_municipality_suffix("市", &table), "");
    assert_eq!(remove_municipality_suffix("Osaka", &table), "Osaka");
    assert_eq!(remove_municipality_suffix("横浜市", &Vec::new()), "横浜市");
}

#[test]
fn first_word_cases() {
    assert_eq!(first_word("Tokyo Metropolis"), "Tokyo");
    assert_eq!(first_word("Sapporo"), "Sapporo");
    assert_eq!(first_word(""), "");
    assert_eq!(first_word(" leading"), "leading");
    assert_eq!(first_word("a  b c"), "a");
    assert_eq!(first_word("Ōsaka\tCity"), "Ōsaka");
    assert_eq!(first_word("  \t "), "");
    assert_eq!(first_word("\u{3000}東京\u{3000}都"), "東京");
    assert_eq!(first_word("Kyoto\nCity"), "Kyoto");
}
