use qingjian::wubi::{convert, read_lexicon, render, CodeEntry, ConvertError, Converted, UNKNOWN_FREQUENCY};

const TABLE: &str = "---\nname: wubi86\n...\n的\tr\t100\n一\tggll\t90\n开\tga\t80\n开发\tgant\t70\n不给\tgqt\t60\n";

const DICT: &str = "的\tde\t5000\n开\tkai\t800\n开发\tkai fa\t900\n一\tyi\t4000\n";

fn lines(entries: &[CodeEntry]) -> Vec<String> {
    entries.iter().map(|e| format!("{}\t{}\t{}", e.word, e.code, e.frequency)).collect()
}

fn convert_to_strings(table: &str, dict: &str) -> (Vec<String>, Converted) {
    let (entries, converted) = convert(table, &read_lexicon(dict)).unwrap();
    let rendered = render(&entries);
    let body: Vec<String> = rendered.lines().filter(|l| !l.starts_with('#')).map(str::to_owned).collect();
    assert_eq!(body, lines(&entries));
    (body, converted)
}

#[test]
fn fills_frequency_by_word_and_sorts_by_code() {
    let (lines, converted) = convert_to_strings(TABLE, DICT);
    assert_eq!(
        lines,
        ["开\tga\t800", "开发\tgant\t900", "一\tggll\t4000", "不给\tgqt\t1", "的\tr\t5000"]
    );
    assert_eq!(converted, Converted { entries: 5, with_frequency: 4, unknown: 1 });
}

#[test]
fn words_missing_from_the_dictionary_get_the_floor_frequency() {
    let (lines, converted) = convert_to_strings(TABLE, "差不多的词\tcha bu duo de ci\t9\n");
    assert!(lines.iter().all(|l| l.ends_with("\t1")));
    assert_eq!(converted.unknown, 5);
    assert_eq!(converted.with_frequency, 0);
}

#[test]
fn keeps_the_highest_frequency_when_a_word_appears_twice() {
    let (lines, _) = convert_to_strings("---\nname: t\n...\n开发\tgant\n开发\tgant\n", DICT);
    assert_eq!(lines, ["开发\tgant\t900"]);
}

#[test]
fn rejects_files_that_are_not_rime_dictionaries() {
    assert_eq!(convert("开\tga\t800\n", &read_lexicon(DICT)).err(), Some(ConvertError::NotRime));
}

#[test]
fn a_trailing_tab_is_trimmed_away_and_leaves_no_code() {
    // The line is trimmed before it is split, so `word<TAB>` has no tab left.
    assert_eq!(convert("---\n...\n的\t\n", &Vec::new()).err(), Some(ConvertError::Format { line: 3 }));
}

#[test]
fn a_line_without_a_tab_is_reported_with_its_number() {
    let source = "---\nname: t\n...\n开\tga\n开发 gant\n";
    assert_eq!(convert(source, &Vec::new()).err(), Some(ConvertError::Format { line: 5 }));
}

#[test]
fn codes_are_trimmed_and_lowercased_and_comments_skipped() {
    let source = "---\nname: t\n...\n# a comment\n\n开\t GA \n的\t \t5\n";
    let (entries, converted) = convert(source, &Vec::new()).unwrap();
    assert_eq!(lines(&entries), ["开\tga\t1"]);
    assert_eq!(converted, Converted { entries: 1, with_frequency: 0, unknown: 1 });
}

#[test]
fn the_last_lexicon_entry_for_a_word_wins() {
    let lexicon = read_lexicon("开\tkai\t5\n开\tkai\t7\n");
    assert_eq!(lexicon.len(), 2);
    let (entries, _) = convert("---\n...\n开\tga\n", &lexicon).unwrap();
    assert_eq!(entries[0].frequency, 7);
}

#[test]
fn same_code_orders_by_frequency_then_word() {
    let lexicon = read_lexicon("乙\tyi\t3\n甲\tjia\t3\n丙\tbing\t9\n");
    let (entries, _) = convert("name: t\n...\n乙\taa\n甲\taa\n丙\taa\n", &lexicon).unwrap();
    assert_eq!(lines(&entries), ["丙\taa\t9", "乙\taa\t3", "甲\taa\t3"]);
}

#[test]
fn the_lexicon_reader_passes_over_malformed_lines() {
    let lexicon = read_lexicon("# header\n好\thao\t12\n坏\thuai\n怪\tguai\tx\n\t\t3\n");
    assert_eq!(lexicon, vec![("好".to_owned(), 12)]);
    assert_eq!(UNKNOWN_FREQUENCY, 1);
}

#[test]
fn an_empty_table_writes_only_the_header() {
    let text = render(&Vec::new());
    assert!(text.starts_with("# "));
    assert_eq!(text.lines().count(), 1);
}
