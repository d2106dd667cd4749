use ucd_lookup::string_search::search_ucds;
use ucd_lookup::UcdError;

#[test]
fn end_to_end_cat_query() {
    let table = b"CAT\0DOG\0CATFISH\0";
    let results = search_ucds(table, b"CAT").unwrap();
    assert_eq!(results.len(), 2);
    assert_eq!(results[0].idx, 0);
    assert_eq!(results[0].name, b"CAT".to_vec());
    assert_eq!(results[1].idx, 2);
    assert_eq!(results[1].name, b"CATFISH".to_vec());
}

#[test]
fn match_ending_at_last_byte_is_found() {
    // the final entry is not terminator-delimited, and the match ends
    // exactly at the table's last byte
    let table = b"CAT\0DOG\0CATFISH";
    let results = search_ucds(table, b"FISH").unwrap();
    assert_eq!(results.len(), 1);
    assert_eq!(results[0].idx, 2);
    assert_eq!(results[0].name, b"CATFISH".to_vec());
}

#[test]
fn whole_final_entry_matches() {
    let table = b"CAT\0DOG\0CATFISH";
    let results = search_ucds(table, b"CATFISH").unwrap();
    assert_eq!(results.len(), 1);
    assert_eq!(results[0].idx, 2);
}

#[test]
fn empty_query_is_a_usage_error() {
    let table = b"CAT\0DOG\0";
    assert_eq!(search_ucds(table, b"").unwrap_err(), UcdError::UsageError);
}

#[test]
fn empty_query_rejected_on_empty_table_too() {
    assert_eq!(search_ucds(b"", b"").unwrap_err(), UcdError::UsageError);
}

#[test]
fn at_most_one_match_per_entry() {
    // "AA" occurs twice in the first entry and once in the second;
    // each entry is reported exactly once
    let table = b"CAAA\0AAB\0";
    let results = search_ucds(table, b"AA").unwrap();
    assert_eq!(results.len(), 2);
    assert_eq!(results[0].idx, 0);
    assert_eq!(results[0].name, b"CAAA".to_vec());
    assert_eq!(results[1].idx, 1);
    assert_eq!(results[1].name, b"AAB".to_vec());
}

#[test]
fn returned_names_contain_the_query() {
    let table = b"LATIN SMALL LETTER A\0LATIN CAPITAL LETTER A\0DIGIT FOUR\0";
    let results = search_ucds(table, b"LETTER").unwrap();
    assert_eq!(results.len(), 2);
    for r in &results {
        let name = String::from_utf8(r.name.clone()).unwrap();
        assert!(name.contains("LETTER"));
    }
}

#[test]
fn no_match_gives_empty_results() {
    let table = b"CAT\0DOG\0";
    let results = search_ucds(table, b"BIRD").unwrap();
    assert_eq!(results.len(), 0);
}

#[test]
fn query_longer_than_any_entry_matches_nothing() {
    let table = b"CAT\0DOG\0";
    let results = search_ucds(table, b"CATFISH").unwrap();
    assert_eq!(results.len(), 0);
}

#[test]
fn match_does_not_cross_a_terminator() {
    // "TDO" spans the terminator between "CAT" and "DOG": not a match
    let table = b"CAT\0DOG\0";
    let results = search_ucds(table, b"TDO").unwrap();
    assert_eq!(results.len(), 0);
    let with_nul = search_ucds(table, b"T\0D").unwrap();
    assert_eq!(with_nul.len(), 0);
}

#[test]
fn empty_entries_are_skipped_but_counted() {
    // the empty entry between CAT and DOG still advances the ordinal
    let table = b"CAT\0\0DOG\0";
    let results = search_ucds(table, b"DOG").unwrap();
    assert_eq!(results.len(), 1);
    assert_eq!(results[0].idx, 2);
}

#[test]
fn match_in_the_middle_of_an_entry_reports_the_whole_name() {
    let table = b"AXYZB\0";
    let results = search_ucds(table, b"XY").unwrap();
    assert_eq!(results.len(), 1);
    assert_eq!(results[0].idx, 0);
    assert_eq!(results[0].name, b"AXYZB".to_vec());
}

#[test]
fn max_name_len_tracks_the_longest_match() {
    let table = b"CAT\0DOG\0CATFISH\0";
    let results = search_ucds(table, b"CAT").unwrap();
    assert_eq!(ucd_lookup::string_search::max_name_len(&results), 7);
    let none = search_ucds(table, b"BIRD").unwrap();
    assert_eq!(ucd_lookup::string_search::max_name_len(&none), 0);
}
