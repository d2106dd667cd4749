use ucd_lookup::string_search::{search_ucds, SearchResult};
use ucd_lookup::ucd::{
    filter_by_category, value_display, Category, UnicodeDatum, UnicodeDatumValue,
};
use ucd_lookup::UcdError;

fn all_categories() -> Vec<Category> {
    vec![
        Category::Lu,
        Category::Ll,
        Category::Lt,
        Category::Mn,
        Category::Mc,
        Category::Me,
        Category::Nd,
        Category::Nl,
        Category::No,
        Category::Zs,
        Category::Zl,
        Category::Zp,
        Category::Cc,
        Category::Cf,
        Category::Cs,
        Category::Co,
        Category::Cn,
        Category::Lm,
        Category::Lo,
        Category::Pc,
        Category::Pd,
        Category::Ps,
        Category::Pe,
        Category::Pi,
        Category::Pf,
        Category::Po,
        Category::Sm,
        Category::Sc,
        Category::Sk,
        Category::So,
    ]
}

#[test]
fn printability_of_known_tags() {
    assert!(!Category::Cc.is_printable());
    assert!(Category::Lu.is_printable());
    assert!(!Category::Lm.is_printable());
    assert!(!Category::Cf.is_printable());
    assert!(!Category::Cs.is_printable());
    assert!(!Category::Co.is_printable());
    assert!(!Category::Cn.is_printable());
    assert!(Category::Nd.is_printable());
    assert!(Category::So.is_printable());
}

#[test]
fn parse_unknown_code_fails() {
    assert_eq!(Category::parse("Zz").unwrap_err(), UcdError::UnknownCategory);
    assert_eq!(Category::parse("").unwrap_err(), UcdError::UnknownCategory);
    assert_eq!(Category::parse("L").unwrap_err(), UcdError::UnknownCategory);
    assert_eq!(Category::parse("Luu").unwrap_err(), UcdError::UnknownCategory);
    assert_eq!(Category::parse("lu").unwrap_err(), UcdError::UnknownCategory);
}

#[test]
fn parse_lu_succeeds_with_its_descriptive_name() {
    let c = Category::parse("Lu").unwrap();
    assert_eq!(c, Category::Lu);
    assert_eq!(c.name(), "Letter, Uppercase");
}

#[test]
fn every_category_round_trips_through_its_code() {
    for c in all_categories() {
        assert_eq!(Category::parse(c.code()).unwrap(), c);
        assert_eq!(c.code().len(), 2);
    }
}

#[test]
fn descriptive_names_are_distinct() {
    let cats = all_categories();
    for a in &cats {
        for b in &cats {
            if a != b {
                assert_ne!(a.name(), b.name());
            }
        }
    }
}

#[test]
fn integer_value_formats_without_denominator() {
    let v = UnicodeDatumValue { digit: Some(3), num: 3, den: 1 };
    assert_eq!(v.value_to_str(), "3");
}

#[test]
fn fraction_value_formats_with_slash() {
    let v = UnicodeDatumValue { digit: None, num: 1, den: 4 };
    assert_eq!(v.value_to_str(), "1/4");
}

#[test]
fn negative_and_extreme_values_format_in_decimal() {
    let v = UnicodeDatumValue { digit: None, num: -5, den: 1 };
    assert_eq!(v.value_to_str(), "-5");
    let zero = UnicodeDatumValue { digit: Some(0), num: 0, den: 1 };
    assert_eq!(zero.value_to_str(), "0");
    let min = UnicodeDatumValue { digit: None, num: i64::MIN, den: 1 };
    assert_eq!(min.value_to_str(), "-9223372036854775808");
    let max = UnicodeDatumValue { digit: None, num: i64::MAX, den: 1 };
    assert_eq!(max.value_to_str(), "9223372036854775807");
}

#[test]
fn absent_value_displays_as_dash() {
    assert_eq!(value_display(None), "-");
    let v = UnicodeDatumValue { digit: None, num: 1, den: 2 };
    assert_eq!(value_display(Some(&v)), "1/2");
}

fn sample_data() -> Vec<UnicodeDatum> {
    vec![
        UnicodeDatum { cdpt: 0x41, cat: Category::Lu, val: None, upper: None, lower: Some(0x61) },
        UnicodeDatum { cdpt: 0x61, cat: Category::Ll, val: None, upper: Some(0x41), lower: None },
        UnicodeDatum {
            cdpt: 0x34,
            cat: Category::Nd,
            val: Some(0),
            upper: None,
            lower: None,
        },
    ]
}

#[test]
fn from_idx_returns_the_record_or_out_of_range() {
    let data = sample_data();
    let rec = UnicodeDatum::from_idx(&data, 2).unwrap();
    assert_eq!(rec.cdpt, 0x34);
    assert_eq!(rec.cat, Category::Nd);
    assert_eq!(
        UnicodeDatum::from_idx(&data, 3).unwrap_err(),
        UcdError::OutOfRange
    );
}

#[test]
fn as_char_decodes_valid_codepoints() {
    let data = sample_data();
    assert_eq!(data[0].as_char().unwrap(), 'A');
    assert_eq!(data[2].as_char().unwrap(), '4');
    let bad = UnicodeDatum { cdpt: 0xD800, cat: Category::Cs, val: None, upper: None, lower: None };
    assert_eq!(bad.as_char().unwrap_err(), UcdError::InvalidCodepoint);
    let big = UnicodeDatum {
        cdpt: 0x110000,
        cat: Category::Cn,
        val: None,
        upper: None,
        lower: None,
    };
    assert_eq!(big.as_char().unwrap_err(), UcdError::InvalidCodepoint);
}

#[test]
fn case_conversions_fall_back_to_dash() {
    let data = sample_data();
    assert_eq!(data[0].upper_char().unwrap(), '-');
    assert_eq!(data[0].lower_char().unwrap(), 'a');
    assert_eq!(data[1].upper_char().unwrap(), 'A');
    assert_eq!(data[1].lower_char().unwrap(), '-');
    let bad = UnicodeDatum {
        cdpt: 0x41,
        cat: Category::Lu,
        val: None,
        upper: Some(0xDFFF),
        lower: None,
    };
    assert_eq!(bad.upper_char().unwrap_err(), UcdError::InvalidCodepoint);
}

#[test]
fn value_dereferences_the_value_table() {
    let data = sample_data();
    let values = vec![UnicodeDatumValue { digit: Some(4), num: 4, den: 1 }];
    assert!(data[0].value(&values).unwrap().is_none());
    let v = data[2].value(&values).unwrap().unwrap();
    assert_eq!(v.num, 4);
    let dangling = UnicodeDatum {
        cdpt: 0x35,
        cat: Category::Nd,
        val: Some(9),
        upper: None,
        lower: None,
    };
    assert_eq!(dangling.value(&values).unwrap_err(), UcdError::OutOfRange);
}

#[test]
fn filter_keeps_only_the_selected_category_in_order() {
    let data = sample_data();
    // names for A, a, 4 in codepoint order
    let table = b"LATIN CAPITAL LETTER A\0LATIN SMALL LETTER A\0DIGIT FOUR\0";
    let results = search_ucds(table, b"LATIN").unwrap();
    assert_eq!(results.len(), 2);
    let upper_only = filter_by_category(results, &data, Category::Lu).unwrap();
    assert_eq!(upper_only.len(), 1);
    assert_eq!(upper_only[0].idx, 0);
    assert_eq!(upper_only[0].name, b"LATIN CAPITAL LETTER A".to_vec());
}

#[test]
fn filter_rejects_an_ordinal_past_the_store() {
    let data = sample_data();
    let stray = vec![SearchResult { idx: 7, name: b"STRAY".to_vec() }];
    assert_eq!(
        filter_by_category(stray, &data, Category::Lu).unwrap_err(),
        UcdError::OutOfRange
    );
}

#[test]
fn filter_of_no_results_is_empty() {
    let data = sample_data();
    let empty = filter_by_category(Vec::new(), &data, Category::Lu).unwrap();
    assert!(empty.is_empty());
}
