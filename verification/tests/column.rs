use xl::column::{
    col_letter_to_num, col_num_to_letter, index_to_letters, letter_to_num_searched,
    letters_to_index, ColumnError,
};
use xl::{col2num, num2col};

#[test]
fn sxl_num_to_letter_w() {
    assert_eq!(num2col(23), Some(String::from("W")));
}

#[test]
fn sxl_num_to_letter_aa() {
    assert_eq!(num2col(27), Some(String::from("AA")));
}

#[test]
fn sxl_num_to_letter_ab() {
    assert_eq!(num2col(28), Some(String::from("AB")));
}

#[test]
fn sxl_num_to_letter_xfd() {
    assert_eq!(num2col(16384), Some(String::from("XFD")));
}

#[test]
fn sxl_num_to_letter_xfe() {
    assert_eq!(num2col(16385), None);
}

#[test]
fn sxl_num_to_letter_0() {
    assert_eq!(num2col(0), None);
}

#[test]
fn sxl_letter_to_num_w() {
    assert_eq!(col2num("W"), Some(23));
}

#[test]
fn sxl_letter_to_num_aa() {
    assert_eq!(col2num("AA"), Some(27));
}

#[test]
fn sxl_letter_to_num_ab() {
    assert_eq!(col2num("AB"), Some(28));
}

#[test]
fn sxl_letter_to_num_xfd() {
    assert_eq!(col2num("XFD"), Some(16384));
}

#[test]
fn sxl_letter_to_num_xfe() {
    assert_eq!(col2num("XFE"), None);
}

#[test]
fn sxl_letter_to_num_ab_lower() {
    assert_eq!(col2num("ab"), Some(28));
}

#[test]
fn sxl_letter_to_num_number() {
    assert_eq!(col2num("12"), None);
}

#[test]
fn sxl_letter_to_num_semicolon() {
    assert_eq!(col2num(";"), None);
}

#[test]
fn utils_num_to_letter_w() {
    assert_eq!(num2col(23), Some(String::from("W")));
}

#[test]
fn utils_num_to_letter_aa() {
    assert_eq!(num2col(27), Some(String::from("AA")));
}

#[test]
fn utils_num_to_letter_ab() {
    assert_eq!(num2col(28), Some(String::from("AB")));
}

#[test]
fn utils_num_to_letter_xfd() {
    assert_eq!(num2col(16384), Some(String::from("XFD")));
}

#[test]
fn utils_num_to_letter_xfe() {
    assert_eq!(num2col(16385), None);
}

#[test]
fn utils_num_to_letter_0() {
    assert_eq!(num2col(0), None);
}

#[test]
fn utils_letter_to_num_w() {
    assert_eq!(col2num("W"), Some(23));
}

#[test]
fn utils_letter_to_num_aa() {
    assert_eq!(col2num("AA"), Some(27));
}

#[test]
fn utils_letter_to_num_ab() {
    assert_eq!(col2num("AB"), Some(28));
}

#[test]
fn utils_letter_to_num_xfd() {
    assert_eq!(col2num("XFD"), Some(16384));
}

#[test]
fn utils_letter_to_num_xfe() {
    assert_eq!(col2num("XFE"), None);
}

#[test]
fn utils_letter_to_num_ab_lower() {
    assert_eq!(col2num("ab"), Some(28));
}

#[test]
fn utils_letter_to_num_number() {
    assert_eq!(col2num("12"), None);
}

#[test]
fn utils_letter_to_num_semicolon() {
    assert_eq!(col2num(";"), None);
}

#[test]
fn xl_num_to_letter_w() {
    assert_eq!(col_num_to_letter(23), Some(String::from("W")));
}

#[test]
fn xl_num_to_letter_aa() {
    assert_eq!(col_num_to_letter(27), Some(String::from("AA")));
}

#[test]
fn xl_num_to_letter_ab() {
    assert_eq!(col_num_to_letter(28), Some(String::from("AB")));
}

#[test]
fn xl_num_to_letter_xfd() {
    assert_eq!(col_num_to_letter(16384), Some(String::from("XFD")));
}

#[test]
fn xl_num_to_letter_xfe() {
    assert_eq!(col_num_to_letter(16385), None);
}

#[test]
fn xl_num_to_letter_0() {
    assert_eq!(col_num_to_letter(0), None);
}

#[test]
fn xl_letter_to_num_w() {
    assert_eq!(col_letter_to_num("W"), Some(23));
}

#[test]
fn xl_letter_to_num_aa() {
    assert_eq!(col_letter_to_num("AA"), Some(27));
}

#[test]
fn xl_letter_to_num_ab() {
    assert_eq!(col_letter_to_num("AB"), Some(28));
}

#[test]
fn xl_letter_to_num_xfd() {
    assert_eq!(col_letter_to_num("XFD"), Some(16384));
}

#[test]
fn xl_letter_to_num_xfe() {
    assert_eq!(col_letter_to_num("XFE"), None);
}

#[test]
fn xl_letter_to_num_ab_lower() {
    assert_eq!(col_letter_to_num("ab"), Some(28));
}

#[test]
fn xl_letter_to_num_number() {
    assert_eq!(col_letter_to_num("12"), None);
}

#[test]
fn xl_letter_to_num_semicolon() {
    assert_eq!(col_letter_to_num(";"), None);
}

#[test]
fn index_to_letters_refuses_what_is_out_of_range() {
    assert_eq!(index_to_letters(0), Err(ColumnError::OutOfRange));
    assert_eq!(index_to_letters(16385), Err(ColumnError::OutOfRange));
    assert_eq!(index_to_letters(u16::MAX), Err(ColumnError::OutOfRange));
}

#[test]
fn index_to_letters_writes_bijective_base_26() {
    assert_eq!(index_to_letters(1), Ok(String::from("A")));
    assert_eq!(index_to_letters(26), Ok(String::from("Z")));
    assert_eq!(index_to_letters(27), Ok(String::from("AA")));
    assert_eq!(index_to_letters(52), Ok(String::from("AZ")));
    assert_eq!(index_to_letters(53), Ok(String::from("BA")));
    assert_eq!(index_to_letters(702), Ok(String::from("ZZ")));
    assert_eq!(index_to_letters(703), Ok(String::from("AAA")));
    assert_eq!(index_to_letters(16384), Ok(String::from("XFD")));
}

#[test]
fn letters_to_index_tells_its_errors_apart() {
    assert_eq!(letters_to_index("12"), Err(ColumnError::InvalidFormat));
    assert_eq!(letters_to_index(";"), Err(ColumnError::InvalidFormat));
    assert_eq!(letters_to_index("A1"), Err(ColumnError::InvalidFormat));
    assert_eq!(letters_to_index(""), Err(ColumnError::OutOfRange));
    assert_eq!(letters_to_index("XFE"), Err(ColumnError::OutOfRange));
    assert_eq!(letters_to_index("AAAAAAAAAAAAAAAAAAAAAAAA"), Err(ColumnError::OutOfRange));
}

#[test]
fn letters_to_index_reports_a_bad_character_before_the_range() {
    // The letters before the semicolon already pass the last column.
    assert_eq!(letters_to_index("ZZZZZZ;"), Err(ColumnError::InvalidFormat));
}

#[test]
fn letters_to_index_ignores_case() {
    assert_eq!(letters_to_index("ab"), Ok(28));
    assert_eq!(letters_to_index("aB"), Ok(28));
    assert_eq!(letters_to_index("xfd"), Ok(16384));
}

#[test]
fn letters_outside_ascii_are_no_letters() {
    assert_eq!(letters_to_index("\u{e9}"), Err(ColumnError::InvalidFormat));
    assert_eq!(letters_to_index("\u{df}"), Err(ColumnError::InvalidFormat));
}

#[test]
fn every_column_comes_back_from_its_letters() {
    for n in 1..=16384u16 {
        let letters = index_to_letters(n).unwrap();
        assert_eq!(letters_to_index(&letters), Ok(n));
        assert_eq!(col2num(&num2col(n).unwrap()), Some(n));
    }
}

#[test]
fn every_short_address_comes_back_from_its_column() {
    let alphabet: Vec<char> = ('A'..='Z').collect();
    for a in &alphabet {
        for b in &alphabet {
            let two: String = [*a, *b].iter().collect();
            let n = letters_to_index(&two).unwrap();
            assert_eq!(index_to_letters(n), Ok(two));
        }
    }
    assert_eq!(index_to_letters(letters_to_index("XFD").unwrap()), Ok(String::from("XFD")));
    assert_eq!(index_to_letters(letters_to_index("ABC").unwrap()), Ok(String::from("ABC")));
}

#[test]
fn searched_letters_need_a_find() {
    assert_eq!(letter_to_num_searched(Some(true), "AB"), Some(28));
    assert_eq!(letter_to_num_searched(Some(false), "AB"), None);
    assert_eq!(letter_to_num_searched(None, "AB"), None);
    assert_eq!(letter_to_num_searched(Some(true), "A1"), None);
}

#[test]
fn col_letter_to_num_searches_for_a_letter() {
    assert_eq!(col_letter_to_num("xfd"), Some(16384));
    assert_eq!(col_letter_to_num(""), None);
    assert_eq!(col_letter_to_num("7"), None);
    assert_eq!(col_letter_to_num("A7"), None);
}
