use zester::text::{i64_to_dec_string, join_ids_string, replace_all_str, str_concat, u64_to_dec_string};

#[test]
fn unsigned_decimal_rendering() {
    assert_eq!(u64_to_dec_string(0), "0");
    assert_eq!(u64_to_dec_string(7), "7");
    assert_eq!(u64_to_dec_string(10), "10");
    assert_eq!(u64_to_dec_string(23), "23");
    assert_eq!(u64_to_dec_string(18446744073709551615), "18446744073709551615");
}

#[test]
fn signed_decimal_rendering() {
    assert_eq!(i64_to_dec_string(42), "42");
    assert_eq!(i64_to_dec_string(0), "0");
    assert_eq!(i64_to_dec_string(-1), "-1");
    assert_eq!(i64_to_dec_string(-9223372036854775808), "-9223372036854775808");
}

#[test]
fn id_lists_join_with_commas() {
    assert_eq!(join_ids_string(&Vec::new()), "");
    assert_eq!(join_ids_string(&vec![5]), "5");
    assert_eq!(join_ids_string(&vec![1, 2, 3]), "1,2,3");
}

#[test]
fn concatenation_joins_both_pieces() {
    assert_eq!(str_concat("users/", "42"), "users/42");
    assert_eq!(str_concat("", "x"), "x");
}

#[test]
fn replacement_rewrites_every_occurrence() {
    assert_eq!(
        replace_all_str("https://api.soundcloud.com/x", "api.", "api-v2."),
        "https://api-v2.soundcloud.com/x"
    );
    assert_eq!(replace_all_str("api.api.", "api.", "api-v2."), "api-v2.api-v2.");
    assert_eq!(replace_all_str("nothing here", "api.", "api-v2."), "nothing here");
    assert_eq!(replace_all_str("", "api.", "api-v2."), "");
}
