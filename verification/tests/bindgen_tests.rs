use pdfmaker::bindgen::{classify_import, strip_bindgen_hash, ImportHandler, ValKind};

#[test]
fn strips_hash_suffix() {
    assert_eq!(strip_bindgen_hash("__wbg_log_8cec76766b8c0e33"), "__wbg_log");
    assert_eq!(strip_bindgen_hash("__wbg_getRandomValues_1c61fac11405ffdc"), "__wbg_getRandomValues");
}

#[test]
fn keeps_names_without_hash() {
    assert_eq!(strip_bindgen_hash("__wbindgen_init_externref_table"), "__wbindgen_init_externref_table");
    assert_eq!(strip_bindgen_hash("__wbindgen_cast"), "__wbindgen_cast");
    assert_eq!(strip_bindgen_hash("plain"), "plain");
    assert_eq!(strip_bindgen_hash(""), "");
}

#[test]
fn short_or_uppercase_suffix_is_no_hash() {
    assert_eq!(strip_bindgen_hash("foo_1234567"), "foo_1234567");
    assert_eq!(strip_bindgen_hash("foo_DEADBEEF"), "foo_DEADBEEF");
    assert_eq!(strip_bindgen_hash("foo_deadbeeg"), "foo_deadbeeg");
    assert_eq!(strip_bindgen_hash("foo_"), "foo_");
}

#[test]
fn strips_only_the_last_part() {
    assert_eq!(strip_bindgen_hash("a_12345678_deadbeef"), "a_12345678");
    assert_eq!(strip_bindgen_hash("_12345678"), "");
    assert_eq!(strip_bindgen_hash("é_0123456789abcdef"), "é");
}

fn k(s: &str) -> Vec<ValKind> {
    s.chars()
        .map(|c| match c {
            'i' => ValKind::I32,
            'f' => ValKind::F64,
            'e' => ValKind::ExternRef,
            _ => ValKind::Other,
        })
        .collect()
}

#[test]
fn classifies_known_imports() {
    let c = |n: &str, p: &str, r: &str| classify_import(n, &k(p), &k(r));
    assert_eq!(c("__wbindgen_init_externref_table", "", ""), Some(ImportHandler::InitExternrefTable));
    assert_eq!(c("__wbg_log_8cec76766b8c0e33", "e", ""), Some(ImportHandler::Log));
    assert_eq!(c("__wbg_warn_0123456789abcdef", "e", ""), Some(ImportHandler::Log));
    assert_eq!(c("__wbg_crypto_aaaaaaaaaaaaaaaa", "e", "e"), Some(ImportHandler::Crypto));
    assert_eq!(c("__wbg_msCrypto_bbbbbbbbbbbbbbbb", "e", "e"), Some(ImportHandler::Undefined));
    assert_eq!(c("__wbg_node_cccccccccccccccc", "e", "e"), Some(ImportHandler::Undefined));
    assert_eq!(c("__wbg_randomFillSync_dddddddddddddddd", "ee", ""), Some(ImportHandler::GetRandomValues));
    assert_eq!(c("__wbg___wbindgen_is_object_eeeeeeeeeeeeeeee", "e", "i"), Some(ImportHandler::IsObject));
    assert_eq!(c("__wbg___wbindgen_is_string_ffffffffffffffff", "e", "i"), Some(ImportHandler::IsString));
    assert_eq!(c("__wbg___wbindgen_is_function_0000000000000000", "e", "i"), Some(ImportHandler::IsFunction));
    assert_eq!(c("__wbg___wbindgen_is_undefined_1111111111111111", "e", "i"), Some(ImportHandler::IsUndefined));
    assert_eq!(c("__wbg___wbindgen_throw_2222222222222222", "ii", ""), Some(ImportHandler::Throw));
    assert_eq!(c("__wbindgen_cast_3333333333333333", "ii", "e"), Some(ImportHandler::Cast));
    assert_eq!(c("__wbg_static_accessor_GLOBAL_THIS_4444444444444444", "", "i"), Some(ImportHandler::StaticAccessor));
}

#[test]
fn wrong_signature_or_unknown_name_traps() {
    let c = |n: &str, p: &str, r: &str| classify_import(n, &k(p), &k(r));
    assert_eq!(c("__wbg_log_8cec76766b8c0e33", "i", ""), None);
    assert_eq!(c("__wbg_crypto_aaaaaaaaaaaaaaaa", "e", "i"), None);
    assert_eq!(c("__wbg_fetch_aaaaaaaaaaaaaaaa", "e", "e"), None);
    assert_eq!(c("__wbg_static_accessor_SELF_4444444444444444", "", "e"), None);
    assert_eq!(c("__wbindgen_cast_3333333333333333", "if", "e"), None);
}

#[test]
fn hash_suffix_does_not_change_binding() {
    let a = classify_import("__wbg_log_0123456789abcdef", &k("e"), &k(""));
    let b = classify_import("__wbg_log_fedcba9876543210", &k("e"), &k(""));
    let c = classify_import("__wbg_log", &k("e"), &k(""));
    assert_eq!(a, b);
    assert_eq!(a, c);
}
