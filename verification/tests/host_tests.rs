use pdfmaker::host::{
    conversion_outcome, engine_download_ok, engine_error_message, is_object, is_string,
    is_undefined, plan_engine_cache, random_target, table_init_writes, CachePlan, Conversion,
    HostRef,
};
use pdfmaker::paths::{document_path, next_document_path};

fn mem(text: &str) -> HostRef {
    HostRef::Mem { ptr: 16, len: 4, text: text.to_string() }
}

#[test]
fn javascript_type_tests() {
    assert!(is_object(Some(&HostRef::Global)));
    assert!(is_object(Some(&HostRef::Crypto)));
    assert!(!is_object(Some(&HostRef::Null)));
    assert!(!is_object(None));
    assert!(is_string(Some(&mem("abcd"))));
    assert!(!is_string(Some(&HostRef::Bool(true))));
    assert!(is_undefined(None));
    assert!(is_undefined(Some(&HostRef::Undefined)));
    assert!(!is_undefined(Some(&HostRef::Null)));
}

#[test]
fn random_target_needs_a_buffer() {
    assert_eq!(random_target(Some(&mem("abcd"))), Some((16, 4)));
    assert_eq!(random_target(Some(&HostRef::Crypto)), None);
    assert_eq!(random_target(None), None);
}

#[test]
fn engine_error_messages() {
    assert_eq!(engine_error_message(Some(&mem("bad css"))), "engine error: bad css");
    assert_eq!(engine_error_message(Some(&HostRef::Null)), "engine error: engine rejected the input");
    assert_eq!(engine_error_message(None), "engine error: engine rejected the input");
}

#[test]
fn table_seed_writes() {
    let w = table_init_writes(4);
    assert_eq!(w.len(), 4);
    assert!(matches!(w[0], (0, HostRef::Undefined)));
    assert!(matches!(w[1], (5, HostRef::Null)));
    assert!(matches!(w[2], (6, HostRef::Bool(true))));
    assert!(matches!(w[3], (7, HostRef::Bool(false))));
}

#[test]
fn conversion_results() {
    assert!(matches!(conversion_outcome(100, 20, 0, 0), Conversion::Pdf { ptr: 100, len: 20 }));
    assert!(matches!(conversion_outcome(0, 0, 9, 1), Conversion::Failed { slot: 9 }));
}

#[test]
fn engine_cache_plan() {
    assert!(matches!(plan_engine_cache(true, true), CachePlan::Download { discard_cached: true }));
    assert!(matches!(plan_engine_cache(true, false), CachePlan::Download { discard_cached: true }));
    assert!(matches!(plan_engine_cache(false, true), CachePlan::UseCached));
    assert!(matches!(plan_engine_cache(false, false), CachePlan::Download { discard_cached: false }));
    assert!(!engine_download_ok(1023));
    assert!(engine_download_ok(1024));
}

#[test]
fn document_names() {
    assert_eq!(document_path(1), "Document.pdf");
    assert_eq!(document_path(2), "Document-2.pdf");
    assert_eq!(document_path(10), "Document-10.pdf");
    assert_eq!(document_path(2147483647), "Document-2147483647.pdf");
}

#[test]
fn first_free_document_name() {
    assert_eq!(next_document_path(|_p: &str| false).as_deref(), Some("Document.pdf"));
    let taken = ["Document.pdf", "Document-2.pdf", "Document-3.pdf"];
    assert_eq!(next_document_path(|p: &str| taken.contains(&p)).as_deref(), Some("Document-4.pdf"));
    let only_first = ["Document.pdf"];
    assert_eq!(next_document_path(|p: &str| only_first.contains(&p)).as_deref(), Some("Document-2.pdf"));
}
