use hanzo_sdk::search::detect_language;

#[test]
fn test_detect_language() {
    assert_eq!(detect_language("test.rs"), "rust");
    assert_eq!(detect_language("test.js"), "javascript");
    assert_eq!(detect_language("test.ts"), "typescript");
    assert_eq!(detect_language("test.py"), "python");
    assert_eq!(detect_language("test.go"), "go");
}
