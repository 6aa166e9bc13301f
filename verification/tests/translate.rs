use bf2wasm::error::ErrorKind;
use bf2wasm::translate::compile;

fn wasm_bytes(src: &[u8]) -> Vec<u8> {
    let mut module = compile(&src.to_vec()).expect("translation should succeed");
    module.emit_wasm()
}

fn contains_sub(haystack: &[u8], needle: &[u8]) -> bool {
    haystack.windows(needle.len()).any(|w| w == needle)
}

#[test]
fn empty_input_translates() {
    let bytes = wasm_bytes(b"");
    assert_eq!(&bytes[0..4], b"\0asm");
}

#[test]
fn well_bracketed_consumes_all() {
    assert!(compile(&b"+[>,<-.]".to_vec()).is_ok());
    assert!(compile(&b"><+-.,".to_vec()).is_ok());
}

#[test]
fn stray_close_rejected() {
    let err = compile(&b"+]+".to_vec()).unwrap_err();
    assert_eq!(err.kind(), ErrorKind::InvalidInput);
    assert_eq!(err.position(), Some(1));
}

#[test]
fn stray_close_alone_rejected() {
    let err = compile(&b"]".to_vec()).unwrap_err();
    assert_eq!(err.kind(), ErrorKind::InvalidInput);
    assert_eq!(err.position(), Some(0));
}

#[test]
fn unclosed_open_rejected() {
    let err = compile(&b"+[".to_vec()).unwrap_err();
    assert_eq!(err.kind(), ErrorKind::InvalidInput);
    assert_eq!(err.position(), None);
}

#[test]
fn invalid_byte_rejected_at_its_position() {
    let err = compile(&b"+a+".to_vec()).unwrap_err();
    assert_eq!(err.kind(), ErrorKind::InvalidInput);
    assert_eq!(err.position(), Some(1));
}

#[test]
fn whitespace_is_invalid() {
    let err = compile(&b"+ +".to_vec()).unwrap_err();
    assert_eq!(err.kind(), ErrorKind::InvalidInput);
    assert_eq!(err.position(), Some(1));
}

#[test]
fn translation_is_a_pure_function_of_input() {
    let src = b"++[>+.<-],";
    assert_eq!(wasm_bytes(src), wasm_bytes(src));
}

#[test]
fn plus_run_then_putc_translates() {
    let mut src = vec![b'+'; 5];
    src.push(b'.');
    let bytes = wasm_bytes(&src);
    assert_eq!(&bytes[0..4], b"\0asm");
}

#[test]
fn single_decrement_loop_translates() {
    assert!(compile(&b"+[-]".to_vec()).is_ok());
}

#[test]
fn nested_loops_translate() {
    assert!(compile(&b"[[]]".to_vec()).is_ok());
}

#[test]
fn nested_loop_missing_close_rejected() {
    let err = compile(&b"[[]".to_vec()).unwrap_err();
    assert_eq!(err.kind(), ErrorKind::InvalidInput);
    assert_eq!(err.position(), None);
}

#[test]
fn nested_loop_extra_close_rejected() {
    let err = compile(&b"[]]".to_vec()).unwrap_err();
    assert_eq!(err.kind(), ErrorKind::InvalidInput);
    assert_eq!(err.position(), Some(2));
}

#[test]
fn tokens_emit_instructions() {
    // A program that emits instructions must serialize to more bytes than an
    // empty one: the per-token wrappers really append to the module.
    let with_tokens = wasm_bytes(b"+.");
    let empty = wasm_bytes(b"");
    assert!(with_tokens.len() > empty.len());
    assert_ne!(with_tokens, empty);
}

#[test]
fn module_declares_imports_and_entry_point() {
    let bytes = wasm_bytes(b",.");
    assert!(contains_sub(&bytes, b"env"));
    assert!(contains_sub(&bytes, b"memory"));
    assert!(contains_sub(&bytes, b"putc"));
    assert!(contains_sub(&bytes, b"getc"));
    assert!(contains_sub(&bytes, b"main"));
}

#[test]
fn error_from_kind_carries_no_position() {
    let e: bf2wasm::error::Error = ErrorKind::Io.into();
    assert_eq!(e.kind(), ErrorKind::Io);
    assert_eq!(e.position(), None);
}

#[test]
fn no_module_on_failure() {
    assert!(compile(&b"hello".to_vec()).is_err());
    assert!(compile(&b"[".to_vec()).is_err());
}
