use nova_circom::backend::is_module_path_str;
use nova_circom::codec::{is_decimal_str, FieldElement};
use nova_circom::driver::copy_state;

#[test]
fn decimal_strings_are_recognised() {
    assert!(is_decimal_str("0"));
    assert!(is_decimal_str("0123456789"));
    assert!(!is_decimal_str(""));
    assert!(!is_decimal_str("12.5"));
    assert!(!is_decimal_str("١٢"));
}

#[test]
fn module_paths_are_recognised() {
    assert!(is_module_path_str("a.wasm"));
    assert!(is_module_path_str("dir/toy_js/toy.wasm"));
    assert!(!is_module_path_str(".wasm"));
    assert!(!is_module_path_str("dir/.wasm"));
    assert!(!is_module_path_str("toy.WASM"));
    assert!(!is_module_path_str("toy.wasm.bak"));
}

#[test]
fn copied_state_holds_the_same_bytes() {
    let state = vec![
        FieldElement { repr: vec![1; 32] },
        FieldElement { repr: vec![7; 32] },
    ];
    let copy = copy_state(&state);
    assert_eq!(copy.len(), 2);
    assert_eq!(copy[0].repr, vec![1; 32]);
    assert_eq!(copy[1].repr, vec![7; 32]);
}
