use nowasm::module::Module;

fn decode(wasm: &[u8]) -> Module {
    Module::decode(wasm).expect("decode module")
}

#[test]
fn decode_empty_module() {
    let input = [0, 97, 115, 109, 1, 0, 0, 0];
    decode(&input);
}

#[test]
fn decode_add_two() {
    let input = [
        0, 97, 115, 109, 1, 0, 0, 0, 1, 7, 1, 96, 2, 127, 127, 1, 127, 3, 2, 1, 0, 7, 10, 1, 6,
        97, 100, 100, 84, 119, 111, 0, 0, 10, 9, 1, 7, 0, 32, 0, 32, 1, 106, 11,
    ];
    let module = decode(&input);
    assert_eq!(1, module.exports().len());
    assert_eq!("addTwo", module.exports()[0].name.as_str());
}
