use soroban_drift::spec_extractor::{
    extract_spec, extract_spec_from_payloads, parse_contractspec_section, parse_function_entry,
    read_scalar_type, read_xdr_string, SpecExtractError, WasmError, WasmPayload,
};
use soroban_drift::types::ContractSpec;

fn push_u32(buf: &mut Vec<u8>, v: u32) {
    buf.extend_from_slice(&v.to_le_bytes());
}

fn push_str(buf: &mut Vec<u8>, s: &str) {
    push_u32(buf, s.len() as u32);
    buf.extend_from_slice(s.as_bytes());
    while buf.len() % 4 != 0 {
        buf.push(0);
    }
}

fn function_entry(func_name: &str, inputs: &[(&str, u32)], outputs: &[u32]) -> Vec<u8> {
    let mut section_data = Vec::new();
    push_u32(&mut section_data, 0);
    push_u32(&mut section_data, 0);
    push_str(&mut section_data, func_name);
    push_u32(&mut section_data, inputs.len() as u32);
    for (name, ty_disc) in inputs {
        push_u32(&mut section_data, *ty_disc);
        push_str(&mut section_data, name);
    }
    push_u32(&mut section_data, outputs.len() as u32);
    for ty_disc in outputs {
        push_u32(&mut section_data, *ty_disc);
    }
    section_data
}

fn write_leb128(buf: &mut Vec<u8>, mut value: u64) {
    loop {
        let mut byte = (value & 0x7f) as u8;
        value >>= 7;
        if value != 0 {
            byte |= 0x80;
        }
        buf.push(byte);
        if value == 0 {
            break;
        }
    }
}

fn wasm_with_section(section_data: &[u8]) -> Vec<u8> {
    let mut wasm = Vec::new();
    wasm.extend_from_slice(b"\0asm");
    wasm.extend_from_slice(&[1u8, 0, 0, 0]);
    let section_name = b"contractspecv0";
    let section_content_len = section_name.len() + section_data.len() + 1;
    wasm.push(0);
    write_leb128(&mut wasm, section_content_len as u64);
    write_leb128(&mut wasm, section_name.len() as u64);
    wasm.extend_from_slice(section_name);
    wasm.extend_from_slice(section_data);
    wasm
}

fn build_test_wasm(func_name: &str, inputs: &[(&str, u32)], outputs: &[u32]) -> Vec<u8> {
    wasm_with_section(&function_entry(func_name, inputs, outputs))
}

fn build_test_wasm_without_custom_section() -> Vec<u8> {
    let mut wasm = Vec::new();
    wasm.extend_from_slice(b"\0asm");
    wasm.extend_from_slice(&[1u8, 0, 0, 0]);
    wasm
}

#[test]
fn parse_function_with_no_args() {
    let wasm = build_test_wasm("hello", &[], &[]);
    let spec = extract_spec(&wasm).unwrap();
    assert_eq!(spec.functions.len(), 1);
    assert_eq!(spec.functions[0].name, "hello");
    assert!(spec.functions[0].inputs.is_empty());
    assert!(spec.functions[0].outputs.is_empty());
}

#[test]
fn parse_function_with_args() {
    let wasm = build_test_wasm(
        "transfer",
        &[("from", 16u32), ("to", 16u32), ("amount", 11u32)],
        &[1u32],
    );
    let spec = extract_spec(&wasm).unwrap();
    assert_eq!(spec.functions.len(), 1);
    assert_eq!(spec.functions[0].name, "transfer");
    assert_eq!(spec.functions[0].inputs.len(), 3);
    assert_eq!(spec.functions[0].inputs[0].name, "from");
    assert_eq!(spec.functions[0].inputs[0].ty, "Address");
    assert_eq!(spec.functions[0].inputs[2].ty, "i128");
    assert_eq!(spec.functions[0].outputs.len(), 1);
    assert_eq!(spec.functions[0].outputs[0].ty, "Void");
}

#[test]
fn empty_wasm_no_spec_section() {
    let wasm = build_test_wasm_without_custom_section();
    let spec = extract_spec(&wasm).unwrap();
    assert!(spec.functions.is_empty());
}

#[test]
fn invalid_wasm_file() {
    let result = extract_spec(b"not a wasm file");
    assert!(result.is_err());
    match result {
        Err(SpecExtractError::WasmParse(e)) => assert!(!e.message.is_empty()),
        other => panic!("unexpected {:?}", other),
    }
}

#[test]
fn section_reads_several_functions_until_other_entry() {
    let mut data = function_entry("a", &[("x", 4)], &[5]);
    data.extend(function_entry("b", &[], &[19, 22]));
    push_u32(&mut data, 1);
    data.extend(function_entry("c", &[], &[]));
    let mut spec = ContractSpec::default();
    parse_contractspec_section(&data, &mut spec);
    assert_eq!(spec.functions.len(), 2);
    assert_eq!(spec.functions[0].name, "a");
    assert_eq!(spec.functions[0].inputs[0].ty, "u32");
    assert_eq!(spec.functions[0].outputs[0].ty, "i32");
    assert_eq!(spec.functions[0].outputs[0].name, "");
    assert_eq!(spec.functions[1].name, "b");
    assert_eq!(spec.functions[1].outputs[0].ty, "Vec<...>");
    assert_eq!(spec.functions[1].outputs[1].ty, "Option<...>");
}

#[test]
fn bytes_n_reads_its_size() {
    let mut data = Vec::new();
    push_u32(&mut data, 0);
    push_u32(&mut data, 0);
    push_str(&mut data, "hash");
    push_u32(&mut data, 0);
    push_u32(&mut data, 1);
    push_u32(&mut data, 15);
    push_u32(&mut data, 32);
    let mut spec = ContractSpec::default();
    parse_contractspec_section(&data, &mut spec);
    assert_eq!(spec.functions.len(), 1);
    assert_eq!(spec.functions[0].outputs[0].ty, "BytesN(32)");
}

#[test]
fn every_scalar_type_name() {
    let names = [
        "Val", "Void", "Bool", "Error", "u32", "i32", "u64", "i64", "Timestamp", "Duration",
        "u128", "i128", "u256", "i256", "Bytes",
    ];
    let discs: Vec<u32> = (0..15).collect();
    let wasm = build_test_wasm("f", &[], &discs);
    let spec = extract_spec(&wasm).unwrap();
    let got: Vec<&str> = spec.functions[0].outputs.iter().map(|p| p.ty.as_str()).collect();
    assert_eq!(got, names.to_vec());
    let wasm = build_test_wasm("g", &[], &[16, 17, 18, 20, 21]);
    let spec = extract_spec(&wasm).unwrap();
    let got: Vec<&str> = spec.functions[0].outputs.iter().map(|p| p.ty.as_str()).collect();
    assert_eq!(got, vec!["Address", "String", "Symbol", "Map<...>", "Contract<...>"]);
}

#[test]
fn unknown_type_stops_reading() {
    let mut data = function_entry("a", &[], &[]);
    data.extend(function_entry("b", &[("x", 99)], &[]));
    let mut spec = ContractSpec::default();
    parse_contractspec_section(&data, &mut spec);
    assert_eq!(spec.functions.len(), 1);
    assert_eq!(spec.functions[0].name, "a");
}

#[test]
fn truncated_entry_yields_nothing() {
    let data = function_entry("transfer", &[("from", 16)], &[1]);
    for cut in 0..data.len() {
        let mut spec = ContractSpec::default();
        parse_contractspec_section(&data[..cut], &mut spec);
        assert!(spec.functions.is_empty(), "cut at {}", cut);
    }
}

#[test]
fn invalid_utf8_name_yields_nothing() {
    let mut data = Vec::new();
    push_u32(&mut data, 0);
    push_u32(&mut data, 0);
    push_u32(&mut data, 2);
    data.extend_from_slice(&[0xff, 0xfe, 0, 0]);
    push_u32(&mut data, 0);
    push_u32(&mut data, 0);
    let mut spec = ContractSpec::default();
    parse_contractspec_section(&data, &mut spec);
    assert!(spec.functions.is_empty());
}

#[test]
fn appends_to_existing_spec() {
    let data = function_entry("second", &[], &[]);
    let mut spec = ContractSpec::default();
    parse_contractspec_section(&function_entry("first", &[], &[]), &mut spec);
    parse_contractspec_section(&data, &mut spec);
    let names: Vec<&str> = spec.functions.iter().map(|f| f.name.as_str()).collect();
    assert_eq!(names, vec!["first", "second"]);
}

#[test]
fn payloads_first_spec_section_wins() {
    let section = |name: &str, data: Vec<u8>| Ok(WasmPayload::Custom { name: name.to_string(), data });
    let payloads = vec![
        Ok(WasmPayload::Other),
        section("name", function_entry("ignored", &[], &[])),
        section("contractspecv0", function_entry("first", &[], &[])),
        Err(WasmError { message: "late".to_string(), offset: 9 }),
    ];
    let spec = extract_spec_from_payloads(&payloads).unwrap();
    assert_eq!(spec.functions.len(), 1);
    assert_eq!(spec.functions[0].name, "first");
}

#[test]
fn payloads_error_before_section_fails() {
    let payloads = vec![
        Ok(WasmPayload::Other),
        Err(WasmError { message: "bad section".to_string(), offset: 12 }),
        Ok(WasmPayload::Custom { name: "contractspecv0".to_string(), data: function_entry("f", &[], &[]) }),
    ];
    match extract_spec_from_payloads(&payloads) {
        Err(SpecExtractError::WasmParse(e)) => {
            assert_eq!(e.message, "bad section");
            assert_eq!(e.offset, 12);
        }
        other => panic!("unexpected {:?}", other),
    }
}

#[test]
fn payloads_without_section_give_empty_spec() {
    let payloads = vec![Ok(WasmPayload::Other)];
    assert!(extract_spec_from_payloads(&payloads).unwrap().functions.is_empty());
    assert!(extract_spec_from_payloads(&vec![]).unwrap().functions.is_empty());
}

#[test]
fn wasm_error_after_section_is_not_reached() {
    let mut wasm = build_test_wasm("hello", &[], &[]);
    wasm.extend_from_slice(&[0x7f, 0x05, 1, 2]);
    let spec = extract_spec(&wasm).unwrap();
    assert_eq!(spec.functions[0].name, "hello");
}

#[test]
fn xdr_string_is_padded_to_four_bytes() {
    let mut data = vec![0u8; 4];
    push_str(&mut data, "hello");
    assert_eq!(read_xdr_string(&data, 4), Some(("hello".to_string(), 16)));
    assert_eq!(read_xdr_string(&data, 14), None);
    assert_eq!(read_xdr_string(&data, 100), None);
    let bad = vec![2, 0, 0, 0, 0xff, 0xfe, 0, 0];
    assert_eq!(read_xdr_string(&bad, 0), None);
}

#[test]
fn scalar_types_by_discriminant() {
    let mut data = Vec::new();
    push_u32(&mut data, 11);
    push_u32(&mut data, 15);
    push_u32(&mut data, 32);
    push_u32(&mut data, 23);
    assert_eq!(read_scalar_type(&data, 0), Some(("i128".to_string(), 4)));
    assert_eq!(read_scalar_type(&data, 4), Some(("BytesN(32)".to_string(), 12)));
    assert_eq!(read_scalar_type(&data, 12), None);
    assert_eq!(read_scalar_type(&data, 8), None);
    assert_eq!(read_scalar_type(&data[..8], 4), None);
}

#[test]
fn function_entry_takes_whole_words() {
    let data = function_entry("transfer", &[("from", 16)], &[1]);
    let (f, used) = parse_function_entry(&data[4..]).unwrap();
    assert_eq!(f.name, "transfer");
    assert_eq!(f.inputs.len(), 1);
    assert_eq!(f.inputs[0].ty, "Address");
    assert_eq!(f.outputs[0].name, "");
    assert_eq!(used, data.len() - 4);
    assert_eq!(used % 4, 0);
}
