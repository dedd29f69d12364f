use std::path::PathBuf;
use viem_emitter::abi::{abi_module, abi_module_name, render_abi};
use viem_emitter::render::push_decimal;
use viem_emitter::table::{address_table_of, network_addresses};
use viem_emitter::{ContractMetadata, IntermediateContracts, OutputDir, Viem};

fn json(text: &str) -> serde_json::Value {
    serde_json::from_str(text).unwrap()
}

fn record(name: &str, address: &str, abi: &str) -> ContractMetadata {
    ContractMetadata::new(name.to_string(), address.to_string(), json(abi))
}

fn emitter(ic: IntermediateContracts) -> Viem {
    Viem::new(PathBuf::from("/out/addr"), PathBuf::from("/out/abi"), ic)
}

fn parse_abi_module(contents: &str) -> serde_json::Value {
    let body = contents
        .strip_prefix("export default ")
        .unwrap()
        .strip_suffix(" as const;\n")
        .unwrap();
    serde_json::from_str(body).unwrap()
}

#[test]
fn single_token_scenario() {
    let ic = vec![(1u64, vec![record("Token", "0xabc", r#"[{"type":"function"}]"#)])];
    let v = emitter(ic);
    let files = v.render_files();
    assert_eq!(files.len(), 2);
    assert_eq!(files[0].dir, OutputDir::Addresses);
    assert_eq!(files[0].file_name, "contract-addresses.ts");
    assert_eq!(
        files[0].contents,
        "export const ContractAddress = {\n  1: {\n    \"Token\": \"0xabc\",\n  },\n} as const;\n"
    );
    assert_eq!(files[1].dir, OutputDir::Abi);
    assert_eq!(files[1].file_name, "Token.ts");
    assert_eq!(
        files[1].contents,
        "export default [\n  {\n    \"type\": \"function\"\n  }\n] as const;\n"
    );
    assert_eq!(v.addresses_dir(), &PathBuf::from("/out/addr"));
    assert_eq!(v.abi_dir(), &PathBuf::from("/out/abi"));
}

#[test]
fn abi_round_trips() {
    let abis = [
        r#"[{"type":"function"}]"#,
        r#"[]"#,
        r#"[{"type":"event","name":"Transfer","inputs":[{"name":"to","type":"address","indexed":true}]}]"#,
        r#"{"nested":{"a":[1,2.5,null,true,"x\"y"]}}"#,
    ];
    for text in abis {
        let value = json(text);
        let module = render_abi(&value);
        assert_eq!(parse_abi_module(&module), value);
    }
}

#[test]
fn multiple_networks() {
    let ic = vec![
        (1u64, vec![record("Token", "0x1", "[]")]),
        (137u64, vec![record("Vault", "0x2", "[]")]),
    ];
    let text = emitter(ic).addresses_module();
    assert_eq!(
        text,
        "export const ContractAddress = {\n  1: {\n    \"Token\": \"0x1\",\n  },\n  137: {\n    \"Vault\": \"0x2\",\n  },\n} as const;\n"
    );
}

#[test]
fn empty_input() {
    let v = emitter(Vec::new());
    let files = v.render_files();
    assert_eq!(files.len(), 1);
    assert_eq!(files[0].contents, "export const ContractAddress = {\n} as const;\n");
    assert_eq!(Viem::json_to_ts(Vec::new()), "export const ContractAddress = {\n} as const;\n");
}

#[test]
fn last_write_wins_within_network() {
    let cs = vec![
        record("A", "addr1", "[]"),
        record("B", "addrB", "[]"),
        record("A", "addr2", "[]"),
    ];
    let entries = network_addresses(&cs);
    assert_eq!(
        entries,
        vec![
            ("A".to_string(), "addr2".to_string()),
            ("B".to_string(), "addrB".to_string())
        ]
    );
    let text = emitter(vec![(5u64, cs)]).addresses_module();
    assert!(text.contains("\"A\": \"addr2\","));
    assert!(!text.contains("addr1"));
}

#[test]
fn later_group_of_same_network_replaces_earlier() {
    let ic = vec![
        (1u64, vec![record("Old", "0x0", "[]")]),
        (2u64, vec![record("Other", "0x2", "[]")]),
        (1u64, vec![record("New", "0x1", "[]")]),
    ];
    let table = address_table_of(&ic);
    assert_eq!(
        table,
        vec![
            (1u64, vec![("New".to_string(), "0x1".to_string())]),
            (2u64, vec![("Other".to_string(), "0x2".to_string())])
        ]
    );
}

#[test]
fn completeness_of_addresses() {
    let ic = vec![
        (1u64, vec![record("Token", "0xa", "[]"), record("Pool", "0xb", "[]")]),
        (10u64, vec![record("Token", "0xc", "[]")]),
        (42161u64, vec![record("Bridge", "0xd", "[]")]),
    ];
    let v = emitter(ic);
    let text = v.addresses_module();
    for (id, cs) in v.intermediate_contracts() {
        let block = format!("  {}: {{\n", id);
        assert!(text.contains(&block));
        for c in cs {
            assert!(text.contains(&format!("    \"{}\": \"{}\",\n", c.name, c.address)));
        }
    }
}

#[test]
fn render_is_idempotent() {
    let make = || {
        vec![
            (137u64, vec![record("Vault", "0x2", r#"[{"type":"constructor"}]"#)]),
            (1u64, vec![record("Token", "0x1", "[]"), record("Pool", "0x3", "[]")]),
        ]
    };
    let first = emitter(make()).render_files();
    let second = emitter(make()).render_files();
    assert_eq!(first.len(), second.len());
    for (a, b) in first.iter().zip(second.iter()) {
        assert_eq!(a.dir, b.dir);
        assert_eq!(a.file_name, b.file_name);
        assert_eq!(a.contents, b.contents);
    }
}

#[test]
fn abi_files_follow_input_order_across_networks() {
    let ic = vec![
        (1u64, vec![record("Token", "0x1", r#"[{"type":"a"}]"#), record("Pool", "0x2", "[]")]),
        (10u64, vec![record("Token", "0x3", r#"[{"type":"b"}]"#)]),
    ];
    let files = emitter(ic).render_files();
    let names: Vec<&str> = files.iter().map(|f| f.file_name.as_str()).collect();
    assert_eq!(names, vec!["contract-addresses.ts", "Token.ts", "Pool.ts", "Token.ts"]);
    assert_eq!(parse_abi_module(&files[3].contents), json(r#"[{"type":"b"}]"#));
    assert!(files[1..].iter().all(|f| f.dir == OutputDir::Abi));
}

#[test]
fn abi_files_of_one_network() {
    let cs = vec![record("X", "0x1", "[1]"), record("Y", "0x2", "{}")];
    let files = Viem::abi_files(&cs);
    assert_eq!(files.len(), 2);
    assert_eq!(files[0].file_name, "X.ts");
    assert_eq!(files[0].contents, "export default [\n  1\n] as const;\n");
    assert_eq!(files[1].file_name, "Y.ts");
    assert_eq!(files[1].contents, "export default {} as const;\n");
    assert!(Viem::abi_files(&Vec::new()).is_empty());
}

#[test]
fn abi_module_text() {
    assert_eq!(abi_module("[]"), "export default [] as const;\n");
    assert_eq!(abi_module(""), "export default  as const;\n");
    assert_eq!(abi_module_name("Token"), "Token.ts");
}

#[test]
fn render_abi_serialises_pretty() {
    let module = render_abi(&json(r#"{"a":1}"#));
    assert_eq!(module, "export default {\n  \"a\": 1\n} as const;\n");
}

#[test]
fn decimal_rendering() {
    let cases = [(0u64, "0"), (7, "7"), (10, "10"), (137, "137"), (u64::MAX, "18446744073709551615")];
    for (n, expected) in cases {
        let mut s = String::from("id=");
        push_decimal(&mut s, n);
        assert_eq!(s, format!("id={}", expected));
    }
}

#[test]
fn json_to_ts_keeps_table_order() {
    let table = vec![
        (
            56u64,
            vec![
                ("B".to_string(), "0x2".to_string()),
                ("A".to_string(), "0x1".to_string()),
            ],
        ),
        (1u64, Vec::new()),
    ];
    assert_eq!(
        Viem::json_to_ts(table),
        "export const ContractAddress = {\n  56: {\n    \"B\": \"0x2\",\n    \"A\": \"0x1\",\n  },\n  1: {\n  },\n} as const;\n"
    );
}

#[test]
fn conflicting_abis_across_networks_are_found() {
    let ic = vec![
        (1u64, vec![record("Token", "0x1", r#"[{"type":"a"}]"#), record("Pool", "0x2", "[]")]),
        (10u64, vec![record("Pool", "0x4", "[]"), record("Token", "0x3", r#"[{"type":"b"}]"#)]),
    ];
    let files = emitter(ic).render_files();
    assert_eq!(Viem::first_conflict(&files), Some((1, 4)));
}

#[test]
fn identical_abis_across_networks_do_not_conflict() {
    let ic = vec![
        (1u64, vec![record("Token", "0x1", "[]")]),
        (10u64, vec![record("Token", "0x3", "[]")]),
    ];
    let files = emitter(ic).render_files();
    assert_eq!(Viem::first_conflict(&files), None);
    assert_eq!(Viem::first_conflict(&Vec::new()), None);
}
