use minimal_runtime::chain_spec::{development_chain_spec, ChainType};
use minimal_runtime::cli::Consensus;
use minimal_runtime::genesis::{
    compact_patch, build_genesis_state, build_state, decode_patch, development_config_genesis, encode_patch,
    get_preset, preset_names, GenesisConfig, GenesisError, ALICE, FERDIE,
};
use minimal_runtime::state::AccountInfo;
use minimal_runtime::template::{Origin, Pezpallet};
use minimal_runtime::executor::DispatchError;
use minimal_runtime::state::State;
use minimal_runtime::version::{development_config, native_version, version};

const DEV_JSON: &str = "{\"balances\":{\"balances\":[[1,1000],[2,1000],[3,1000],[4,1000],[5,1000],[6,1000]]},\"sudo\":{\"key\":1}}";

#[test]
fn development_preset_is_stable() {
    let first = get_preset("development").unwrap();
    let second = get_preset("development").unwrap();
    assert_eq!(first, second);
    assert_eq!(String::from_utf8(first).unwrap(), DEV_JSON);
}

#[test]
fn development_preset_is_json() {
    let bytes = get_preset("development").unwrap();
    let v: serde_json::Value = serde_json::from_slice(&bytes).unwrap();
    let balances = v["balances"]["balances"].as_array().unwrap();
    assert_eq!(balances.len(), 6);
    assert_eq!(balances[0][0].as_u64(), Some(1));
    assert_eq!(balances[5][1].as_u64(), Some(1000));
    assert_eq!(v["sudo"]["key"].as_u64(), Some(1));
}

#[test]
fn unknown_preset_is_absent() {
    assert!(get_preset("local").is_none());
    assert!(get_preset("").is_none());
    assert!(get_preset("Development").is_none());
    let names = preset_names();
    assert_eq!(names, vec!["development".to_string()]);
}

#[test]
fn development_genesis_endows_well_known_accounts() {
    let g = development_config_genesis();
    assert_eq!(g.balances.len(), 6);
    assert!(g.balances.iter().all(|(_, b)| *b == 1000));
    assert_eq!(g.balances[0].0, ALICE);
    assert_eq!(g.balances[5].0, FERDIE);
    assert_eq!(g.sudo_key, Some(ALICE));
}

#[test]
fn development_preset_builds_state() {
    let state = build_state(&get_preset("development").unwrap()).unwrap();
    for who in 1..=6u64 {
        assert_eq!(state.account(who), AccountInfo { nonce: 0, balance: 1000 });
    }
    assert_eq!(state.accounts.len(), 6);
    assert_eq!(state.sudo_key, Some(ALICE));
    assert_eq!(state.something, None);
}

#[test]
fn patch_round_trips() {
    let g = GenesisConfig { balances: vec![(7, 123456789), (u64::MAX, u128::MAX)], sudo_key: None };
    let bytes = encode_patch(&g);
    assert_eq!(
        String::from_utf8(bytes.clone()).unwrap(),
        format!("{{\"balances\":{{\"balances\":[[7,123456789],[{},{}]]}},\"sudo\":{{\"key\":null}}}}", u64::MAX, u128::MAX)
    );
    let back = decode_patch(&bytes).unwrap();
    assert_eq!(back.balances, g.balances);
    assert_eq!(back.sudo_key, None);
    let empty = GenesisConfig { balances: vec![], sudo_key: Some(3) };
    let back = decode_patch(&encode_patch(&empty)).unwrap();
    assert!(back.balances.is_empty());
    assert_eq!(back.sudo_key, Some(3));
}

#[test]
fn undefined_module_is_refused() {
    let r = build_state(&b"{\"treasury\":{\"pot\":5}}".to_vec());
    assert!(matches!(r, Err(GenesisError::UnknownModule)));
    let r = build_state(&b"{\"balances\":{\"balances\":[[1,10]]},\"staking\":{}}".to_vec());
    assert!(matches!(r, Err(GenesisError::UnknownModule)));
}

#[test]
fn malformed_patches_are_refused() {
    for text in [
        "",
        "{",
        "[]",
        "{\"balances\":{\"balances\":[[1,10]]}",
        "{\"balances\":{\"balances\":[[1,10],]}}",
        "{\"balances\":{\"balances\":[[1]]}}",
        "{\"sudo\":{\"key\":x}}",
        "{\"balances\":{\"balances\":[[18446744073709551616,1]]}}",
        "{\"sudo\":{\"key\":1}}x",
        "{\"sudo\":{\"key\":1 2}}",
        "{\"sudo\":{\"key\":nu ll}}",
    ] {
        let r = build_state(&text.as_bytes().to_vec());
        assert!(matches!(r, Err(GenesisError::Malformed)), "{}", text);
    }
}

#[test]
fn patch_content_errors() {
    let r = build_state(&b"{\"sudo\":{\"key\":1},\"sudo\":{\"key\":2}}".to_vec());
    assert!(matches!(r, Err(GenesisError::DuplicateModule)));
    let r = build_state(&b"{\"balances\":{\"balances\":[[1,10],[1,20]]}}".to_vec());
    assert!(matches!(r, Err(GenesisError::DuplicateAccount)));
    let r = build_state(&b"{\"balances\":{\"balances\":[[1,0]]}}".to_vec());
    assert!(matches!(r, Err(GenesisError::BelowMinimum)));
    let g = GenesisConfig { balances: vec![(1, 10)], sudo_key: None };
    assert!(matches!(build_genesis_state(&g, 11), Err(GenesisError::BelowMinimum)));
}

#[test]
fn partial_patches_build() {
    let state = build_state(&b"{}".to_vec()).unwrap();
    assert!(state.accounts.is_empty());
    assert_eq!(state.sudo_key, None);
    let state = build_state(&b"{\"sudo\":{\"key\":9},\"balances\":{\"balances\":[]}}".to_vec()).unwrap();
    assert!(state.accounts.is_empty());
    assert_eq!(state.sudo_key, Some(9));
}

#[test]
fn consensus_identifiers() {
    assert_eq!(Consensus::from_str("instant-seal"), Ok(Consensus::InstantSeal));
    assert_eq!(Consensus::from_str("manual-seal-3000"), Ok(Consensus::ManualSeal(3000)));
    assert_eq!(Consensus::from_str("manual-seal-+7"), Ok(Consensus::ManualSeal(7)));
    assert_eq!(Consensus::from_str("none"), Ok(Consensus::Disabled));
    assert_eq!(Consensus::from_str("NoNe"), Ok(Consensus::Disabled));
    assert_eq!(Consensus::from_str("manual-seal-"), Err("invalid block time".to_string()));
    assert_eq!(Consensus::from_str("manual-seal-x"), Err("invalid block time".to_string()));
    assert_eq!(
        Consensus::from_str("manual-seal-18446744073709551616"),
        Err("invalid block time".to_string())
    );
    assert_eq!(Consensus::from_str("Instant-Seal"), Err("incorrect consensus identifier".to_string()));
    assert_eq!(Consensus::from_str("aura"), Err("incorrect consensus identifier".to_string()));
    assert_eq!(Consensus::from_str_lowered("NONE", "none"), Ok(Consensus::Disabled));
    assert_eq!(Consensus::from_str_lowered("none", "x"), Err("incorrect consensus identifier".to_string()));
}

#[test]
fn development_chain() {
    let spec = development_chain_spec().unwrap();
    assert_eq!(spec.name, "Development");
    assert_eq!(spec.id, "dev");
    assert_eq!(spec.chain_type, ChainType::Development);
    assert_eq!(spec.genesis_preset, "development");
    assert_eq!(spec.properties.token_decimals, 0);
    assert_eq!(spec.properties.token_symbol, "PEZ");
}

#[test]
fn versions() {
    let v = version();
    assert_eq!(v.spec_name, "pez-minimal-template-runtime");
    assert_eq!(v.spec_version, 0);
    assert_eq!(v.transaction_version, 1);
    let n = native_version();
    assert_eq!(n.runtime_version.impl_version, 1);
    assert!(n.can_author_with.is_empty());
    let cfg = development_config(5);
    assert_eq!(cfg.genesis_hash, 5);
    assert_eq!(cfg.length_fee.base, 1);
    assert_eq!(cfg.weight_fee.per_unit, 0);
}

#[test]
fn template_requires_signed_origin() {
    let mut state = State::new();
    assert_eq!(Pezpallet::do_something(&mut state, Origin::Root, 3), Err(DispatchError::BadOrigin));
    assert_eq!(Pezpallet::something(&state), None);
    assert_eq!(Pezpallet::do_something(&mut state, Origin::Signed(4), 3), Ok(()));
    assert_eq!(Pezpallet::something(&state), Some(3));
}

#[test]
fn pretty_printed_patch_builds() {
    let text = "{\n  \"balances\": {\n    \"balances\": [ [1, 1000], [2, 20] ]\n  },\r\n\t\"sudo\": { \"key\": 2 }\n}\n";
    let state = build_state(&text.as_bytes().to_vec()).unwrap();
    assert_eq!(state.account(1), AccountInfo { nonce: 0, balance: 1000 });
    assert_eq!(state.account(2), AccountInfo { nonce: 0, balance: 20 });
    assert_eq!(state.sudo_key, Some(2));
}

#[test]
fn compacting_keeps_names() {
    let text = b" { \" a b \" : [ 1 ,\n2 ] } ".to_vec();
    assert_eq!(compact_patch(&text), b"{\" a b \":[1,2]}".to_vec());
    assert_eq!(compact_patch(&b"[1 2, x\ty]".to_vec()), b"[1 2,x\ty]".to_vec());
    let r = build_state(&b"{\" sudo\":{\"key\":1}}".to_vec());
    assert!(matches!(r, Err(GenesisError::UnknownModule)));
}

#[test]
fn undefined_module_after_known_ones_is_refused() {
    let mut text = String::from_utf8(get_preset("development").unwrap()).unwrap();
    text.pop();
    text.push_str(",\"undefinedModule\":{}}");
    let r = build_state(&text.into_bytes());
    assert!(matches!(r, Err(GenesisError::UnknownModule)));
    let mut value: serde_json::Value = serde_json::from_slice(&get_preset("development").unwrap()).unwrap();
    value["undefinedModule"] = serde_json::Value::Object(serde_json::Map::new());
    let r = build_state(&serde_json::to_vec_pretty(&value).unwrap());
    assert!(matches!(r, Err(GenesisError::UnknownModule)));
}
