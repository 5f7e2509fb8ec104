use base64::Engine;
use onboard::identity::{identity_from_parts, normalize_game_id, sandbox_identity};
use onboard::record::GameRecord;

fn record(id: &str, name: &str, hash: &str) -> GameRecord {
    GameRecord { id: id.to_string(), name: name.to_string(), hash: hash.to_string() }
}

#[test]
fn normalization_replaces_dashes() {
    assert_eq!(normalize_game_id("a-b-c"), "a_b_c");
    assert_eq!(normalize_game_id("plain"), "plain");
    assert_eq!(normalize_game_id(""), "");
    assert_eq!(normalize_game_id("--"), "__");
}

#[test]
fn identity_from_known_bytes() {
    let id = identity_from_parts("g-1", &vec![0xab, 0xcd]);
    assert_eq!(id, "edu.rit.csh.devcade.generated_game.id_g_1.hash_abcd");
}

#[test]
fn identity_from_record_decodes_base64() {
    let hash = base64::engine::general_purpose::STANDARD.encode([0xab, 0xcd]);
    let g = record("g-1", "Game One", hash.as_str());
    let id = sandbox_identity(&g).unwrap();
    assert_eq!(id, "edu.rit.csh.devcade.generated_game.id_g_1.hash_abcd");
}

#[test]
fn identity_rejects_malformed_hash() {
    let g = record("g1", "Game One", "not base64!!!");
    assert!(sandbox_identity(&g).is_none());
}

#[test]
fn identity_is_deterministic() {
    let hash = base64::engine::general_purpose::STANDARD.encode([1u8, 2, 3]);
    let g1 = record("g1", "A", hash.as_str());
    let g2 = record("g1", "B", hash.as_str());
    assert_eq!(sandbox_identity(&g1).unwrap(), sandbox_identity(&g2).unwrap());
}

#[test]
fn identity_changes_with_hash() {
    let h1 = base64::engine::general_purpose::STANDARD.encode([1u8, 2, 3]);
    let h2 = base64::engine::general_purpose::STANDARD.encode([1u8, 2, 4]);
    let a = sandbox_identity(&record("g1", "A", h1.as_str())).unwrap();
    let b = sandbox_identity(&record("g1", "A", h2.as_str())).unwrap();
    assert_ne!(a, b);
}

#[test]
fn identity_changes_with_id() {
    let h = base64::engine::general_purpose::STANDARD.encode([1u8, 2, 3]);
    let a = sandbox_identity(&record("g1", "A", h.as_str())).unwrap();
    let b = sandbox_identity(&record("g2", "A", h.as_str())).unwrap();
    assert_ne!(a, b);
}

#[test]
fn identity_hex_matches_hex_crate() {
    let bytes = vec![0u8, 15, 16, 255];
    let id = identity_from_parts("g", &bytes);
    let expected = format!("edu.rit.csh.devcade.generated_game.id_g.hash_{}", hex::encode(&bytes));
    assert_eq!(id, expected);
}
