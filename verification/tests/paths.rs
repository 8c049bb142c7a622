use beefy_relay::errors::DecodeError;
use beefy_relay::paths::{
    client_connections_path, client_consensus_state_path, client_id_from_storage_key,
    client_state_path, parse_client_state_path,
};

#[test]
fn client_state_path_is_built() {
    assert_eq!(
        client_state_path(&b"10-grandpa-0".to_vec()),
        b"clients/10-grandpa-0/clientState".to_vec()
    );
}

#[test]
fn consensus_state_path_is_built() {
    assert_eq!(
        client_consensus_state_path(&b"10-grandpa-0".to_vec(), 0, 100),
        b"clients/10-grandpa-0/consensusStates/0-100".to_vec()
    );
}

#[test]
fn connections_path_is_built() {
    assert_eq!(
        client_connections_path(&b"10-grandpa-0".to_vec()),
        b"clients/10-grandpa-0/connections".to_vec()
    );
}

#[test]
fn client_state_path_parses_back() {
    let path = client_state_path(&b"10-grandpa-0".to_vec());
    assert_eq!(parse_client_state_path(&path), Ok(b"10-grandpa-0".to_vec()));
}

#[test]
fn foreign_paths_are_rejected() {
    assert_eq!(
        parse_client_state_path(&b"connections/conn-0".to_vec()),
        Err(DecodeError::Malformed)
    );
    assert_eq!(
        parse_client_state_path(&b"clients/10-grandpa-0/connections".to_vec()),
        Err(DecodeError::Malformed)
    );
    // An id with a path separator inside is no client id.
    assert_eq!(
        parse_client_state_path(&b"clients/a/b/clientState".to_vec()),
        Err(DecodeError::Malformed)
    );
    // An empty id is rejected.
    assert_eq!(parse_client_state_path(&b"clients//clientState".to_vec()), Err(DecodeError::Malformed));
}

fn storage_key(path: &[u8]) -> Vec<u8> {
    let mut key = vec![0xEE; 48]; // hashed pallet, map and key prefix
    if path.len() < 64 {
        key.push((path.len() as u8) << 2);
    } else {
        let word = ((path.len() as u16) << 2) | 1;
        key.extend_from_slice(&word.to_le_bytes());
    }
    key.extend_from_slice(path);
    key
}

#[test]
fn client_id_is_read_out_of_a_storage_key() {
    let key = storage_key(b"clients/10-grandpa-0/clientState");
    assert_eq!(client_id_from_storage_key(&key), Ok(b"10-grandpa-0".to_vec()));
}

#[test]
fn long_client_id_uses_the_two_byte_length() {
    let id = vec![b'x'; 64];
    let mut path = b"clients/".to_vec();
    path.extend_from_slice(&id);
    path.extend_from_slice(b"/clientState");
    let key = storage_key(&path);
    assert_eq!(client_id_from_storage_key(&key), Ok(id));
}

#[test]
fn bad_storage_keys_are_rejected() {
    // Too short for the hashed prefix.
    assert_eq!(client_id_from_storage_key(&vec![0u8; 47]), Err(DecodeError::Malformed));
    // The length prefix covers more than the key holds.
    let mut key = storage_key(b"clients/a/clientState");
    key.pop();
    assert_eq!(client_id_from_storage_key(&key), Err(DecodeError::Malformed));
    // A key holding some other path.
    let key = storage_key(b"clients/a/connections");
    assert_eq!(client_id_from_storage_key(&key), Err(DecodeError::Malformed));
}
