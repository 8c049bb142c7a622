use vstd::prelude::*;
use vstd::bytes::{spec_u16_from_le_bytes, u16_from_le_bytes};
use vstd::slice::{slice_subrange, slice_to_vec};

use crate::commitment::{parse_u32_at, parse_u8_at, spec_parse_u32, spec_parse_u8};
use crate::errors::DecodeError;
use crate::ics20::{decimal_bytes, spec_decimal};

verus! {

broadcast use crate::crypto::lemma_vec_u8_deep_view;

// ---------------------------------------------------------------------------
// Store paths: the keys under which a chain stores client state, and the
// inverse reading of a client-states storage key. The reads themselves are
// chain calls; what is built and parsed here is only bytes.
// ---------------------------------------------------------------------------

/// The bytes of `clients/`.
pub open spec fn spec_clients_prefix() -> Seq<u8> {
    seq![99u8, 108u8, 105u8, 101u8, 110u8, 116u8, 115u8, 47u8]
}

/// The bytes of `/clientState`.
pub open spec fn spec_client_state_suffix() -> Seq<u8> {
    seq![47u8, 99u8, 108u8, 105u8, 101u8, 110u8, 116u8, 83u8, 116u8, 97u8, 116u8, 101u8]
}

/// The bytes of `/consensusStates/`.
pub open spec fn spec_consensus_states_infix() -> Seq<u8> {
    seq![
        47u8,
        99u8,
        111u8,
        110u8,
        115u8,
        101u8,
        110u8,
        115u8,
        117u8,
        115u8,
        83u8,
        116u8,
        97u8,
        116u8,
        101u8,
        115u8,
        47u8,
    ]
}

/// The bytes of `/connections`.
pub open spec fn spec_connections_suffix() -> Seq<u8> {
    seq![47u8, 99u8, 111u8, 110u8, 110u8, 101u8, 99u8, 116u8, 105u8, 111u8, 110u8, 115u8]
}

fn clients_prefix() -> (r: Vec<u8>)
    ensures
        r@ == spec_clients_prefix(),
{
    let mut r: Vec<u8> = Vec::new();
    r.push(99);  // c
    r.push(108);  // l
    r.push(105);  // i
    r.push(101);  // e
    r.push(110);  // n
    r.push(116);  // t
    r.push(115);  // s
    r.push(47);  // /
    proof {
        assert(r@ =~= spec_clients_prefix());
    }
    r
}

fn client_state_suffix() -> (r: Vec<u8>)
    ensures
        r@ == spec_client_state_suffix(),
{
    let mut r: Vec<u8> = Vec::new();
    r.push(47);  // /
    r.push(99);  // c
    r.push(108);  // l
    r.push(105);  // i
    r.push(101);  // e
    r.push(110);  // n
    r.push(116);  // t
    r.push(83);  // S
    r.push(116);  // t
    r.push(97);  // a
    r.push(116);  // t
    r.push(101);  // e
    proof {
        assert(r@ =~= spec_client_state_suffix());
    }
    r
}

/// The store path of a client's state: `clients/{client_id}/clientState`.
pub open spec fn spec_client_state_path(client_id: Seq<u8>) -> Seq<u8> {
    spec_clients_prefix() + client_id + spec_client_state_suffix()
}

/// Build the store path of a client's state.
pub fn client_state_path(client_id: &Vec<u8>) -> (r: Vec<u8>)
    ensures
        r@ == spec_client_state_path(client_id@),
{
    let mut r = clients_prefix();
    let mut id = slice_to_vec(client_id.as_slice());
    r.append(&mut id);
    let mut suffix = client_state_suffix();
    r.append(&mut suffix);
    proof {
        assert(r@ =~= spec_client_state_path(client_id@));
    }
    r
}

/// The store path of a client's consensus state at a height:
/// `clients/{client_id}/consensusStates/{epoch}-{height}`.
pub open spec fn spec_client_consensus_state_path(
    client_id: Seq<u8>,
    epoch: u64,
    height: u64,
) -> Seq<u8> {
    spec_clients_prefix() + client_id + spec_consensus_states_infix() + spec_decimal(epoch as nat)
        + seq![45u8] + spec_decimal(height as nat)
}

/// Build the store path of a client's consensus state at a height.
pub fn client_consensus_state_path(client_id: &Vec<u8>, epoch: u64, height: u64) -> (r: Vec<u8>)
    ensures
        r@ == spec_client_consensus_state_path(client_id@, epoch, height),
{
    let mut r = clients_prefix();
    let mut id = slice_to_vec(client_id.as_slice());
    r.append(&mut id);
    let mut infix: Vec<u8> = Vec::new();
    infix.push(47);  // /
    infix.push(99);  // c
    infix.push(111);  // o
    infix.push(110);  // n
    infix.push(115);  // s
    infix.push(101);  // e
    infix.push(110);  // n
    infix.push(115);  // s
    infix.push(117);  // u
    infix.push(115);  // s
    infix.push(83);  // S
    infix.push(116);  // t
    infix.push(97);  // a
    infix.push(116);  // t
    infix.push(101);  // e
    infix.push(115);  // s
    infix.push(47);  // /
    proof {
        assert(infix@ =~= spec_consensus_states_infix());
    }
    r.append(&mut infix);
    let mut e = decimal_bytes(epoch);
    r.append(&mut e);
    r.push(45);  // -
    let mut h = decimal_bytes(height);
    r.append(&mut h);
    proof {
        assert(r@ =~= spec_client_consensus_state_path(client_id@, epoch, height));
    }
    r
}

/// The store path listing a client's connections:
/// `clients/{client_id}/connections`.
pub open spec fn spec_client_connections_path(client_id: Seq<u8>) -> Seq<u8> {
    spec_clients_prefix() + client_id + spec_connections_suffix()
}

/// Build the store path listing a client's connections.
pub fn client_connections_path(client_id: &Vec<u8>) -> (r: Vec<u8>)
    ensures
        r@ == spec_client_connections_path(client_id@),
{
    let mut r = clients_prefix();
    let mut id = slice_to_vec(client_id.as_slice());
    r.append(&mut id);
    let mut suffix: Vec<u8> = Vec::new();
    suffix.push(47);  // /
    suffix.push(99);  // c
    suffix.push(111);  // o
    suffix.push(110);  // n
    suffix.push(110);  // n
    suffix.push(101);  // e
    suffix.push(99);  // c
    suffix.push(116);  // t
    suffix.push(105);  // i
    suffix.push(111);  // o
    suffix.push(110);  // n
    suffix.push(115);  // s
    proof {
        assert(suffix@ =~= spec_connections_suffix());
    }
    r.append(&mut suffix);
    proof {
        assert(r@ =~= spec_client_connections_path(client_id@));
    }
    r
}

// ---------------------------------------------------------------------------
// Reading a client id back out of a client-state path.
// ---------------------------------------------------------------------------

/// The client id of a client-state path, when the bytes are exactly
/// `clients/{client_id}/clientState` with a non-empty id free of `/`.
pub open spec fn spec_parse_client_state_path(path: Seq<u8>) -> Option<Seq<u8>> {
    let prefix = spec_clients_prefix();
    let suffix = spec_client_state_suffix();
    if path.len() >= prefix.len() + suffix.len() + 1 && path.take(prefix.len() as int) == prefix
        && path.skip(path.len() - suffix.len()) == suffix && (forall|i: int|
        prefix.len() <= i < path.len() - suffix.len() ==> path[i] != 47u8) {
        Some(path.subrange(prefix.len() as int, path.len() - suffix.len()))
    } else {
        None
    }
}

/// Read the client id out of a client-state path.
pub fn parse_client_state_path(path: &Vec<u8>) -> (r: Result<Vec<u8>, DecodeError>)
    ensures
        match r {
            Ok(id) => spec_parse_client_state_path(path@) == Some(id@),
            Err(e) => spec_parse_client_state_path(path@) is None && e == DecodeError::Malformed,
        },
{
    let prefix = clients_prefix();
    let suffix = client_state_suffix();
    if path.len() < prefix.len() + suffix.len() + 1 {
        return Err(DecodeError::Malformed);
    }
    let head = slice_subrange(path.as_slice(), 0, prefix.len());
    proof {
        assert(head@ =~= path@.take(spec_clients_prefix().len() as int));
    }
    if !crate::merkle::bytes_eq(&slice_to_vec(head), &prefix) {
        return Err(DecodeError::Malformed);
    }
    let tail_start = path.len() - suffix.len();
    let tail = slice_subrange(path.as_slice(), tail_start, path.len());
    proof {
        assert(tail@ =~= path@.skip(path@.len() - spec_client_state_suffix().len()));
    }
    if !crate::merkle::bytes_eq(&slice_to_vec(tail), &suffix) {
        return Err(DecodeError::Malformed);
    }
    let mut i: usize = prefix.len();
    while i < tail_start
        invariant
            spec_clients_prefix().len() <= i <= tail_start,
            tail_start == path@.len() - spec_client_state_suffix().len(),
            tail_start <= path@.len(),
            forall|j: int| spec_clients_prefix().len() <= j < i ==> path@[j] != 47u8,
        decreases tail_start - i,
    {
        if path[i] == 47 {
            return Err(DecodeError::Malformed);
        }
        i = i + 1;
    }
    let id = slice_to_vec(slice_subrange(path.as_slice(), prefix.len(), tail_start));
    Ok(id)
}

// ---------------------------------------------------------------------------
// Reading a client id out of a raw client-states storage key: 48 bytes of
// hashed prefix, then the path under a compact length prefix.
// ---------------------------------------------------------------------------

/// Length in bytes of the hashed part of a storage key: the 32-byte pallet
/// and map prefix plus the 16-byte key hash.
pub const STORAGE_KEY_PREFIX_LEN: usize = 48;

/// A canonical compact length prefix: six bits in one byte, fourteen in
/// two, thirty in four; anything longer is refused.
pub open spec fn spec_parse_compact_len(s: Seq<u8>) -> Option<(u32, Seq<u8>)> {
    match spec_parse_u8(s) {
        None => None,
        Some((tag, _)) => {
            let mode = tag & 3;
            if mode == 0 {
                Some(((tag >> 2) as u32, s.skip(1)))
            } else if mode == 1 {
                if s.len() >= 2 {
                    let n = spec_u16_from_le_bytes(s.take(2)) >> 2;
                    if n >= 64 {
                        Some((n as u32, s.skip(2)))
                    } else {
                        None
                    }
                } else {
                    None
                }
            } else if mode == 2 {
                match spec_parse_u32(s) {
                    None => None,
                    Some((word, r)) => {
                        let n = word >> 2;
                        if n >= 0x4000 {
                            Some((n, r))
                        } else {
                            None
                        }
                    },
                }
            } else {
                None
            }
        },
    }
}

fn parse_compact_len_at(b: &Vec<u8>, pos: usize) -> (r: Result<(u32, usize), DecodeError>)
    requires
        pos <= b@.len(),
    ensures
        match r {
            Ok((n, p2)) => {
                &&& spec_parse_compact_len(b@.skip(pos as int)) == Some((n, b@.skip(p2 as int)))
                &&& pos <= p2 <= b@.len()
            },
            Err(e) => spec_parse_compact_len(b@.skip(pos as int)) is None && e
                == DecodeError::Malformed,
        },
{
    let (tag, _) = match parse_u8_at(b, pos) {
        Ok(x) => x,
        Err(e) => {
            return Err(e);
        },
    };
    let mode = tag & 3;
    if mode == 0 {
        proof {
            assert(b@.skip(pos as int).skip(1) =~= b@.skip(pos as int + 1));
        }
        Ok(((tag >> 2) as u32, pos + 1))
    } else if mode == 1 {
        if b.len() - pos >= 2 {
            let word = u16_from_le_bytes(slice_subrange(b.as_slice(), pos, pos + 2));
            proof {
                assert(b@.skip(pos as int).take(2) =~= b@.subrange(pos as int, pos as int + 2));
                assert(b@.skip(pos as int).skip(2) =~= b@.skip(pos as int + 2));
            }
            let n = word >> 2;
            if n >= 64 {
                Ok((n as u32, pos + 2))
            } else {
                Err(DecodeError::Malformed)
            }
        } else {
            Err(DecodeError::Malformed)
        }
    } else if mode == 2 {
        let (word, p2) = match parse_u32_at(b, pos) {
            Ok(x) => x,
            Err(e) => {
                return Err(e);
            },
        };
        let n = word >> 2;
        if n >= 0x4000 {
            Ok((n, p2))
        } else {
            Err(DecodeError::Malformed)
        }
    } else {
        Err(DecodeError::Malformed)
    }
}

/// The client id stored under a raw client-states storage key: behind the
/// hashed prefix stands the path `clients/{id}/clientState` under a
/// compact length prefix that covers exactly the rest of the key.
pub open spec fn spec_client_id_from_storage_key(key: Seq<u8>) -> Option<Seq<u8>> {
    if key.len() < STORAGE_KEY_PREFIX_LEN {
        None
    } else {
        match spec_parse_compact_len(key.skip(STORAGE_KEY_PREFIX_LEN as int)) {
            None => None,
            Some((n, rest)) => if rest.len() == n {
                spec_parse_client_state_path(rest)
            } else {
                None
            },
        }
    }
}

/// Read the client id out of a raw client-states storage key.
pub fn client_id_from_storage_key(key: &Vec<u8>) -> (r: Result<Vec<u8>, DecodeError>)
    ensures
        match r {
            Ok(id) => spec_client_id_from_storage_key(key@) == Some(id@),
            Err(e) => spec_client_id_from_storage_key(key@) is None && e == DecodeError::Malformed,
        },
{
    if key.len() < STORAGE_KEY_PREFIX_LEN {
        return Err(DecodeError::Malformed);
    }
    let (n, p) = match parse_compact_len_at(key, STORAGE_KEY_PREFIX_LEN) {
        Ok(x) => x,
        Err(e) => {
            return Err(e);
        },
    };
    if key.len() - p != n as usize {
        return Err(DecodeError::Malformed);
    }
    let path = slice_to_vec(slice_subrange(key.as_slice(), p, key.len()));
    proof {
        assert(path@ =~= key@.skip(p as int));
    }
    parse_client_state_path(&path)
}

} // verus!
