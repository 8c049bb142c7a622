use sha2::Digest;

use beefy_relay::errors::Ics20Error;
use beefy_relay::ics20::{
    decimal_bytes, get_channel_escrow_address, on_chan_close_confirm, on_chan_close_init,
    on_chan_open_ack, on_chan_open_confirm, on_chan_open_init, on_chan_open_try,
    validate_counterparty_version, ChannelId, FixedPortHost, Order, PortId, Version,
};

fn host() -> FixedPortHost {
    FixedPortHost { bound_port: b"transfer".to_vec() }
}

fn port(p: &[u8]) -> PortId {
    PortId { bytes: p.to_vec() }
}

fn version(v: &[u8]) -> Version {
    Version { bytes: v.to_vec() }
}

#[test]
fn counterparty_version_must_be_ics20() {
    assert_eq!(validate_counterparty_version(&version(b"ics20-1")), Ok(()));
    assert_eq!(
        validate_counterparty_version(&version(b"ics20-2")),
        Err(Ics20Error::InvalidCounterpartyVersion)
    );
}

#[test]
fn open_init_accepts_valid_parameters() {
    let mut h = host();
    let r = on_chan_open_init(
        &mut h,
        Order::Unordered,
        &port(b"transfer"),
        &ChannelId { sequence: 0 },
        &version(b"ics20-1"),
    );
    assert_eq!(r, Ok(()));
}

#[test]
fn open_init_rejects_huge_sequence() {
    let mut h = host();
    let r = on_chan_open_init(
        &mut h,
        Order::Unordered,
        &port(b"transfer"),
        &ChannelId { sequence: (u32::MAX as u64) + 1 },
        &version(b"ics20-1"),
    );
    assert_eq!(r, Err(Ics20Error::ChanSeqExceedsLimit));
}

#[test]
fn open_init_rejects_ordered_channel() {
    let mut h = host();
    let r = on_chan_open_init(
        &mut h,
        Order::Ordered,
        &port(b"transfer"),
        &ChannelId { sequence: 0 },
        &version(b"ics20-1"),
    );
    assert_eq!(r, Err(Ics20Error::ChannelNotUnordered));
}

#[test]
fn open_init_rejects_wrong_port_and_version() {
    let mut h = host();
    let r = on_chan_open_init(
        &mut h,
        Order::Unordered,
        &port(b"oracle"),
        &ChannelId { sequence: 0 },
        &version(b"ics20-1"),
    );
    assert_eq!(r, Err(Ics20Error::InvalidPort));
    let r = on_chan_open_init(
        &mut h,
        Order::Unordered,
        &port(b"transfer"),
        &ChannelId { sequence: 0 },
        &version(b"ics21"),
    );
    assert_eq!(r, Err(Ics20Error::InvalidVersion));
}

#[test]
fn open_try_answers_with_module_version() {
    let mut h = host();
    let r = on_chan_open_try(
        &mut h,
        Order::Unordered,
        &port(b"transfer"),
        &ChannelId { sequence: 1 },
        &version(b"ics20-1"),
        &version(b"ics20-1"),
    );
    assert_eq!(r.unwrap().bytes, b"ics20-1".to_vec());
    let r = on_chan_open_try(
        &mut h,
        Order::Unordered,
        &port(b"transfer"),
        &ChannelId { sequence: 1 },
        &version(b"ics20-1"),
        &version(b"other"),
    );
    assert_eq!(r, Err(Ics20Error::InvalidCounterpartyVersion));
}

#[test]
fn ack_confirm_and_close_behave() {
    let mut h = host();
    let p = port(b"transfer");
    let c = ChannelId { sequence: 0 };
    assert_eq!(on_chan_open_ack(&mut h, &p, &c, &version(b"ics20-1")), Ok(()));
    assert_eq!(
        on_chan_open_ack(&mut h, &p, &c, &version(b"x")),
        Err(Ics20Error::InvalidCounterpartyVersion)
    );
    assert_eq!(on_chan_open_confirm(&mut h, &p, &c), Ok(()));
    assert_eq!(on_chan_close_init(&mut h, &p, &c), Err(Ics20Error::CantCloseChannel));
    assert_eq!(on_chan_close_confirm(&mut h, &p, &c), Ok(()));
}

#[test]
fn decimal_formatting() {
    assert_eq!(decimal_bytes(0), b"0".to_vec());
    assert_eq!(decimal_bytes(7), b"7".to_vec());
    assert_eq!(decimal_bytes(1234567890), b"1234567890".to_vec());
    assert_eq!(ChannelId { sequence: 42 }.text(), b"channel-42".to_vec());
}

#[test]
fn escrow_address_matches_direct_computation() {
    let addr = get_channel_escrow_address(&port(b"transfer"), &ChannelId { sequence: 0 });
    // The same derivation, spelled out: SHA-256 over version, "0" and
    // "{port}/{channel}", then upper-case hex of the last 12 bytes.
    let mut hasher = sha2::Sha256::new();
    hasher.update(b"ics20-1");
    hasher.update(b"0");
    hasher.update(b"transfer/channel-0");
    let digest = hasher.finalize();
    let expected = subtle_encoding::hex::encode_upper(&digest[20..]);
    assert_eq!(addr, expected);
    assert_eq!(addr.len(), 24);
}
