use vstd::prelude::*;
use vstd::slice::slice_to_vec;

use crate::crypto::{sha2_256, sha256_of, hex_encode_upper, spec_hex_upper};
use crate::errors::Ics20Error;
use crate::merkle::bytes_eq;

verus! {

broadcast use crate::crypto::lemma_vec_u8_deep_view;

// ---------------------------------------------------------------------------
// The transfer module's channel-handshake callbacks: pure validation of the
// channel parameters against the module's fixed port and version.
// ---------------------------------------------------------------------------

/// A port identifier, as its ASCII text.
#[derive(Clone, Debug, PartialEq, Eq)]
pub struct PortId {
    pub bytes: Vec<u8>,
}

/// A channel identifier: the sequence number in `channel-{sequence}`.
#[derive(Clone, Copy, Debug, PartialEq, Eq, Structural)]
pub struct ChannelId {
    pub sequence: u64,
}

/// Channel ordering.
#[derive(Clone, Copy, Debug, PartialEq, Eq, Structural)]
pub enum Order {
    Unordered,
    Ordered,
}

/// A channel version, as its ASCII text.
#[derive(Clone, Debug, PartialEq, Eq)]
pub struct Version {
    pub bytes: Vec<u8>,
}

/// The bytes of the transfer module's version text, `ics20-1`.
pub open spec fn spec_ics20_version_bytes() -> Seq<u8> {
    seq![105u8, 99u8, 115u8, 50u8, 48u8, 45u8, 49u8]
}

impl Version {
    /// The transfer module's version.
    pub fn ics20() -> (v: Version)
        ensures
            v.bytes@ == spec_ics20_version_bytes(),
    {
        let mut bytes: Vec<u8> = Vec::new();
        bytes.push(105);  // i
        bytes.push(99);  // c
        bytes.push(115);  // s
        bytes.push(50);  // 2
        bytes.push(48);  // 0
        bytes.push(45);  // -
        bytes.push(49);  // 1
        proof {
            assert(bytes@ =~= spec_ics20_version_bytes());
        }
        Version { bytes }
    }
}

/// The decimal digits of a number, as ASCII bytes.
pub open spec fn spec_decimal(n: nat) -> Seq<u8>
    decreases n,
{
    if n < 10 {
        seq![(0x30 + n) as u8]
    } else {
        spec_decimal(n / 10).push((0x30 + n % 10) as u8)
    }
}

/// Format a number in decimal.
pub fn decimal_bytes(n: u64) -> (r: Vec<u8>)
    ensures
        r@ == spec_decimal(n as nat),
    decreases n,
{
    if n < 10 {
        let mut v: Vec<u8> = Vec::new();
        v.push(0x30 + n as u8);
        proof {
            assert(v@ =~= spec_decimal(n as nat));
        }
        v
    } else {
        let mut v = decimal_bytes(n / 10);
        v.push(0x30 + (n % 10) as u8);
        v
    }
}

/// The text of a channel identifier: `channel-{sequence}`.
pub open spec fn spec_channel_id_text(sequence: u64) -> Seq<u8> {
    // "channel-"
    seq![99u8, 104u8, 97u8, 110u8, 110u8, 101u8, 108u8, 45u8] + spec_decimal(sequence as nat)
}

impl ChannelId {
    /// The channel identifier's text form.
    pub fn text(&self) -> (t: Vec<u8>)
        ensures
            t@ == spec_channel_id_text(self.sequence),
    {
        let mut t: Vec<u8> = Vec::new();
        t.push(99);  // c
        t.push(104);  // h
        t.push(97);  // a
        t.push(110);  // n
        t.push(110);  // n
        t.push(101);  // e
        t.push(108);  // l
        t.push(45);  // -
        let mut digits = decimal_bytes(self.sequence);
        t.append(&mut digits);
        proof {
            assert(t@ =~= spec_channel_id_text(self.sequence));
        }
        t
    }
}

// ---------------------------------------------------------------------------
// The dependencies the transfer module needs from its host chain. The host
// implements these; nothing here is proved about the host's own conduct
// beyond what each signature says.
// ---------------------------------------------------------------------------

/// A coin amount of one denomination.
#[derive(Clone, Debug, PartialEq, Eq)]
pub struct Coin {
    pub denom: Vec<u8>,
    pub amount: u128,
}

/// The bank operations the transfer module drives on its host.
pub trait BankKeeper {
    type AccountId;

    /// Move coins between two accounts.
    fn send_coins(&mut self, from: &Self::AccountId, to: &Self::AccountId, amt: &Coin) -> Result<
        (),
        Ics20Error,
    >;

    /// Mint coins in the module account.
    fn mint_coins(&mut self, module: &Self::AccountId, amt: &Coin) -> Result<(), Ics20Error>;

    /// Burn minted coins from the module account.
    fn burn_coins(&mut self, module: &Self::AccountId, amt: &Coin) -> Result<(), Ics20Error>;
}

/// The bank reads the transfer module needs.
pub trait BankReader {
    type AccountId;

    /// Whether the account may not receive funds.
    fn is_blocked_account(&self, account: &Self::AccountId) -> bool;

    /// The transfer module's own account.
    fn get_transfer_account(&self) -> Self::AccountId;
}

/// Account resolution on the host.
pub trait AccountReader {
    type AccountId;

    type Address;

    /// The account at an address, if any.
    fn get_account(&self, address: &Self::Address) -> Option<Self::AccountId>;
}

/// The writes the transfer module makes to its host's store.
pub trait Ics20Keeper: BankKeeper {
    /// Record a {trace hash -> denomination trace} pair.
    fn set_denom_trace(&mut self, trace_hash: &Vec<u8>, denom_trace: &Vec<u8>) -> Result<
        (),
        Ics20Error,
    >;
}

/// Everything the transfer module requires of its host to dispatch and
/// process messages.
pub trait Ics20Context: Ics20Keeper {
    /// The port the transfer module is bound to.
    spec fn spec_bound_port(&self) -> Seq<u8>;

    /// Read the transfer module's bound port. Relied on to return the
    /// bound port whenever it returns at all successfully.
    fn get_port(&self) -> (r: Result<PortId, Ics20Error>)
        ensures
            r matches Ok(p) ==> p.bytes@ == self.spec_bound_port(),
    ;
}

/// A minimal in-memory host for the transfer module: a fixed bound port
/// and a bank that accepts every operation. Stands in for a chain while
/// the callbacks are wired and exercised.
pub struct FixedPortHost {
    pub bound_port: Vec<u8>,
}

impl BankKeeper for FixedPortHost {
    type AccountId = Vec<u8>;

    fn send_coins(&mut self, from: &Vec<u8>, to: &Vec<u8>, amt: &Coin) -> Result<(), Ics20Error> {
        let _ = from;
        let _ = to;
        let _ = amt;
        Ok(())
    }

    fn mint_coins(&mut self, module: &Vec<u8>, amt: &Coin) -> Result<(), Ics20Error> {
        let _ = module;
        let _ = amt;
        Ok(())
    }

    fn burn_coins(&mut self, module: &Vec<u8>, amt: &Coin) -> Result<(), Ics20Error> {
        let _ = module;
        let _ = amt;
        Ok(())
    }
}

impl Ics20Keeper for FixedPortHost {
    fn set_denom_trace(&mut self, trace_hash: &Vec<u8>, denom_trace: &Vec<u8>) -> Result<
        (),
        Ics20Error,
    > {
        let _ = trace_hash;
        let _ = denom_trace;
        Ok(())
    }
}

impl Ics20Context for FixedPortHost {
    open spec fn spec_bound_port(&self) -> Seq<u8> {
        self.bound_port@
    }

    fn get_port(&self) -> (r: Result<PortId, Ics20Error>) {
        Ok(PortId { bytes: slice_to_vec(self.bound_port.as_slice()) })
    }
}

// ---------------------------------------------------------------------------
// Validation.
// ---------------------------------------------------------------------------

/// Check that a counterparty speaks the transfer module's version.
pub fn validate_counterparty_version(counterparty_version: &Version) -> (r: Result<
    (),
    Ics20Error,
>)
    ensures
        r is Ok <==> counterparty_version.bytes@ == spec_ics20_version_bytes(),
        r is Err ==> r == Err::<(), Ics20Error>(Ics20Error::InvalidCounterpartyVersion),
{
    let expected = Version::ics20();
    if bytes_eq(&counterparty_version.bytes, &expected.bytes) {
        Ok(())
    } else {
        Err(Ics20Error::InvalidCounterpartyVersion)
    }
}

/// What validating proposed channel parameters against a known bound port
/// yields, check by check: the sequence must fit 32 bits, the channel must
/// be unordered, the port must be the bound one, the version must be the
/// module's.
pub open spec fn spec_validate_channel_params(
    order: Order,
    port: Seq<u8>,
    sequence: u64,
    version: Seq<u8>,
    bound_port: Seq<u8>,
) -> Result<(), Ics20Error> {
    if sequence > u32::MAX {
        Err(Ics20Error::ChanSeqExceedsLimit)
    } else if order != Order::Unordered {
        Err(Ics20Error::ChannelNotUnordered)
    } else if port != bound_port {
        Err(Ics20Error::InvalidPort)
    } else if version != spec_ics20_version_bytes() {
        Err(Ics20Error::InvalidVersion)
    } else {
        Ok(())
    }
}

/// Validate proposed channel parameters against a bound port already in
/// hand; the outcome is exactly a function of the five values.
pub fn validate_channel_params(
    order: Order,
    port_id: &PortId,
    channel_id: &ChannelId,
    version: &Version,
    bound_port: &PortId,
) -> (r: Result<(), Ics20Error>)
    ensures
        r == spec_validate_channel_params(
            order,
            port_id.bytes@,
            channel_id.sequence,
            version.bytes@,
            bound_port.bytes@,
        ),
{
    if channel_id.sequence > u32::MAX as u64 {
        return Err(Ics20Error::ChanSeqExceedsLimit);
    }
    if !matches!(order, Order::Unordered) {
        return Err(Ics20Error::ChannelNotUnordered);
    }
    if !bytes_eq(&port_id.bytes, &bound_port.bytes) {
        return Err(Ics20Error::InvalidPort);
    }
    let expected = Version::ics20();
    if !bytes_eq(&version.bytes, &expected.bytes) {
        return Err(Ics20Error::InvalidVersion);
    }
    Ok(())
}

/// Validate the channel parameters a handshake proposes for the transfer
/// module, reading the bound port from the host: the outcome is exactly
/// `spec_validate_channel_params` against whatever port the host is bound
/// to, and `PortNotBound` when the host cannot hand one out.
pub fn validate_transfer_channel_params<C: Ics20Context>(
    ctx: &mut C,
    order: Order,
    port_id: &PortId,
    channel_id: &ChannelId,
    version: &Version,
) -> (r: Result<(), Ics20Error>)
    ensures
        *final(ctx) == *old(ctx),
        r != Err::<(), Ics20Error>(Ics20Error::PortNotBound) ==> r == spec_validate_channel_params(
            order,
            port_id.bytes@,
            channel_id.sequence,
            version.bytes@,
            old(ctx).spec_bound_port(),
        ),
        (r == Err::<(), Ics20Error>(Ics20Error::ChanSeqExceedsLimit) <==> channel_id.sequence
            > u32::MAX),
        (r == Err::<(), Ics20Error>(Ics20Error::ChannelNotUnordered) <==> (channel_id.sequence
            <= u32::MAX && order != Order::Unordered)),
{
    if channel_id.sequence > u32::MAX as u64 {
        return Err(Ics20Error::ChanSeqExceedsLimit);
    }
    if !matches!(order, Order::Unordered) {
        return Err(Ics20Error::ChannelNotUnordered);
    }
    let bound_port = match ctx.get_port() {
        Ok(p) => p,
        Err(_) => {
            return Err(Ics20Error::PortNotBound);
        },
    };
    validate_channel_params(order, port_id, channel_id, version, &bound_port)
}

// ---------------------------------------------------------------------------
// The channel-handshake callbacks.
// ---------------------------------------------------------------------------

/// A channel is being opened towards the transfer module: validate its
/// parameters.
pub fn on_chan_open_init<C: Ics20Context>(
    ctx: &mut C,
    order: Order,
    port_id: &PortId,
    channel_id: &ChannelId,
    version: &Version,
) -> (r: Result<(), Ics20Error>)
    ensures
        *final(ctx) == *old(ctx),
        r != Err::<(), Ics20Error>(Ics20Error::PortNotBound) ==> r == spec_validate_channel_params(
            order,
            port_id.bytes@,
            channel_id.sequence,
            version.bytes@,
            old(ctx).spec_bound_port(),
        ),
        (r == Err::<(), Ics20Error>(Ics20Error::ChanSeqExceedsLimit) <==> channel_id.sequence
            > u32::MAX),
        (r == Err::<(), Ics20Error>(Ics20Error::ChannelNotUnordered) <==> (channel_id.sequence
            <= u32::MAX && order != Order::Unordered)),
{
    validate_transfer_channel_params(ctx, order, port_id, channel_id, version)
}

/// The counterparty proposed a channel: validate the parameters and the
/// counterparty's version, and answer with the module's version.
pub fn on_chan_open_try<C: Ics20Context>(
    ctx: &mut C,
    order: Order,
    port_id: &PortId,
    channel_id: &ChannelId,
    version: &Version,
    counterparty_version: &Version,
) -> (r: Result<Version, Ics20Error>)
    ensures
        *final(ctx) == *old(ctx),
        r matches Ok(v) ==> v.bytes@ == spec_ics20_version_bytes(),
        (r == Err::<Version, Ics20Error>(Ics20Error::ChanSeqExceedsLimit) <==> channel_id.sequence
            > u32::MAX),
        (r == Err::<Version, Ics20Error>(Ics20Error::ChannelNotUnordered) <==> (
        channel_id.sequence <= u32::MAX && order != Order::Unordered)),
        r != Err::<Version, Ics20Error>(Ics20Error::PortNotBound) ==> match spec_validate_channel_params(
            order,
            port_id.bytes@,
            channel_id.sequence,
            version.bytes@,
            old(ctx).spec_bound_port(),
        ) {
            Err(e) => r == Err::<Version, Ics20Error>(e),
            Ok(_) => {
                &&& (r is Ok <==> counterparty_version.bytes@ == spec_ics20_version_bytes())
                &&& (r is Err ==> r == Err::<Version, Ics20Error>(
                    Ics20Error::InvalidCounterpartyVersion,
                ))
            },
        },
{
    if let Err(e) = validate_transfer_channel_params(ctx, order, port_id, channel_id, version) {
        return Err(e);
    }
    if let Err(e) = validate_counterparty_version(counterparty_version) {
        return Err(e);
    }
    Ok(Version::ics20())
}

/// The counterparty acknowledged the channel: its version must be the
/// module's.
pub fn on_chan_open_ack<C: Ics20Context>(
    ctx: &mut C,
    port_id: &PortId,
    channel_id: &ChannelId,
    counterparty_version: &Version,
) -> (r: Result<(), Ics20Error>)
    ensures
        *final(ctx) == *old(ctx),
        r is Ok <==> counterparty_version.bytes@ == spec_ics20_version_bytes(),
        r is Err ==> r == Err::<(), Ics20Error>(Ics20Error::InvalidCounterpartyVersion),
{
    let _ = port_id;
    let _ = channel_id;
    validate_counterparty_version(counterparty_version)
}

/// The counterparty confirmed the channel: nothing left to check.
pub fn on_chan_open_confirm<C: Ics20Context>(
    ctx: &mut C,
    port_id: &PortId,
    channel_id: &ChannelId,
) -> (r: Result<(), Ics20Error>)
    ensures
        *final(ctx) == *old(ctx),
        r is Ok,
{
    let _ = port_id;
    let _ = channel_id;
    Ok(())
}

/// A transfer channel can never be closed from this side.
pub fn on_chan_close_init<C: Ics20Context>(
    ctx: &mut C,
    port_id: &PortId,
    channel_id: &ChannelId,
) -> (r: Result<(), Ics20Error>)
    ensures
        *final(ctx) == *old(ctx),
        r == Err::<(), Ics20Error>(Ics20Error::CantCloseChannel),
{
    let _ = port_id;
    let _ = channel_id;
    Err(Ics20Error::CantCloseChannel)
}

/// The counterparty closed the channel: accepted.
pub fn on_chan_close_confirm<C: Ics20Context>(
    ctx: &mut C,
    port_id: &PortId,
    channel_id: &ChannelId,
) -> (r: Result<(), Ics20Error>)
    ensures
        *final(ctx) == *old(ctx),
        r is Ok,
{
    let _ = port_id;
    let _ = channel_id;
    Ok(())
}

// ---------------------------------------------------------------------------
// The escrow account for a channel.
// ---------------------------------------------------------------------------

/// The digest preimage of an escrow address: the module version, the ASCII
/// zero, and `{port}/{channel}`.
pub open spec fn spec_escrow_preimage(port: Seq<u8>, channel_text: Seq<u8>) -> Seq<u8> {
    spec_ics20_version_bytes() + seq![0x30u8] + port + seq![0x2Fu8] + channel_text
}

/// The escrow account id for a port and channel pair: the upper-case hex
/// of the last 12 bytes of the SHA-256 of the preimage.
pub open spec fn spec_channel_escrow_address(port: Seq<u8>, channel_text: Seq<u8>) -> Seq<u8> {
    spec_hex_upper(sha256_of(spec_escrow_preimage(port, channel_text)).skip(20))
}

/// Derive the escrow account id for a port and channel combination.
pub fn get_channel_escrow_address(port_id: &PortId, channel_id: &ChannelId) -> (addr: Vec<u8>)
    ensures
        addr@ == spec_channel_escrow_address(
            port_id.bytes@,
            spec_channel_id_text(channel_id.sequence),
        ),
{
    let mut preimage = Version::ics20().bytes;
    preimage.push(0x30);
    let mut port = slice_to_vec(port_id.bytes.as_slice());
    preimage.append(&mut port);
    preimage.push(0x2F);
    let mut chan = channel_id.text();
    preimage.append(&mut chan);
    proof {
        assert(preimage@ =~= spec_escrow_preimage(
            port_id.bytes@,
            spec_channel_id_text(channel_id.sequence),
        ));
    }
    let digest = sha2_256(preimage.as_slice());
    let tail = vstd::slice::slice_subrange(digest.as_slice(), 20, 32);
    hex_encode_upper(tail)
}

} // verus!
