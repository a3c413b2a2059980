//! The paths under which IBC commits its data, as byte strings.

use crate::primitives::append_bytes;
use vstd::prelude::*;
use vstd::string::StringSliceAdditionalSpecFns;

verus! {

/// The identifier of a client, as the bytes of its text.
#[derive(Clone, Debug, PartialEq, Eq)]
pub struct ClientId {
    pub id: Vec<u8>,
}

/// The identifier of a connection, as the bytes of its text.
#[derive(Clone, Debug, PartialEq, Eq)]
pub struct ConnectionId {
    pub id: Vec<u8>,
}

/// The identifier of a port, as the bytes of its text.
#[derive(Clone, Debug, PartialEq, Eq)]
pub struct PortId {
    pub id: Vec<u8>,
}

/// The identifier of a channel, as the bytes of its text.
#[derive(Clone, Debug, PartialEq, Eq)]
pub struct ChannelId {
    pub id: Vec<u8>,
}

/// The decimal digits of a number, in ASCII.
pub open spec fn decimal(n: nat) -> Seq<u8>
    decreases n,
{
    if n < 10 {
        seq![(48 + n) as u8]
    } else {
        decimal(n / 10).push((48 + n % 10) as u8)
    }
}

/// `connections/{connection}`
pub open spec fn connection_path(connection: Seq<u8>) -> Seq<u8> {
    "connections/".spec_bytes() + connection
}

/// `clients/{client}/clientState`
pub open spec fn client_state_path(client: Seq<u8>) -> Seq<u8> {
    "clients/".spec_bytes() + client + "/clientState".spec_bytes()
}

/// `clients/{client}/consensusStates/{epoch}-{height}`
pub open spec fn consensus_state_path(client: Seq<u8>, epoch: u64, height: u64) -> Seq<u8> {
    "clients/".spec_bytes() + client + "/consensusStates/".spec_bytes() + decimal(epoch as nat)
        + "-".spec_bytes() + decimal(height as nat)
}

/// `ports/{port}/channels/{channel}`
pub open spec fn channel_part(port: Seq<u8>, channel: Seq<u8>) -> Seq<u8> {
    "ports/".spec_bytes() + port + "/channels/".spec_bytes() + channel
}

/// `/sequences/{sequence}`
pub open spec fn sequence_part(sequence: u64) -> Seq<u8> {
    "/sequences/".spec_bytes() + decimal(sequence as nat)
}

/// `channelEnds/ports/{port}/channels/{channel}`
pub open spec fn channel_end_path(port: Seq<u8>, channel: Seq<u8>) -> Seq<u8> {
    "channelEnds/".spec_bytes() + channel_part(port, channel)
}

/// `commitments/ports/{port}/channels/{channel}/sequences/{sequence}`
pub open spec fn commitment_path(port: Seq<u8>, channel: Seq<u8>, sequence: u64) -> Seq<u8> {
    "commitments/".spec_bytes() + channel_part(port, channel) + sequence_part(sequence)
}

/// `acks/ports/{port}/channels/{channel}/sequences/{sequence}`
pub open spec fn ack_path(port: Seq<u8>, channel: Seq<u8>, sequence: u64) -> Seq<u8> {
    "acks/".spec_bytes() + channel_part(port, channel) + sequence_part(sequence)
}

/// `nextSequenceRecv/ports/{port}/channels/{channel}`
pub open spec fn seq_recv_path(port: Seq<u8>, channel: Seq<u8>) -> Seq<u8> {
    "nextSequenceRecv/".spec_bytes() + channel_part(port, channel)
}

/// `receipts/ports/{port}/channels/{channel}/sequences/{sequence}`
pub open spec fn receipt_path(port: Seq<u8>, channel: Seq<u8>, sequence: u64) -> Seq<u8> {
    "receipts/".spec_bytes() + channel_part(port, channel) + sequence_part(sequence)
}

/// Appends the decimal digits of `n`.
pub fn write_decimal(out: &mut Vec<u8>, n: u64)
    ensures
        final(out)@ == old(out)@ + decimal(n as nat),
    decreases n,
{
    let ghost before = out@;
    if n >= 10 {
        write_decimal(out, n / 10);
    }
    out.push((48 + n % 10) as u8);
    assert(out@ =~= before + decimal(n as nat));
}

/// Appends `ports/{port}/channels/{channel}`.
fn write_channel_part(out: &mut Vec<u8>, port: &PortId, channel: &ChannelId)
    ensures
        final(out)@ == old(out)@ + channel_part(port.id@, channel.id@),
{
    let ghost before = out@;
    append_bytes(out, "ports/".as_bytes());
    append_bytes(out, port.id.as_slice());
    append_bytes(out, "/channels/".as_bytes());
    append_bytes(out, channel.id.as_slice());
    assert(out@ =~= before + channel_part(port.id@, channel.id@));
}

/// Appends `/sequences/{sequence}`.
fn write_sequence_part(out: &mut Vec<u8>, sequence: u64)
    ensures
        final(out)@ == old(out)@ + sequence_part(sequence),
{
    let ghost before = out@;
    append_bytes(out, "/sequences/".as_bytes());
    write_decimal(out, sequence);
    assert(out@ =~= before + sequence_part(sequence));
}

/// The path of a connection end.
pub fn connections_path(connection: &ConnectionId) -> (path: Vec<u8>)
    ensures
        path@ == connection_path(connection.id@),
{
    let mut path: Vec<u8> = Vec::new();
    append_bytes(&mut path, "connections/".as_bytes());
    append_bytes(&mut path, connection.id.as_slice());
    assert(path@ =~= connection_path(connection.id@));
    path
}

/// The path of a client state.
pub fn client_states_path(client: &ClientId) -> (path: Vec<u8>)
    ensures
        path@ == client_state_path(client.id@),
{
    let mut path: Vec<u8> = Vec::new();
    append_bytes(&mut path, "clients/".as_bytes());
    append_bytes(&mut path, client.id.as_slice());
    append_bytes(&mut path, "/clientState".as_bytes());
    assert(path@ =~= client_state_path(client.id@));
    path
}

/// The path of the consensus state of a client at a height.
pub fn client_consensus_state_path(client: &ClientId, epoch: u64, height: u64) -> (path: Vec<u8>)
    ensures
        path@ == consensus_state_path(client.id@, epoch, height),
{
    let mut path: Vec<u8> = Vec::new();
    append_bytes(&mut path, "clients/".as_bytes());
    append_bytes(&mut path, client.id.as_slice());
    append_bytes(&mut path, "/consensusStates/".as_bytes());
    write_decimal(&mut path, epoch);
    append_bytes(&mut path, "-".as_bytes());
    write_decimal(&mut path, height);
    assert(path@ =~= consensus_state_path(client.id@, epoch, height));
    path
}

/// The path of a channel end.
pub fn channel_ends_path(port: &PortId, channel: &ChannelId) -> (path: Vec<u8>)
    ensures
        path@ == channel_end_path(port.id@, channel.id@),
{
    let mut path: Vec<u8> = Vec::new();
    append_bytes(&mut path, "channelEnds/".as_bytes());
    write_channel_part(&mut path, port, channel);
    path
}

/// The path of a packet commitment.
pub fn commitments_path(port: &PortId, channel: &ChannelId, sequence: u64) -> (path: Vec<u8>)
    ensures
        path@ == commitment_path(port.id@, channel.id@, sequence),
{
    let mut path: Vec<u8> = Vec::new();
    append_bytes(&mut path, "commitments/".as_bytes());
    write_channel_part(&mut path, port, channel);
    write_sequence_part(&mut path, sequence);
    path
}

/// The path of a packet acknowledgement.
pub fn acks_path(port: &PortId, channel: &ChannelId, sequence: u64) -> (path: Vec<u8>)
    ensures
        path@ == ack_path(port.id@, channel.id@, sequence),
{
    let mut path: Vec<u8> = Vec::new();
    append_bytes(&mut path, "acks/".as_bytes());
    write_channel_part(&mut path, port, channel);
    write_sequence_part(&mut path, sequence);
    path
}

/// The path of the next sequence to receive on a channel.
pub fn seq_recvs_path(port: &PortId, channel: &ChannelId) -> (path: Vec<u8>)
    ensures
        path@ == seq_recv_path(port.id@, channel.id@),
{
    let mut path: Vec<u8> = Vec::new();
    append_bytes(&mut path, "nextSequenceRecv/".as_bytes());
    write_channel_part(&mut path, port, channel);
    path
}

/// The path of a packet receipt.
pub fn receipts_path(port: &PortId, channel: &ChannelId, sequence: u64) -> (path: Vec<u8>)
    ensures
        path@ == receipt_path(port.id@, channel.id@, sequence),
{
    let mut path: Vec<u8> = Vec::new();
    append_bytes(&mut path, "receipts/".as_bytes());
    write_channel_part(&mut path, port, channel);
    write_sequence_part(&mut path, sequence);
    path
}

} // verus!
