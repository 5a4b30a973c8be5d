use vstd::prelude::*;

verus! {

/// The peer identity, as bytes, that ends the multiaddress encoded by `addr`
/// (its last component being `/p2p/<peer>`); none if `addr` is no valid
/// multiaddress or ends otherwise.
pub uninterp spec fn trailing_peer_of(addr: Seq<u8>) -> Option<Seq<u8>>;

/// The binary encoding of the multiaddress written as `text`; none if the
/// text is no valid multiaddress.
pub uninterp spec fn multiaddr_encoding(text: Seq<char>) -> Option<Seq<u8>>;

/// Relies on libp2p's `Multiaddr::try_from(Vec<u8>)`, `Multiaddr::iter` and
/// `PeerId::to_bytes`: decodes the address and reads its last component.
#[verifier::external_body]
pub(crate) fn trailing_peer(addr: &Vec<u8>) -> (r: Option<Vec<u8>>)
    ensures
        match r {
            Some(p) => trailing_peer_of(addr@) == Some(p@),
            None => trailing_peer_of(addr@) is None,
        },
{
    match libp2p::Multiaddr::try_from(addr.clone()) {
        Ok(a) => match a.iter().last() {
            Some(libp2p::multiaddr::Protocol::P2p(peer)) => Some(peer.to_bytes()),
            _ => None,
        },
        Err(_) => None,
    }
}

/// Relies on libp2p's `Multiaddr::from_str` and `Multiaddr::to_vec`: parses
/// the textual form of an address into its binary encoding.
#[verifier::external_body]
pub(crate) fn parse_multiaddr(text: &str) -> (r: Option<Vec<u8>>)
    ensures
        match r {
            Some(b) => multiaddr_encoding(text@) == Some(b@),
            None => multiaddr_encoding(text@) is None,
        },
{
    match text.parse::<libp2p::Multiaddr>() {
        Ok(a) => Some(a.to_vec()),
        Err(_) => None,
    }
}

} // verus!
