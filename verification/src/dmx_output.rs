//! The DMX output formats: Art-Net packets (built and read back) and the
//! packets of the Enttec DMX USB Pro.
use vstd::prelude::*;

verus! {

/// The Art-Net header: `Art-Net` and a zero byte.
pub open spec fn artnet_id() -> Seq<u8> {
    seq![0x41u8, 0x72u8, 0x74u8, 0x2Du8, 0x4Eu8, 0x65u8, 0x74u8, 0x00u8]
}

/// An ArtDMX packet: the header, the opcode 0x5000 (little-endian), the
/// protocol version 14 (big-endian), the sequence number, physical port 0,
/// the universe (little-endian), the length 512 (big-endian), and the data.
pub open spec fn artnet_packet_spec(universe: u16, sequence: u8, data: Seq<u8>) -> Seq<u8> {
    artnet_id() + seq![0x00u8, 0x50u8, 0x00u8, 14u8, sequence, 0u8, (universe % 256) as u8, (universe / 256) as u8,
        0x02u8, 0x00u8] + data
}

fn push_all(out: &mut Vec<u8>, data: &[u8])
    ensures
        final(out)@ == old(out)@ + data@,
{
    let mut i: usize = 0;
    while i < data.len()
        invariant
            i <= data@.len(),
            out@ == old(out)@ + data@.take(i as int),
        decreases data.len() - i,
    {
        out.push(data[i]);
        i = i + 1;
        assert(out@ =~= old(out)@ + data@.take(i as int));
    }
    assert(data@.take(data@.len() as int) =~= data@);
}

/// The ArtDMX packet of one universe; see [`artnet_packet_spec`].
pub fn artnet_packet(universe: u16, sequence: u8, data: &[u8; 512]) -> (r: Vec<u8>)
    ensures
        r@ == artnet_packet_spec(universe, sequence, data@),
{
    let mut packet: Vec<u8> = Vec::new();
    packet.push(0x41);
    packet.push(0x72);
    packet.push(0x74);
    packet.push(0x2D);
    packet.push(0x4E);
    packet.push(0x65);
    packet.push(0x74);
    packet.push(0x00);
    packet.push(0x00);
    packet.push(0x50);
    packet.push(0x00);
    packet.push(14);
    packet.push(sequence);
    packet.push(0);
    packet.push((universe % 256) as u8);
    packet.push((universe / 256) as u8);
    packet.push(0x02);
    packet.push(0x00);
    let ghost head = packet@;
    assert(head =~= artnet_id() + seq![0x00u8, 0x50u8, 0x00u8, 14u8, sequence, 0u8, (universe % 256) as u8,
        (universe / 256) as u8, 0x02u8, 0x00u8]);
    push_all(&mut packet, data.as_slice());
    packet
}

/// Whether a datagram is an Art-Net packet: at least 10 bytes, starting
/// with the Art-Net header.
pub open spec fn is_artnet_spec(data: Seq<u8>) -> bool {
    data.len() >= 10 && data.subrange(0, 8) == artnet_id()
}

/// Decides [`is_artnet_spec`].
pub fn is_artnet_packet(data: &[u8]) -> (r: bool)
    ensures
        r == is_artnet_spec(data@),
{
    if data.len() < 10 {
        return false;
    }
    let r = data[0] == 0x41 && data[1] == 0x72 && data[2] == 0x74 && data[3] == 0x2D && data[4] == 0x4E
        && data[5] == 0x65 && data[6] == 0x74 && data[7] == 0x00;
    proof {
        if r {
            assert(data@.subrange(0, 8) =~= artnet_id());
        } else {
            if data@.subrange(0, 8) == artnet_id() {
                assert(data@.subrange(0, 8)[0] == data@[0]);
                assert(data@.subrange(0, 8)[1] == data@[1]);
                assert(data@.subrange(0, 8)[2] == data@[2]);
                assert(data@.subrange(0, 8)[3] == data@[3]);
                assert(data@.subrange(0, 8)[4] == data@[4]);
                assert(data@.subrange(0, 8)[5] == data@[5]);
                assert(data@.subrange(0, 8)[6] == data@[6]);
                assert(data@.subrange(0, 8)[7] == data@[7]);
            }
        }
    }
    r
}

/// What a received datagram holds.
#[derive(Debug)]
pub enum ArtnetRead {
    /// Not an Art-Net packet.
    NotArtnet,
    /// An Art-Net packet that is not an ArtDMX packet (or too short to be one).
    Ignored,
    /// An ArtDMX packet shorter than the data length it announces.
    Incomplete,
    /// An ArtDMX packet: the low byte of its universe, and its data (at most
    /// 512 bytes, the rest zero).
    Frame(u8, [u8; 512]),
}

/// The abstract reading.
pub enum ArtnetReadView {
    NotArtnet,
    Ignored,
    Incomplete,
    Frame(u8, Seq<u8>),
}

impl View for ArtnetRead {
    type V = ArtnetReadView;

    open spec fn view(&self) -> ArtnetReadView {
        match self {
            ArtnetRead::NotArtnet => ArtnetReadView::NotArtnet,
            ArtnetRead::Ignored => ArtnetReadView::Ignored,
            ArtnetRead::Incomplete => ArtnetReadView::Incomplete,
            ArtnetRead::Frame(u, d) => ArtnetReadView::Frame(*u, d@),
        }
    }
}

/// What a datagram holds: an ArtDMX packet has the opcode 0x5000 at bytes
/// 8 and 9 (little-endian), the universe's low byte at byte 14, the data
/// length at bytes 16 and 17 (big-endian), and the data from byte 18.
pub open spec fn artnet_read_spec(data: Seq<u8>) -> ArtnetReadView {
    if !is_artnet_spec(data) {
        ArtnetReadView::NotArtnet
    } else if data.len() < 18 || data[8] as nat + data[9] as nat * 256 != 0x5000 {
        ArtnetReadView::Ignored
    } else {
        let len = data[16] as nat * 256 + data[17] as nat;
        if data.len() < 18 + len {
            ArtnetReadView::Incomplete
        } else {
            let n = if len < 512 { len } else { 512 };
            ArtnetReadView::Frame(data[14], Seq::new(512, |i: int| if i < n { data[18 + i] } else { 0u8 }))
        }
    }
}

/// Reads a received datagram; see [`artnet_read_spec`].
pub fn read_artnet(data: &[u8]) -> (r: ArtnetRead)
    ensures
        r@ == artnet_read_spec(data@),
{
    if !is_artnet_packet(data) {
        return ArtnetRead::NotArtnet;
    }
    if data.len() < 18 || (data[8] as u16) + (data[9] as u16) * 256 != 0x5000 {
        return ArtnetRead::Ignored;
    }
    let len: usize = (data[16] as usize) * 256 + (data[17] as usize);
    if data.len() - 18 < len {
        return ArtnetRead::Incomplete;
    }
    let n = if len < 512 { len } else { 512 };
    let mut frame = [0u8; 512];
    let mut i: usize = 0;
    while i < n
        invariant
            n <= 512,
            18 + n <= data@.len(),
            i <= n,
            frame@.len() == 512,
            forall|j: int| 0 <= j < i ==> frame@[j] == data@[18 + j],
            forall|j: int| i <= j < 512 ==> frame@[j] == 0u8,
        decreases n - i,
    {
        frame[i] = data[18 + i];
        i = i + 1;
    }
    let ghost expected = Seq::new(512, |i: int| if i < n { data@[18 + i] } else { 0u8 });
    assert(frame@ =~= expected);
    ArtnetRead::Frame(data[14], frame)
}

/// An Enttec DMX USB Pro packet sending a universe with `label`: start byte
/// 0x7E, the label, the length 513 (little-endian), the start code 0, the
/// data, and end byte 0xE7.
pub open spec fn enttec_packet_spec(label: u8, data: Seq<u8>) -> Seq<u8> {
    seq![0x7Eu8, label, 0x01u8, 0x02u8, 0x00u8] + data + seq![0xE7u8]
}

/// The Enttec packet of one universe; see [`enttec_packet_spec`].
pub fn enttec_packet(label: u8, data: &[u8; 512]) -> (r: Vec<u8>)
    ensures
        r@ == enttec_packet_spec(label, data@),
{
    let mut msg: Vec<u8> = Vec::new();
    msg.push(0x7E);
    msg.push(label);
    msg.push(0x01);
    msg.push(0x02);
    msg.push(0x00);
    push_all(&mut msg, data.as_slice());
    msg.push(0xE7);
    assert(msg@ =~= enttec_packet_spec(label, data@));
    msg
}

/// The label that sends a universe to output port `local_universe_index` of
/// the Enttec interface: 6 for port 1, 202 for port 2; the interface has no
/// other ports.
pub fn enttec_label(local_universe_index: u16) -> (r: Option<u8>)
    ensures
        local_universe_index == 0 ==> r == Some(6u8),
        local_universe_index == 1 ==> r == Some(202u8),
        local_universe_index > 1 ==> r is None,
{
    if local_universe_index == 0 {
        Some(6)
    } else if local_universe_index == 1 {
        Some(202)
    } else {
        None
    }
}

/// Law: reading back the ArtDMX packet of a universe below 256 gives that
/// universe and the data.
pub proof fn law_artnet_round_trip(universe: u16, sequence: u8, data: Seq<u8>)
    requires
        data.len() == 512,
        universe < 256,
    ensures
        artnet_read_spec(artnet_packet_spec(universe, sequence, data)) == ArtnetReadView::Frame(universe as u8, data),
{
    let p = artnet_packet_spec(universe, sequence, data);
    assert(p.subrange(0, 8) =~= artnet_id());
    assert(p[8] == 0x00u8 && p[9] == 0x50u8);
    assert(p[14] == (universe % 256) as u8);
    assert(p[16] == 0x02u8 && p[17] == 0x00u8);
    assert(Seq::new(512, |i: int| if i < 512 { p[18 + i] } else { 0u8 }) =~= data);
}

} // verus!
