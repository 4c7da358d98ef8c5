use ogg::reading::OggReadError;
use ogg::reading::PacketReader;
use std::io::Cursor;
use vstd::prelude::*;

verus! {

/// An `ogg::reading::PacketReader` over a `std::io::Cursor` on bytes held in
/// memory. Its state is opaque; only the two functions below that create it
/// and read from it touch it.
#[verifier::external_body]
pub struct OggPacketStream<'a> {
    reader: PacketReader<Cursor<&'a [u8]>>,
}

/// Declares `ogg::reading::OggReadError` to Verus as an opaque type.
#[verifier::external_type_specification]
#[verifier::external_body]
pub struct ExOggReadError(OggReadError);

/// How many leading bytes of a file are inspected when recognising Ogg Opus.
pub const PROBE_LEN: usize = 64;

/// The Ogg page capture pattern, "OggS".
pub open spec fn ogg_capture_pattern() -> Seq<u8> {
    seq![0x4fu8, 0x67u8, 0x67u8, 0x53u8]
}

/// The magic signature that opens an Opus identification header, "OpusHead".
pub open spec fn opus_head_magic() -> Seq<u8> {
    seq![0x4fu8, 0x70u8, 0x75u8, 0x73u8, 0x48u8, 0x65u8, 0x61u8, 0x64u8]
}

/// The part of a file that the recogniser looks at: its first `PROBE_LEN` bytes.
pub open spec fn probe_window(bytes: Seq<u8>) -> Seq<u8> {
    if bytes.len() <= PROBE_LEN {
        bytes
    } else {
        bytes.take(PROBE_LEN as int)
    }
}

/// `pat` occurs in `s` starting at index `at`.
pub open spec fn occurs_at(s: Seq<u8>, pat: Seq<u8>, at: int) -> bool {
    0 <= at && at + pat.len() <= s.len() && s.subrange(at, at + pat.len()) == pat
}

/// A file is taken for Ogg Opus when its probe window starts with "OggS" and
/// contains "OpusHead" somewhere.
pub open spec fn spec_is_ogg_opus(bytes: Seq<u8>) -> bool {
    let head = probe_window(bytes);
    &&& occurs_at(head, ogg_capture_pattern(), 0)
    &&& exists|i: int| occurs_at(head, opus_head_magic(), i)
}

/// A file is taken for Ogg Opus exactly when it starts with the bytes "OggS"
/// and the eight bytes "OpusHead" occur somewhere that ends within its first
/// 64 bytes.
pub proof fn ogg_opus_means_signatures_in_first_64_bytes(bytes: Seq<u8>)
    ensures
        spec_is_ogg_opus(bytes) <==> {
            &&& bytes.len() >= 4
            &&& bytes[0] == 0x4fu8 && bytes[1] == 0x67u8 && bytes[2] == 0x67u8 && bytes[3] == 0x53u8
            &&& exists|i: int|
                0 <= i && i + 8 <= bytes.len() && i + 8 <= 64 && #[trigger] bytes[i] == 0x4fu8
                    && bytes[i + 1] == 0x70u8 && bytes[i + 2] == 0x75u8 && bytes[i + 3] == 0x73u8
                    && bytes[i + 4] == 0x48u8 && bytes[i + 5] == 0x65u8 && bytes[i + 6] == 0x61u8
                    && bytes[i + 7] == 0x64u8
        },
{
    let head = probe_window(bytes);
    assert(head.len() <= 64 && head.len() <= bytes.len());
    assert(forall|k: int| 0 <= k < head.len() ==> head[k] == bytes[k]);
    if occurs_at(head, ogg_capture_pattern(), 0) {
        assert(head.subrange(0, 4)[0] == head[0]);
        assert(head.subrange(0, 4)[1] == head[1]);
        assert(head.subrange(0, 4)[2] == head[2]);
        assert(head.subrange(0, 4)[3] == head[3]);
    }
    if bytes.len() >= 4 && bytes[0] == 0x4fu8 && bytes[1] == 0x67u8 && bytes[2] == 0x67u8
        && bytes[3] == 0x53u8 {
        assert(head.len() >= 4);
        assert(head.subrange(0, 4) =~= ogg_capture_pattern());
    }
    if exists|i: int| occurs_at(head, opus_head_magic(), i) {
        let i: int = choose|i: int| occurs_at(head, opus_head_magic(), i);
        let w = head.subrange(i, i + 8);
        assert(w[0] == head[i] && w[1] == head[i + 1] && w[2] == head[i + 2] && w[3] == head[i + 3]);
        assert(w[4] == head[i + 4] && w[5] == head[i + 5] && w[6] == head[i + 6] && w[7] == head[i + 7]);
        assert(bytes[i] == 0x4fu8);
    }
    if exists|i: int|
        0 <= i && i + 8 <= bytes.len() && i + 8 <= 64 && #[trigger] bytes[i] == 0x4fu8 && bytes[i + 1]
            == 0x70u8 && bytes[i + 2] == 0x75u8 && bytes[i + 3] == 0x73u8 && bytes[i + 4] == 0x48u8
            && bytes[i + 5] == 0x65u8 && bytes[i + 6] == 0x61u8 && bytes[i + 7] == 0x64u8 {
        let i: int = choose|i: int|
            0 <= i && i + 8 <= bytes.len() && i + 8 <= 64 && #[trigger] bytes[i] == 0x4fu8 && bytes[i
                + 1] == 0x70u8 && bytes[i + 2] == 0x75u8 && bytes[i + 3] == 0x73u8 && bytes[i + 4]
                == 0x48u8 && bytes[i + 5] == 0x65u8 && bytes[i + 6] == 0x61u8 && bytes[i + 7] == 0x64u8;
        assert(head.subrange(i, i + 8) =~= opus_head_magic());
        assert(occurs_at(head, opus_head_magic(), i));
    }
}

fn capture_pattern() -> (p: [u8; 4])
    ensures
        p@ == ogg_capture_pattern(),
{
    let p: [u8; 4] = [0x4f, 0x67, 0x67, 0x53];
    assert(p@ =~= ogg_capture_pattern());
    p
}

fn head_magic() -> (p: [u8; 8])
    ensures
        p@ == opus_head_magic(),
{
    let p: [u8; 8] = [0x4f, 0x70, 0x75, 0x73, 0x48, 0x65, 0x61, 0x64];
    assert(p@ =~= opus_head_magic());
    p
}

/// Whether `pat` occurs in the first `limit` bytes of `bytes` at `at`.
fn matches_at(bytes: &[u8], limit: usize, pat: &[u8], at: usize) -> (r: bool)
    requires
        limit <= bytes@.len(),
    ensures
        r == occurs_at(bytes@.take(limit as int), pat@, at as int),
{
    if pat.len() > limit || at > limit - pat.len() {
        return false;
    }
    let mut k: usize = 0;
    while k < pat.len()
        invariant
            at + pat@.len() <= limit,
            limit <= bytes@.len(),
            k <= pat@.len(),
            forall|j: int| 0 <= j < k ==> bytes@[at + j] == pat@[j],
        decreases pat@.len() - k,
    {
        if bytes[at + k] != pat[k] {
            assert(bytes@.take(limit as int).subrange(at as int, at + pat@.len())[k as int]
                != pat@[k as int]);
            return false;
        }
        k = k + 1;
    }
    assert(bytes@.take(limit as int).subrange(at as int, at + pat@.len()) =~= pat@);
    true
}

/// Recognises an Ogg Opus file by its first bytes: they must begin with the
/// Ogg capture pattern and hold the "OpusHead" signature within the first
/// `PROBE_LEN` bytes.
pub fn is_ogg_opus(bytes: &[u8]) -> (r: bool)
    ensures
        r == spec_is_ogg_opus(bytes@),
{
    let limit: usize = if bytes.len() < PROBE_LEN { bytes.len() } else { PROBE_LEN };
    proof {
        if bytes@.len() <= PROBE_LEN {
            assert(bytes@.take(limit as int) =~= bytes@);
        }
        assert(probe_window(bytes@) =~= bytes@.take(limit as int));
    }
    let capture = capture_pattern();
    if !matches_at(bytes, limit, &capture, 0) {
        return false;
    }
    let magic = head_magic();
    let mut i: usize = 0;
    while i < limit
        invariant
            limit <= bytes@.len(),
            magic@ == opus_head_magic(),
            probe_window(bytes@) == bytes@.take(limit as int),
            occurs_at(probe_window(bytes@), ogg_capture_pattern(), 0),
            forall|j: int| 0 <= j < i ==> !occurs_at(bytes@.take(limit as int), opus_head_magic(), j),
        decreases limit - i,
    {
        if matches_at(bytes, limit, &magic, i) {
            assert(occurs_at(probe_window(bytes@), opus_head_magic(), i as int));
            return true;
        }
        i = i + 1;
    }
    assert forall|j: int| !occurs_at(probe_window(bytes@), opus_head_magic(), j) by {
        if 0 <= j && j < limit {
        }
    }
    false
}


/// The sample rate at which Opus streams are decoded, in Hz.
pub const OPUS_SAMPLE_RATE: u32 = 48000;

/// The smallest identification header that carries every field this reader uses.
pub const OPUS_HEAD_MIN_LEN: usize = 19;

/// Channel layouts that the decoder accepts (channel mapping family 0).
#[derive(Debug, Clone, Copy, PartialEq, Eq)]
pub enum ChannelLayout {
    Mono,
    Stereo,
}

/// The fields of an Opus identification header ("OpusHead") that decoding needs.
#[derive(Debug, Clone, Copy, PartialEq, Eq)]
pub struct OpusHead {
    /// Output channel count: 1 or 2.
    pub channel_count: u8,
    /// Number of samples per channel, at 48 kHz, to drop from the start of the decoded audio.
    pub pre_skip: u16,
}

/// Why an identification header was refused.
#[derive(Debug, Clone, Copy, PartialEq, Eq)]
pub enum HeadError {
    /// Shorter than `OPUS_HEAD_MIN_LEN` bytes, or not starting with "OpusHead".
    Malformed,
    /// A channel mapping family other than 0 (multichannel streams).
    UnsupportedMapping,
    /// Mapping family 0 with a channel count other than 1 or 2.
    UnsupportedChannelCount(u8),
}

/// Errors of reading an Ogg Opus stream.
#[derive(Debug)]
pub enum OpusError {
    /// The Ogg layer failed while reading the identification header packet.
    HeadRead(OggReadError),
    /// The stream ended before an identification header packet.
    HeadMissing,
    /// The identification header packet was refused.
    Head(HeadError),
    /// The Ogg layer failed while reading the comment header packet.
    TagsRead(OggReadError),
    /// The Ogg layer failed while reading an audio packet.
    PacketRead(OggReadError),
}

impl OpusHead {
    /// A header the decoder accepts: one or two channels.
    pub open spec fn supported(self) -> bool {
        self.channel_count == 1 || self.channel_count == 2
    }

    /// The channel layout of a supported header.
    pub fn layout(&self) -> (l: ChannelLayout)
        requires
            self.supported(),
        ensures
            l == (if self.channel_count == 1 { ChannelLayout::Mono } else { ChannelLayout::Stereo }),
    {
        if self.channel_count == 1 {
            ChannelLayout::Mono
        } else {
            ChannelLayout::Stereo
        }
    }
}

/// What an identification header packet says, read as RFC 7845 lays it out:
/// magic at 0..8, channel count at 9, pre-skip (little endian) at 10..12,
/// channel mapping family at 18.
pub open spec fn spec_parse_opus_head(p: Seq<u8>) -> Result<OpusHead, HeadError> {
    if p.len() < OPUS_HEAD_MIN_LEN || p.take(8) != opus_head_magic() {
        Err(HeadError::Malformed)
    } else if p[18] != 0 {
        Err(HeadError::UnsupportedMapping)
    } else if p[9] != 1 && p[9] != 2 {
        Err(HeadError::UnsupportedChannelCount(p[9]))
    } else {
        Ok(OpusHead { channel_count: p[9], pre_skip: (p[10] + 256 * p[11]) as u16 })
    }
}

/// Parses and checks an identification header packet.
pub fn parse_opus_head(packet: &[u8]) -> (r: Result<OpusHead, HeadError>)
    ensures
        r == spec_parse_opus_head(packet@),
{
    if packet.len() < OPUS_HEAD_MIN_LEN {
        return Err(HeadError::Malformed);
    }
    let magic = head_magic();
    if !matches_at(packet, packet.len(), &magic, 0) {
        proof {
            assert(packet@.take(packet@.len() as int) =~= packet@);
            assert(packet@.take(8) =~= packet@.subrange(0, 8));
        }
        return Err(HeadError::Malformed);
    }
    proof {
        assert(packet@.take(packet@.len() as int) =~= packet@);
        assert(packet@.take(8) =~= packet@.subrange(0, 8));
    }
    let channel_count: u8 = packet[9];
    let mapping_family: u8 = packet[18];
    if mapping_family != 0 {
        return Err(HeadError::UnsupportedMapping);
    }
    if channel_count != 1 && channel_count != 2 {
        return Err(HeadError::UnsupportedChannelCount(channel_count));
    }
    let pre_skip: u16 = packet[10] as u16 + 256 * (packet[11] as u16);
    Ok(OpusHead { channel_count, pre_skip })
}

/// What the read numbered `index` (counting from 0) gives on a packet reader
/// freshly made over `bytes`: `Err(())` for a read error, `Ok(None)` at the end
/// of the physical stream, `Ok(Some(data))` for a packet.
pub uninterp spec fn ogg_read(bytes: Seq<u8>, index: nat) -> Result<Option<Seq<u8>>, ()>;

/// The outcome of a packet read, as `ogg_read` writes it.
pub open spec fn packet_outcome<E>(r: Result<Option<Vec<u8>>, E>) -> Result<Option<Seq<u8>>, ()> {
    match r {
        Ok(Some(p)) => Ok(Some(p@)),
        Ok(None) => Ok(None),
        Err(_) => Err(()),
    }
}

/// How many of the first `n` reads over `bytes` gave a packet.
pub open spec fn packets_read(bytes: Seq<u8>, n: nat) -> nat
    decreases n,
{
    if n == 0 {
        0
    } else {
        let before = packets_read(bytes, (n - 1) as nat);
        match ogg_read(bytes, (n - 1) as nat) {
            Ok(Some(_)) => before + 1,
            _ => before,
        }
    }
}

/// A packet reader over `bytes` that has made `reads` reads so far.
pub struct PacketSource<'a> {
    stream: OggPacketStream<'a>,
    bytes: Ghost<Seq<u8>>,
    reads: Ghost<nat>,
}

/// Calls `ogg::reading::PacketReader::new` on a `std::io::Cursor` over
/// `bytes`; the source records those bytes and that no read was made yet.
#[verifier::external_body]
fn packet_source_over<'a>(bytes: &'a [u8]) -> (s: PacketSource<'a>)
    ensures
        s.bytes@ == bytes@,
        s.reads@ == 0,
{
    PacketSource {
        stream: OggPacketStream { reader: PacketReader::new(Cursor::new(bytes)) },
        bytes: Ghost(bytes@),
        reads: Ghost(0),
    }
}

/// Calls `ogg::reading::PacketReader::read_packet` and keeps the data of the
/// packet it returns. The reader works on an in-memory cursor, so what the
/// read gives depends only on the bytes and on how many reads came before:
/// it is `ogg_read` of those. The source counts the read.
/// Every packet the reader returns ends at a lacing value below 255 in the
/// segment table of a page, each such byte is a distinct byte of the input and
/// is parsed once, so a reader never returns more packets than the input has
/// bytes.
#[verifier::external_body]
fn read_packet_data<'a>(source: &mut PacketSource<'a>) -> (r: Result<Option<Vec<u8>>, OggReadError>)
    ensures
        packet_outcome(r) == ogg_read(old(source).bytes@, old(source).reads@),
        final(source).bytes@ == old(source).bytes@,
        final(source).reads@ == old(source).reads@ + 1,
        packets_read(final(source).bytes@, final(source).reads@) <= final(source).bytes@.len(),
{
    let r = source.stream.reader.read_packet().map(|p| p.map(|pkt| pkt.data));
    source.reads = Ghost(source.reads@ + 1);
    r
}

/// Demultiplexes an Ogg Opus stream: yields its audio packets after the two
/// header packets.
pub struct OggOpusReader<'a> {
    packets: PacketSource<'a>,
}

impl<'a> OggOpusReader<'a> {
    /// The bytes of the stream this reader reads.
    pub closed spec fn source_bytes(&self) -> Seq<u8> {
        self.packets.bytes@
    }

    /// How many packet reads the reader has made on its stream.
    pub closed spec fn reads(&self) -> nat {
        self.packets.reads@
    }

    /// Opens an Ogg Opus stream held in memory: reads the first packet and
    /// checks it as the identification header, then reads past the comment
    /// header. The header returned is what `parse_opus_head` makes of the
    /// first packet; each error comes from the step it names.
    pub fn open(bytes: &'a [u8]) -> (r: Result<(OggOpusReader<'a>, OpusHead), OpusError>)
        ensures
            match ogg_read(bytes@, 0) {
                Err(_) => r matches Err(OpusError::HeadRead(_)),
                Ok(None) => r matches Err(OpusError::HeadMissing),
                Ok(Some(p)) => match spec_parse_opus_head(p) {
                    Err(h) => r matches Err(OpusError::Head(e)) && e == h,
                    Ok(head) => match ogg_read(bytes@, 1) {
                        Err(_) => r matches Err(OpusError::TagsRead(_)),
                        Ok(_) => r matches Ok((reader, h)) && h == head && reader.source_bytes()
                            == bytes@ && reader.reads() == 2,
                    },
                },
            },
    {
        let mut packets = packet_source_over(bytes);
        let head_packet = match read_packet_data(&mut packets) {
            Err(e) => return Err(OpusError::HeadRead(e)),
            Ok(None) => return Err(OpusError::HeadMissing),
            Ok(Some(p)) => p,
        };
        let head = match parse_opus_head(head_packet.as_slice()) {
            Err(e) => return Err(OpusError::Head(e)),
            Ok(h) => h,
        };
        // The comment header carries nothing that playback needs; a stream
        // that ends here is accepted and simply has no audio.
        match read_packet_data(&mut packets) {
            Err(e) => return Err(OpusError::TagsRead(e)),
            Ok(_) => {},
        }
        Ok((OggOpusReader { packets }, head))
    }

    /// The next audio packet, or `None` at the end of the physical stream:
    /// what the next read of the stream gives, with a read error reported as
    /// `PacketRead`.
    pub fn next_packet(&mut self) -> (r: Result<Option<Vec<u8>>, OpusError>)
        ensures
            r matches Err(e) ==> e is PacketRead,
            packet_outcome(r) == ogg_read(old(self).source_bytes(), old(self).reads()),
            final(self).source_bytes() == old(self).source_bytes(),
            final(self).reads() == old(self).reads() + 1,
            packets_read(final(self).source_bytes(), final(self).reads())
                <= final(self).source_bytes().len(),
    {
        match read_packet_data(&mut self.packets) {
            Err(e) => Err(OpusError::PacketRead(e)),
            Ok(p) => Ok(p),
        }
    }
}

/// Why decoding the audio packets of a stream failed.
#[derive(Debug)]
pub enum DecodeError<E> {
    /// Reading a packet failed (`OpusError::PacketRead`).
    Read(OpusError),
    /// The decoder refused a packet.
    Frame(E),
}

/// The samples of decoded frames, in order: of each `(decoded_len, frame)`,
/// the first `decoded_len` interleaved frames of `channel_count` samples.
pub open spec fn joined_frames<T>(frames: Seq<(usize, Vec<T>)>, channel_count: u8) -> Seq<T>
    decreases frames.len(),
{
    if frames.len() == 0 {
        Seq::empty()
    } else {
        joined_frames(frames.drop_last(), channel_count) + frames.last().1@.take(
            frame_len(frames.last().0, channel_count),
        )
    }
}

/// Reading on from read number `start` over `bytes` gave the packets
/// `packets`, one after another, and `decode` turned each into the frame of
/// the same place in `frames`.
pub open spec fn decoded_run<T, E, D: Fn(&Vec<u8>) -> Result<(usize, Vec<T>), E>>(
    bytes: Seq<u8>,
    start: nat,
    decode: D,
    packets: Seq<Vec<u8>>,
    frames: Seq<(usize, Vec<T>)>,
) -> bool {
    &&& packets.len() == frames.len()
    &&& forall|i: int|
        #![trigger packets[i]]
        0 <= i < packets.len() ==> ogg_read(bytes, (start + i) as nat) == Ok::<
            Option<Seq<u8>>,
            (),
        >(Some(packets[i]@)) && call_ensures(decode, (&packets[i],), Ok::<(usize, Vec<T>), E>(frames[i]))
}

/// Decodes the remaining packets of the stream with `decode_frame`, which
/// gives the number of frames it decoded and the buffer holding them, joins
/// the decoded samples and drops the header's pre-skip from the start.
/// Reading stops at the end of the physical stream; the first read error or
/// decoder error ends decoding with that error.
pub fn decode_packets<T: Copy, E, D>(
    reader: &mut OggOpusReader,
    head: &OpusHead,
    decode_frame: D,
) -> (r: Result<Vec<T>, DecodeError<E>>)
    where
        D: Fn(&Vec<u8>) -> Result<(usize, Vec<T>), E>,
    requires
        forall|p: &Vec<u8>| decode_frame.requires((p,)),
        forall|p: &Vec<u8>, n: usize, f: Vec<T>|
            call_ensures(decode_frame, (p,), Ok::<(usize, Vec<T>), E>((n, f))) ==> frame_len(
                n,
                head.channel_count,
            ) <= f@.len(),
    ensures
        final(reader).source_bytes() == old(reader).source_bytes(),
        r matches Ok(samples) ==> exists|packets: Seq<Vec<u8>>, frames: Seq<(usize, Vec<T>)>|
            {
                &&& #[trigger] decoded_run(
                    old(reader).source_bytes(),
                    old(reader).reads(),
                    decode_frame,
                    packets,
                    frames,
                )
                &&& ogg_read(old(reader).source_bytes(), old(reader).reads() + packets.len())
                    == Ok::<Option<Seq<u8>>, ()>(None)
                &&& samples@ == spec_trim_pre_skip(
                    joined_frames(frames, head.channel_count),
                    head.pre_skip,
                    head.channel_count,
                )
            },
        r matches Err(DecodeError::Read(e)) ==> e is PacketRead && exists|
            packets: Seq<Vec<u8>>,
            frames: Seq<(usize, Vec<T>)>,
        |
            {
                &&& #[trigger] decoded_run(
                    old(reader).source_bytes(),
                    old(reader).reads(),
                    decode_frame,
                    packets,
                    frames,
                )
                &&& ogg_read(old(reader).source_bytes(), old(reader).reads() + packets.len()) is Err
            },
        r matches Err(DecodeError::Frame(e)) ==> exists|
            packets: Seq<Vec<u8>>,
            frames: Seq<(usize, Vec<T>)>,
            last: Vec<u8>,
        |
            #![trigger decoded_run(
                old(reader).source_bytes(),
                old(reader).reads(),
                decode_frame,
                packets,
                frames,
            ), last@]
            {
                &&& decoded_run(
                    old(reader).source_bytes(),
                    old(reader).reads(),
                    decode_frame,
                    packets,
                    frames,
                )
                &&& ogg_read(old(reader).source_bytes(), old(reader).reads() + packets.len())
                    == Ok::<Option<Seq<u8>>, ()>(Some(last@))
                &&& call_ensures(decode_frame, (&last,), Err::<(usize, Vec<T>), E>(e))
            },
{
    let ghost bytes = reader.source_bytes();
    let ghost start = reader.reads();
    let ghost mut packets: Seq<Vec<u8>> = Seq::empty();
    let ghost mut frames: Seq<(usize, Vec<T>)> = Seq::empty();
    let mut samples: Vec<T> = Vec::new();
    let mut next = reader.next_packet();
    loop
        invariant
            bytes == old(reader).source_bytes(),
            start == old(reader).reads(),
            reader.source_bytes() == bytes,
            reader.reads() == start + packets.len() + 1,
            packet_outcome(next) == ogg_read(bytes, start + packets.len()),
            next matches Err(e) ==> e is PacketRead,
            packets_read(bytes, reader.reads()) <= bytes.len(),
            decoded_run(bytes, start, decode_frame, packets, frames),
            samples@ == joined_frames(frames, head.channel_count),
            forall|p: &Vec<u8>| decode_frame.requires((p,)),
            forall|p: &Vec<u8>, n: usize, f: Vec<T>|
                call_ensures(decode_frame, (p,), Ok::<(usize, Vec<T>), E>((n, f))) ==> frame_len(
                    n,
                    head.channel_count,
                ) <= f@.len(),
        decreases bytes.len() - packets_read(bytes, start + packets.len()),
    {
        assert(packets_read(bytes, start + packets.len()) <= packets_read(bytes, reader.reads()));
        let packet = match next {
            Err(e) => {
                return Err(DecodeError::Read(e));
            },
            Ok(None) => {
                trim_pre_skip(&mut samples, head.pre_skip, head.channel_count);
                return Ok(samples);
            },
            Ok(Some(p)) => p,
        };
        let decoded = decode_frame(&packet);
        match decoded {
            Err(e) => {
                assert(call_ensures(decode_frame, (&packet,), Err::<(usize, Vec<T>), E>(e)));
                assert(ogg_read(bytes, start + packets.len()) == Ok::<Option<Seq<u8>>, ()>(
                    Some(packet@),
                ));
                return Err(DecodeError::Frame(e));
            },
            Ok((n, frame)) => {
                append_frame(&mut samples, frame.as_slice(), n, head.channel_count);
                proof {
                    let ghost_frame = (n, frame);
                    assert(frames.push(ghost_frame).drop_last() =~= frames);
                    packets = packets.push(packet);
                    frames = frames.push(ghost_frame);
                    assert forall|i: int| #![trigger packets[i]] 0 <= i < packets.len() implies ogg_read(
                        bytes,
                        (start + i) as nat,
                    ) == Ok::<Option<Seq<u8>>, ()>(Some(packets[i]@)) && call_ensures(
                        decode_frame,
                        (&packets[i],),
                        Ok::<(usize, Vec<T>), E>(frames[i]),
                    ) by {
                        if i < packets.len() - 1 {
                            assert(packets[i] == packets.drop_last()[i]);
                        }
                    }
                }
            },
        }
        next = reader.next_packet();
    }
}

/// The samples that `append_frame` takes from a decoded frame.
pub open spec fn frame_len(decoded_len: usize, channel_count: u8) -> int {
    decoded_len as int * channel_count as int
}

/// Appends the first `decoded_len` interleaved frames (of `channel_count`
/// samples each) held in `frame` to `samples`.
pub fn append_frame<T: Copy>(samples: &mut Vec<T>, frame: &[T], decoded_len: usize, channel_count: u8)
    requires
        frame_len(decoded_len, channel_count) <= frame@.len(),
    ensures
        final(samples)@ == old(samples)@ + frame@.take(frame_len(decoded_len, channel_count)),
{
    let ghost start = samples@;
    let frame_total: usize = frame.len();
    assert(decoded_len as int * channel_count as int <= frame_total);
    let n: usize = decoded_len * (channel_count as usize);
    let mut i: usize = 0;
    while i < n
        invariant
            n == frame_len(decoded_len, channel_count),
            n <= frame@.len(),
            i <= n,
            samples@ == start + frame@.take(i as int),
        decreases n - i,
    {
        samples.push(frame[i]);
        i = i + 1;
        assert(frame@.take(i as int) =~= frame@.take(i - 1).push(frame@[i - 1]));
    }
}

/// What is left of the decoded samples once the pre-skip is dropped:
/// `pre_skip` frames of `channel_count` samples, or everything if there are
/// no more samples than that.
pub open spec fn spec_trim_pre_skip<T>(s: Seq<T>, pre_skip: u16, channel_count: u8) -> Seq<T> {
    let skip: int = pre_skip as int * channel_count as int;
    if skip < s.len() {
        s.skip(skip)
    } else {
        Seq::empty()
    }
}

/// Trimming drops exactly the first `pre_skip * channel_count` samples, or all
/// of them when there are no more than that; what is left keeps its order.
pub proof fn trim_drops_exactly_pre_skip_frames<T>(s: Seq<T>, pre_skip: u16, channel_count: u8)
    ensures
        spec_trim_pre_skip(s, pre_skip, channel_count).len() == if pre_skip * channel_count < s.len() {
            s.len() - pre_skip * channel_count
        } else {
            0
        },
        forall|i: int|
            0 <= i < spec_trim_pre_skip(s, pre_skip, channel_count).len() ==> #[trigger] spec_trim_pre_skip(
                s,
                pre_skip,
                channel_count,
            )[i] == s[i + pre_skip * channel_count],
{
}

/// Drops the decoder's priming samples (the header's pre-skip) from the start
/// of the decoded audio.
pub fn trim_pre_skip<T>(samples: &mut Vec<T>, pre_skip: u16, channel_count: u8)
    ensures
        final(samples)@ == spec_trim_pre_skip(old(samples)@, pre_skip, channel_count),
{
    proof {
        assert(pre_skip as int * channel_count as int <= 0xffff * 0xff) by (nonlinear_arith)
            requires
                pre_skip <= 0xffff,
                channel_count <= 0xff,
        ;
    }
    let skip: usize = (pre_skip as usize) * (channel_count as usize);
    if skip < samples.len() {
        let kept = samples.split_off(skip);
        *samples = kept;
    } else {
        samples.clear();
    }
}

} // verus!
