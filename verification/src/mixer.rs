//! The audio mixer: the sounds that play, each under its number in a hash
//! map, and how they add up; and the decoding of sounds from Ogg Vorbis
//! streams.

use std::collections::HashMap;
use std::io::Cursor;
use std::sync::Arc;
use lewton::inside_ogg::OggStreamReader;
use lewton::VorbisError;
use vstd::prelude::*;
use vstd::std_specs::hash::spec_keys_iter;
use vstd::std_specs::iter::IteratorSpec;
use crate::units::UNIT;
use crate::vorbis::{check_stream, stream_is_safe};

verus! {

broadcast use vstd::std_specs::hash::group_hash_axioms;

/// A decoder of lewton over the bytes of an Ogg Vorbis stream
/// (`lewton::inside_ogg::OggStreamReader`). Verus sees nothing inside it;
/// what it holds is named by `source`, `packets_ahead` and `fails_ahead`.
#[verifier::external_body]
pub struct OggReader<'a> {
    inner: OggStreamReader<Cursor<&'a [u8]>>,
}

/// The error of lewton's decoder (`lewton::VorbisError`), carried through
/// unread.
#[verifier::external_type_specification]
#[verifier::external_body]
pub struct ExVorbisError(VorbisError);

/// The bytes that a reader decodes: those over which it was opened.
pub uninterp spec fn source(reader: OggReader) -> Seq<u8>;

/// The packets of samples that a reader will still decode before its
/// stream ends or fails.
pub uninterp spec fn packets_ahead(reader: OggReader) -> Seq<Seq<i16>>;

/// Whether the stream of a reader fails after the packets that it will still decode.
pub uninterp spec fn fails_ahead(reader: OggReader) -> bool;

/// Whether the decoder opens over these bytes: whether it can read the
/// three headers of the stream.
pub uninterp spec fn ogg_opens(bytes: Seq<u8>) -> bool;

/// The packets of samples that the decoder gives for these bytes, one
/// after the other, before the stream ends or fails.
pub uninterp spec fn ogg_packets(bytes: Seq<u8>) -> Seq<Seq<i16>>;

/// Whether the stream of these bytes fails after its packets, rather
/// than ends.
pub uninterp spec fn ogg_fails(bytes: Seq<u8>) -> bool;

/// Opens a decoder over the bytes with `OggStreamReader::new`, which
/// reads the three headers of the stream. The decoder works on the bytes
/// alone, so whether it opens, and what the reader then has ahead, are
/// what the bytes give.
///
/// The stream must be safe (`stream_is_safe`). That leaves out what the
/// decoder does not come back from: a comment header whose lengths reach
/// beyond it, for which it would set memory aside unseen; a codebook of
/// more entries than `MAX_ENTRIES` or more values than `MAX_VALUES`, for
/// the same reason; and an ordered codebook of more runs than
/// `MAX_RUNS`, on which the length of its codewords overflows. It leaves
/// out as well what opens and then cannot be decoded, as `next_packet`
/// says, and everything but one logical stream of whole pages.
#[verifier::external_body]
fn open_ogg<'a>(bytes: &'a [u8]) -> (r: Result<OggReader<'a>, VorbisError>)
    requires
        stream_is_safe(bytes@),
    ensures
        r is Ok <==> ogg_opens(bytes@),
        r is Ok ==> source(r->Ok_0) == bytes@,
        r is Ok ==> packets_ahead(r->Ok_0) == ogg_packets(bytes@),
        r is Ok ==> fails_ahead(r->Ok_0) == ogg_fails(bytes@),
{
    match OggStreamReader::new(Cursor::new(bytes)) {
        Ok(inner) => Ok(OggReader { inner }),
        Err(e) => Err(e),
    }
}

/// Decodes the next packet with `OggStreamReader::read_dec_packet_itl`.
/// A packet is the first of those that the decoder had ahead, and leaves
/// the rest ahead; the end of the stream and an error come only when
/// nothing is ahead, the error exactly where the stream fails.
///
/// The stream must be safe, as for opening. The decoder does what
/// follows without a check, and `stream_is_safe` leaves out the streams
/// on which it goes wrong: it adds the samples of a page to its
/// position; it multiplies the block size by the number of channels in
/// sixteen bits; it divides the size of a partition by the dimensions of
/// a codebook; it walks down the tree of a codebook, which is empty
/// where no entry has a codeword; it reads the curve of a floor of the
/// kind 0 with an order that it takes 3 from; it reckons the heights of
/// a floor of the kind 1 without a sign, from the entries of a codebook
/// that may be more than the floor tells apart; and it looks for the
/// codebook of the eighth stage of a residue, which the setup header
/// does not name.
#[verifier::external_body]
fn next_packet(reader: &mut OggReader) -> (r: Result<
    Option<Vec<i16>>,
    VorbisError,
>)
    requires
        stream_is_safe(source(*old(reader))),
    ensures
        source(*final(reader)) == source(*old(reader)),
        match r {
            Ok(Some(packet)) => {
                &&& packets_ahead(*old(reader)).len() > 0
                &&& packet@ == packets_ahead(*old(reader))[0]
                &&& packets_ahead(*final(reader)) == packets_ahead(*old(reader)).drop_first()
                &&& fails_ahead(*final(reader)) == fails_ahead(*old(reader))
            },
            Ok(None) => packets_ahead(*old(reader)).len() == 0 && !fails_ahead(*old(reader)),
            Err(_) => packets_ahead(*old(reader)).len() == 0 && fails_ahead(*old(reader)),
        },
{
    reader.inner.read_dec_packet_itl()
}

/// A new handle on shared samples (`Arc::clone`): it points to the same samples.
#[verifier::external_body]
fn share(buffer: &Arc<Vec<i16>>) -> (again: Arc<Vec<i16>>)
    ensures
        again == *buffer,
{
    Arc::clone(buffer)
}

/// Why a sound could not be loaded.
#[derive(Clone, Copy, Debug, PartialEq, Eq, Structural)]
pub enum AudioError {
    /// The bytes are no Ogg Vorbis stream that can be decoded to its end.
    BadOgg,
    /// The stream is not of the form that the decoder is trusted with.
    Unsupported,
}

/// A sound: its interleaved samples.
pub struct Audio {
    buffer: Arc<Vec<i16>>,
}

/// A sound that plays: what is played, the sample that comes next, the
/// volume, and whether it starts over at its end.
pub struct AudioInstance {
    audio: Audio,
    index: usize,
    volume: i64,
    do_loop: bool,
}

/// Names a sound that plays.
#[derive(Debug)]
pub struct AudioInstanceHandle(usize);

/// The mixer: the sounds that play, each under its number, and the
/// number of the next one.
pub struct Mixer {
    playing: HashMap<usize, AudioInstance>,
    next_id: usize,
}

/// A playing sound, as the contracts speak of it.
pub struct Voice {
    pub samples: Seq<i16>,
    pub index: int,
    pub volume: i64,
    pub do_loop: bool,
}

/// The samples of all packets, one packet after the other.
pub open spec fn joined(packets: Seq<Seq<i16>>) -> Seq<i16>
    decreases packets.len(),
{
    if packets.len() == 0 {
        Seq::empty()
    } else {
        packets[0] + joined(packets.drop_first())
    }
}

/// The voices after a sound was started under the number `id`. A mixer
/// that has given out every number but the last of the machine's range
/// starts no more sounds.
pub open spec fn started(voices: Map<usize, Voice>, id: usize, voice: Voice) -> Map<usize, Voice> {
    if id < usize::MAX {
        voices.insert(id, voice)
    } else {
        voices
    }
}

/// The voices, that of the number `id` at the volume `volume`, if it plays.
pub open spec fn with_volume(voices: Map<usize, Voice>, id: usize, volume: i64) -> Map<
    usize,
    Voice,
> {
    if voices.contains_key(id) {
        voices.insert(id, Voice { volume, ..voices[id] })
    } else {
        voices
    }
}

/// The voices, that of the number `id` told whether to start over at its
/// end, if it plays.
pub open spec fn with_looping(voices: Map<usize, Voice>, id: usize, do_loop: bool) -> Map<
    usize,
    Voice,
> {
    if voices.contains_key(id) {
        voices.insert(id, Voice { do_loop, ..voices[id] })
    } else {
        voices
    }
}

/// A sample at a volume, `UNIT` being the volume at which it was
/// recorded: the product rounded down and held to sixteen bits.
pub open spec fn scaled(sample: i16, volume: i64) -> i16 {
    let product = sample * volume / (UNIT as int);
    if product < i16::MIN {
        i16::MIN
    } else if product > i16::MAX {
        i16::MAX
    } else {
        product as i16
    }
}

/// A sum brought back into sixteen bits the way machine addition wraps.
pub open spec fn wrapped(sum: int) -> i16 {
    ((sum + 0x8000) % 0x1_0000 - 0x8000) as i16
}

/// The number of samples that a voice gives to a buffer of `requested`
/// samples: all of them if it loops, else no more than it has left.
pub open spec fn span(v: Voice, requested: int) -> int {
    if v.samples.len() == 0 {
        0
    } else if v.do_loop || requested < v.samples.len() - v.index {
        requested
    } else {
        v.samples.len() - v.index
    }
}

/// Whether a voice has played out once it has given to a buffer of
/// `requested` samples. A voice without samples has played out at once.
pub open spec fn played_out(v: Voice, requested: int) -> bool {
    v.samples.len() == 0 || (!v.do_loop && requested >= v.samples.len() - v.index)
}

/// A voice after it gave to a buffer of `requested` samples.
pub open spec fn moved_on(v: Voice, requested: int) -> Voice {
    Voice { index: (v.index + requested) % (v.samples.len() as int), ..v }
}

/// A buffer after one voice was added to it.
pub open spec fn mixed(out: Seq<i16>, v: Voice) -> Seq<i16> {
    Seq::new(
        out.len(),
        |i: int|
            if i < span(v, out.len() as int) {
                wrapped(
                    out[i] + scaled(v.samples[(v.index + i) % (v.samples.len() as int)], v.volume),
                )
            } else {
                out[i]
            },
    )
}

/// A buffer after the voices of the numbers in `order` were added to it,
/// one after the other.
pub open spec fn mix(out: Seq<i16>, voices: Map<usize, Voice>, order: Seq<usize>) -> Seq<i16>
    decreases order.len(),
{
    if order.len() == 0 {
        out
    } else {
        mixed(mix(out, voices, order.drop_last()), voices[order.last()])
    }
}

/// Whether `order` names every voice once. The mixer adds the voices up
/// in such an order; which one is left open, as the order in which a
/// hash map is walked is.
pub open spec fn names_each_once(order: Seq<usize>, voices: Map<usize, Voice>) -> bool {
    order.no_duplicates() && order.to_set() == voices.dom()
}

/// The voices that play on after they gave to a buffer of `requested`
/// samples, each moved on.
pub open spec fn survivors(voices: Map<usize, Voice>, requested: int) -> Map<usize, Voice> {
    Map::new(
        |k: usize| voices.contains_key(k) && !played_out(voices[k], requested),
        |k: usize| moved_on(voices[k], requested),
    )
}

/// Whether the next sample of a voice is one of its samples.
pub open spec fn in_step(v: Voice) -> bool {
    0 <= v.index && (v.index < v.samples.len() || (v.samples.len() == 0 && v.index == 0))
}

impl Audio {
    /// The samples of the sound.
    pub closed spec fn samples(&self) -> Seq<i16> {
        (*self.buffer)@
    }

    /// A sound of the given samples.
    pub fn new(samples: Vec<i16>) -> (audio: Audio)
        ensures
            audio.samples() == samples@,
    {
        Audio { buffer: Arc::new(samples) }
    }

    /// The number of samples of the sound.
    pub fn len(&self) -> (n: usize)
        ensures
            n == self.samples().len(),
    {
        self.buffer.len()
    }
}

impl AudioInstanceHandle {
    /// The number of the sound that the handle names.
    pub closed spec fn id(&self) -> usize {
        self.0
    }
}

impl AudioInstance {
    /// The playing sound, as the contracts speak of it.
    pub closed spec fn voice(&self) -> Voice {
        Voice {
            samples: self.audio.samples(),
            index: self.index as int,
            volume: self.volume,
            do_loop: self.do_loop,
        }
    }
}

/// Decodes what a reader has ahead, packet by packet, and joins the
/// samples. They come back exactly if the stream does not fail.
pub fn read_to_end(reader: &mut OggReader) -> (r: Result<Vec<i16>, AudioError>)
    requires
        stream_is_safe(source(*old(reader))),
    ensures
        r is Ok <==> !fails_ahead(*old(reader)),
        r is Ok ==> r->Ok_0@ == joined(packets_ahead(*old(reader))),
        r is Err ==> r->Err_0 == AudioError::BadOgg,
{
    let ghost all = packets_ahead(*reader);
    let mut buffer: Vec<i16> = Vec::new();
    loop
        invariant
            stream_is_safe(source(*reader)),
            fails_ahead(*reader) == fails_ahead(*old(reader)),
            all == packets_ahead(*old(reader)),
            buffer@ + joined(packets_ahead(*reader)) == joined(all),
        decreases packets_ahead(*reader).len(),
    {
        let ghost ahead = packets_ahead(*reader);
        match next_packet(reader) {
            Ok(Some(packet)) => {
                let ghost sofar = buffer@;
                append_packet(&mut buffer, &packet);
                proof {
                    assert(joined(ahead) == ahead[0] + joined(ahead.drop_first()));
                    assert(buffer@ + joined(ahead.drop_first()) =~= sofar + joined(ahead));
                }
            },
            Ok(None) => {
                proof {
                    assert(buffer@ + joined(ahead) =~= buffer@);
                }
                return Ok(buffer);
            },
            Err(_) => {
                return Err(AudioError::BadOgg);
            },
        }
    }
}

/// Adds the samples of a packet to those decoded so far.
pub fn append_packet(buffer: &mut Vec<i16>, packet: &Vec<i16>)
    ensures
        final(buffer)@ == old(buffer)@ + packet@,
{
    let mut i: usize = 0;
    while i < packet.len()
        invariant
            i <= packet@.len(),
            buffer@ == old(buffer)@ + packet@.take(i as int),
        decreases packet@.len() - i,
    {
        buffer.push(packet[i]);
        proof {
            assert(buffer@ =~= old(buffer)@ + packet@.take(i + 1));
        }
        i = i + 1;
    }
    assert(packet@.take(i as int) =~= packet@);
}

/// A sample at a volume.
pub fn scale_sample(sample: i16, volume: i64) -> (r: i16)
    ensures
        r == scaled(sample, volume),
{
    proof {
        assert(-0x8000 * 0x8000_0000_0000_0000 <= sample * volume <= 0x8000
            * 0x8000_0000_0000_0000) by (nonlinear_arith)
            requires
                -0x8000 <= sample <= 0x7fff,
                -0x8000_0000_0000_0000 <= volume <= 0x7fff_ffff_ffff_ffff,
        ;
    }
    let product: i128 = (sample as i128) * (volume as i128);
    let unit: i128 = UNIT as i128;
    let quotient: i128 = if product >= 0 {
        product / unit
    } else if product % unit == 0 {
        product / unit
    } else {
        product / unit - 1
    };
    if quotient < -32768 {
        -32768
    } else if quotient > 32767 {
        32767
    } else {
        quotient as i16
    }
}

/// Adds two samples the way machine addition wraps.
pub fn add_wrapping(a: i16, b: i16) -> (r: i16)
    ensures
        r == wrapped(a + b),
{
    let sum: i32 = a as i32 + b as i32;
    if sum > 32767 {
        (sum - 65536) as i16
    } else if sum < -32768 {
        (sum + 65536) as i16
    } else {
        sum as i16
    }
}


/// Adds one voice to a buffer and tells where the voice then stands.
fn mix_voice(out: &mut Vec<i16>, audio: &Audio, index: usize, volume: i64, do_loop: bool) -> (next: usize)
    requires
        index < audio.samples().len(),
    ensures
        final(out)@ == mixed(
            old(out)@,
            Voice { samples: audio.samples(), index: index as int, volume, do_loop },
        ),
        !played_out(
            Voice { samples: audio.samples(), index: index as int, volume, do_loop },
            old(out)@.len() as int,
        ) ==> next == (index + old(out)@.len()) % (audio.samples().len() as int),
        next < audio.samples().len(),
{
    let len = audio.len();
    let requested = out.len();
    let ghost v = Voice { samples: audio.samples(), index: index as int, volume, do_loop };
    let ghost before = out@;
    let count = if do_loop || requested < len - index {
        requested
    } else {
        len - index
    };
    let mut at: usize = index;
    let mut i: usize = 0;
    proof {
        vstd::arithmetic::div_mod::lemma_small_mod(index as nat, len as nat);
    }
    while i < count
        invariant
            len == audio.samples().len(),
            index < len,
            at < len,
            i <= count <= requested,
            count == span(v, requested as int),
            out@.len() == requested,
            before.len() == requested,
            v == (Voice { samples: audio.samples(), index: index as int, volume, do_loop }),
            at == (index + i) % (len as int),
            forall|j: int| 0 <= j < i ==> out@[j] == mixed(before, v)[j],
            forall|j: int| i <= j < requested ==> out@[j] == before[j],
        decreases count - i,
    {
        let sample = audio.buffer[at];
        let sum = add_wrapping(out[i], scale_sample(sample, volume));
        out.set(i, sum);
        proof {
            lemma_step(index as int, i as int, len as int);
        }
        at = if at + 1 == len {
            0
        } else {
            at + 1
        };
        i = i + 1;
    }
    assert(out@ =~= mixed(before, v));
    at
}

/// The place in a ring of `len` that follows the place of step `i`.
proof fn lemma_step(index: int, i: int, len: int)
    requires
        0 <= index < len,
        0 <= i,
    ensures
        (index + i + 1) % len == if (index + i) % len + 1 == len {
            0
        } else {
            (index + i) % len + 1
        },
{
    let q = (index + i) / len;
    let r = (index + i) % len;
    vstd::arithmetic::div_mod::lemma_fundamental_div_mod(index + i, len);
    if r + 1 == len {
        assert(index + i + 1 == (q + 1) * len + 0) by (nonlinear_arith)
            requires
                index + i == len * q + r,
                r + 1 == len,
        ;
        vstd::arithmetic::div_mod::lemma_fundamental_div_mod_converse(
            index + i + 1,
            len,
            q + 1,
            0,
        );
    } else {
        assert(index + i + 1 == q * len + (r + 1)) by (nonlinear_arith)
            requires
                index + i == len * q + r,
        ;
        vstd::arithmetic::div_mod::lemma_fundamental_div_mod_converse(
            index + i + 1,
            len,
            q,
            r + 1,
        );
    }
}

impl Mixer {
    /// The sounds that play, each under its number.
    pub closed spec fn voices(&self) -> Map<usize, Voice> {
        Map::new(
            |k: usize| self.playing@.contains_key(k),
            |k: usize| self.playing@[k].voice(),
        )
    }

    /// The number that the next sound gets.
    pub closed spec fn next_id(&self) -> usize {
        self.next_id
    }

    /// The next sample of every voice is one of its samples, and every
    /// voice has a number below the one that comes next, so that no sound
    /// is ever started in the place of another. This holds of a new
    /// mixer, and every operation keeps it.
    pub open spec fn wf(&self) -> bool {
        forall|k: usize| #[trigger]
            self.voices().contains_key(k) ==> in_step(self.voices()[k]) && k < self.next_id()
    }

    /// A mixer in which nothing plays.
    pub fn new() -> (mixer: Mixer)
        ensures
            mixer.wf(),
            mixer.voices() == Map::<usize, Voice>::empty(),
            mixer.next_id() == 0,
    {
        let mixer = Mixer { playing: HashMap::new(), next_id: 0 };
        assert(mixer.voices() =~= Map::<usize, Voice>::empty());
        mixer
    }

    /// The number of sounds that play.
    pub fn playing_count(&self) -> (n: usize)
        ensures
            n == self.voices().dom().len(),
    {
        assert(self.voices().dom() =~= self.playing@.dom());
        self.playing.len()
    }

    /// Decodes an Ogg Vorbis stream into a sound.
    ///
    /// A stream that is not safe to decode is refused as unsupported,
    /// before the decoder sees it. A safe stream gives a sound exactly if
    /// the decoder opens over it and the stream does not fail: the sound
    /// then holds the samples of every packet, in order.
    pub fn load_ogg(&self, bytes: &[u8]) -> (r: Result<Audio, AudioError>)
        ensures
            r is Ok <==> stream_is_safe(bytes@) && ogg_opens(bytes@) && !ogg_fails(bytes@),
            r is Ok ==> r->Ok_0.samples() == joined(ogg_packets(bytes@)),
            r is Err ==> r->Err_0 == if stream_is_safe(bytes@) {
                AudioError::BadOgg
            } else {
                AudioError::Unsupported
            },
    {
        if !check_stream(bytes) {
            return Err(AudioError::Unsupported);
        }
        let mut reader = match open_ogg(bytes) {
            Ok(reader) => reader,
            Err(_) => {
                return Err(AudioError::BadOgg);
            },
        };
        match read_to_end(&mut reader) {
            Ok(samples) => Ok(Audio::new(samples)),
            Err(e) => Err(e),
        }
    }

    /// The numbers of the sounds that play, in the order in which the
    /// hash map gives them.
    fn numbers(&self) -> (keys: Vec<usize>)
        ensures
            names_each_once(keys@, self.voices()),
    {
        let mut keys: Vec<usize> = Vec::new();
        let ghost all: Seq<usize> = spec_keys_iter(&self.playing).remaining().unref();
        for k in it: self.playing.keys()
            invariant
                all.to_set() == self.playing@.dom(),
                all.no_duplicates(),
                it.seq().unref() == all,
                keys@ =~= all.take(it.index()),
        {
            keys.push(*k);
        }
        assert(keys@ =~= all);
        assert(self.voices().dom() =~= self.playing@.dom());
        keys
    }

    /// Starts a sound and returns the handle that names it from then on.
    /// The sound gets the number that comes next, which no playing sound
    /// has.
    pub fn play(&mut self, audio: &Audio, volume: i64, do_loop: bool) -> (handle:
        AudioInstanceHandle)
        requires
            old(self).wf(),
        ensures
            final(self).wf(),
            handle.id() == old(self).next_id(),
            !old(self).voices().contains_key(handle.id()),
            final(self).next_id() == if old(self).next_id() < usize::MAX {
                (old(self).next_id() + 1) as usize
            } else {
                usize::MAX
            },
            final(self).voices() == started(
                old(self).voices(),
                handle.id(),
                Voice { samples: audio.samples(), index: 0, volume, do_loop },
            ),
    {
        let id = self.next_id;
        if id < usize::MAX {
            self.playing.insert(
                id,
                AudioInstance {
                    audio: Audio { buffer: share(&audio.buffer) },
                    index: 0,
                    volume,
                    do_loop,
                },
            );
            self.next_id = id + 1;
            assert(self.voices() =~= old(self).voices().insert(
                id,
                Voice { samples: audio.samples(), index: 0, volume, do_loop },
            ));
        }
        AudioInstanceHandle(id)
    }

    /// Ends the sound that the handle names, at once.
    pub fn stop(&mut self, handle: &AudioInstanceHandle)
        requires
            old(self).wf(),
        ensures
            final(self).wf(),
            final(self).next_id() == old(self).next_id(),
            final(self).voices() == old(self).voices().remove(handle.id()),
    {
        self.playing.remove(&handle.0);
        assert(self.voices() =~= old(self).voices().remove(handle.id()));
    }

    /// Sets the volume of the sound that the handle names, if it still plays.
    pub fn set_volume(&mut self, handle: &AudioInstanceHandle, volume: i64)
        requires
            old(self).wf(),
        ensures
            final(self).wf(),
            final(self).next_id() == old(self).next_id(),
            final(self).voices() == with_volume(old(self).voices(), handle.id(), volume),
    {
        let changed = match self.playing.get(&handle.0) {
            Some(p) => Some(
                AudioInstance {
                    audio: Audio { buffer: share(&p.audio.buffer) },
                    index: p.index,
                    volume,
                    do_loop: p.do_loop,
                },
            ),
            None => None,
        };
        match changed {
            Some(instance) => {
                self.playing.insert(handle.0, instance);
            },
            None => {},
        }
        assert(self.voices() =~= with_volume(old(self).voices(), handle.id(), volume));
    }

    /// Tells the sound that the handle names whether to start over at its
    /// end, if it still plays. A loop that is taken away plays out.
    pub fn set_looping(&mut self, handle: &AudioInstanceHandle, do_loop: bool)
        requires
            old(self).wf(),
        ensures
            final(self).wf(),
            final(self).next_id() == old(self).next_id(),
            final(self).voices() == with_looping(old(self).voices(), handle.id(), do_loop),
    {
        let changed = match self.playing.get(&handle.0) {
            Some(p) => Some(
                AudioInstance {
                    audio: Audio { buffer: share(&p.audio.buffer) },
                    index: p.index,
                    volume: p.volume,
                    do_loop,
                },
            ),
            None => None,
        };
        match changed {
            Some(instance) => {
                self.playing.insert(handle.0, instance);
            },
            None => {},
        }
        assert(self.voices() =~= with_looping(old(self).voices(), handle.id(), do_loop));
    }

    /// Adds what every sound gives next to the samples of `out`, and moves
    /// the sounds on. A sound that has played out is taken away. The
    /// sounds are added in the order in which the hash map gives them;
    /// sums wrap around as sixteen-bit machine addition does.
    pub fn poll(&mut self, out: &mut Vec<i16>)
        requires
            old(self).wf(),
        ensures
            final(self).wf(),
            final(self).next_id() == old(self).next_id(),
            exists|order: Seq<usize>|
                names_each_once(order, old(self).voices()) && final(out)@ == #[trigger] mix(
                    old(out)@,
                    old(self).voices(),
                    order,
                ),
            final(self).voices() == survivors(old(self).voices(), old(out)@.len() as int),
    {
        let requested = out.len();
        let keys = self.numbers();
        let ghost voices = self.voices();
        let mut kept: HashMap<usize, AudioInstance> = HashMap::new();
        let mut i: usize = 0;
        while i < keys.len()
            invariant
                self.wf(),
                voices == self.voices(),
                names_each_once(keys@, voices),
                i <= keys@.len(),
                out@.len() == requested,
                requested == old(out)@.len(),
                out@ == mix(old(out)@, voices, keys@.take(i as int)),
                forall|k: usize| #[trigger]
                    kept@.contains_key(k) <==> keys@.take(i as int).contains(k) && !played_out(
                        voices[k],
                        requested as int,
                    ),
                forall|k: usize| #[trigger]
                    kept@.contains_key(k) ==> kept@[k].voice() == moved_on(
                        voices[k],
                        requested as int,
                    ),
            decreases keys@.len() - i,
        {
            let k = keys[i];
            proof {
                assert(keys@.take(i + 1).drop_last() =~= keys@.take(i as int));
                assert(keys@.take(i + 1).last() == k);
                assert(keys@.contains(k));
                assert(keys@.to_set().contains(k));
                assert(voices.contains_key(k));
                assert(in_step(voices[k]));
                let less = keys@.take(i as int);
                let more = keys@.take(i + 1);
                assert forall|j: usize| more.contains(j) <==> less.contains(j) || j == k by {
                    if less.contains(j) {
                        let a = choose|a: int| 0 <= a < less.len() && #[trigger] less[a] == j;
                        assert(more[a] == j);
                    }
                    if j == k {
                        assert(more[i as int] == j);
                    }
                    if more.contains(j) && j != k {
                        let a = choose|a: int| 0 <= a < more.len() && #[trigger] more[a] == j;
                        assert(less[a] == j);
                    }
                }
            }
            match self.playing.get(&k) {
                Some(p) => {
                    let ghost v = p.voice();
                    assert(v == voices[k]);
                    let len = p.audio.len();
                    if len > 0 {
                        let next = mix_voice(out, &p.audio, p.index, p.volume, p.do_loop);
                        let over = !p.do_loop && requested >= len - p.index;
                        if !over {
                            kept.insert(
                                k,
                                AudioInstance {
                                    audio: Audio { buffer: share(&p.audio.buffer) },
                                    index: next,
                                    volume: p.volume,
                                    do_loop: p.do_loop,
                                },
                            );
                        }
                    } else {
                        assert(mixed(out@, v) =~= out@);
                    }
                },
                None => {},
            }
            i = i + 1;
        }
        proof {
            assert(keys@.take(i as int) =~= keys@);
        }
        self.playing = kept;
        proof {
            assert forall|k: usize| keys@.contains(k) <==> voices.contains_key(k) by {
                assert(keys@.to_set().contains(k) <==> voices.dom().contains(k));
            }
            assert(self.voices() =~= survivors(voices, requested as int));
            assert(final(out)@ == mix(old(out)@, voices, keys@));
        }
    }
}

impl Default for Mixer {
    /// A mixer in which nothing plays.
    fn default() -> (mixer: Mixer)
        ensures
            mixer.wf(),
            mixer.voices() == Map::<usize, Voice>::empty(),
            mixer.next_id() == 0,
    {
        Mixer::new()
    }
}

} // verus!
