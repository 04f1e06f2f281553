//! IEEE-float WAV files.

use vstd::prelude::*;

use crate::capture::{AudioFormat, AudioFrame};
use crate::error;
use crate::error::Error;

verus! {

/// The number of bytes before the samples.
pub const WAV_HEADER_BYTES: usize = 44;

/// Two little-endian bytes.
pub open spec fn le16(value: nat) -> Seq<u8> {
    seq![(value % 256) as u8, (value / 256 % 256) as u8]
}

/// Four little-endian bytes.
pub open spec fn le32(value: nat) -> Seq<u8> {
    seq![
        (value % 256) as u8,
        (value / 256 % 256) as u8,
        (value / 65_536 % 256) as u8,
        (value / 16_777_216 % 256) as u8,
    ]
}

/// The bytes of samples, each given by its 32 bits.
pub open spec fn sample_bytes(words: Seq<u32>) -> Seq<u8>
    decreases words.len(),
{
    if words.len() == 0 {
        Seq::empty()
    } else {
        sample_bytes(words.drop_last()) + le32(words.last() as nat)
    }
}

/// The header of a WAV file that holds `data_bytes` bytes of samples.
pub open spec fn wav_header(format: AudioFormat, data_bytes: nat) -> Seq<u8> {
    let block_align = format.channels as nat * 4;
    // "RIFF"
    seq![82u8, 73, 70, 70] + le32(36 + data_bytes)
    // "WAVEfmt "
     + seq![87u8, 65, 86, 69, 102, 109, 116, 32] + le32(16)
    // IEEE float
     + le16(3) + le16(format.channels as nat) + le32(format.sample_rate as nat) + le32(
        format.sample_rate as nat * block_align,
    ) + le16(block_align) + le16(32)
    // "data"
     + seq![100u8, 97, 116, 97] + le32(data_bytes)
}

/// A whole WAV file.
pub open spec fn wav_file(format: AudioFormat, words: Seq<u32>) -> Seq<u8> {
    wav_header(format, 4 * words.len()) + sample_bytes(words)
}

/// Whether the sizes and rates of a header fit in their fields.
pub open spec fn header_fits(format: AudioFormat, data_bytes: nat) -> bool {
    &&& format.channels * 4 <= u16::MAX
    &&& format.sample_rate * (format.channels * 4) <= u32::MAX
    &&& 36 + data_bytes <= u32::MAX
}

fn push_le16(out: &mut Vec<u8>, value: u16)
    ensures
        final(out)@ == old(out)@ + le16(value as nat),
{
    let ghost before = out@;
    out.push((value % 256) as u8);
    out.push((value / 256) as u8);
    assert(out@ =~= before + le16(value as nat));
}

fn push_le32(out: &mut Vec<u8>, value: u32)
    ensures
        final(out)@ == old(out)@ + le32(value as nat),
{
    let ghost before = out@;
    out.push((value % 256) as u8);
    out.push((value / 256 % 256) as u8);
    out.push((value / 65_536 % 256) as u8);
    out.push((value / 16_777_216) as u8);
    assert(out@ =~= before + le32(value as nat));
}

fn push_tag(out: &mut Vec<u8>, a: u8, b: u8, c: u8, d: u8)
    ensures
        final(out)@ == old(out)@ + seq![a, b, c, d],
{
    let ghost before = out@;
    out.push(a);
    out.push(b);
    out.push(c);
    out.push(d);
    assert(out@ =~= before + seq![a, b, c, d]);
}

/// Streaming IEEE-float WAV writer: says which bytes go to the file. The place
/// of the header is left empty first and filled in at the end, when the amount
/// of data is known.
#[derive(Debug)]
pub struct WavWriter {
    format: AudioFormat,
    data_bytes: u32,
}

impl WavWriter {
    /// The format of every frame that is accepted.
    pub closed spec fn format(&self) -> AudioFormat {
        self.format
    }

    /// How many bytes of samples were written.
    pub closed spec fn data_bytes(&self) -> nat {
        self.data_bytes as nat
    }

    /// Starts a file: appends the empty place of the header to `out`.
    pub fn create(format: AudioFormat, out: &mut Vec<u8>) -> (r: Result<WavWriter, Error>)
        ensures
            if format.channels == 0 || format.sample_rate == 0 {
                &&& error::outcome(r) == Err::<WavWriter, _>(
                    error::ErrorView::InvalidArgument("invalid WAV format"@),
                )
                &&& final(out)@ == old(out)@
            } else {
                &&& r matches Ok(writer)
                &&& writer.format() == format
                &&& writer.data_bytes() == 0
                &&& final(out)@ == old(out)@ + Seq::new(44, |i: int| 0u8)
            },
    {
        if format.channels == 0 || format.sample_rate == 0 {
            return Err(Error::InvalidArgument("invalid WAV format"));
        }
        for i in 0..WAV_HEADER_BYTES
            invariant
                out@ == old(out)@ + Seq::new(i as nat, |k: int| 0u8),
        {
            out.push(0);
            assert(out@ =~= old(out)@ + Seq::new((i + 1) as nat, |k: int| 0u8));
        }
        assert(out@ =~= old(out)@ + Seq::new(44, |i: int| 0u8));
        Ok(WavWriter { format, data_bytes: 0 })
    }

    /// Appends the bytes of a frame to `out`. `bits` gives the 32 bits of a
    /// sample.
    pub fn write_frame<S, B>(&mut self, frame: &AudioFrame<S>, bits: B, out: &mut Vec<u8>) -> (r:
        Result<(), Error>) where S: Copy, B: Fn(S) -> u32
        requires
            forall|sample: S| #[trigger] bits.requires((sample,)),
        ensures
            final(self).format() == old(self).format(),
            match frame_refusal(old(self).format(), old(self).data_bytes(), *frame) {
                Some(text) => {
                    &&& error::outcome(r) == Err::<(), _>(error::ErrorView::InvalidArgument(text))
                    &&& *final(self) == *old(self)
                    &&& final(out)@ == old(out)@
                },
                None => {
                    &&& r is Ok
                    &&& final(self).data_bytes() == old(self).data_bytes() + 4
                        * frame.samples@.len()
                    &&& exists|words: Seq<u32>| #[trigger]
                        may_have_bits(bits, frame.samples@, words) && final(out)@ == old(out)@
                            + sample_bytes(words)
                },
            },
    {
        if frame.format != self.format {
            return Err(Error::InvalidArgument("audio format changed during WAV output"));
        }
        let count: usize = frame.samples.len();
        let bytes: usize = match count.checked_mul(4) {
            Some(bytes) => bytes,
            None => return Err(Error::InvalidArgument("audio packet is too large for WAV")),
        };
        if bytes > u32::MAX as usize {
            return Err(Error::InvalidArgument("WAV exceeds 4 GiB"));
        }
        let new_size: u32 = match self.data_bytes.checked_add(bytes as u32) {
            Some(size) => size,
            None => return Err(Error::InvalidArgument("WAV exceeds 4 GiB")),
        };
        let ghost mut words: Seq<u32> = Seq::empty();
        assert(out@ =~= old(out)@ + sample_bytes(words));
        for i in 0..count
            invariant
                count == frame.samples@.len(),
                forall|sample: S| #[trigger] bits.requires((sample,)),
                words.len() == i,
                forall|k: int| 0 <= k < i ==> bits.ensures((frame.samples@[k],), #[trigger] words[k]),
                out@ == old(out)@ + sample_bytes(words),
        {
            let word: u32 = bits(frame.samples[i]);
            push_le32(out, word);
            proof {
                let longer = words.push(word);
                assert(longer.drop_last() =~= words);
                assert(out@ =~= old(out)@ + sample_bytes(longer));
                words = longer;
            }
        }
        assert(may_have_bits(bits, frame.samples@, words));
        self.data_bytes = new_size;
        Ok(())
    }

    /// Whether [`WavWriter::finish`] can state this file's sizes and rates.
    pub fn can_finish(&self) -> (r: bool)
        ensures
            r == header_fits(self.format(), self.data_bytes()),
    {
        if self.format.channels > 16_383 || self.data_bytes > u32::MAX - 36 {
            return false;
        }
        let block_align: u64 = self.format.channels as u64 * 4;
        assert(self.format.sample_rate * block_align <= u32::MAX * 65_532) by (nonlinear_arith)
            requires
                self.format.sample_rate <= u32::MAX,
                0 <= block_align <= 65_532,
        ;
        self.format.sample_rate as u64 * block_align <= u32::MAX as u64
    }

    /// Ends the file: returns the header, which belongs at its start.
    pub fn finish(self) -> (header: Vec<u8>)
        requires
            header_fits(self.format(), self.data_bytes()),
        ensures
            header@ == wav_header(self.format(), self.data_bytes()),
    {
        self.header()
    }

    /// The header of the file so far.
    pub(crate) fn header(&self) -> (header: Vec<u8>)
        requires
            header_fits(self.format(), self.data_bytes()),
        ensures
            header@ == wav_header(self.format(), self.data_bytes()),
    {
        let block_align: u16 = self.format.channels * 4;
        let byte_rate: u32 = self.format.sample_rate * block_align as u32;
        let mut header: Vec<u8> = Vec::new();
        push_tag(&mut header, 82, 73, 70, 70);
        push_le32(&mut header, 36 + self.data_bytes);
        push_tag(&mut header, 87, 65, 86, 69);
        push_tag(&mut header, 102, 109, 116, 32);
        push_le32(&mut header, 16);
        push_le16(&mut header, 3);
        push_le16(&mut header, self.format.channels);
        push_le32(&mut header, self.format.sample_rate);
        push_le32(&mut header, byte_rate);
        push_le16(&mut header, block_align);
        push_le16(&mut header, 32);
        push_tag(&mut header, 100, 97, 116, 97);
        push_le32(&mut header, self.data_bytes);
        assert(header@ =~= wav_header(self.format(), self.data_bytes()));
        header
    }
}

/// Why a frame is refused, if it is.
pub open spec fn frame_refusal<S>(
    format: AudioFormat,
    data_bytes: nat,
    frame: AudioFrame<S>,
) -> Option<Seq<char>> {
    if frame.format != format {
        Some("audio format changed during WAV output"@)
    } else if 4 * frame.samples@.len() > usize::MAX {
        Some("audio packet is too large for WAV"@)
    } else if data_bytes + 4 * frame.samples@.len() > u32::MAX {
        Some("WAV exceeds 4 GiB"@)
    } else {
        None
    }
}

/// Whether `bits` may have given these words for these samples.
pub open spec fn may_have_bits<S, B: Fn(S) -> u32>(
    bits: B,
    samples: Seq<S>,
    words: Seq<u32>,
) -> bool {
    &&& words.len() == samples.len()
    &&& forall|i: int| 0 <= i < words.len() ==> bits.ensures((samples[i],), #[trigger] words[i])
}

/// The number that four little-endian bytes write.
pub open spec fn le32_value(bytes: Seq<u8>) -> nat {
    (bytes[0] + 256 * bytes[1] + 65_536 * bytes[2] + 16_777_216 * bytes[3]) as nat
}

/// The number that two little-endian bytes write.
pub open spec fn le16_value(bytes: Seq<u8>) -> nat {
    (bytes[0] + 256 * bytes[1]) as nat
}

proof fn lemma_le32_reads_back(value: u32)
    ensures
        le32_value(le32(value as nat)) == value,
        le32(value as nat).len() == 4,
{
}

proof fn lemma_le16_reads_back(value: u16)
    ensures
        le16_value(le16(value as nat)) == value,
{
}

proof fn lemma_field_of_header(header: Seq<u8>, data: Seq<u8>, from: int, to: int)
    requires
        0 <= from <= to <= header.len(),
    ensures
        (header + data).subrange(from, to) == header.subrange(from, to),
{
    assert((header + data).subrange(from, to) =~= header.subrange(from, to));
}

proof fn lemma_sample_bytes(words: Seq<u32>, i: int)
    requires
        0 <= i < words.len(),
    ensures
        sample_bytes(words).len() == 4 * words.len(),
        sample_bytes(words).subrange(4 * i, 4 * i + 4) == le32(words[i] as nat),
    decreases words.len(),
{
    let front = words.drop_last();
    assert(front.len() == 0 ==> sample_bytes(front) == Seq::<u8>::empty());
    if front.len() > 0 {
        lemma_sample_bytes(front, if i < front.len() { i } else { 0 });
    }
    if i < front.len() {
        assert(front[i] == words[i]);
        assert(sample_bytes(words).subrange(4 * i, 4 * i + 4) =~= sample_bytes(front).subrange(
            4 * i,
            4 * i + 4,
        ));
    } else {
        assert(sample_bytes(words).subrange(4 * i, 4 * i + 4) =~= le32(words[i] as nat));
    }
}

/// A WAV file loses nothing: the bits of every sample can be read back from its
/// place behind the header.
pub proof fn law_samples_read_back(format: AudioFormat, words: Seq<u32>, i: int)
    requires
        0 <= i < words.len(),
    ensures
        wav_file(format, words).len() == 44 + 4 * words.len(),
        le32_value(wav_file(format, words).subrange(44 + 4 * i, 48 + 4 * i)) == words[i],
{
    lemma_sample_bytes(words, i);
    lemma_le32_reads_back(words[i]);
    assert(wav_file(format, words).subrange(44 + 4 * i, 48 + 4 * i) =~= sample_bytes(
        words,
    ).subrange(4 * i, 4 * i + 4));
}

/// What the header says of the file is so: its size, the size of its data, its
/// channels, its rate, and that it holds 32-bit floating-point samples.
pub proof fn law_header_describes_the_file(format: AudioFormat, words: Seq<u32>)
    requires
        header_fits(format, 4 * words.len()),
    ensures
        ({
            let file = wav_file(format, words);
            &&& le32_value(file.subrange(4, 8)) == file.len() - 8
            &&& le32_value(file.subrange(40, 44)) == file.len() - 44
            &&& le16_value(file.subrange(20, 22)) == 3
            &&& le16_value(file.subrange(22, 24)) == format.channels
            &&& le32_value(file.subrange(24, 28)) == format.sample_rate
            &&& le32_value(file.subrange(28, 32)) == format.sample_rate * (format.channels * 4)
            &&& le16_value(file.subrange(32, 34)) == format.channels * 4
            &&& le16_value(file.subrange(34, 36)) == 32
        }),
{
    let data_bytes = 4 * words.len();
    assert(sample_bytes(words).len() == data_bytes) by {
        if words.len() > 0 {
            lemma_sample_bytes(words, 0);
        }
    }
    lemma_header_fields(format, data_bytes);
    lemma_fields_read_back(
        wav_header(format, data_bytes),
        sample_bytes(words),
        format,
        data_bytes,
    );
}

/// Reads the fields of a header back from the file it starts.
proof fn lemma_fields_read_back(
    header: Seq<u8>,
    data: Seq<u8>,
    format: AudioFormat,
    data_bytes: nat,
)
    requires
        header_fits(format, data_bytes),
        data.len() == data_bytes,
        header.len() == 44,
        header.subrange(4, 8) == le32(36 + data_bytes),
        header.subrange(20, 22) == le16(3),
        header.subrange(22, 24) == le16(format.channels as nat),
        header.subrange(24, 28) == le32(format.sample_rate as nat),
        header.subrange(28, 32) == le32(format.sample_rate as nat * (format.channels as nat * 4)),
        header.subrange(32, 34) == le16(format.channels as nat * 4),
        header.subrange(34, 36) == le16(32),
        header.subrange(40, 44) == le32(data_bytes),
    ensures
        ({
            let file = header + data;
            &&& le32_value(file.subrange(4, 8)) == file.len() - 8
            &&& le32_value(file.subrange(40, 44)) == file.len() - 44
            &&& le16_value(file.subrange(20, 22)) == 3
            &&& le16_value(file.subrange(22, 24)) == format.channels
            &&& le32_value(file.subrange(24, 28)) == format.sample_rate
            &&& le32_value(file.subrange(28, 32)) == format.sample_rate * (format.channels * 4)
            &&& le16_value(file.subrange(32, 34)) == format.channels * 4
            &&& le16_value(file.subrange(34, 36)) == 32
        }),
{
    let block_align = format.channels as nat * 4;
    let byte_rate = format.sample_rate as nat * block_align;
    lemma_le16_reads_back(3);
    lemma_le16_reads_back(32);
    lemma_le16_reads_back(format.channels);
    lemma_le16_reads_back(block_align as u16);
    lemma_le32_reads_back((36 + data_bytes) as u32);
    lemma_le32_reads_back(data_bytes as u32);
    lemma_le32_reads_back(format.sample_rate);
    lemma_le32_reads_back(byte_rate as u32);
    lemma_field_of_header(header, data, 4, 8);
    lemma_field_of_header(header, data, 20, 22);
    lemma_field_of_header(header, data, 22, 24);
    lemma_field_of_header(header, data, 24, 28);
    lemma_field_of_header(header, data, 28, 32);
    lemma_field_of_header(header, data, 32, 34);
    lemma_field_of_header(header, data, 34, 36);
    lemma_field_of_header(header, data, 40, 44);
}

/// Where the fields of the header lie.
proof fn lemma_header_fields(format: AudioFormat, data_bytes: nat)
    ensures
        ({
            let header = wav_header(format, data_bytes);
            let block_align = format.channels as nat * 4;
            &&& header.len() == 44
            &&& header.subrange(4, 8) == le32(36 + data_bytes)
            &&& header.subrange(20, 22) == le16(3)
            &&& header.subrange(22, 24) == le16(format.channels as nat)
            &&& header.subrange(24, 28) == le32(format.sample_rate as nat)
            &&& header.subrange(28, 32) == le32(format.sample_rate as nat * block_align)
            &&& header.subrange(32, 34) == le16(block_align)
            &&& header.subrange(34, 36) == le16(32)
            &&& header.subrange(40, 44) == le32(data_bytes)
        }),
{
    let block_align = format.channels as nat * 4;
    let byte_rate = format.sample_rate as nat * block_align;
    lemma_fields_lie_in_order(
        seq![82u8, 73, 70, 70],
        le32(36 + data_bytes),
        seq![87u8, 65, 86, 69, 102, 109, 116, 32],
        le32(16),
        le16(3),
        le16(format.channels as nat),
        le32(format.sample_rate as nat),
        le32(byte_rate),
        le16(block_align),
        le16(32),
        seq![100u8, 97, 116, 97],
        le32(data_bytes),
    );
}

#[verifier::rlimit(50)]
proof fn lemma_fields_lie_in_order(
    a: Seq<u8>,
    b: Seq<u8>,
    c: Seq<u8>,
    d: Seq<u8>,
    e: Seq<u8>,
    f: Seq<u8>,
    g: Seq<u8>,
    h: Seq<u8>,
    i: Seq<u8>,
    j: Seq<u8>,
    k: Seq<u8>,
    l: Seq<u8>,
)
    requires
        a.len() == 4,
        b.len() == 4,
        c.len() == 8,
        d.len() == 4,
        e.len() == 2,
        f.len() == 2,
        g.len() == 4,
        h.len() == 4,
        i.len() == 2,
        j.len() == 2,
        k.len() == 4,
        l.len() == 4,
    ensures
        ({
            let all = a + b + c + d + e + f + g + h + i + j + k + l;
            &&& all.len() == 44
            &&& all.subrange(4, 8) == b
            &&& all.subrange(20, 22) == e
            &&& all.subrange(22, 24) == f
            &&& all.subrange(24, 28) == g
            &&& all.subrange(28, 32) == h
            &&& all.subrange(32, 34) == i
            &&& all.subrange(34, 36) == j
            &&& all.subrange(40, 44) == l
        }),
{
    let all = a + b + c + d + e + f + g + h + i + j + k + l;
    assert(all.subrange(4, 8) =~= b);
    assert(all.subrange(20, 22) =~= e);
    assert(all.subrange(22, 24) =~= f);
    assert(all.subrange(24, 28) =~= g);
    assert(all.subrange(28, 32) =~= h);
    assert(all.subrange(32, 34) =~= i);
    assert(all.subrange(34, 36) =~= j);
    assert(all.subrange(40, 44) =~= l);
}

/// Frames written one after the other make one file: the header, which counts
/// the bytes of both, and then the bytes of each, are the file that holds the
/// samples of both together.
pub proof fn law_frames_append(format: AudioFormat, a: Seq<u32>, b: Seq<u32>)
    ensures
        sample_bytes(a + b) == sample_bytes(a) + sample_bytes(b),
        wav_header(format, 4 * a.len() + 4 * b.len()) + (sample_bytes(a) + sample_bytes(b))
            == wav_file(format, a + b),
    decreases b.len(),
{
    if b.len() == 0 {
        assert(a + b =~= a);
        assert(sample_bytes(a) + sample_bytes(b) =~= sample_bytes(a));
    } else {
        law_frames_append(format, a, b.drop_last());
        assert((a + b).drop_last() =~= a + b.drop_last());
        assert(sample_bytes(a + b) =~= sample_bytes(a) + sample_bytes(b));
    }
}

/// A header byte by byte: the tags, the sizes that count the data, the kind of
/// samples, and the numbers of the format, each little-endian in its place.
pub proof fn law_a_header_says_the_format(format: AudioFormat, data_bytes: nat)
    requires
        header_fits(format, data_bytes),
    ensures
        ({
            let h = wav_header(format, data_bytes);
            &&& h.len() == 44
            &&& h.subrange(0, 4) == seq![82u8, 73, 70, 70]
            &&& h[4] + 256 * h[5] + 65_536 * h[6] + 16_777_216 * h[7] == 36 + data_bytes
            &&& h.subrange(8, 16) == seq![87u8, 65, 86, 69, 102, 109, 116, 32]
            &&& h.subrange(16, 22) == seq![16u8, 0, 0, 0, 3, 0]
            &&& h[22] + 256 * h[23] == format.channels
            &&& h[24] + 256 * h[25] + 65_536 * h[26] + 16_777_216 * h[27] == format.sample_rate
            &&& h[28] + 256 * h[29] + 65_536 * h[30] + 16_777_216 * h[31] == format.sample_rate * (
            format.channels * 4)
            &&& h[32] + 256 * h[33] == format.channels * 4
            &&& h.subrange(34, 40) == seq![32u8, 0, 100, 97, 116, 97]
            &&& h[40] + 256 * h[41] + 65_536 * h[42] + 16_777_216 * h[43] == data_bytes
        }),
{
    let h = wav_header(format, data_bytes);
    let align = format.channels as nat * 4;
    let rate = format.sample_rate as nat * align;
    let b = le32(36 + data_bytes);
    let f = le16(format.channels as nat);
    let g = le32(format.sample_rate as nat);
    let i = le32(rate);
    let j = le16(align);
    let l = le32(data_bytes);
    assert(le32(16) =~= seq![16u8, 0, 0, 0]);
    assert(le16(3) =~= seq![3u8, 0]);
    assert(le16(32) =~= seq![32u8, 0]);
    lemma_bytes_of_a_header(b, f, g, i, j, l);
    lemma_le32_reads_back((36 + data_bytes) as u32);
    lemma_le32_reads_back(data_bytes as u32);
    lemma_le32_reads_back(format.sample_rate);
    lemma_le32_reads_back(rate as u32);
    lemma_le16_reads_back(format.channels);
    lemma_le16_reads_back(align as u16);
}

#[verifier::rlimit(50)]
proof fn lemma_bytes_of_a_header(
    b: Seq<u8>,
    f: Seq<u8>,
    g: Seq<u8>,
    i: Seq<u8>,
    j: Seq<u8>,
    l: Seq<u8>,
)
    requires
        b.len() == 4,
        f.len() == 2,
        g.len() == 4,
        i.len() == 4,
        j.len() == 2,
        l.len() == 4,
    ensures
        ({
            let h = seq![82u8, 73, 70, 70] + b + seq![87u8, 65, 86, 69, 102, 109, 116, 32]
                + seq![16u8, 0, 0, 0] + seq![3u8, 0] + f + g + i + j + seq![32u8, 0] + seq![
                100u8,
                97,
                116,
                97,
            ] + l;
            &&& h.len() == 44
            &&& h.subrange(0, 4) == seq![82u8, 73, 70, 70]
            &&& h[4] == b[0] && h[5] == b[1] && h[6] == b[2] && h[7] == b[3]
            &&& h.subrange(8, 16) == seq![87u8, 65, 86, 69, 102, 109, 116, 32]
            &&& h.subrange(16, 22) == seq![16u8, 0, 0, 0, 3, 0]
            &&& h[22] == f[0] && h[23] == f[1]
            &&& h[24] == g[0] && h[25] == g[1] && h[26] == g[2] && h[27] == g[3]
            &&& h[28] == i[0] && h[29] == i[1] && h[30] == i[2] && h[31] == i[3]
            &&& h[32] == j[0] && h[33] == j[1]
            &&& h.subrange(34, 40) == seq![32u8, 0, 100, 97, 116, 97]
            &&& h[40] == l[0] && h[41] == l[1] && h[42] == l[2] && h[43] == l[3]
        }),
{
    let h = seq![82u8, 73, 70, 70] + b + seq![87u8, 65, 86, 69, 102, 109, 116, 32] + seq![
        16u8,
        0,
        0,
        0,
    ] + seq![3u8, 0] + f + g + i + j + seq![32u8, 0] + seq![100u8, 97, 116, 97] + l;
    assert(h.subrange(0, 4) =~= seq![82u8, 73, 70, 70]);
    assert(h.subrange(8, 16) =~= seq![87u8, 65, 86, 69, 102, 109, 116, 32]);
    assert(h.subrange(16, 22) =~= seq![16u8, 0, 0, 0, 3, 0]);
    assert(h.subrange(34, 40) =~= seq![32u8, 0, 100, 97, 116, 97]);
}

/// The bytes of samples: four for each, in order, which write its 32 bits with
/// the lowest byte first.
pub proof fn law_samples_are_written_bit_for_bit(words: Seq<u32>, i: int)
    ensures
        sample_bytes(words).len() == 4 * words.len(),
        0 <= i < words.len() ==> sample_bytes(words)[4 * i] + 256 * sample_bytes(words)[4 * i + 1]
            + 65_536 * sample_bytes(words)[4 * i + 2] + 16_777_216 * sample_bytes(words)[4 * i + 3]
            == words[i],
{
    if words.len() > 0 {
        lemma_sample_bytes(words, 0);
    }
    if 0 <= i < words.len() {
        lemma_sample_bytes(words, i);
        lemma_le32_reads_back(words[i]);
        let bytes = sample_bytes(words).subrange(4 * i, 4 * i + 4);
        assert(bytes[0] == sample_bytes(words)[4 * i]);
        assert(bytes[1] == sample_bytes(words)[4 * i + 1]);
        assert(bytes[2] == sample_bytes(words)[4 * i + 2]);
        assert(bytes[3] == sample_bytes(words)[4 * i + 3]);
    }
}

/// The words that are written are what the function handed in gives for the
/// samples: one for each, in order.
pub proof fn law_every_sample_has_its_bits<S, B: Fn(S) -> u32>(
    bits: B,
    samples: Seq<S>,
    words: Seq<u32>,
    i: int,
)
    requires
        may_have_bits(bits, samples, words),
    ensures
        words.len() == samples.len(),
        0 <= i < samples.len() ==> bits.ensures((samples[i],), words[i]),
{
}

/// A frame is taken where its format is that of the file and the data stay below
/// four gigabytes. A header can be written where its numbers fit in their bytes.
pub proof fn law_what_a_file_can_hold<S>(
    format: AudioFormat,
    data_bytes: nat,
    frame: AudioFrame<S>,
)
    ensures
        ({
            let refusal = frame_refusal(format, data_bytes, frame);
            let size = 4 * frame.samples@.len();
            &&& refusal is None <==> frame.format == format && size <= usize::MAX && data_bytes
                + size < 4_294_967_296
            &&& frame.format != format ==> refusal == Some(
                "audio format changed during WAV output"@,
            )
            &&& frame.format == format && size > usize::MAX ==> refusal == Some(
                "audio packet is too large for WAV"@,
            )
            &&& frame.format == format && size <= usize::MAX && data_bytes + size >= 4_294_967_296
                ==> refusal == Some("WAV exceeds 4 GiB"@)
        }),
        header_fits(format, data_bytes) <==> format.channels <= 16_383 && format.sample_rate * (
        format.channels * 4) < 4_294_967_296 && data_bytes <= 4_294_967_259,
{
}

} // verus!
