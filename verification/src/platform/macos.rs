//! Core Audio: statuses, versions, formats and buffers.

use vstd::prelude::*;

use crate::capture::AudioFormat;
use crate::error;
use crate::error::{Error, ErrorView};
use crate::text;
use crate::text::{ascii_text, signed_decimal_text};

verus! {

/// The status that Core Audio answers a refused permission with: "nope".
const PERMISSION_STATUS: i32 = 0x6e6f_7065;

/// The flag of a format with floating-point samples.
const FORMAT_FLAG_IS_FLOAT: u32 = 1;

/// The first macOS with process taps is 14.2.
pub open spec fn is_supported_version(major: i64, minor: i64) -> bool {
    major > 14 || (major == 14 && minor >= 2)
}

/// Checks that this macOS has process taps.
pub fn ensure_supported_version(major: i64, minor: i64) -> (r: Result<(), Error>)
    ensures
        error::outcome(r) == if is_supported_version(major, minor) {
            Ok(())
        } else {
            Err(ErrorView::UnsupportedOsVersion)
        },
{
    if major > 14 || (major == 14 && minor >= 2) {
        Ok(())
    } else {
        Err(Error::UnsupportedOsVersion)
    }
}

/// The four bytes of a status, the highest first.
pub open spec fn status_bytes(status: i32) -> Seq<u8> {
    let bits = crate::platform::windows::status_bits(status);
    seq![
        (bits / 16_777_216 % 256) as u8,
        (bits / 65_536 % 256) as u8,
        (bits / 256 % 256) as u8,
        (bits % 256) as u8,
    ]
}

/// Whether a byte is a visible ASCII character.
pub open spec fn is_graphic(byte: u8) -> bool {
    33 <= byte <= 126
}

/// How a status is shown: as four characters where it is made of them, and as a
/// number otherwise.
pub open spec fn status_detail(status: i32) -> Seq<char> {
    let bytes = status_bytes(status);
    if forall|i: int| 0 <= i < 4 ==> is_graphic(#[trigger] bytes[i]) {
        seq!['\'', bytes[0] as char, bytes[1] as char, bytes[2] as char, bytes[3] as char, '\'']
    } else {
        text::signed_decimal(status as int)
    }
}

/// The error for a status that is no success.
pub open spec fn status_error(context: Seq<char>, status: i32) -> ErrorView {
    if status == 0x6e6f_7065 {
        ErrorView::PermissionDenied
    } else {
        ErrorView::Native(context + ": OSStatus "@ + status_detail(status))
    }
}

/// Shows a status.
fn status_detail_text(status: i32) -> (r: String)
    ensures
        r@ == status_detail(status),
{
    let bits: u32 = if status < 0 {
        (status as i64 + 4_294_967_296) as u32
    } else {
        status as u32
    };
    let mut bytes: Vec<u8> = Vec::new();
    bytes.push((bits / 16_777_216 % 256) as u8);
    bytes.push((bits / 65_536 % 256) as u8);
    bytes.push((bits / 256 % 256) as u8);
    bytes.push((bits % 256) as u8);
    assert(bytes@ =~= status_bytes(status));
    let mut graphic: bool = true;
    for i in 0..4usize
        invariant
            bytes@.len() == 4,
            graphic == forall|k: int| 0 <= k < i ==> is_graphic(#[trigger] bytes@[k]),
    {
        let byte: u8 = bytes[i];
        graphic = graphic && 33 <= byte && byte <= 126;
    }
    if graphic {
        let quoted = "'".to_owned().concat(ascii_text(bytes.as_slice()).as_str()).concat("'");
        proof {
            reveal_strlit("'");
            assert(quoted@ =~= status_detail(status));
        }
        quoted
    } else {
        signed_decimal_text(status)
    }
}

/// Makes an error of a status that is no success.
pub fn native_error(context: &str, status: i32) -> (error: Error)
    ensures
        error@ == status_error(context@, status),
{
    if status == PERMISSION_STATUS {
        return Error::PermissionDenied;
    }
    Error::Native(
        context.to_owned().concat(": OSStatus ").concat(status_detail_text(status).as_str()),
    )
}

/// Makes an error of a status, unless it is success.
pub fn check_status(context: &str, status: i32) -> (r: Result<(), Error>)
    ensures
        error::outcome(r) == if status == 0 {
            Ok(())
        } else {
            Err(status_error(context@, status))
        },
{
    if status == 0 {
        Ok(())
    } else {
        Err(native_error(context, status))
    }
}

/// Reads the answer to the question which audio object a PID has.
pub fn process_object(pid: u32, status: i32, object_id: u32) -> (r: Result<u32, Error>)
    ensures
        error::outcome(r) == if status != 0 {
            Err(status_error("translate PID to audio process"@, status))
        } else if object_id == 0 {
            Err(ErrorView::ProcessNotFound(pid))
        } else {
            Ok(object_id)
        },
{
    match check_status("translate PID to audio process", status) {
        Ok(_) => {},
        Err(error) => return Err(error),
    }
    if object_id == 0 {
        return Err(Error::ProcessNotFound(pid));
    }
    Ok(object_id)
}

/// The format that a tap announces; its sample rate comes rounded.
pub open spec fn announced_format(
    status: i32,
    format_flags: u32,
    sample_rate: u32,
    channels_per_frame: u32,
) -> Result<AudioFormat, ErrorView> {
    if status != 0 {
        Err(status_error("read process tap format"@, status))
    } else if format_flags % 2 == 0 {
        Err(ErrorView::Native("Core Audio process tap did not provide floating-point PCM"@))
    } else if sample_rate == 0 || channels_per_frame % 65_536 == 0 {
        Err(ErrorView::Native("Core Audio returned an invalid tap format"@))
    } else {
        Ok(AudioFormat { sample_rate, channels: (channels_per_frame % 65_536) as u16 })
    }
}

/// Reads the format that a tap announces. The lowest flag tells floating-point
/// samples; the sample rate comes rounded to a whole number.
pub fn tap_format(
    status: i32,
    format_flags: u32,
    sample_rate: u32,
    channels_per_frame: u32,
) -> (r: Result<AudioFormat, Error>)
    ensures
        error::outcome(r) == announced_format(
            status,
            format_flags,
            sample_rate,
            channels_per_frame,
        ),
{
    match check_status("read process tap format", status) {
        Ok(_) => {},
        Err(error) => return Err(error),
    }
    if format_flags / FORMAT_FLAG_IS_FLOAT % 2 == 0 {
        return Err(
            Error::Native("Core Audio process tap did not provide floating-point PCM".to_owned()),
        );
    }
    let channels: u16 = (channels_per_frame % 65_536) as u16;
    if sample_rate == 0 || channels == 0 {
        return Err(Error::Native("Core Audio returned an invalid tap format".to_owned()));
    }
    Ok(AudioFormat { sample_rate, channels })
}

/// The length of the shortest of some buffers; a missing one counts as empty.
pub open spec fn shortest<T>(buffers: Seq<Option<&[T]>>) -> nat
    decreases buffers.len(),
{
    if buffers.len() == 0 {
        0
    } else {
        let last = match buffers.last() {
            Some(samples) => samples@.len(),
            None => 0,
        };
        if buffers.len() == 1 || last < shortest(buffers.drop_last()) {
            last
        } else {
            shortest(buffers.drop_last())
        }
    }
}

/// The samples of one buffer per channel, interleaved: the first sample of each
/// channel, then the second of each, as far as all of them go. One buffer alone
/// holds interleaved samples already. Nothing where a buffer is missing.
pub open spec fn interleaved<T>(buffers: Seq<Option<&[T]>>) -> Seq<T> {
    if buffers.len() == 1 && buffers[0] is Some {
        buffers[0]->0@
    } else {
        Seq::new(
            shortest(buffers) * buffers.len(),
            |i: int| buffers[i % buffers.len() as int]->0@[i / buffers.len() as int],
        )
    }
}

proof fn lemma_shortest<T>(buffers: Seq<Option<&[T]>>, i: int)
    requires
        0 <= i < buffers.len(),
    ensures
        buffers[i] matches Some(samples) ==> shortest(buffers) <= samples@.len(),
        buffers[i] is None ==> shortest(buffers) == 0,
    decreases buffers.len(),
{
    if i < buffers.len() - 1 {
        lemma_shortest(buffers.drop_last(), i);
    }
}

/// Finds the length of the shortest buffer.
fn shortest_length<T>(buffers: &[Option<&[T]>]) -> (r: usize)
    ensures
        r == shortest(buffers@),
{
    let count: usize = buffers.len();
    let mut r: usize = 0;
    for i in 0..count
        invariant
            count == buffers@.len(),
            r == shortest(buffers@.take(i as int)),
    {
        let length: usize = match buffers[i] {
            Some(samples) => samples.len(),
            None => 0,
        };
        proof {
            assert(buffers@.take(i + 1).drop_last() =~= buffers@.take(i as int));
            assert(buffers@.take(i + 1).last() == buffers@[i as int]);
        }
        if i == 0 || length < r {
            r = length;
        }
    }
    assert(buffers@.take(count as int) =~= buffers@);
    r
}

/// Whether there is nothing to copy out of some buffers: none of them, one that
/// is missing, or, of several, one that is empty.
pub open spec fn is_nothing<T>(buffers: Seq<Option<&[T]>>) -> bool {
    &&& shortest(buffers) == 0
    &&& !(buffers.len() == 1 && buffers[0] is Some)
}

/// Copies the buffers of an audio callback into `scratch`, interleaved, and
/// returns how many samples that are. Where there is nothing to copy, `scratch`
/// stays as it is.
pub fn copy_buffer_list<T: Copy>(buffers: &[Option<&[T]>], scratch: &mut Vec<T>) -> (count: usize)
    ensures
        count == interleaved(buffers@).len(),
        final(scratch)@ == if is_nothing(buffers@) {
            old(scratch)@
        } else {
            interleaved(buffers@)
        },
        count > 0 ==> final(scratch)@ == interleaved(buffers@),
        buffers@.len() == 0 || (exists|i: int|
            0 <= i < buffers@.len() && (#[trigger] buffers@[i]) is None) ==> final(scratch)@ == old(
            scratch,
        )@,
{
    let channels: usize = buffers.len();
    if channels == 1 {
        if let Some(samples) = buffers[0] {
            scratch.clear();
            let count: usize = samples.len();
            for i in 0..count
                invariant
                    count == samples@.len(),
                    scratch@ == samples@.take(i as int),
            {
                scratch.push(samples[i]);
                assert(scratch@ =~= samples@.take(i + 1));
            }
            assert(scratch@ =~= samples@);
            return count;
        }
    }
    let frames: usize = shortest_length(buffers);
    let ghost all = interleaved(buffers@);
    proof {
        assert forall|i: int| 0 <= i < channels && frames > 0 implies (
        #[trigger] buffers@[i]) is Some && frames <= buffers@[i]->0@.len() by {
            lemma_shortest(buffers@, i);
        }
        assert forall|i: int| 0 <= i < channels && (#[trigger] buffers@[i]) is None implies frames
            == 0 by {
            lemma_shortest(buffers@, i);
        }
        assert(0 * channels == 0) by (nonlinear_arith);
        assert(frames == 0 || channels == 0 ==> frames * channels == 0) by (nonlinear_arith);
        assert(frames > 0 ==> frames * channels > 0) by (nonlinear_arith)
            requires
                channels > 0 || frames == 0,
        ;
    }
    if frames == 0 {
        return 0;
    }
    scratch.clear();
    for frame in 0..frames
        invariant
            channels == buffers@.len(),
            channels > 0 || frames == 0,
            frames == shortest(buffers@),
            forall|i: int|
                0 <= i < channels && frames > 0 ==> (#[trigger] buffers@[i]) is Some && frames
                    <= buffers@[i]->0@.len(),
            scratch@.len() == frame * channels,
            forall|k: int|
                0 <= k < scratch@.len() ==> #[trigger] scratch@[k] == buffers@[k
                    % channels as int]->0@[k / channels as int],
    {
        for channel in 0..channels
            invariant
                channels == buffers@.len(),
                channels > 0,
                frame < frames,
                forall|i: int|
                    0 <= i < channels ==> (#[trigger] buffers@[i]) is Some && frames
                        <= buffers@[i]->0@.len(),
                scratch@.len() == frame * channels + channel,
                forall|k: int|
                    0 <= k < scratch@.len() ==> #[trigger] scratch@[k] == buffers@[k
                        % channels as int]->0@[k / channels as int],
        {
            assert(buffers@[channel as int] is Some);
            if let Some(samples) = buffers[channel] {
                proof {
                    vstd::arithmetic::div_mod::lemma_fundamental_div_mod_converse(
                        frame * channels + channel,
                        channels as int,
                        frame as int,
                        channel as int,
                    );
                }
                scratch.push(samples[frame]);
            }
        }
        assert(frame * channels + channels == (frame + 1) * channels) by (nonlinear_arith);
    }
    assert(scratch@ =~= all);
    scratch.len()
}

/// Interleaving keeps every sample that all channels have, in its place: the
/// sample of a channel at a frame stands behind those of the earlier frames and
/// of the earlier channels.
pub proof fn law_samples_stand_in_frame_order<T>(
    buffers: Seq<Option<&[T]>>,
    frame: int,
    channel: int,
)
    requires
        buffers.len() > 1,
        0 <= frame < shortest(buffers),
        0 <= channel < buffers.len(),
    ensures
        interleaved(buffers).len() == shortest(buffers) * buffers.len(),
        0 <= frame * buffers.len() + channel < interleaved(buffers).len(),
        buffers[channel] matches Some(samples) && frame < samples@.len() && interleaved(
            buffers,
        )[frame * buffers.len() + channel] == samples@[frame],
{
    let channels = buffers.len() as int;
    lemma_shortest(buffers, channel);
    vstd::arithmetic::div_mod::lemma_fundamental_div_mod_converse(
        frame * channels + channel,
        channels,
        frame,
        channel,
    );
    assert(0 <= frame * channels + channel < shortest(buffers) * channels) by (nonlinear_arith)
        requires
            0 <= frame < shortest(buffers),
            0 <= channel < channels,
    ;
}

} // verus!
