//! The capture worker's computation: from the snapshot of a screen and the
//! place of a click to a finished action.

use crate::action_log::{outcome_view, Action, ActionView};
use crate::codec::{decoded_image, load_rgba8, png_encoded, write_png};
use crate::dispatcher::CaptureRequest;
use crate::error::CaptureFailed;
use crate::frame::{annotated, is_annotated, lemma_annotated, FrameView, Marker, PixelBuffer};
use vstd::prelude::*;

verus! {

/// Where the marker's centre lies on the frame of the request's screen: the
/// pointer's position, counted from the screen's origin.
pub open spec fn spec_marker_center(request: CaptureRequest) -> (int, int) {
    (request.pointer.x - request.screen.x, request.pointer.y - request.screen.y)
}

/// The marker's centre in the coordinates of the captured frame.
pub fn marker_center(request: CaptureRequest) -> (center: (i64, i64))
    ensures
        center.0 == spec_marker_center(request).0,
        center.1 == spec_marker_center(request).1,
{
    (
        request.pointer.x as i64 - request.screen.x as i64,
        request.pointer.y as i64 - request.screen.y as i64,
    )
}

/// The frame that a snapshot decodes to: what the decoder makes of it, taken
/// as a frame where the bytes cover the dimensions.
pub open spec fn decoded_frame(snapshot: Seq<u8>) -> Option<FrameView> {
    match decoded_image(snapshot) {
        Some((width, height, bytes)) => frame_of(width, height, bytes),
        None => None,
    }
}

/// `bytes` as a frame of `width` by `height`, where they cover it.
pub open spec fn frame_of(width: u32, height: u32, bytes: Seq<u8>) -> Option<FrameView> {
    let frame = FrameView { width: width as nat, height: height as nat, bytes };
    if frame.well_formed() {
        Some(frame)
    } else {
        None
    }
}

/// The encoding of a frame in the format of the log, PNG.
pub open spec fn encoded_frame(frame: FrameView) -> Option<Seq<u8>> {
    png_encoded(frame.width as u32, frame.height as u32, frame.bytes)
}

/// The encoding of a frame where it is lossless: decoding it gives the frame
/// back, pixel for pixel. There is none where the encoder fails or where what
/// it wrote does not decode to the frame.
pub open spec fn lossless_encoding(frame: FrameView) -> Option<Seq<u8>> {
    match encoded_frame(frame) {
        Some(image) => if decoded_frame(image) == Some(frame) {
            Some(image)
        } else {
            None
        },
        None => None,
    }
}

/// The action that an annotated frame becomes: its lossless encoding, its
/// size, and no comment yet.
pub open spec fn action_of(frame: FrameView) -> Result<ActionView, CaptureFailed> {
    match lossless_encoding(frame) {
        Some(image) => Ok(
            ActionView {
                image,
                comment: Seq::empty(),
                size: (frame.width as u32, frame.height as u32),
            },
        ),
        None => Err(CaptureFailed::Encode),
    }
}

/// What a capture worker produces from the snapshot of the request's screen:
/// the snapshot is decoded, the marker is drawn at the place of the click, and
/// the frame is encoded again, without loss. Each step that fails gives its
/// own failure.
pub open spec fn capture_outcome(
    snapshot: Option<Seq<u8>>,
    request: CaptureRequest,
    marker: Marker,
) -> Result<ActionView, CaptureFailed> {
    match snapshot {
        None => Err(CaptureFailed::Unavailable),
        Some(encoded) => match decoded_frame(encoded) {
            None => Err(CaptureFailed::Decode),
            Some(before) => action_of(
                annotated(
                    before,
                    marker,
                    spec_marker_center(request).0,
                    spec_marker_center(request).1,
                ),
            ),
        },
    }
}

/// Takes decoded bytes as a frame of `width` by `height`. Bytes that do not
/// cover the frame are a decoding failure.
pub fn frame_from_parts(width: u32, height: u32, bytes: Vec<u8>) -> (frame: Result<
    PixelBuffer,
    CaptureFailed,
>)
    ensures
        match frame {
            Ok(f) => f.wf() && frame_of(width, height, bytes@) == Some(f@),
            Err(failure) => failure == CaptureFailed::Decode && frame_of(width, height, bytes@)
                is None,
        },
{
    match PixelBuffer::from_raw(width, height, bytes) {
        Some(frame) => Ok(frame),
        None => Err(CaptureFailed::Decode),
    }
}

/// Decodes the snapshot of a screen into a frame of RGBA pixels.
pub fn decode_snapshot(snapshot: &[u8]) -> (frame: Result<PixelBuffer, CaptureFailed>)
    ensures
        match frame {
            Ok(f) => f.wf() && decoded_frame(snapshot@) == Some(f@),
            Err(failure) => failure == CaptureFailed::Decode && decoded_frame(snapshot@) is None,
        },
{
    match load_rgba8(snapshot) {
        Ok(parts) => frame_from_parts(parts.0, parts.1, parts.2),
        Err(_) => Err(CaptureFailed::Decode),
    }
}

/// Encodes a frame in the format of the log.
pub fn encode_frame(frame: &PixelBuffer) -> (encoded: Result<Vec<u8>, CaptureFailed>)
    requires
        frame.wf(),
    ensures
        match encoded {
            Ok(image) => encoded_frame(frame@) == Some(image@),
            Err(failure) => failure == CaptureFailed::Encode && encoded_frame(frame@) is None,
        },
{
    match write_png(frame.width(), frame.height(), frame.as_bytes()) {
        Ok(image) => Ok(image),
        Err(_) => Err(CaptureFailed::Encode),
    }
}

/// Encodes a frame in the format of the log and makes sure that nothing was
/// lost: what was written is decoded again and held against the frame. An
/// encoding that does not give the frame back is an encoding failure.
pub fn encode_lossless(frame: &PixelBuffer) -> (encoded: Result<Vec<u8>, CaptureFailed>)
    requires
        frame.wf(),
    ensures
        match encoded {
            Ok(image) => lossless_encoding(frame@) == Some(image@) && decoded_frame(image@)
                == Some(frame@),
            Err(failure) => failure == CaptureFailed::Encode && lossless_encoding(frame@)
                is None,
        },
{
    let image = match encode_frame(frame) {
        Ok(image) => image,
        Err(failure) => {
            return Err(failure);
        },
    };
    match decode_snapshot(image.as_slice()) {
        Ok(back) => {
            if back.same_as(frame) {
                Ok(image)
            } else {
                Err(CaptureFailed::Encode)
            }
        },
        Err(_) => Err(CaptureFailed::Encode),
    }
}

/// Makes the action of an annotated frame. The image of the action decodes
/// to the frame, pixel for pixel.
pub fn finish_action(frame: &PixelBuffer) -> (outcome: Result<Action, CaptureFailed>)
    requires
        frame.wf(),
    ensures
        outcome_view(outcome) == action_of(frame@),
        outcome matches Ok(action) ==> decoded_frame(action@.image) == Some(frame@),
{
    match encode_lossless(frame) {
        Ok(image) => Ok(Action::new(image, frame.width(), frame.height())),
        Err(failure) => Err(failure),
    }
}

/// The work of one capture worker after the grab: decodes `snapshot`, draws
/// `marker` where the request's click fell, encodes the frame and makes the
/// action. A snapshot that the capture source could not give is a failure of
/// its own, as is each step that fails.
pub fn complete_capture(
    snapshot: Option<Vec<u8>>,
    request: CaptureRequest,
    marker: Marker,
) -> (outcome: Result<Action, CaptureFailed>)
    ensures
        outcome_view(outcome) == capture_outcome(
            match snapshot {
                Some(encoded) => Some(encoded@),
                None => None,
            },
            request,
            marker,
        ),
        outcome matches Ok(action) ==> snapshot matches Some(encoded) && decoded_frame(encoded@)
            matches Some(before) && decoded_frame(action@.image) == Some(
            annotated(
                before,
                marker,
                spec_marker_center(request).0,
                spec_marker_center(request).1,
            ),
        ),
{
    let encoded = match snapshot {
        Some(encoded) => encoded,
        None => {
            return Err(CaptureFailed::Unavailable);
        },
    };
    let mut frame = match decode_snapshot(encoded.as_slice()) {
        Ok(frame) => frame,
        Err(failure) => {
            return Err(failure);
        },
    };
    let center = marker_center(request);
    frame.annotate(center.0, center.1, marker);
    finish_action(&frame)
}

/// What the log holds of a capture is the picture that was taken with the
/// marker on it, and nothing else: the image of the action decodes to a frame
/// of the size of the snapshot, in which the pixels that the marker covers are
/// the marker's colour blended over the snapshot's, and every other pixel is
/// the snapshot's.
pub proof fn lemma_logged_image_is_exact(
    snapshot: Seq<u8>,
    request: CaptureRequest,
    marker: Marker,
    action: ActionView,
)
    requires
        capture_outcome(Some(snapshot), request, marker) == Ok::<ActionView, CaptureFailed>(
            action,
        ),
    ensures
        decoded_frame(snapshot) is Some,
        decoded_frame(action.image) is Some,
        is_annotated(
            decoded_frame(action.image).unwrap(),
            decoded_frame(snapshot).unwrap(),
            marker,
            spec_marker_center(request).0,
            spec_marker_center(request).1,
        ),
        action.size == (
            decoded_frame(snapshot).unwrap().width as u32,
            decoded_frame(snapshot).unwrap().height as u32,
        ),
        action.comment == Seq::<char>::empty(),
{
    let before = decoded_frame(snapshot).unwrap();
    lemma_annotated(before, marker, spec_marker_center(request).0, spec_marker_center(request).1);
}

} // verus!
