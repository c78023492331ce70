//! Kitty graphics protocol parsing.

use base64::Engine as _;
use vstd::prelude::*;
use vstd::slice::slice_subrange;
use vstd::utf8::*;

use crate::images::{decode_png, picture_decoded, Picture, PictureFormat, Pixels};
use crate::inline::{KittyInlineObject, RasterObject};
use crate::numbers::{parse_u32, u32_of};

verus! {

/// Kitty graphics APC prefix.
pub const KITTY_APC_START: [u8; 3] = [0x1b, 0x5f, 0x47];

/// Seven-bit string terminator.
const ST: [u8; 2] = [0x1b, 0x5c];

/// Eight-bit string terminator.
const C1_ST: u8 = 0x9c;

/// Format code of PNG payloads, which is also the default.
const FORMAT_PNG: u32 = 100;

/// Format code of raw RGB payloads.
const FORMAT_RGB: u32 = 24;

/// Format code of raw RGBA payloads.
const FORMAT_RGBA: u32 = 32;

/// What standard padded base64 text decodes to.
pub uninterp spec fn base64_decoded(text: Seq<u8>) -> Option<Seq<u8>>;

/// Width, height and RGBA bytes that a PNG file decodes to.
pub open spec fn png_decoded(file: Seq<u8>) -> Option<Pixels> {
    picture_decoded(file, PictureFormat::Png)
}

/// `base64::engine::general_purpose::STANDARD.decode` either decodes the whole
/// text or refuses it.
#[verifier::external_body]
fn decode_base64(text: &[u8]) -> (bytes: Option<Vec<u8>>)
    ensures
        bytes is Some <==> base64_decoded(text@) is Some,
        bytes is Some ==> Some(bytes->0@) == base64_decoded(text@),
{
    base64::engine::general_purpose::STANDARD.decode(text).ok()
}

/// `std::str::from_utf8` succeeds exactly on valid UTF-8.
#[verifier::external_body]
fn is_utf8(bytes: &[u8]) -> (valid: bool)
    ensures
        valid == valid_utf8(bytes@),
{
    std::str::from_utf8(bytes).is_ok()
}

/// Decoded Kitty image payload.
pub struct KittyImage {
    /// Image width in pixels.
    pub width: u32,
    /// Image height in pixels.
    pub height: u32,
    /// RGBA image bytes.
    pub rgba: Vec<u8>,
    /// Indicates placeholder mode.
    pub uses_placeholders: bool,
}

/// The contents of a decoded image.
#[verifier::ext_equal]
pub struct ImageContents {
    /// Image width in pixels.
    pub width: u32,
    /// Image height in pixels.
    pub height: u32,
    /// RGBA image bytes.
    pub rgba: Seq<u8>,
    /// Indicates placeholder mode.
    pub uses_placeholders: bool,
}

impl ImageContents {
    /// Whether the image has four bytes for each of its pixels.
    pub open spec fn is_complete(self) -> bool {
        self.rgba.len() == self.width * self.height * 4
    }
}

impl View for KittyImage {
    type V = ImageContents;

    open spec fn view(&self) -> ImageContents {
        ImageContents {
            width: self.width,
            height: self.height,
            rgba: self.rgba@,
            uses_placeholders: self.uses_placeholders,
        }
    }
}

impl Default for KittyImage {
    fn default() -> (image: Self)
        ensures
            image@ == (ImageContents {
                width: 0,
                height: 0,
                rgba: Seq::empty(),
                uses_placeholders: false,
            }),
    {
        KittyImage { width: 0, height: 0, rgba: Vec::new(), uses_placeholders: false }
    }
}

impl<H, P> KittyInlineObject<H, P> {
    /// The image that an inline object shows.
    pub open spec fn shown(&self) -> ImageContents {
        ImageContents {
            width: self.raster.width,
            height: self.raster.height,
            rgba: self.raster.rgba@,
            uses_placeholders: self.uses_placeholders,
        }
    }
}

impl KittyImage {
    /// Converts the decoded image into an inline object.
    pub fn rasterize<H, P>(self) -> (object: KittyInlineObject<H, P>)
        ensures
            object.raster.width == self.width,
            object.raster.height == self.height,
            object.raster.rgba == self.rgba,
            object.raster.handle is None,
            object.uses_placeholders == self.uses_placeholders,
            object.plane is None,
            object.shown() == self@,
    {
        KittyInlineObject {
            raster: RasterObject {
                width: self.width,
                height: self.height,
                rgba: self.rgba,
                handle: None,
            },
            uses_placeholders: self.uses_placeholders,
            plane: None,
        }
    }
}

/// Kitty object anchor.
#[derive(Clone, Copy, PartialEq, Eq, Structural, Debug)]
pub struct KittyAnchor {
    /// Anchor row.
    pub row: u16,
    /// Anchor column.
    pub col: u16,
    /// Object width in cells.
    pub columns: u32,
    /// Object height in cells.
    pub rows: u32,
}

/// Parsed Kitty graphics operation.
#[allow(inconsistent_fields)]
pub enum KittyOperation {
    /// Indicates a multipart transfer is still pending.
    Pending,
    /// Indicates the sequence was ignored.
    Ignored,
    /// Image registration without placement.
    TransmitOnly {
        /// Object identifier.
        object_id: u32,
        /// Decoded image.
        image: KittyImage,
    },
    /// Image registration with placement.
    TransmitAndPlace {
        /// Object identifier.
        object_id: u32,
        /// Decoded image.
        image: KittyImage,
        /// Placement anchor.
        anchor: KittyAnchor,
    },
    /// Placement of a previously registered image.
    PlaceExisting {
        /// Object identifier.
        object_id: u32,
        /// Placement anchor.
        anchor: KittyAnchor,
    },
    /// Image deletion.
    Delete {
        /// Optional object identifier.
        object_id: Option<u32>,
    },
}

/// The meaning of an operation.
#[verifier::ext_equal]
#[allow(inconsistent_fields)]
pub enum OperationContents {
    /// A multipart transfer is still pending.
    Pending,
    /// The sequence was ignored.
    Ignored,
    /// An image is registered.
    TransmitOnly {
        /// Object identifier.
        object_id: u32,
        /// Decoded image.
        image: ImageContents,
    },
    /// An image is registered and placed.
    TransmitAndPlace {
        /// Object identifier.
        object_id: u32,
        /// Decoded image.
        image: ImageContents,
        /// Placement anchor.
        anchor: KittyAnchor,
    },
    /// A registered image is placed.
    PlaceExisting {
        /// Object identifier.
        object_id: u32,
        /// Placement anchor.
        anchor: KittyAnchor,
    },
    /// One image, or every image, is deleted.
    Delete {
        /// Optional object identifier.
        object_id: Option<u32>,
    },
}

impl View for KittyOperation {
    type V = OperationContents;

    open spec fn view(&self) -> OperationContents {
        match *self {
            KittyOperation::Pending => OperationContents::Pending,
            KittyOperation::Ignored => OperationContents::Ignored,
            KittyOperation::TransmitOnly { object_id, image } => OperationContents::TransmitOnly {
                object_id,
                image: image@,
            },
            KittyOperation::TransmitAndPlace { object_id, image, anchor } =>
                OperationContents::TransmitAndPlace { object_id, image: image@, anchor },
            KittyOperation::PlaceExisting { object_id, anchor } =>
                OperationContents::PlaceExisting { object_id, anchor },
            KittyOperation::Delete { object_id } => OperationContents::Delete { object_id },
        }
    }
}

/// The contents of an optional operation.
pub open spec fn operation_view(operation: Option<KittyOperation>) -> Option<OperationContents> {
    match operation {
        Some(operation) => Some(operation@),
        None => None,
    }
}

impl OperationContents {
    /// The image that an operation registers.
    pub open spec fn image(self) -> Option<ImageContents> {
        match self {
            OperationContents::TransmitOnly { object_id, image } => Some(image),
            OperationContents::TransmitAndPlace { object_id, image, anchor } => Some(image),
            _ => None,
        }
    }
}

/// An image transfer.
pub struct KittyTransfer {
    /// Whether the image is placed once it is complete.
    pub place: bool,
    /// Object identifier.
    pub object_id: u32,
    /// Payload format code.
    pub format: u32,
    /// Declared image width.
    pub width: Option<u32>,
    /// Declared image height.
    pub height: Option<u32>,
    /// Declared object width in cells.
    pub columns: Option<u32>,
    /// Declared object height in cells.
    pub rows: Option<u32>,
    /// Indicates placeholder mode.
    pub uses_placeholders: bool,
    /// Cursor row when the transfer began.
    pub anchor_row: u16,
    /// Cursor column when the transfer began.
    pub anchor_col: u16,
    /// Payload bytes received so far.
    pub bytes: Vec<u8>,
}

/// The contents of a transfer.
#[verifier::ext_equal]
pub struct TransferContents {
    /// Whether the image is placed once it is complete.
    pub place: bool,
    /// Object identifier.
    pub object_id: u32,
    /// Payload format code.
    pub format: u32,
    /// Declared image width.
    pub width: Option<u32>,
    /// Declared image height.
    pub height: Option<u32>,
    /// Declared object width in cells.
    pub columns: Option<u32>,
    /// Declared object height in cells.
    pub rows: Option<u32>,
    /// Indicates placeholder mode.
    pub uses_placeholders: bool,
    /// Cursor row when the transfer began.
    pub anchor_row: u16,
    /// Cursor column when the transfer began.
    pub anchor_col: u16,
    /// Payload bytes received so far.
    pub bytes: Seq<u8>,
}

impl View for KittyTransfer {
    type V = TransferContents;

    open spec fn view(&self) -> TransferContents {
        TransferContents {
            place: self.place,
            object_id: self.object_id,
            format: self.format,
            width: self.width,
            height: self.height,
            columns: self.columns,
            rows: self.rows,
            uses_placeholders: self.uses_placeholders,
            anchor_row: self.anchor_row,
            anchor_col: self.anchor_col,
            bytes: self.bytes@,
        }
    }
}

/// RGB pixels with an opaque alpha byte after each.
pub open spec fn rgb_to_rgba(rgb: Seq<u8>) -> Seq<u8> {
    Seq::new(
        (rgb.len() / 3 * 4) as nat,
        |i: int|
            if i % 4 == 3 {
                255u8
            } else {
                rgb[i / 4 * 3 + i % 4]
            },
    )
}

/// The image that a complete transfer holds, given what its bytes decode to as a
/// PNG file. Raw payloads must have exactly the length that their declared
/// dimensions ask for.
pub open spec fn finalized(
    transfer: TransferContents,
    png: Option<Pixels>,
) -> Option<ImageContents> {
    if transfer.format == 100 {
        match png {
            Some((width, height, rgba)) => Some(
                ImageContents {
                    width,
                    height,
                    rgba,
                    uses_placeholders: transfer.uses_placeholders,
                },
            ),
            None => None,
        }
    } else {
        match (transfer.width, transfer.height) {
            (Some(width), Some(height)) => {
                if transfer.format == 24 && transfer.bytes.len() == width * height * 3 {
                    Some(
                        ImageContents {
                            width,
                            height,
                            rgba: rgb_to_rgba(transfer.bytes),
                            uses_placeholders: transfer.uses_placeholders,
                        },
                    )
                } else if transfer.format == 32 && transfer.bytes.len() == width * height * 4 {
                    Some(
                        ImageContents {
                            width,
                            height,
                            rgba: transfer.bytes,
                            uses_placeholders: transfer.uses_placeholders,
                        },
                    )
                } else {
                    None
                }
            },
            _ => None,
        }
    }
}

/// Adds an opaque alpha byte to each RGB pixel.
fn opaque_pixels(rgb: &Vec<u8>) -> (rgba: Vec<u8>)
    requires
        rgb.len() % 3 == 0,
    ensures
        rgba@ == rgb_to_rgba(rgb@),
{
    let mut rgba: Vec<u8> = Vec::new();
    let mut i: usize = 0;
    while i < rgb.len()
        invariant
            rgb.len() % 3 == 0,
            i % 3 == 0,
            i <= rgb.len(),
            rgba@ =~= rgb_to_rgba(rgb@.take(i as int)),
        decreases rgb.len() - i,
    {
        let ghost before = rgba@;
        rgba.push(rgb[i]);
        rgba.push(rgb[i + 1]);
        rgba.push(rgb[i + 2]);
        rgba.push(255);
        proof {
            let next = rgb_to_rgba(rgb@.take(i + 3));
            assert(rgba@.len() == next.len());
            assert forall|k: int| 0 <= k < next.len() implies rgba@[k] == next[k] by {
                if k < before.len() {
                    assert(before[k] == rgb_to_rgba(rgb@.take(i as int))[k]);
                    assert(k / 4 * 3 + k % 4 < i || k % 4 == 3);
                } else {
                    let base = i as int / 3 * 4;
                    assert(before.len() == base);
                    assert(k == base || k == base + 1 || k == base + 2 || k == base + 3);
                    assert(k / 4 * 3 == i);
                }
            }
        }
        i = i + 3;
    }
    assert(rgb@.take(rgb@.len() as int) == rgb@);
    rgba
}

/// The contents of decoded PNG data.
pub open spec fn png_view(png: Option<Picture>) -> Option<Pixels> {
    match png {
        Some(picture) => Some(picture.pixels()),
        None => None,
    }
}

impl KittyTransfer {
    /// The image that a complete transfer holds, given what its bytes decode to
    /// as a PNG file.
    pub fn finalize(&self, png: Option<Picture>) -> (image: Option<KittyImage>)
        ensures
            image is Some <==> finalized(self@, png_view(png)) is Some,
            image is Some ==> Some(image->0@) == finalized(self@, png_view(png)),
    {
        if self.format == FORMAT_PNG {
            return match png {
                Some(picture) => Some(
                    KittyImage {
                        width: picture.width,
                        height: picture.height,
                        rgba: picture.rgba,
                        uses_placeholders: self.uses_placeholders,
                    },
                ),
                None => None,
            };
        }
        let width: u32 = match self.width {
            Some(width) => width,
            None => return None,
        };
        let height: u32 = match self.height {
            Some(height) => height,
            None => return None,
        };
        assert(0 <= width * height <= 0xffff_ffff * 0xffff_ffff) by (nonlinear_arith)
            requires
                0 <= width <= 0xffff_ffff,
                0 <= height <= 0xffff_ffff,
        ;
        let pixels: u128 = width as u128 * height as u128;
        let received: u128 = self.bytes.len() as u128;
        if self.format == FORMAT_RGB {
            if received != pixels * 3 {
                return None;
            }
            Some(
                KittyImage {
                    width,
                    height,
                    rgba: opaque_pixels(&self.bytes),
                    uses_placeholders: self.uses_placeholders,
                },
            )
        } else if self.format == FORMAT_RGBA {
            if received != pixels * 4 {
                return None;
            }
            Some(
                KittyImage {
                    width,
                    height,
                    rgba: self.bytes.clone(),
                    uses_placeholders: self.uses_placeholders,
                },
            )
        } else {
            None
        }
    }
}

/// The bytes between the Kitty prefix and the string terminator.
pub open spec fn sequence_content(sequence: Seq<u8>) -> Option<Seq<u8>> {
    let n = sequence.len() as int;
    if n < 3 || sequence.take(3) != KITTY_APC_START@ {
        None
    } else if sequence[n - 1] == 0x9c {
        Some(sequence.subrange(3, n - 1))
    } else if sequence[n - 2] == 0x1b && sequence[n - 1] == 0x5c {
        Some(sequence.subrange(3, n - 2))
    } else {
        None
    }
}

/// The header and the payload of a sequence: the text before the first
/// semicolon, which must be valid UTF-8, and the bytes after it.
pub open spec fn sequence_parts(sequence: Seq<u8>) -> Option<(Seq<u8>, Seq<u8>)> {
    match sequence_content(sequence) {
        Some(content) => {
            let separator = content.index_of_first(0x3b);
            match separator {
                Some(at) if valid_utf8(content.take(at)) => Some(
                    (content.take(at), content.skip(at + 1)),
                ),
                _ => None,
            }
        },
        None => None,
    }
}

/// The header of a well-formed sequence.
pub open spec fn header_of(sequence: Seq<u8>) -> Seq<u8> {
    sequence_parts(sequence).unwrap().0
}

/// The payload of a well-formed sequence.
pub open spec fn payload_of(sequence: Seq<u8>) -> Seq<u8> {
    sequence_parts(sequence).unwrap().1
}

/// The start of the last comma-separated part of a header.
pub open spec fn last_part_start(header: Seq<u8>) -> int
    decreases header.len(),
{
    if header.len() == 0 || header.last() == 0x2c {
        header.len() as int
    } else {
        last_part_start(header.drop_last())
    }
}

/// The value of a header parameter. The header is a comma-separated list of
/// `key=value` parts, of which the last one with the key counts.
pub open spec fn parameter(header: Seq<u8>, key: u8) -> Option<Seq<u8>>
    decreases header.len(),
    via parameter_decreases
{
    let start = last_part_start(header);
    let part = header.skip(start);
    if part.len() >= 2 && part[0] == key && part[1] == 0x3d {
        Some(part.skip(2))
    } else if start == 0 {
        None
    } else {
        parameter(header.take(start - 1), key)
    }
}

proof fn lemma_last_part_start(header: Seq<u8>)
    ensures
        0 <= last_part_start(header) <= header.len(),
    decreases header.len(),
{
    if header.len() == 0 || header.last() == 0x2c {
    } else {
        lemma_last_part_start(header.drop_last());
    }
}

#[via_fn]
proof fn parameter_decreases(header: Seq<u8>, key: u8) {
    lemma_last_part_start(header);
}

/// The number that a header parameter holds.
pub open spec fn number_parameter(header: Seq<u8>, key: u8) -> Option<u32> {
    match parameter(header, key) {
        Some(value) => u32_of(value),
        None => None,
    }
}

/// The last part of the beginning of a header either is the parameter, or leaves
/// it to the parts before.
proof fn lemma_last_part(header: Seq<u8>, start: int, end: int, key: u8)
    requires
        0 <= start <= end <= header.len(),
        start == last_part_start(header.take(end)),
    ensures
        parameter(header.take(end), key) == (if end - start >= 2 && header[start] == key
            && header[start + 1] == 0x3d {
            Some(header.subrange(start + 2, end))
        } else if start == 0 {
            None
        } else {
            parameter(header.take(start - 1), key)
        }),
{
    let whole = header.take(end);
    assert(whole.skip(start) =~= header.subrange(start, end));
    assert(header.subrange(start, end).skip(2) =~= header.subrange(start + 2, end)
        || end - start < 2);
    assert(start > 0 ==> whole.take(start - 1) =~= header.take(start - 1));
}

/// Finds the start of the last part before a position of a header.
fn part_start(header: &[u8], end: usize) -> (start: usize)
    requires
        end <= header.len(),
    ensures
        start <= end,
        start == last_part_start(header@.take(end as int)),
{
    let mut start: usize = end;
    while start > 0 && header[start - 1] != 0x2c
        invariant
            start <= end <= header.len(),
            last_part_start(header@.take(end as int)) == last_part_start(
                header@.take(start as int),
            ),
        decreases start,
    {
        assert(header@.take(start as int).drop_last() =~= header@.take(start - 1));
        start = start - 1;
    }
    start
}

/// Finds the value of a header parameter.
fn find_parameter<'a>(header: &'a [u8], key: u8) -> (value: Option<&'a [u8]>)
    ensures
        value is Some <==> parameter(header@, key) is Some,
        value is Some ==> Some(value->0@) == parameter(header@, key),
{
    let mut end: usize = header.len();
    assert(header@.take(end as int) =~= header@);
    loop
        invariant
            end <= header.len(),
            parameter(header@, key) == parameter(header@.take(end as int), key),
        decreases end,
    {
        let start: usize = part_start(header, end);
        proof {
            lemma_last_part(header@, start as int, end as int, key);
        }
        if end - start >= 2 && header[start] == key && header[start + 1] == 0x3d {
            return Some(slice_subrange(header, start + 2, end));
        }
        if start == 0 {
            return None;
        }
        end = start - 1;
    }
}

/// Reads the number that a header parameter holds.
fn find_number(header: &[u8], key: u8) -> (value: Option<u32>)
    ensures
        value == number_parameter(header@, key),
{
    match find_parameter(header, key) {
        Some(value) => parse_u32(value),
        None => None,
    }
}

/// Whether a header parameter is present and is the single given byte.
fn parameter_is(header: &[u8], key: u8, byte: u8) -> (r: bool)
    ensures
        r == (parameter(header@, key) == Some(seq![byte])),
{
    match find_parameter(header, key) {
        Some(value) => {
            let same = value.len() == 1 && value[0] == byte;
            assert(same ==> value@ =~= seq![byte]);
            same
        },
        None => false,
    }
}

/// Splits a sequence into its header and its payload.
fn split_sequence<'a>(sequence: &'a [u8]) -> (parts: Option<(&'a [u8], &'a [u8])>)
    ensures
        match parts {
            Some((header, payload)) => sequence_parts(sequence@) == Some((header@, payload@)),
            None => sequence_parts(sequence@) is None,
        },
{
    let n: usize = sequence.len();
    if n < 3 {
        return None;
    }
    if sequence[0] != KITTY_APC_START[0] || sequence[1] != KITTY_APC_START[1] || sequence[2]
        != KITTY_APC_START[2] {
        assert(sequence@.take(3)[0] == sequence@[0]);
        assert(sequence@.take(3)[1] == sequence@[1]);
        assert(sequence@.take(3)[2] == sequence@[2]);
        return None;
    }
    assert(sequence@.take(3) =~= KITTY_APC_START@);
    let end: usize = if sequence[n - 1] == C1_ST {
        n - 1
    } else if sequence[n - 2] == ST[0] && sequence[n - 1] == ST[1] {
        n - 2
    } else {
        return None;
    };
    let content = slice_subrange(sequence, 3, end);
    let mut at: usize = 0;
    while at < content.len() && content[at] != 0x3b
        invariant
            at <= content.len(),
            forall|i: int| 0 <= i < at ==> content@[i] != 0x3b,
        decreases content.len() - at,
    {
        at = at + 1;
    }
    if at == content.len() {
        proof {
            content@.index_of_first_ensures(0x3b);
        }
        return None;
    }
    proof {
        content@.index_of_first_ensures(0x3b);
        assert(content@.contains(0x3b)) by {
            assert(content@[at as int] == 0x3b);
        }
        assert(content@.index_of_first(0x3b) == Some(at as int));
    }
    let header = slice_subrange(content, 0, at);
    assert(header@ == content@.take(at as int));
    if !is_utf8(header) {
        return None;
    }
    let payload = slice_subrange(content, at + 1, content.len());
    assert(payload@ == content@.skip(at + 1));
    Some((header, payload))
}

/// Parser state for Kitty graphics sequences.
pub struct KittyParserState {
    transfer: Option<KittyTransfer>,
    next_object_id: u32,
}

/// The contents of a parser state.
#[verifier::ext_equal]
pub struct ParserContents {
    /// Transfer in progress.
    pub transfer: Option<TransferContents>,
    /// Smallest identifier that has not been used.
    pub next_object_id: u32,
}

impl View for KittyParserState {
    type V = ParserContents;

    closed spec fn view(&self) -> ParserContents {
        ParserContents {
            transfer: match self.transfer {
                Some(transfer) => Some(transfer@),
                None => None,
            },
            next_object_id: self.next_object_id,
        }
    }
}

impl Default for KittyParserState {
    fn default() -> (state: Self)
        ensures
            state@ == (ParserContents { transfer: None, next_object_id: 0 }),
    {
        KittyParserState { transfer: None, next_object_id: 0 }
    }
}

/// The action of a sequence; transmit-and-place when it names none.
pub open spec fn sequence_action(header: Seq<u8>) -> Seq<u8> {
    match parameter(header, 0x61) {
        Some(action) => action,
        None => seq![0x54u8],
    }
}

/// Whether a sequence transmits image data.
pub open spec fn is_transmission(header: Seq<u8>) -> bool {
    sequence_action(header) == seq![0x54u8] || sequence_action(header) == seq![0x74u8]
}

/// Whether a transmission opens a new transfer rather than continuing the one
/// in progress: there is none, or the sequence names an action, a format, a
/// dimension or an identifier.
pub open spec fn opens_transfer(state: ParserContents, header: Seq<u8>) -> bool {
    ||| state.transfer is None
    ||| parameter(header, 0x61) is Some
    ||| parameter(header, 0x66) is Some
    ||| parameter(header, 0x73) is Some
    ||| parameter(header, 0x76) is Some
    ||| parameter(header, 0x69) is Some
}

/// The identifier of a new transfer: the one it names, or else the smallest
/// positive identifier that has not been used.
pub open spec fn transfer_id(state: ParserContents, header: Seq<u8>) -> u32 {
    match number_parameter(header, 0x69) {
        Some(id) => id,
        None => if state.next_object_id > 1 {
            state.next_object_id
        } else {
            1
        },
    }
}

/// A new transfer, before any payload has been added.
pub open spec fn new_transfer(
    state: ParserContents,
    header: Seq<u8>,
    cursor_position: (u16, u16),
) -> TransferContents {
    TransferContents {
        place: sequence_action(header) == seq![0x54u8],
        object_id: transfer_id(state, header),
        format: match number_parameter(header, 0x66) {
            Some(format) => format,
            None => 100,
        },
        width: number_parameter(header, 0x73),
        height: number_parameter(header, 0x76),
        columns: number_parameter(header, 0x63),
        rows: number_parameter(header, 0x72),
        uses_placeholders: parameter(header, 0x55) == Some(seq![0x31u8]),
        anchor_row: cursor_position.0,
        anchor_col: cursor_position.1,
        bytes: Seq::empty(),
    }
}

/// The state once a transmission has opened or joined its transfer.
pub open spec fn with_transfer(
    state: ParserContents,
    header: Seq<u8>,
    cursor_position: (u16, u16),
) -> ParserContents {
    if opens_transfer(state, header) {
        ParserContents {
            transfer: Some(new_transfer(state, header, cursor_position)),
            next_object_id: if state.next_object_id > transfer_id(state, header) {
                state.next_object_id
            } else {
                (transfer_id(state, header) + 1) as u32
            },
        }
    } else {
        state
    }
}

/// A transfer with more payload.
pub open spec fn extended(transfer: TransferContents, chunk: Seq<u8>) -> TransferContents {
    TransferContents { bytes: transfer.bytes + chunk, ..transfer }
}

/// The operation that a complete transfer amounts to, given what its bytes
/// decode to as a PNG file.
pub open spec fn completed(
    transfer: TransferContents,
    png: Option<Pixels>,
) -> Option<OperationContents> {
    match finalized(transfer, png) {
        Some(image) => if transfer.place {
            Some(
                OperationContents::TransmitAndPlace {
                    object_id: transfer.object_id,
                    image,
                    anchor: KittyAnchor {
                        row: transfer.anchor_row,
                        col: transfer.anchor_col,
                        columns: transfer.columns.unwrap_or(1),
                        rows: transfer.rows.unwrap_or(1),
                    },
                },
            )
        } else {
            Some(OperationContents::TransmitOnly { object_id: transfer.object_id, image })
        },
        None => None,
    }
}

/// What became of a chunk of image data.
pub enum ChunkOutcome {
    /// The chunk was refused.
    Refused,
    /// More chunks are announced.
    Pending,
    /// The transfer is complete.
    Complete(KittyTransfer),
}

/// The meaning of a chunk outcome.
#[verifier::ext_equal]
pub enum ChunkContents {
    /// The chunk was refused.
    Refused,
    /// More chunks are announced.
    Pending,
    /// The transfer is complete.
    Complete(TransferContents),
}

impl View for ChunkOutcome {
    type V = ChunkContents;

    open spec fn view(&self) -> ChunkContents {
        match *self {
            ChunkOutcome::Refused => ChunkContents::Refused,
            ChunkOutcome::Pending => ChunkContents::Pending,
            ChunkOutcome::Complete(transfer) => ChunkContents::Complete(transfer@),
        }
    }
}

/// The contents of a decoded chunk.
pub open spec fn chunk_view(chunk: Option<Vec<u8>>) -> Option<Seq<u8>> {
    match chunk {
        Some(bytes) => Some(bytes@),
        None => None,
    }
}

/// The state and the outcome after a chunk of a transmission, given what its
/// payload decodes to.
pub open spec fn chunk_added(
    state: ParserContents,
    header: Seq<u8>,
    chunk: Option<Seq<u8>>,
    cursor_position: (u16, u16),
) -> (ParserContents, ChunkContents) {
    let opened = with_transfer(state, header, cursor_position);
    match chunk {
        Some(bytes) => {
            let transfer = extended(opened.transfer->0, bytes);
            if parameter(header, 0x6d) == Some(seq![0x31u8]) {
                (ParserContents { transfer: Some(transfer), ..opened }, ChunkContents::Pending)
            } else {
                (
                    ParserContents { transfer: None, ..opened },
                    ChunkContents::Complete(transfer),
                )
            }
        },
        None => (opened, ChunkContents::Refused),
    }
}

/// The state and the operation after a transmission.
pub open spec fn transmitted(
    state: ParserContents,
    header: Seq<u8>,
    payload: Seq<u8>,
    cursor_position: (u16, u16),
) -> (ParserContents, Option<OperationContents>) {
    let (next, outcome) = chunk_added(state, header, base64_decoded(payload), cursor_position);
    (
        next,
        match outcome {
            ChunkContents::Refused => None,
            ChunkContents::Pending => Some(OperationContents::Pending),
            ChunkContents::Complete(transfer) => completed(transfer, png_decoded(transfer.bytes)),
        },
    )
}

/// The placement that a sequence asks for.
pub open spec fn placement(header: Seq<u8>, cursor_position: (u16, u16)) -> Option<
    OperationContents,
> {
    match number_parameter(header, 0x69) {
        Some(object_id) => Some(
            OperationContents::PlaceExisting {
                object_id,
                anchor: KittyAnchor {
                    row: cursor_position.0,
                    col: cursor_position.1,
                    columns: number_parameter(header, 0x63).unwrap_or(1),
                    rows: number_parameter(header, 0x72).unwrap_or(1),
                },
            },
        ),
        None => None,
    }
}

/// The state and the operation after a sequence.
pub open spec fn consumed(
    state: ParserContents,
    sequence: Seq<u8>,
    cursor_position: (u16, u16),
) -> (ParserContents, Option<OperationContents>) {
    match sequence_parts(sequence) {
        Some((header, payload)) => if is_transmission(header) {
            transmitted(state, header, payload, cursor_position)
        } else if sequence_action(header) == seq![0x70u8] {
            (state, placement(header, cursor_position))
        } else if sequence_action(header) == seq![0x64u8] {
            (
                state,
                Some(OperationContents::Delete { object_id: number_parameter(header, 0x69) }),
            )
        } else {
            (state, Some(OperationContents::Ignored))
        },
        None => (state, None),
    }
}

/// Whether the identifier that a sequence would take leaves room for a next
/// one.
pub open spec fn leaves_next_id(state: ParserContents, sequence: Seq<u8>) -> bool {
    match sequence_parts(sequence) {
        Some((header, payload)) => is_transmission(header) && opens_transfer(state, header)
            ==> transfer_id(state, header) < u32::MAX,
        None => true,
    }
}

impl KittyParserState {
    /// Whether a transmission opens a new transfer.
    fn starts_new_transfer(&self, header: &[u8]) -> (r: bool)
        ensures
            r == opens_transfer(self@, header@),
    {
        self.transfer.is_none() || find_parameter(header, 0x61).is_some() || find_parameter(
            header,
            0x66,
        ).is_some() || find_parameter(header, 0x73).is_some() || find_parameter(
            header,
            0x76,
        ).is_some() || find_parameter(header, 0x69).is_some()
    }

    /// The identifier of a new transfer.
    fn new_object_id(&self, header: &[u8]) -> (id: u32)
        ensures
            id == transfer_id(self@, header@),
    {
        match find_number(header, 0x69) {
            Some(id) => id,
            None => if self.next_object_id > 1 {
                self.next_object_id
            } else {
                1
            },
        }
    }

    /// Tells whether a sequence can be consumed: the identifier that it would
    /// take must leave room for a next one.
    pub fn can_consume(&self, sequence: &[u8]) -> (r: bool)
        ensures
            r == leaves_next_id(self@, sequence@),
    {
        match split_sequence(sequence) {
            Some((header, _)) => {
                let transmits = match find_parameter(header, 0x61) {
                    Some(_) => parameter_is(header, 0x61, 0x54) || parameter_is(header, 0x61, 0x74),
                    None => true,
                };
                !(transmits && self.starts_new_transfer(header)) || self.new_object_id(header)
                    < u32::MAX
            },
            None => true,
        }
    }

    /// Consumes a Kitty graphics APC sequence.
    pub fn consume_sequence(&mut self, sequence: &[u8], cursor_position: (u16, u16)) -> (operation:
        Option<KittyOperation>)
        requires
            leaves_next_id(old(self)@, sequence@),
        ensures
            (final(self)@, operation_view(operation)) == consumed(
                old(self)@,
                sequence@,
                cursor_position,
            ),
            operation is Some && operation->0@.image() is Some
                ==> operation->0@.image()->0.is_complete(),
    {
        let (header, payload) = match split_sequence(sequence) {
            Some(parts) => parts,
            None => return None,
        };
        let has_action = find_parameter(header, 0x61).is_some();
        if !has_action || parameter_is(header, 0x61, 0x54) || parameter_is(header, 0x61, 0x74) {
            return self.transmit(header, payload, cursor_position);
        }
        if parameter_is(header, 0x61, 0x70) {
            let object_id: u32 = match find_number(header, 0x69) {
                Some(object_id) => object_id,
                None => return None,
            };
            return Some(
                KittyOperation::PlaceExisting {
                    object_id,
                    anchor: KittyAnchor {
                        row: cursor_position.0,
                        col: cursor_position.1,
                        columns: find_number(header, 0x63).unwrap_or(1),
                        rows: find_number(header, 0x72).unwrap_or(1),
                    },
                },
            );
        }
        if parameter_is(header, 0x61, 0x64) {
            return Some(KittyOperation::Delete { object_id: find_number(header, 0x69) });
        }
        Some(KittyOperation::Ignored)
    }

    /// Adds the payload of a transmission to its transfer, and completes the
    /// transfer unless more chunks are announced.
    fn transmit(
        &mut self,
        header: &[u8],
        payload: &[u8],
        cursor_position: (u16, u16),
    ) -> (operation: Option<KittyOperation>)
        requires
            opens_transfer(old(self)@, header@) ==> transfer_id(old(self)@, header@) < u32::MAX,
        ensures
            (final(self)@, operation_view(operation)) == transmitted(
                old(self)@,
                header@,
                payload@,
                cursor_position,
            ),
            operation is Some && operation->0@.image() is Some
                ==> operation->0@.image()->0.is_complete(),
    {
        match self.add_chunk(header, decode_base64(payload), cursor_position) {
            ChunkOutcome::Refused => None,
            ChunkOutcome::Pending => Some(KittyOperation::Pending),
            ChunkOutcome::Complete(transfer) => {
                let png = decode_png_transfer(&transfer);
                transfer.complete(png)
            },
        }
    }

    /// Adds a decoded chunk to its transfer, opening the transfer where the
    /// header asks for it.
    pub fn add_chunk(
        &mut self,
        header: &[u8],
        chunk: Option<Vec<u8>>,
        cursor_position: (u16, u16),
    ) -> (outcome: ChunkOutcome)
        requires
            opens_transfer(old(self)@, header@) ==> transfer_id(old(self)@, header@) < u32::MAX,
        ensures
            (final(self)@, outcome@) == chunk_added(
                old(self)@,
                header@,
                chunk_view(chunk),
                cursor_position,
            ),
    {
        if self.starts_new_transfer(header) {
            let object_id: u32 = self.new_object_id(header);
            if self.next_object_id <= object_id {
                self.next_object_id = object_id + 1;
            }
            self.transfer = Some(
                KittyTransfer {
                    place: find_parameter(header, 0x61).is_none() || parameter_is(
                        header,
                        0x61,
                        0x54,
                    ),
                    object_id,
                    format: find_number(header, 0x66).unwrap_or(FORMAT_PNG),
                    width: find_number(header, 0x73),
                    height: find_number(header, 0x76),
                    columns: find_number(header, 0x63),
                    rows: find_number(header, 0x72),
                    uses_placeholders: parameter_is(header, 0x55, 0x31),
                    anchor_row: cursor_position.0,
                    anchor_col: cursor_position.1,
                    bytes: Vec::new(),
                },
            );
        }
        let ghost opened = self@;
        assert(opened == with_transfer(old(self)@, header@, cursor_position));
        let bytes: Vec<u8> = match chunk {
            Some(bytes) => bytes,
            None => return ChunkOutcome::Refused,
        };
        let mut transfer = match self.transfer.take() {
            Some(transfer) => transfer,
            None => return ChunkOutcome::Refused,
        };
        transfer.bytes.extend_from_slice(bytes.as_slice());
        assert(transfer@ =~= extended(opened.transfer->0, bytes@));
        if parameter_is(header, 0x6d, 0x31) {
            self.transfer = Some(transfer);
            ChunkOutcome::Pending
        } else {
            ChunkOutcome::Complete(transfer)
        }
    }
}

/// Decodes the bytes of a transfer where its format is PNG.
fn decode_png_transfer(transfer: &KittyTransfer) -> (png: Option<Picture>)
    ensures
        transfer.format == 100 ==> png_view(png) == png_decoded(transfer.bytes@),
        png matches Some(picture) ==> picture.wf(),
{
    if transfer.format == FORMAT_PNG {
        decode_png(transfer.bytes.as_slice())
    } else {
        None
    }
}

impl KittyTransfer {
    /// The operation that a complete transfer amounts to, given what its bytes
    /// decode to as a PNG file.
    pub fn complete(self, png: Option<Picture>) -> (operation: Option<KittyOperation>)
        ensures
            operation_view(operation) == completed(self@, png_view(png)),
    {
        let image = match self.finalize(png) {
            Some(image) => image,
            None => return None,
        };
        if self.place {
            return Some(
                KittyOperation::TransmitAndPlace {
                    object_id: self.object_id,
                    image,
                    anchor: KittyAnchor {
                        row: self.anchor_row,
                        col: self.anchor_col,
                        columns: self.columns.unwrap_or(1),
                        rows: self.rows.unwrap_or(1),
                    },
                },
            );
        }
        Some(KittyOperation::TransmitOnly { object_id: self.object_id, image })
    }
}

/// Whether a sequence ends with a string terminator.
pub open spec fn is_terminated(sequence: Seq<u8>) -> bool {
    seq![0x9cu8].is_suffix_of(sequence) || seq![0x1bu8, 0x5cu8].is_suffix_of(sequence)
}

/// A sequence without the Kitty prefix or without a string terminator yields no
/// operation and leaves the parser as it was.
pub proof fn foreign_sequences_are_refused(
    state: ParserContents,
    sequence: Seq<u8>,
    cursor_position: (u16, u16),
)
    requires
        !KITTY_APC_START@.is_prefix_of(sequence) || !is_terminated(sequence),
    ensures
        consumed(state, sequence, cursor_position) == (state, None::<OperationContents>),
{
    let n = sequence.len() as int;
    if sequence_content(sequence) is Some {
        assert(KITTY_APC_START@.is_prefix_of(sequence)) by {
            assert(sequence.take(3) == sequence.subrange(0, 3));
        }
        if sequence[n - 1] == 0x9c {
            assert(sequence.subrange(n - 1, n) =~= seq![0x9cu8]);
        } else {
            assert(sequence.subrange(n - 2, n) =~= seq![0x1bu8, 0x5cu8]);
        }
        assert(false);
    }
}

/// Only transmissions change the parser: placements, deletions and actions of
/// any other kind leave it as it was.
pub proof fn only_transmissions_change_the_parser(
    state: ParserContents,
    sequence: Seq<u8>,
    cursor_position: (u16, u16),
)
    requires
        sequence_parts(sequence) is Some ==> !is_transmission(header_of(sequence)),
    ensures
        consumed(state, sequence, cursor_position).0 == state,
{
}

/// An identifier that a transfer takes is behind the next one, which never
/// moves back; an identifier that the parser chose itself is positive and was
/// not behind it before.
pub proof fn identifiers_are_fresh(
    state: ParserContents,
    sequence: Seq<u8>,
    cursor_position: (u16, u16),
)
    requires
        leaves_next_id(state, sequence),
    ensures
        state.next_object_id <= consumed(state, sequence, cursor_position).0.next_object_id,
        sequence_parts(sequence) matches Some((header, payload)) ==> (is_transmission(header)
            && opens_transfer(state, header) ==> {
            &&& transfer_id(state, header) < consumed(
                state,
                sequence,
                cursor_position,
            ).0.next_object_id
            &&& number_parameter(header, 0x69) is None ==> transfer_id(state, header) >= 1
                && transfer_id(state, header) >= state.next_object_id
        }),
{
}

/// Whether a header announces more chunks.
pub open spec fn announces_more(header: Seq<u8>) -> bool {
    parameter(header, 0x6d) == Some(seq![0x31u8])
}

/// Whether a header can continue a transfer: it names no action, no format, no
/// dimension and no identifier.
pub open spec fn continues_transfer(header: Seq<u8>) -> bool {
    &&& parameter(header, 0x61) is None
    &&& parameter(header, 0x66) is None
    &&& parameter(header, 0x73) is None
    &&& parameter(header, 0x76) is None
    &&& parameter(header, 0x69) is None
}

/// The state after the first `n` of a run of sequences, each consumed at a cursor
/// position of its own.
pub open spec fn after_run(
    state: ParserContents,
    sequences: Seq<Seq<u8>>,
    cursors: Seq<(u16, u16)>,
    n: int,
) -> ParserContents
    decreases n,
{
    if n <= 0 {
        state
    } else {
        consumed(after_run(state, sequences, cursors, n - 1), sequences[n - 1], cursors[n - 1]).0
    }
}

/// The operation that the sequence at a position of a run yields.
pub open spec fn run_operation(
    state: ParserContents,
    sequences: Seq<Seq<u8>>,
    cursors: Seq<(u16, u16)>,
    i: int,
) -> Option<OperationContents> {
    consumed(after_run(state, sequences, cursors, i), sequences[i], cursors[i]).1
}

/// The decoded payloads of the first `n` of a run of sequences, one after the
/// other.
pub open spec fn joined(sequences: Seq<Seq<u8>>, n: int) -> Seq<u8>
    decreases n,
{
    if n <= 0 {
        Seq::empty()
    } else {
        joined(sequences, n - 1) + base64_decoded(payload_of(sequences[n - 1]))->0
    }
}

/// Whether a run of sequences is a transfer in chunks: the first is a
/// transmission, the others continue it, all but the last announce more, and every
/// payload is valid base64.
pub open spec fn is_chunk_run(sequences: Seq<Seq<u8>>) -> bool {
    &&& sequences.len() >= 1
    &&& is_transmission(header_of(sequences[0]))
    &&& forall|i: int|
        0 <= i < sequences.len() ==> sequence_parts(#[trigger] sequences[i]) is Some
            && base64_decoded(payload_of(sequences[i])) is Some && (announces_more(
            header_of(sequences[i]),
        ) <==> i < sequences.len() - 1)
    &&& forall|i: int|
        0 < i < sequences.len() ==> continues_transfer(header_of(#[trigger] sequences[i]))
}

/// A transfer sent in any number of chunks is pending until its last chunk, and
/// then ends in the same operation and the same parser state as the transfer sent
/// in one piece at the cursor position of the first chunk.
pub proof fn chunks_join(
    state: ParserContents,
    sequences: Seq<Seq<u8>>,
    cursors: Seq<(u16, u16)>,
    whole: Seq<u8>,
)
    requires
        is_chunk_run(sequences),
        cursors.len() == sequences.len(),
        sequence_parts(whole) is Some,
        is_transmission(header_of(whole)),
        !announces_more(header_of(whole)),
        // the first chunk and the whole transfer describe the same image
        with_transfer(state, header_of(sequences[0]), cursors[0]) == with_transfer(
            state,
            header_of(whole),
            cursors[0],
        ),
        base64_decoded(payload_of(whole)) == Some(joined(sequences, sequences.len() as int)),
    ensures
        forall|i: int|
            0 <= i < sequences.len() - 1 ==> #[trigger] run_operation(state, sequences, cursors, i)
                == Some(OperationContents::Pending),
        run_operation(state, sequences, cursors, sequences.len() - 1) == consumed(
            state,
            whole,
            cursors[0],
        ).1,
        after_run(state, sequences, cursors, sequences.len() as int) == consumed(
            state,
            whole,
            cursors[0],
        ).0,
{
    let last = sequences.len() - 1;
    assert forall|i: int| 0 <= i < last implies #[trigger] run_operation(
        state,
        sequences,
        cursors,
        i,
    ) == Some(OperationContents::Pending) by {
        lemma_chunk_added(state, sequences, cursors, i);
    }
    lemma_chunk_added(state, sequences, cursors, last);
}

/// The chunk at a position of a run extends the transfer by its payload, and
/// completes it where it is the last one.
proof fn lemma_chunk_added(
    state: ParserContents,
    sequences: Seq<Seq<u8>>,
    cursors: Seq<(u16, u16)>,
    i: int,
)
    requires
        is_chunk_run(sequences),
        cursors.len() == sequences.len(),
        0 <= i < sequences.len(),
    ensures
        ({
            let opened = with_transfer(state, header_of(sequences[0]), cursors[0]);
            let transfer = extended(opened.transfer->0, joined(sequences, i + 1));
            if i < sequences.len() - 1 {
                &&& run_operation(state, sequences, cursors, i) == Some(OperationContents::Pending)
                &&& after_run(state, sequences, cursors, i + 1) == (ParserContents {
                    transfer: Some(transfer),
                    ..opened
                })
            } else {
                &&& run_operation(state, sequences, cursors, i) == completed(
                    transfer,
                    png_decoded(transfer.bytes),
                )
                &&& after_run(state, sequences, cursors, i + 1) == (ParserContents {
                    transfer: None,
                    ..opened
                })
            }
        }),
    decreases i,
{
    let opened = with_transfer(state, header_of(sequences[0]), cursors[0]);
    let chunk = base64_decoded(payload_of(sequences[i]))->0;
    let before = joined(sequences, i);
    let header = header_of(sequences[i]);
    assert(joined(sequences, i + 1) == before + chunk);
    if i == 0 {
        assert(before + chunk =~= chunk);
    } else {
        lemma_chunk_added(state, sequences, cursors, i - 1);
        assert(continues_transfer(header));
        assert(is_transmission(header));
        assert(extended(extended(opened.transfer->0, before), chunk) =~= extended(
            opened.transfer->0,
            before + chunk,
        ));
    }
}

/// The header of a chunk that announces more, or of the last one.
pub open spec fn chunk_header(more: bool) -> Seq<u8> {
    seq![
        0x6du8,
        0x3d,
        if more {
            0x31
        } else {
            0x30
        },
    ]
}

/// A header with the announcement of more chunks behind its other parts.
pub open spec fn with_more(header: Seq<u8>) -> Seq<u8> {
    header.push(0x2c) + chunk_header(true)
}

/// An announcement behind the other parts of a header is read, and leaves the
/// other parameters as they are.
proof fn lemma_with_more(header: Seq<u8>, key: u8)
    ensures
        parameter(with_more(header), key) == (if key == 0x6d {
            Some(seq![0x31u8])
        } else {
            parameter(header, key)
        }),
{
    let whole = with_more(header);
    let n = header.len() as int;
    reveal_with_fuel(last_part_start, 4);
    assert(whole.drop_last() =~= header.push(0x2c) + seq![0x6du8, 0x3d]);
    assert(whole.drop_last().drop_last() =~= header.push(0x2c).push(0x6d));
    assert(whole.drop_last().drop_last().drop_last() =~= header.push(0x2c));
    assert(last_part_start(whole) == n + 1);
    assert(whole.skip(n + 1) =~= chunk_header(true));
    assert(whole.skip(n + 1).skip(2) =~= seq![0x31u8]);
    assert(whole.take(n) =~= header);
}

proof fn lemma_chunk_header(more: bool, key: u8)
    ensures
        parameter(chunk_header(more), key) == (if key == 0x6d {
            Some(
                seq![
                    if more {
                        0x31u8
                    } else {
                        0x30
                    },
                ],
            )
        } else {
            None
        }),
{
    let whole = chunk_header(more);
    reveal_with_fuel(last_part_start, 4);
    assert(whole.drop_last() =~= seq![0x6du8, 0x3d]);
    assert(whole.drop_last().drop_last() =~= seq![0x6du8]);
    assert(whole.drop_last().drop_last().drop_last() =~= Seq::<u8>::empty());
    assert(last_part_start(whole) == 0);
    assert(whole.skip(0) =~= whole);
    assert(whole.skip(2) =~= seq![
        if more {
            0x31u8
        } else {
            0x30
        },
    ]);
}

proof fn lemma_announced_chunks(
    state: ParserContents,
    header: Seq<u8>,
    sequences: Seq<Seq<u8>>,
    cursors: Seq<(u16, u16)>,
    whole: Seq<u8>,
)
    requires
        sequences.len() >= 2,
        cursors.len() == sequences.len(),
        // the header names a transmission, and announces nothing
        parameter(header, 0x61) is Some,
        is_transmission(header),
        parameter(header, 0x6d) is None,
        // the chunks
        forall|i: int|
            0 <= i < sequences.len() ==> sequence_parts(#[trigger] sequences[i]) is Some
                && base64_decoded(payload_of(sequences[i])) is Some && header_of(sequences[i]) == (
            if i == 0 {
                with_more(header)
            } else {
                chunk_header(i < sequences.len() - 1)
            }),
        // the image in one piece
        sequence_parts(whole) is Some,
        header_of(whole) == header,
        base64_decoded(payload_of(whole)) == Some(joined(sequences, sequences.len() as int)),
    ensures
        forall|i: int|
            0 <= i < sequences.len() - 1 ==> #[trigger] run_operation(state, sequences, cursors, i)
                == Some(OperationContents::Pending),
        run_operation(state, sequences, cursors, sequences.len() - 1) == consumed(
            state,
            whole,
            cursors[0],
        ).1,
        after_run(state, sequences, cursors, sequences.len() as int) == consumed(
            state,
            whole,
            cursors[0],
        ).0,
{
    assert forall|key: u8| key != 0x6d implies #[trigger] parameter(with_more(header), key)
        == parameter(header, key) by {
        lemma_with_more(header, key);
    }
    lemma_with_more(header, 0x6d);
    assert forall|more: bool, key: u8| key != 0x6d implies #[trigger] parameter(
        chunk_header(more),
        key,
    ) is None by {
        lemma_chunk_header(more, key);
    }
    lemma_chunk_header(true, 0x6d);
    lemma_chunk_header(false, 0x6d);
    assert(seq![0x30u8][0] != seq![0x31u8][0]);
    assert(header_of(sequences[0]) == with_more(header));
    chunks_join(state, sequences, cursors, whole);
}

/// A header and a payload framed as a sequence, with a string terminator of seven
/// or of eight bits.
pub open spec fn framed(header: Seq<u8>, payload: Seq<u8>, eight_bit: bool) -> Seq<u8> {
    KITTY_APC_START@ + header.push(0x3b) + payload + (if eight_bit {
        seq![0x9cu8]
    } else {
        seq![0x1bu8, 0x5c]
    })
}

/// A framed sequence has the header and the payload that it was framed from.
pub proof fn framed_sequences_are_split(header: Seq<u8>, payload: Seq<u8>, eight_bit: bool)
    requires
        valid_utf8(header),
        !header.contains(0x3b),
    ensures
        sequence_parts(framed(header, payload, eight_bit)) == Some((header, payload)),
{
    let sequence = framed(header, payload, eight_bit);
    let content = header.push(0x3b) + payload;
    let n = sequence.len() as int;
    assert(sequence.take(3) =~= KITTY_APC_START@);
    if eight_bit {
        assert(sequence.subrange(3, n - 1) =~= content);
    } else {
        assert(sequence.subrange(3, n - 2) =~= content);
    }
    let at = header.len() as int;
    assert(content[at] == 0x3b);
    assert forall|k: int| 0 <= k < at implies content[k] != 0x3b by {
        assert(header.contains(header[k]));
    }
    content.index_of_first_ensures(0x3b);
    assert(content.take(at) =~= header);
    assert(content.skip(at + 1) =~= payload);
}

/// The sequences of an image that is transmitted in chunks: the first has a header
/// of its own and announces more, and the others hold nothing but such an
/// announcement, or its end, and their payload.
pub open spec fn framed_chunks(
    header: Seq<u8>,
    payloads: Seq<Seq<u8>>,
    eight_bit: bool,
) -> Seq<Seq<u8>> {
    Seq::new(
        payloads.len(),
        |i: int|
            framed(
                if i == 0 {
                    with_more(header)
                } else {
                    chunk_header(i < payloads.len() - 1)
                },
                payloads[i],
                eight_bit,
            ),
    )
}

/// An image that is transmitted in two or more chunks, the first of which has the
/// header of the image, is pending until the last chunk. It then ends in the same
/// operation and the same parser state as if it had been transmitted with that
/// header in one piece, at the cursor position of the first chunk.
pub proof fn framed_chunks_join(
    state: ParserContents,
    header: Seq<u8>,
    payloads: Seq<Seq<u8>>,
    chunks: Seq<Seq<u8>>,
    whole: Seq<u8>,
    cursors: Seq<(u16, u16)>,
    eight_bit: bool,
)
    requires
        valid_utf8(header),
        !header.contains(0x3b),
        // the header names a transmission, and announces nothing
        parameter(header, 0x61) == Some(seq![0x54u8]) || parameter(header, 0x61) == Some(
            seq![0x74u8],
        ),
        parameter(header, 0x6d) is None,
        // the payloads of the chunks, and that of the image in one piece
        payloads.len() >= 2,
        chunks.len() == payloads.len(),
        cursors.len() == payloads.len(),
        forall|i: int|
            0 <= i < payloads.len() ==> base64_decoded(#[trigger] payloads[i]) == Some(chunks[i]),
        base64_decoded(whole) == Some(chunks.flatten()),
    ensures
        ({
            let sequences = framed_chunks(header, payloads, eight_bit);
            let sent_whole = consumed(state, framed(header, whole, eight_bit), cursors[0]);
            &&& forall|i: int|
                0 <= i < payloads.len() - 1 ==> #[trigger] run_operation(
                    state,
                    sequences,
                    cursors,
                    i,
                ) == Some(OperationContents::Pending)
            &&& run_operation(state, sequences, cursors, payloads.len() - 1) == sent_whole.1
            &&& after_run(state, sequences, cursors, payloads.len() as int) == sent_whole.0
        }),
{
    let sequences = framed_chunks(header, payloads, eight_bit);
    let n = payloads.len() as int;
    lemma_plain_text(seq![0x2cu8] + chunk_header(true));
    lemma_plain_text(chunk_header(true));
    lemma_plain_text(chunk_header(false));
    valid_utf8_concat(header, seq![0x2cu8] + chunk_header(true));
    assert(with_more(header) =~= header + (seq![0x2cu8] + chunk_header(true)));
    assert(!with_more(header).contains(0x3b)) by {
        assert forall|k: int| 0 <= k < with_more(header).len() implies with_more(header)[k]
            != 0x3b by {
            if k < header.len() {
                assert(header.contains(header[k]));
            }
        }
    }
    framed_sequences_are_split(header, whole, eight_bit);
    assert forall|i: int| 0 <= i < n implies sequence_parts(#[trigger] sequences[i]) == Some(
        (
            if i == 0 {
                with_more(header)
            } else {
                chunk_header(i < n - 1)
            },
            payloads[i],
        ),
    ) by {
        framed_sequences_are_split(
            if i == 0 {
                with_more(header)
            } else {
                chunk_header(i < n - 1)
            },
            payloads[i],
            eight_bit,
        );
    }
    lemma_joined(sequences, chunks, n);
    assert(chunks.take(n) =~= chunks);
    chunks.lemma_flatten_and_flatten_alt_are_equivalent();
    lemma_announced_chunks(
        state,
        header,
        sequences,
        cursors,
        framed(header, whole, eight_bit),
    );
}

proof fn lemma_plain_text(text: Seq<u8>)
    requires
        forall|k: int| 0 <= k < text.len() ==> is_leading_byte_width_1(#[trigger] text[k]),
    ensures
        valid_utf8(text),
{
    assert(text.subrange(0, 0) =~= Seq::<u8>::empty());
    partial_valid_utf8_extend_ascii_block(text, 0, text.len() as int);
    assert(text.subrange(0, text.len() as int) =~= text);
}

proof fn lemma_joined(sequences: Seq<Seq<u8>>, chunks: Seq<Seq<u8>>, n: int)
    requires
        0 <= n <= sequences.len(),
        n <= chunks.len(),
        forall|i: int|
            0 <= i < n ==> base64_decoded(payload_of(#[trigger] sequences[i])) == Some(chunks[i]),
    ensures
        joined(sequences, n) == chunks.take(n).flatten_alt(),
    decreases n,
{
    if n > 0 {
        lemma_joined(sequences, chunks, n - 1);
        assert(chunks.take(n).drop_last() =~= chunks.take(n - 1));
        assert(base64_decoded(payload_of(sequences[n - 1])) == Some(chunks[n - 1]));
    }
}

/// Raw RGBA pixels that are sent in one piece, and in the number that the declared
/// dimensions ask for, arrive as they are.
pub proof fn raw_pixels_arrive_unchanged(
    state: ParserContents,
    sequence: Seq<u8>,
    cursor_position: (u16, u16),
    width: u32,
    height: u32,
    pixels: Seq<u8>,
)
    requires
        sequence_parts(sequence) is Some,
        is_transmission(header_of(sequence)),
        number_parameter(header_of(sequence), 0x66) == Some(32u32),
        number_parameter(header_of(sequence), 0x73) == Some(width),
        number_parameter(header_of(sequence), 0x76) == Some(height),
        parameter(header_of(sequence), 0x6d) != Some(seq![0x31u8]),
        base64_decoded(payload_of(sequence)) == Some(pixels),
        pixels.len() == width * height * 4,
    ensures
        consumed(state, sequence, cursor_position).1 matches Some(operation) && (
        operation.image() matches Some(image) && image.width == width && image.height == height
            && image.rgba == pixels),
{
    assert(Seq::<u8>::empty() + pixels =~= pixels);
}

/// A chunk that is not valid base64 yields no operation and adds nothing to the
/// transfer that it belongs to.
pub proof fn refused_chunks_add_nothing(
    state: ParserContents,
    sequence: Seq<u8>,
    cursor_position: (u16, u16),
)
    requires
        sequence_parts(sequence) is Some,
        is_transmission(header_of(sequence)),
        base64_decoded(payload_of(sequence)) is None,
    ensures
        consumed(state, sequence, cursor_position) == (
            with_transfer(state, header_of(sequence), cursor_position),
            None::<OperationContents>,
        ),
{
}

/// Converting RGB pixels keeps the color of every pixel and makes it opaque.
pub proof fn opaque_pixels_keep_their_color(rgb: Seq<u8>, pixel: int)
    requires
        rgb.len() % 3 == 0,
        0 <= pixel < rgb.len() / 3,
    ensures
        rgb_to_rgba(rgb).len() == rgb.len() / 3 * 4,
        rgb_to_rgba(rgb).subrange(pixel * 4, pixel * 4 + 4) == rgb.subrange(
            pixel * 3,
            pixel * 3 + 3,
        ).push(255u8),
{
    let rgba = rgb_to_rgba(rgb);
    let pushed = rgb.subrange(pixel * 3, pixel * 3 + 3).push(255u8);
    let taken = rgba.subrange(pixel * 4, pixel * 4 + 4);
    assert forall|k: int| 0 <= k < 4 implies #[trigger] taken[k] == pushed[k] by {
        assert((pixel * 4 + k) % 4 == k);
        assert((pixel * 4 + k) / 4 == pixel);
    }
    assert(taken =~= pushed);
}

/// Raw RGB pixels that are sent in one piece, and in the number that the declared
/// dimensions ask for, arrive with these dimensions, each with its own color and
/// opaque.
pub proof fn raw_colors_arrive_opaque(
    state: ParserContents,
    sequence: Seq<u8>,
    cursor_position: (u16, u16),
    width: u32,
    height: u32,
    colors: Seq<u8>,
)
    requires
        sequence_parts(sequence) is Some,
        is_transmission(header_of(sequence)),
        number_parameter(header_of(sequence), 0x66) == Some(24u32),
        number_parameter(header_of(sequence), 0x73) == Some(width),
        number_parameter(header_of(sequence), 0x76) == Some(height),
        parameter(header_of(sequence), 0x6d) != Some(seq![0x31u8]),
        base64_decoded(payload_of(sequence)) == Some(colors),
        colors.len() == width * height * 3,
    ensures
        consumed(state, sequence, cursor_position).1 matches Some(operation) && (
        operation.image() matches Some(image) && {
            &&& image.width == width
            &&& image.height == height
            &&& image.rgba.len() == width * height * 4
            &&& forall|k: int|
                0 <= k < width * height ==> image.rgba.subrange(4 * k, 4 * k + 4) == seq![
                    #[trigger] colors[3 * k],
                    colors[3 * k + 1],
                    colors[3 * k + 2],
                    255u8,
                ]
        }),
{
    assert(Seq::<u8>::empty() + colors =~= colors);
    lemma_opaque_colors(colors, width * height);
}

proof fn lemma_opaque_colors(colors: Seq<u8>, pixels: int)
    requires
        colors.len() == pixels * 3,
    ensures
        rgb_to_rgba(colors).len() == pixels * 4,
        forall|k: int|
            0 <= k < pixels ==> rgb_to_rgba(colors).subrange(4 * k, 4 * k + 4) == seq![
                #[trigger] colors[3 * k],
                colors[3 * k + 1],
                colors[3 * k + 2],
                255u8,
            ],
{
    assert forall|k: int| 0 <= k < pixels implies rgb_to_rgba(colors).subrange(4 * k, 4 * k + 4)
        == seq![#[trigger] colors[3 * k], colors[3 * k + 1], colors[3 * k + 2], 255u8] by {
        opaque_pixels_keep_their_color(colors, k);
        assert(colors.subrange(k * 3, k * 3 + 3).push(255u8) =~= seq![
            colors[3 * k],
            colors[3 * k + 1],
            colors[3 * k + 2],
            255u8,
        ]);
    }
}

/// A picture file that is sent in one piece, without a format or with that of such
/// files, arrives with the dimensions and the pixels that it decodes to; a file
/// that cannot be decoded yields no operation.
pub proof fn picture_files_arrive_decoded(
    state: ParserContents,
    sequence: Seq<u8>,
    cursor_position: (u16, u16),
    file: Seq<u8>,
)
    requires
        sequence_parts(sequence) is Some,
        is_transmission(header_of(sequence)),
        opens_transfer(state, header_of(sequence)),
        number_parameter(header_of(sequence), 0x66) is None || number_parameter(
            header_of(sequence),
            0x66,
        ) == Some(100u32),
        parameter(header_of(sequence), 0x6d) != Some(seq![0x31u8]),
        base64_decoded(payload_of(sequence)) == Some(file),
    ensures
        ({
            let operation = consumed(state, sequence, cursor_position).1;
            match picture_decoded(file, PictureFormat::Png) {
                Some(pixels) => operation is Some && operation->0.image() is Some && {
                    let image = operation->0.image()->0;
                    image.width == pixels.0 && image.height == pixels.1 && image.rgba == pixels.2
                },
                None => operation is None,
            }
        }),
{
    assert(Seq::<u8>::empty() + file =~= file);
}

/// A complete raw payload of another length than its dimensions ask for, without
/// dimensions, or of an unknown format yields no operation.
pub proof fn unfit_payloads_yield_nothing(
    state: ParserContents,
    sequence: Seq<u8>,
    cursor_position: (u16, u16),
    format: u32,
    payload: Seq<u8>,
)
    requires
        sequence_parts(sequence) is Some,
        is_transmission(header_of(sequence)),
        number_parameter(header_of(sequence), 0x66) == Some(format),
        format != 100,
        parameter(header_of(sequence), 0x6d) != Some(seq![0x31u8]),
        base64_decoded(payload_of(sequence)) == Some(payload),
        ({
            let width = number_parameter(header_of(sequence), 0x73);
            let height = number_parameter(header_of(sequence), 0x76);
            ||| width is None
            ||| height is None
            ||| format != 24 && format != 32
            ||| format == 24 && payload.len() != width->0 * height->0 * 3
            ||| format == 32 && payload.len() != width->0 * height->0 * 4
        }),
    ensures
        consumed(state, sequence, cursor_position).1 is None,
        consumed(state, sequence, cursor_position).0.transfer is None,
{
    assert(Seq::<u8>::empty() + payload =~= payload);
}

/// An image that arrives with the sequence that opens its transfer has the
/// identifier that the sequence names or a fresh one, and is registered only where
/// the action asks for that; otherwise it is placed at the cursor, over the cells
/// that the sequence asks for or over a single one.
pub proof fn arriving_images_are_placed_as_asked(
    state: ParserContents,
    sequence: Seq<u8>,
    cursor_position: (u16, u16),
)
    requires
        sequence_parts(sequence) is Some,
        is_transmission(header_of(sequence)),
        opens_transfer(state, header_of(sequence)),
        consumed(state, sequence, cursor_position).1 is Some,
        consumed(state, sequence, cursor_position).1->0.image() is Some,
    ensures
        ({
            let header = header_of(sequence);
            let after = consumed(state, sequence, cursor_position).0;
            let operation = consumed(state, sequence, cursor_position).1->0;
            let only = parameter(header, 0x61) == Some(seq![0x74u8]);
            let named = number_parameter(header, 0x69);
            &&& after.transfer is None
            &&& operation.image()->0.uses_placeholders <==> parameter(header, 0x55) == Some(
                seq![0x31u8],
            )
            &&& only <==> operation is TransmitOnly
            &&& !only <==> operation is TransmitAndPlace
            &&& operation matches OperationContents::TransmitOnly { object_id, image } ==> {
                &&& named is Some ==> object_id == named->0
                &&& named is None ==> object_id >= 1 && object_id >= state.next_object_id
            }
            &&& operation matches OperationContents::TransmitAndPlace { object_id, image, anchor }
                ==> {
                &&& named is Some ==> object_id == named->0
                &&& named is None ==> object_id >= 1 && object_id >= state.next_object_id
                &&& anchor.row == cursor_position.0
                &&& anchor.col == cursor_position.1
                &&& number_parameter(header, 0x63) is Some ==> anchor.columns == number_parameter(
                    header,
                    0x63,
                )->0
                &&& number_parameter(header, 0x63) is None ==> anchor.columns == 1
                &&& number_parameter(header, 0x72) is Some ==> anchor.rows == number_parameter(
                    header,
                    0x72,
                )->0
                &&& number_parameter(header, 0x72) is None ==> anchor.rows == 1
            }
        }),
{
    assert(seq![0x74u8][0] != seq![0x54u8][0]);
}

/// The parser chooses the smallest positive identifier that is not behind the next
/// one, and moves the next one just behind the identifier of a new transfer where
/// it is not there already.
pub proof fn identifiers_are_counted(
    state: ParserContents,
    header: Seq<u8>,
    cursor_position: (u16, u16),
)
    requires
        opens_transfer(state, header),
        transfer_id(state, header) < u32::MAX,
    ensures
        number_parameter(header, 0x69) is None && state.next_object_id >= 1 ==> transfer_id(
            state,
            header,
        ) == state.next_object_id,
        number_parameter(header, 0x69) is None && state.next_object_id == 0 ==> transfer_id(
            state,
            header,
        ) == 1,
        ({
            let id = transfer_id(state, header);
            let next = with_transfer(state, header, cursor_position).next_object_id;
            &&& id < state.next_object_id ==> next == state.next_object_id
            &&& id >= state.next_object_id ==> next == id + 1
        }),
{
}

/// Two images without an identifier of their own get different identifiers, both
/// positive.
pub proof fn fresh_identifiers_differ(
    state: ParserContents,
    first: Seq<u8>,
    second: Seq<u8>,
    cursor_position: (u16, u16),
)
    requires
        opens_transfer(state, first),
        transfer_id(state, first) < u32::MAX,
        number_parameter(second, 0x69) is None,
    ensures
        transfer_id(with_transfer(state, first, cursor_position), second) > transfer_id(
            state,
            first,
        ),
{
}

/// A chunk that announces more is pending, and is kept behind what its transfer
/// held before.
pub proof fn announced_chunks_are_kept(
    state: ParserContents,
    sequence: Seq<u8>,
    cursor_position: (u16, u16),
    chunk: Seq<u8>,
)
    requires
        sequence_parts(sequence) is Some,
        is_transmission(header_of(sequence)),
        parameter(header_of(sequence), 0x6d) == Some(seq![0x31u8]),
        base64_decoded(payload_of(sequence)) == Some(chunk),
    ensures
        ({
            let (after, operation) = consumed(state, sequence, cursor_position);
            let header = header_of(sequence);
            &&& operation == Some(OperationContents::Pending)
            &&& after.transfer is Some
            &&& opens_transfer(state, header) ==> after.transfer->0.bytes == chunk
            &&& !opens_transfer(state, header) ==> {
                &&& after.transfer->0.bytes == state.transfer->0.bytes + chunk
                &&& after.transfer->0 == (TransferContents {
                    bytes: state.transfer->0.bytes + chunk,
                    ..state.transfer->0
                })
                &&& after.next_object_id == state.next_object_id
            }
        }),
{
    assert(Seq::<u8>::empty() + chunk =~= chunk);
}

/// A transmission joins the transfer in progress exactly where there is one and
/// the sequence names none of action, format, width, height and identifier.
pub proof fn bare_transmissions_continue(state: ParserContents, header: Seq<u8>)
    ensures
        !opens_transfer(state, header) <==> state.transfer is Some && continues_transfer(header),
        continues_transfer(header) <==> (forall|key: u8|
            key == 0x61 || key == 0x66 || key == 0x73 || key == 0x76 || key == 0x69 ==> #[trigger] parameter(
                header,
                key,
            ) is None),
{
    if forall|key: u8|
        key == 0x61 || key == 0x66 || key == 0x73 || key == 0x76 || key == 0x69 ==> #[trigger] parameter(
            header,
            key,
        ) is None {
        assert(parameter(header, 0x61) is None);
        assert(parameter(header, 0x66) is None);
        assert(parameter(header, 0x73) is None);
        assert(parameter(header, 0x76) is None);
        assert(parameter(header, 0x69) is None);
    }
}

/// A sequence transmits where its action is `T` or `t` or where it names none; the
/// action `p` places a registered image at the cursor, if it names one, and `d`
/// deletes the image that it names, or all. Any other action is ignored.
pub proof fn actions_are_told_apart(
    state: ParserContents,
    sequence: Seq<u8>,
    cursor_position: (u16, u16),
)
    requires
        sequence_parts(sequence) is Some,
    ensures
        ({
            let header = header_of(sequence);
            let action = parameter(header, 0x61);
            let operation = consumed(state, sequence, cursor_position).1;
            let named = number_parameter(header, 0x69);
            &&& is_transmission(header) <==> action is None || action == Some(seq![0x54u8])
                || action == Some(seq![0x74u8])
            &&& action == Some(seq![0x70u8]) && named is None ==> operation is None
            &&& action == Some(seq![0x70u8]) && named is Some ==> {
                &&& operation matches Some(OperationContents::PlaceExisting { object_id, anchor })
                &&& object_id == named->0
                &&& anchor.row == cursor_position.0
                &&& anchor.col == cursor_position.1
                &&& number_parameter(header, 0x63) is Some ==> anchor.columns == number_parameter(
                    header,
                    0x63,
                )->0
                &&& number_parameter(header, 0x63) is None ==> anchor.columns == 1
                &&& number_parameter(header, 0x72) is Some ==> anchor.rows == number_parameter(
                    header,
                    0x72,
                )->0
                &&& number_parameter(header, 0x72) is None ==> anchor.rows == 1
            }
            &&& action == Some(seq![0x64u8]) ==> {
                &&& operation matches Some(OperationContents::Delete { object_id })
                &&& object_id == named
            }
            &&& !is_transmission(header) && action != Some(seq![0x70u8]) && action != Some(
                seq![0x64u8],
            ) ==> operation == Some(OperationContents::Ignored)
        }),
{
    assert(seq![0x74u8][0] == 0x74 && seq![0x54u8][0] == 0x54);
    assert(seq![0x70u8][0] == 0x70 && seq![0x64u8][0] == 0x64);
}

proof fn lemma_part_start_behind(before: Seq<u8>, part: Seq<u8>)
    requires
        before.len() == 0 || before.last() == 0x2c,
        forall|k: int| 0 <= k < part.len() ==> #[trigger] part[k] != 0x2c,
    ensures
        last_part_start(before + part) == before.len(),
    decreases part.len(),
{
    if part.len() == 0 {
        assert(before + part =~= before);
    } else {
        let rest = part.drop_last();
        assert((before + part).last() == part[part.len() - 1]);
        assert((before + part).drop_last() =~= before + rest);
        assert forall|k: int| 0 <= k < rest.len() implies #[trigger] rest[k] != 0x2c by {
            assert(rest[k] == part[k]);
        }
        lemma_part_start_behind(before, rest);
    }
}

/// A part that sets a key to a value, alone or behind other parts, gives the key
/// that value and leaves every other key as the parts before it have it.
pub proof fn later_parts_count(header: Seq<u8>, key: u8, value: Seq<u8>, other: u8)
    requires
        key != 0x2c,
        forall|k: int| 0 <= k < value.len() ==> #[trigger] value[k] != 0x2c,
    ensures
        ({
            let part = seq![key, 0x3du8] + value;
            &&& parameter(part, key) == Some(value)
            &&& other != key ==> parameter(part, other) is None
            &&& parameter(header.push(0x2c) + part, key) == Some(value)
            &&& other != key ==> parameter(header.push(0x2c) + part, other) == parameter(
                header,
                other,
            )
        }),
{
    let part = seq![key, 0x3du8] + value;
    let whole = header.push(0x2c) + part;
    let n = header.len() as int;
    assert forall|k: int| 0 <= k < part.len() implies #[trigger] part[k] != 0x2c by {
        if k >= 2 {
            assert(part[k] == value[k - 2]);
        }
    }
    lemma_part_start_behind(Seq::empty(), part);
    assert(Seq::<u8>::empty() + part =~= part);
    assert(part.skip(0) =~= part);
    assert(part.skip(2) =~= value);
    lemma_part_start_behind(header.push(0x2c), part);
    assert(whole.skip(n + 1) =~= part);
    assert(whole.take(n) =~= header);
}

/// A part that is no assignment to a key, such as one without an equals sign in
/// second place, says nothing of the key.
pub proof fn other_parts_say_nothing(header: Seq<u8>, part: Seq<u8>, key: u8)
    requires
        forall|k: int| 0 <= k < part.len() ==> #[trigger] part[k] != 0x2c,
        part.len() < 2 || part[0] != key || part[1] != 0x3d,
    ensures
        parameter(part, key) is None,
        parameter(header.push(0x2c) + part, key) == parameter(header, key),
{
    let whole = header.push(0x2c) + part;
    let n = header.len() as int;
    lemma_part_start_behind(Seq::empty(), part);
    assert(Seq::<u8>::empty() + part =~= part);
    assert(part.skip(0) =~= part);
    lemma_part_start_behind(header.push(0x2c), part);
    assert(whole.skip(n + 1) =~= part);
    assert(whole.take(n) =~= header);
}

/// A framed sequence is refused where its header is no valid text, and so is one
/// that has no semicolon behind a header.
pub proof fn sequences_without_a_header_are_refused(
    state: ParserContents,
    content: Seq<u8>,
    header: Seq<u8>,
    payload: Seq<u8>,
    cursor_position: (u16, u16),
)
    requires
        !content.contains(0x3b),
        !header.contains(0x3b),
        !valid_utf8(header),
    ensures
        consumed(state, KITTY_APC_START@ + content + seq![0x1bu8, 0x5c], cursor_position) == (
            state,
            None::<OperationContents>,
        ),
        consumed(state, KITTY_APC_START@ + content + seq![0x9cu8], cursor_position) == (
            state,
            None::<OperationContents>,
        ),
        consumed(state, framed(header, payload, true), cursor_position) == (
            state,
            None::<OperationContents>,
        ),
        consumed(state, framed(header, payload, false), cursor_position) == (
            state,
            None::<OperationContents>,
        ),
{
    let seven = KITTY_APC_START@ + content + seq![0x1bu8, 0x5c];
    let eight = KITTY_APC_START@ + content + seq![0x9cu8];
    assert(seven.subrange(3, seven.len() - 2) =~= content);
    assert(eight.subrange(3, eight.len() - 1) =~= content);
    assert(seven.take(3) =~= KITTY_APC_START@);
    assert(eight.take(3) =~= KITTY_APC_START@);
    content.index_of_first_ensures(0x3b);
    lemma_bad_header(header, payload, true);
    lemma_bad_header(header, payload, false);
}

proof fn lemma_bad_header(header: Seq<u8>, payload: Seq<u8>, eight_bit: bool)
    requires
        !valid_utf8(header),
        !header.contains(0x3b),
    ensures
        sequence_parts(framed(header, payload, eight_bit)) is None,
{
    let sequence = framed(header, payload, eight_bit);
    let content = header.push(0x3b) + payload;
    let n = sequence.len() as int;
    assert(sequence.take(3) =~= KITTY_APC_START@);
    if eight_bit {
        assert(sequence.subrange(3, n - 1) =~= content);
    } else {
        assert(sequence.subrange(3, n - 2) =~= content);
    }
    let at = header.len() as int;
    assert(content[at] == 0x3b);
    assert forall|k: int| 0 <= k < at implies content[k] != 0x3b by {
        assert(header.contains(header[k]));
    }
    content.index_of_first_ensures(0x3b);
    assert(content.take(at) =~= header);
}

/// The prefix of Kitty graphics sequences is `ESC _ G`.
pub proof fn kitty_prefix()
    ensures
        KITTY_APC_START@ == seq![0x1bu8, 0x5f, 0x47],
{
}

/// Only a transmission that opens a transfer with the largest identifier cannot be
/// consumed.
pub proof fn only_the_largest_identifier_is_out_of_reach(state: ParserContents, sequence: Seq<u8>)
    requires
        !leaves_next_id(state, sequence),
    ensures
        sequence_parts(sequence) is Some,
        is_transmission(header_of(sequence)),
        opens_transfer(state, header_of(sequence)),
        transfer_id(state, header_of(sequence)) == u32::MAX,
{
}

/// An inline object shows an image exactly where it has its dimensions, its pixels
/// and its placeholder mode.
pub proof fn inline_objects_show_their_pixels<H, P>(
    image: KittyImage,
    object: KittyInlineObject<H, P>,
)
    ensures
        object.shown() == image@ <==> object.raster.width == image.width && object.raster.height
            == image.height && object.raster.rgba@ == image.rgba@ && object.uses_placeholders
            == image.uses_placeholders,
{
}

/// The contents of a transfer are those of its fields.
pub proof fn transfers_have_their_contents(transfer: KittyTransfer)
    ensures
        transfer@.place == transfer.place,
        transfer@.object_id == transfer.object_id,
        transfer@.format == transfer.format,
        transfer@.width == transfer.width,
        transfer@.height == transfer.height,
        transfer@.columns == transfer.columns,
        transfer@.rows == transfer.rows,
        transfer@.uses_placeholders == transfer.uses_placeholders,
        transfer@.anchor_row == transfer.anchor_row,
        transfer@.anchor_col == transfer.anchor_col,
        transfer@.bytes == transfer.bytes@,
{
}

/// An operation means what its fields say, and the contents of an image are those
/// of its fields.
pub proof fn operations_mean_what_they_say(operation: KittyOperation)
    ensures
        operation is Pending <==> operation@ is Pending,
        operation is Ignored <==> operation@ is Ignored,
        operation is PlaceExisting <==> operation@ is PlaceExisting,
        operation is Delete <==> operation@ is Delete,
        operation_view(Some(operation)) == Some(operation@),
        operation_view(None) is None,
        match operation {
            KittyOperation::TransmitOnly { object_id, image } => {
                &&& operation@ is TransmitOnly && operation@->TransmitOnly_object_id == object_id
                &&& operation@.image() matches Some(contents) && contents.width == image.width
                    && contents.height == image.height && contents.rgba == image.rgba@
                    && contents.uses_placeholders == image.uses_placeholders
            },
            KittyOperation::TransmitAndPlace { object_id, image, anchor } => {
                &&& operation@ is TransmitAndPlace && operation@->TransmitAndPlace_object_id
                    == object_id && operation@->TransmitAndPlace_anchor == anchor
                &&& operation@.image() matches Some(contents) && contents.width == image.width
                    && contents.height == image.height && contents.rgba == image.rgba@
                    && contents.uses_placeholders == image.uses_placeholders
            },
            KittyOperation::PlaceExisting { object_id, anchor } => {
                operation@->PlaceExisting_object_id == object_id
                    && operation@->PlaceExisting_anchor == anchor
            },
            KittyOperation::Delete { object_id } => operation@->Delete_object_id == object_id,
            _ => operation@.image() is None,
        },
{
}

/// What became of a chunk, and what was decoded, is told as it is.
pub proof fn decoded_parts_are_told(
    transfer: KittyTransfer,
    bytes: Vec<u8>,
    picture: Picture,
    file: Seq<u8>,
)
    ensures
        ChunkOutcome::Refused@ is Refused,
        ChunkOutcome::Pending@ is Pending,
        ChunkOutcome::Complete(transfer)@ == ChunkContents::Complete(transfer@),
        chunk_view(Some(bytes)) == Some(bytes@),
        chunk_view(None) is None,
        png_view(Some(picture)) == Some((picture.width, picture.height, picture.rgba@)),
        png_view(None) is None,
        png_decoded(file) == picture_decoded(file, PictureFormat::Png),
{
}

/// The image of a complete transfer goes by its format: pictures as they decode, raw
/// payloads with the declared dimensions, and nothing for other formats.
pub proof fn images_go_by_their_format(transfer: TransferContents, png: Option<Pixels>, k: int)
    ensures
        ({
            let image = finalized(transfer, png);
            let declared = transfer.width is Some && transfer.height is Some;
            let pixels = transfer.width->0 * transfer.height->0;
            &&& image is Some <==> {
                ||| transfer.format == 100 && png is Some
                ||| transfer.format == 24 && declared && transfer.bytes.len() == 3 * pixels
                ||| transfer.format == 32 && declared && transfer.bytes.len() == 4 * pixels
            }
            &&& image is Some ==> {
                &&& image->0.uses_placeholders == transfer.uses_placeholders
                &&& transfer.format == 100 ==> (image->0.width, image->0.height, image->0.rgba)
                    == png->0
                &&& transfer.format != 100 ==> image->0.width == transfer.width->0
                    && image->0.height == transfer.height->0
                &&& transfer.format == 32 ==> image->0.rgba == transfer.bytes
                &&& transfer.format == 24 && 0 <= k < pixels ==> image->0.rgba.subrange(
                    4 * k,
                    4 * k + 4,
                ) == transfer.bytes.subrange(3 * k, 3 * k + 3).push(255u8)
            }
        }),
{
    let pixels = transfer.width->0 * transfer.height->0;
    if transfer.format == 24 && finalized(transfer, png) is Some && 0 <= k < pixels {
        assert(transfer.bytes.len() % 3 == 0 && transfer.bytes.len() / 3 == pixels);
        opaque_pixels_keep_their_color(transfer.bytes, k);
    }
}

/// A complete transfer is placed or not as it was asked for, with the identifier and
/// the anchor that it was opened with, and its image is that of its format.
pub proof fn complete_transfers_are_placed(transfer: TransferContents, png: Option<Pixels>)
    ensures
        completed(transfer, png) is Some <==> finalized(transfer, png) is Some,
        completed(transfer, png) matches Some(operation) ==> {
            &&& operation.image() == finalized(transfer, png)
            &&& !transfer.place ==> operation is TransmitOnly
                && operation->TransmitOnly_object_id == transfer.object_id
            &&& transfer.place ==> {
                &&& operation matches OperationContents::TransmitAndPlace { object_id, image, anchor }
                &&& object_id == transfer.object_id
                &&& anchor.row == transfer.anchor_row
                &&& anchor.col == transfer.anchor_col
                &&& transfer.columns is Some ==> anchor.columns == transfer.columns->0
                &&& transfer.columns is None ==> anchor.columns == 1
                &&& transfer.rows is Some ==> anchor.rows == transfer.rows->0
                &&& transfer.rows is None ==> anchor.rows == 1
            }
        },
{
}

/// A transfer is opened with what the header says of it: the format with that of
/// pictures for want of one, and the dimensions, the cells and the placeholder mode
/// as they stand there.
pub proof fn transfers_are_opened_as_described(
    state: ParserContents,
    header: Seq<u8>,
    chunk: Seq<u8>,
    cursor_position: (u16, u16),
)
    requires
        opens_transfer(state, header),
        parameter(header, 0x6d) == Some(seq![0x31u8]),
    ensures
        ({
            let (after, outcome) = chunk_added(state, header, Some(chunk), cursor_position);
            let transfer = after.transfer->0;
            &&& outcome is Pending
            &&& after.transfer is Some
            &&& number_parameter(header, 0x66) is None ==> transfer.format == 100
            &&& number_parameter(header, 0x66) matches Some(format) ==> transfer.format == format
            &&& transfer.width == number_parameter(header, 0x73)
            &&& transfer.height == number_parameter(header, 0x76)
            &&& transfer.columns == number_parameter(header, 0x63)
            &&& transfer.rows == number_parameter(header, 0x72)
            &&& transfer.uses_placeholders <==> parameter(header, 0x55) == Some(seq![0x31u8])
            &&& transfer.place <==> parameter(header, 0x61) is None || parameter(header, 0x61)
                == Some(seq![0x54u8])
            &&& transfer.anchor_row == cursor_position.0
            &&& transfer.anchor_col == cursor_position.1
            &&& transfer.bytes == chunk
        }),
{
    assert(Seq::<u8>::empty() + chunk =~= chunk);
}

} // verus!
