//! RPS firmware images and the core that each is for.

use crate::error::{FlashError, FlashErrorView};
use crate::text;
use crate::text::{push_decimal, push_hexadecimal};
use vstd::prelude::*;
use vstd::string::*;

verus! {

/// The size of the header of an RPS container.
pub const RPS_HEADER_SIZE: usize = 64;

/// The magic number in the header of an RPS container.
pub const RPS_MAGIC: u32 = 0x900d_900d;

/// Which core an RPS image is for. The chip has two, and their images go through different menu
/// entries, so taking the wrong one would burn the wrong core.
#[derive(Debug, Clone, Copy, PartialEq, Eq, Structural)]
pub enum ImageKind {
    /// The M4 application.
    M4,
    /// The wireless firmware of the network processor.
    Nwp,
}

/// The little-endian number in two bytes.
pub open spec fn le16(data: Seq<u8>, at: int) -> nat {
    (data[at] + 0x100 * data[at + 1]) as nat
}

/// The little-endian number in four bytes.
pub open spec fn le32(data: Seq<u8>, at: int) -> nat {
    (data[at] + 0x100 * data[at + 1] + 0x1_0000 * data[at + 2] + 0x100_0000 * data[at + 3]) as nat
}

fn read_le16(data: &[u8], at: usize) -> (n: u16)
    requires
        at + 2 <= data.len(),
    ensures
        n == le16(data@, at as int),
{
    data[at] as u16 + 0x100 * (data[at + 1] as u16)
}

fn read_le32(data: &[u8], at: usize) -> (n: u32)
    requires
        at + 4 <= data.len(),
    ensures
        n == le32(data@, at as int),
{
    data[at] as u32 + 0x100 * (data[at + 1] as u32) + 0x1_0000 * (data[at + 2] as u32) + 0x100_0000
        * (data[at + 3] as u32)
}

pub open spec fn too_short_message(len: nat) -> Seq<char> {
    "SIWX917: file is "@ + text::decimal(len)
        + " bytes — too short to be an RPS image (need at least 64)"@
}

pub open spec fn not_rps_message(magic: nat) -> Seq<char> {
    "SIWX917: not an RPS image (magic 0x"@ + text::hexadecimal(magic, 8)
        + ", expected 0x900d900d) — the ROM bootloader only accepts .rps files, not .bin/.hex/.s37"@
}

pub open spec fn wrong_size_message(image_size: nat, len: nat) -> Seq<char> {
    "SIWX917: RPS image is truncated or padded — header says "@ + text::decimal(image_size)
        + " bytes (+64 header = "@ + text::decimal(image_size + 64) + "), file is "@ + text::decimal(len)
}

/// The size that the header of a container states for what follows it.
pub open spec fn image_size(data: Seq<u8>) -> nat {
    le32(data, 8)
}

/// Whether a file is an RPS container: it has a header with the magic number, and is exactly as
/// long as the header says.
pub open spec fn is_rps(data: Seq<u8>) -> bool {
    &&& data.len() >= RPS_HEADER_SIZE
    &&& le32(data, 4) == RPS_MAGIC
    &&& data.len() == image_size(data) + RPS_HEADER_SIZE
}

/// The core that a container is for: the lowest bit of the control flags is set for the M4.
pub open spec fn core_of(data: Seq<u8>) -> ImageKind {
    if le16(data, 0) % 2 == 1 {
        ImageKind::M4
    } else {
        ImageKind::Nwp
    }
}

/// Why a file is not taken for a container. A missing header is found first, then a wrong magic
/// number, then a wrong size.
pub open spec fn rejection(data: Seq<u8>) -> FlashErrorView {
    if data.len() < RPS_HEADER_SIZE {
        FlashErrorView::InvalidJob(too_short_message(data.len()))
    } else if le32(data, 4) != RPS_MAGIC {
        FlashErrorView::InvalidJob(not_rps_message(le32(data, 4)))
    } else {
        FlashErrorView::InvalidJob(wrong_size_message(image_size(data), data.len()))
    }
}

impl ImageKind {
    pub open spec fn spec_menu_key(self) -> u8 {
        match self {
            ImageKind::M4 => '4' as u8,
            ImageKind::Nwp => 'B' as u8,
        }
    }

    pub open spec fn spec_image_slot(self) -> u8 {
        match self {
            ImageKind::M4 => '1' as u8,
            ImageKind::Nwp => '0' as u8,
        }
    }

    pub open spec fn spec_label(self) -> Seq<char> {
        match self {
            ImageKind::M4 => "M4 application"@,
            ImageKind::Nwp => "NWP/TA wireless firmware"@,
        }
    }

    /// The menu key that starts a burn: `4` or `B`.
    pub fn menu_key(self) -> (key: u8)
        ensures
            key == self.spec_menu_key(),
    {
        match self {
            ImageKind::M4 => '4' as u8,
            ImageKind::Nwp => 'B' as u8,
        }
    }

    /// The slot that answers the prompt behind [`Self::menu_key`]: `1` or `0`, the lowest slot
    /// that the menu offers for the core.
    pub fn image_slot(self) -> (slot: u8)
        ensures
            slot == self.spec_image_slot(),
    {
        match self {
            ImageKind::M4 => '1' as u8,
            ImageKind::Nwp => '0' as u8,
        }
    }

    /// What to call the image in messages.
    pub fn label(self) -> (label: &'static str)
        ensures
            label@ == self.spec_label(),
    {
        match self {
            ImageKind::M4 => "M4 application",
            ImageKind::Nwp => "NWP/TA wireless firmware",
        }
    }

    /// Tells from the header of an RPS image which core it is for, and rejects what is no RPS
    /// image, so that a stray file cannot be pushed at the bootloader.
    pub fn detect(data: &[u8]) -> (res: Result<ImageKind, FlashError>)
        ensures
            res is Ok <==> is_rps(data@),
            res matches Ok(kind) ==> kind == core_of(data@),
            res matches Err(e) ==> e@ == rejection(data@),
    {
        if data.len() < RPS_HEADER_SIZE {
            let mut m: String = "SIWX917: file is ".to_string();
            push_decimal(&mut m, data.len() as u64);
            m.append(" bytes — too short to be an RPS image (need at least 64)");
            return Err(FlashError::InvalidJob(m));
        }
        let control_flags: u16 = read_le16(data, 0);
        let magic: u32 = read_le32(data, 4);
        let image_size: u32 = read_le32(data, 8);

        if magic != RPS_MAGIC {
            let mut m: String = "SIWX917: not an RPS image (magic 0x".to_string();
            push_hexadecimal(&mut m, magic, 8);
            m.append(
                ", expected 0x900d900d) — the ROM bootloader only accepts .rps files, not .bin/.hex/.s37",
            );
            return Err(FlashError::InvalidJob(m));
        }
        let expected: u64 = image_size as u64 + RPS_HEADER_SIZE as u64;
        if data.len() as u64 != expected {
            let mut m: String =
                "SIWX917: RPS image is truncated or padded — header says ".to_string();
            push_decimal(&mut m, image_size as u64);
            m.append(" bytes (+64 header = ");
            push_decimal(&mut m, expected);
            m.append("), file is ");
            push_decimal(&mut m, data.len() as u64);
            return Err(FlashError::InvalidJob(m));
        }
        assert(control_flags & 1 == control_flags % 2) by (bit_vector);
        if control_flags & 0x0001 != 0 {
            Ok(ImageKind::M4)
        } else {
            Ok(ImageKind::Nwp)
        }
    }
}

/// The size field is the little-endian number in the four bytes at offset 8. Whatever it says, a
/// file with a header and the magic number is an image if it is longer than that by the header, and
/// with any other length it is none.
pub proof fn law_image_is_as_long_as_it_says(data: Seq<u8>, n: int)
    requires
        0 <= n < 0x1_0000_0000,
        data.len() >= 64,
        data[4] == 0x0d && data[5] == 0x90 && data[6] == 0x0d && data[7] == 0x90,
        data[8] == n % 256,
        data[9] == n / 256 % 256,
        data[10] == n / 65536 % 256,
        data[11] == n / 16777216,
    ensures
        is_rps(data) <==> data.len() == n + 64,
        image_size(data) == n,
{
}

/// An image has a header of 64 bytes with the magic number at offset 4.
pub proof fn law_image_has_the_magic_number(data: Seq<u8>)
    requires
        is_rps(data),
    ensures
        data.len() >= 64,
        data[4] == 0x0d && data[5] == 0x90 && data[6] == 0x0d && data[7] == 0x90,
{
}

/// Nothing but the lowest bit of the first byte decides which core an image is for.
pub proof fn law_lowest_bit_decides_the_core(data: Seq<u8>)
    ensures
        data[0] % 2 == 1 ==> core_of(data) == ImageKind::M4,
        data[0] % 2 == 0 ==> core_of(data) == ImageKind::Nwp,
{
}

/// Each core has a burn entry and a slot of its own.
pub proof fn law_cores_do_not_share_an_entry()
    ensures
        ImageKind::M4.spec_menu_key() == 0x34,
        ImageKind::M4.spec_image_slot() == 0x31,
        ImageKind::Nwp.spec_menu_key() == 0x42,
        ImageKind::Nwp.spec_image_slot() == 0x30,
{
}

/// A file that is no image is rejected for the first of these that holds: it has no header, its
/// magic number is another, or its length is not what its header says. The message tells the
/// numbers that do not fit.
pub proof fn law_reason_for_a_rejection(data: Seq<u8>, magic: nat, size: nat)
    requires
        data.len() >= 64 ==> magic == data[4] + 256 * (data[5] + 256 * (data[6] + 256 * data[7])),
        data.len() >= 64 ==> size == data[8] + 256 * (data[9] + 256 * (data[10] + 256 * data[11])),
    ensures
        data.len() < 64 ==> rejection(data) == FlashErrorView::InvalidJob(
            "SIWX917: file is "@ + text::decimal(data.len())
                + " bytes — too short to be an RPS image (need at least 64)"@,
        ),
        data.len() >= 64 && magic != 0x900d_900d ==> rejection(data) == FlashErrorView::InvalidJob(
            "SIWX917: not an RPS image (magic 0x"@ + text::hexadecimal(magic, 8)
                + ", expected 0x900d900d) — the ROM bootloader only accepts .rps files, not .bin/.hex/.s37"@,
        ),
        data.len() >= 64 && magic == 0x900d_900d && data.len() != size + 64 ==> rejection(data)
            == FlashErrorView::InvalidJob(
            "SIWX917: RPS image is truncated or padded — header says "@ + text::decimal(size)
                + " bytes (+64 header = "@ + text::decimal(size + 64) + "), file is "@
                + text::decimal(data.len()),
        ),
        is_rps(data) <==> data.len() >= 64 && magic == 0x900d_900d && data.len() == size + 64,
{
}

} // verus!
