//! One display cell: a character with its colors, and the two bytes of video
//! memory that hold it.

use crate::color::ColorCode;
use volatile::Volatile;
use vstd::prelude::*;

verus! {

/// The glyph of an empty cell.
pub const BLANK: u8 = 0x20;

/// The glyph shown in place of a byte that the hardware cannot render.
pub const PLACEHOLDER: u8 = 0xfe;

/// Representation of character displayed on screen via VGA text-mode.
#[derive(Debug, Clone, Copy, PartialEq, Eq, Structural)]
pub struct ScreenChar {
    pub ascii_char: u8,
    pub color_code: ColorCode,
}

impl ScreenChar {
    /// The cell as it lies in video memory: the character first, then the
    /// attribute byte.
    pub open spec fn spec_to_bytes(self) -> Seq<u8> {
        seq![self.ascii_char, self.color_code.0]
    }

    /// The cell that two bytes of video memory show.
    pub open spec fn spec_from_bytes(bytes: Seq<u8>) -> ScreenChar {
        ScreenChar { ascii_char: bytes[0], color_code: ColorCode(bytes[1]) }
    }

    /// An empty cell in the given colors.
    pub open spec fn spec_blank(color_code: ColorCode) -> ScreenChar {
        ScreenChar { ascii_char: BLANK, color_code }
    }

    /// An empty cell in the given colors.
    #[verifier::when_used_as_spec(spec_blank)]
    pub fn blank(color_code: ColorCode) -> (cell: ScreenChar)
        ensures
            cell == Self::spec_blank(color_code),
    {
        ScreenChar { ascii_char: BLANK, color_code }
    }

    /// The two bytes that video memory holds for this cell.
    pub fn to_bytes(self) -> (bytes: [u8; 2])
        ensures
            bytes@ == self.spec_to_bytes(),
            Self::spec_from_bytes(bytes@) == self,
    {
        let bytes: [u8; 2] = [self.ascii_char, self.color_code.0];
        assert(bytes@ =~= self.spec_to_bytes());
        bytes
    }

    /// The cell that two bytes of video memory show.
    pub fn from_bytes(bytes: [u8; 2]) -> (cell: ScreenChar)
        ensures
            cell == Self::spec_from_bytes(bytes@),
            cell.spec_to_bytes() == bytes@,
    {
        let cell = ScreenChar { ascii_char: bytes[0], color_code: ColorCode(bytes[1]) };
        assert(cell.spec_to_bytes() =~= bytes@);
        cell
    }
}

/// ScreenChar volatile version to ensure that compiler will never optimize
/// away write of these characters on screen. The two bytes of a cell are an
/// array, whose layout the language fixes: no padding, the character at the
/// lower address.
pub type VolatileScreenChar = Volatile<[u8; 2]>;

/// `volatile::Volatile`, the wrapper that makes every access to the wrapped
/// value a volatile one. Nothing of its inside is visible here.
#[verifier::external_type_specification]
#[verifier::external_body]
#[verifier::reject_recursive_types(T)]
pub struct ExVolatile<T: Copy>(Volatile<T>);

/// The two bytes that a cell of video memory holds.
pub uninterp spec fn cell_bytes(cell: Volatile<[u8; 2]>) -> Seq<u8>;

/// The character and colors that a cell of video memory shows.
pub open spec fn shown(cell: VolatileScreenChar) -> ScreenChar {
    ScreenChar::spec_from_bytes(cell_bytes(cell))
}

/// `volatile::Volatile::write`: one volatile store of the whole value. After
/// it the cell holds the two bytes given. The call never panics.
#[verifier::external_body]
pub(crate) fn store(cell: &mut VolatileScreenChar, bytes: [u8; 2])
    ensures
        cell_bytes(*final(cell)) == bytes@,
    no_unwind
{
    cell.write(bytes)
}

/// `volatile::Volatile::read`: one volatile load of the whole value. It
/// returns the two bytes that the cell holds, and leaves them there.
#[verifier::external_body]
pub(crate) fn load(cell: &VolatileScreenChar) -> (bytes: [u8; 2])
    ensures
        bytes@ == cell_bytes(*cell),
{
    cell.read()
}

} // verus!
