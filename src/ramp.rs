use vstd::prelude::*;

use crate::args::{contrast_ok, UsageError, MAX_CONTRAST, MIN_CONTRAST};

verus! {

/// The base palette, written darkest-ink first.
pub const BASE_PALETTE: &'static str =
    "$@B%8&WM#*oahkbdpqwmZO0QLCJUYXzcvunxrjft/|()1{}[]?-_+~<>i!lI;:,\"^`'.         ";

/// Number of characters in `BASE_PALETTE`.
pub const BASE_PALETTE_LEN: usize = 77;

/// How many characters of the reversed palette are dropped before the contrast is added.
pub const RAMP_TRIM: i64 = 11;

/// Number of characters kept from a palette of `base_len` characters:
/// `base_len - RAMP_TRIM + contrast`, never below zero nor above `base_len`.
pub open spec fn ramp_len(base_len: int, contrast: int) -> int {
    let l = base_len - RAMP_TRIM + contrast;
    if l < 0 {
        0
    } else if l > base_len {
        base_len
    } else {
        l
    }
}

/// The ramp built from `base`: the palette reversed, cut to `ramp_len` characters.
pub open spec fn spec_ramp(base: Seq<char>, contrast: int) -> Seq<char> {
    base.reverse().take(ramp_len(base.len() as int, contrast))
}

/// The ramp slot that brightness `b` selects in a ramp of `n` characters:
/// `n - 1 - floor(b * n / 256)`. Brightness 0 takes the last slot.
pub open spec fn brightness_slot(n: int, b: int) -> int {
    n - 1 - (b * n) / 256
}

/// The character for brightness `b`, or a space where the slot lies outside the ramp.
pub open spec fn spec_map_brightness(ramp: Seq<char>, b: int) -> char {
    let i = brightness_slot(ramp.len() as int, b);
    if 0 <= i < ramp.len() {
        ramp[i]
    } else {
        ' '
    }
}

/// An ordered run of characters that quantizes brightness into glyphs.
/// Immutable once built.
pub struct DensityRamp {
    chars: Vec<char>,
}

impl View for DensityRamp {
    type V = Seq<char>;

    closed spec fn view(&self) -> Seq<char> {
        self.chars@
    }
}

impl DensityRamp {
    /// The ramp's characters, slot 0 first.
    pub fn chars(&self) -> (r: &Vec<char>)
        ensures
            r@ == self@,
    {
        &self.chars
    }

    /// Number of characters in the ramp.
    pub fn len(&self) -> (r: usize)
        ensures
            r == self@.len(),
    {
        self.chars.len()
    }
}

/// Builds the ramp for `contrast` from `base`: reverses the palette and keeps its
/// first `len(base) - RAMP_TRIM + contrast` characters (none where that is negative).
/// A contrast outside `MIN_CONTRAST..=MAX_CONTRAST` is a usage error.
pub fn build_ramp(base: &str, contrast: i32) -> (r: Result<DensityRamp, UsageError>)
    ensures
        contrast_ok(contrast as int) <==> r is Ok,
        r matches Ok(ramp) ==> ramp@ == spec_ramp(base@, contrast as int),
        !contrast_ok(contrast as int) ==> r matches Err(UsageError::ContrastOutOfRange),
{
    if !((MIN_CONTRAST as i32) <= contrast && contrast <= (MAX_CONTRAST as i32)) {
        return Err(UsageError::ContrastOutOfRange);
    }
    let mut fwd: Vec<char> = Vec::new();
    for c in it: base.chars()
        invariant
            fwd@ == it.seq().take(it.index() as int),
    {
        fwd.push(c);
    }
    assert(fwd@ == base@);
    let n: usize = fwd.len();
    let want: i128 = n as i128 - RAMP_TRIM as i128 + contrast as i128;
    let keep: usize = if want < 0 {
        0
    } else if want > n as i128 {
        n
    } else {
        want as usize
    };
    let mut chars: Vec<char> = Vec::new();
    let mut i: usize = 0;
    while i < keep
        invariant
            keep <= n == fwd@.len(),
            i <= keep,
            chars@ == fwd@.reverse().take(i as int),
        decreases keep - i,
    {
        chars.push(fwd[n - 1 - i]);
        i = i + 1;
        assert(chars@ =~= fwd@.reverse().take(i as int));
    }
    assert(chars@ =~= spec_ramp(base@, contrast as int));
    Ok(DensityRamp { chars })
}

/// The character that `brightness` selects: slot `n - 1 - floor(brightness * n / 256)`
/// of a ramp of `n` characters, or a space where that slot lies outside the ramp.
pub fn map_brightness(ramp: &DensityRamp, brightness: u8) -> (r: char)
    ensures
        r == spec_map_brightness(ramp@, brightness as int),
{
    let n: usize = ramp.chars.len();
    if n == 0 {
        return ' ';
    }
    assert(brightness as int * n as int <= 255 * 0xFFFF_FFFF_FFFF_FFFF) by (nonlinear_arith)
        requires
            brightness <= 255,
            n <= 0xFFFF_FFFF_FFFF_FFFF,
    ;
    let k: u128 = (brightness as u128) * (n as u128) / 256;
    assert(k < n) by (nonlinear_arith)
        requires
            k == (brightness as int * n as int) / 256,
            brightness < 256,
            n > 0,
    ;
    let i: usize = n - 1 - (k as usize);
    ramp.chars[i]
}

/// The base palette holds `BASE_PALETTE_LEN` characters.
pub proof fn lemma_base_palette_len()
    ensures
        BASE_PALETTE@.len() == BASE_PALETTE_LEN,
{
    reveal_strlit(
        "$@B%8&WM#*oahkbdpqwmZO0QLCJUYXzcvunxrjft/|()1{}[]?-_+~<>i!lI;:,\"^`'.         ",
    );
}

/// Every accepted contrast gives a ramp of `BASE_PALETTE_LEN - RAMP_TRIM + contrast`
/// characters from the base palette, never an empty one.
pub proof fn lemma_palette_ramp_len(contrast: int)
    requires
        contrast_ok(contrast),
    ensures
        spec_ramp(BASE_PALETTE@, contrast).len() == BASE_PALETTE_LEN - RAMP_TRIM + contrast,
        spec_ramp(BASE_PALETTE@, contrast).len() >= 1,
{
    lemma_base_palette_len();
}

/// A brighter value never selects a later ramp slot than a darker one.
pub proof fn lemma_slot_monotonic(n: int, b1: int, b2: int)
    requires
        n >= 0,
        0 <= b1 < b2 <= 255,
    ensures
        brightness_slot(n, b1) >= brightness_slot(n, b2),
{
    assert(b1 * n <= b2 * n) by (nonlinear_arith)
        requires
            n >= 0,
            b1 < b2,
    ;
    vstd::arithmetic::div_mod::lemma_div_is_ordered(b1 * n, b2 * n, 256);
}

/// Brightness 0 takes the ramp's last character and brightness 255 its first,
/// for every ramp of 1 to 256 characters.
pub proof fn lemma_brightness_ends(ramp: Seq<char>)
    requires
        1 <= ramp.len() <= 256,
    ensures
        spec_map_brightness(ramp, 0) == ramp[ramp.len() - 1],
        spec_map_brightness(ramp, 255) == ramp[0],
{
    let n = ramp.len() as int;
    assert((255 * n) / 256 == n - 1) by (nonlinear_arith)
        requires
            1 <= n <= 256,
    ;
}

} // verus!
