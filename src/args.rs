use vstd::prelude::*;

verus! {

/// Smallest accepted output width, in cells.
pub const MIN_WIDTH: i64 = 10;

/// Largest accepted output width, in cells.
pub const MAX_WIDTH: i64 = 1000;

/// Smallest accepted contrast adjustment.
pub const MIN_CONTRAST: i64 = -10;

/// Largest accepted contrast adjustment.
pub const MAX_CONTRAST: i64 = 10;

/// A bad command-line value, found before any image work starts.
#[derive(Debug, Clone, Copy, PartialEq, Eq, Structural)]
pub enum UsageError {
    /// The output width lies outside `MIN_WIDTH..=MAX_WIDTH`.
    WidthOutOfRange,
    /// The contrast lies outside `MIN_CONTRAST..=MAX_CONTRAST`.
    ContrastOutOfRange,
}

pub open spec fn width_ok(width: int) -> bool {
    MIN_WIDTH <= width <= MAX_WIDTH
}

pub open spec fn contrast_ok(contrast: int) -> bool {
    MIN_CONTRAST <= contrast <= MAX_CONTRAST
}

/// Accepts an output width in `MIN_WIDTH..=MAX_WIDTH` and hands it back as `u32`.
pub fn check_width(width: i64) -> (r: Result<u32, UsageError>)
    ensures
        width_ok(width as int) <==> r is Ok,
        r matches Ok(w) ==> w as int == width as int,
        !width_ok(width as int) ==> r == Err::<u32, UsageError>(UsageError::WidthOutOfRange),
{
    if MIN_WIDTH <= width && width <= MAX_WIDTH {
        Ok(width as u32)
    } else {
        Err(UsageError::WidthOutOfRange)
    }
}

/// Accepts a contrast in `MIN_CONTRAST..=MAX_CONTRAST` and hands it back as `i32`.
pub fn check_contrast(contrast: i64) -> (r: Result<i32, UsageError>)
    ensures
        contrast_ok(contrast as int) <==> r is Ok,
        r matches Ok(c) ==> c as int == contrast as int,
        !contrast_ok(contrast as int) ==> r == Err::<i32, UsageError>(
            UsageError::ContrastOutOfRange,
        ),
{
    if MIN_CONTRAST <= contrast && contrast <= MAX_CONTRAST {
        Ok(contrast as i32)
    } else {
        Err(UsageError::ContrastOutOfRange)
    }
}

} // verus!
