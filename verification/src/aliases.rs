//! The same ratio engine under snake_case names, for callers that prefer
//! conventional Rust naming. Each function forwards to its counterpart in
//! [`crate::scaling`] and carries the same contract.
use vstd::prelude::*;
use crate::scaling::Ratios;
use crate::scaling::Size;
use crate::scaling::spec_ratio;
use crate::scaling::spec_ratios;
use crate::scaling::spec_perfect_y_ratio;
use crate::scaling::spec_perfect_y_width;

verus! {

/// Calculates an integer scaling ratio common for X/Y axes (square pixels).
pub fn calculate_ratio(area_width: u32, area_height: u32, image_width: u32, image_height: u32) -> (ratio: u32)
    requires
        area_width >= 1,
        area_height >= 1,
        image_width >= 1,
        image_height >= 1,
    ensures
        ratio as int == spec_ratio(area_width as int, area_height as int, image_width as int,
            image_height as int),
        ratio >= 1,
{
    crate::scaling::calculateRatio(area_width, area_height, image_width, image_height)
}

/// Calculates integer scaling ratios potentially different for X/Y axes
/// as a result of aspect-ratio correction (rectangular pixels).
pub fn calculate_ratios(
    area_width: u32,
    area_height: u32,
    image_width: u32,
    image_height: u32,
    aspect_x: u32,
    aspect_y: u32,
) -> (r: Ratios)
    requires
        area_width >= 1,
        area_height >= 1,
        image_width >= 1,
        image_height >= 1,
        aspect_x >= 1,
        aspect_y >= 1,
    ensures
        r.x as int == spec_ratios(area_width as int, area_height as int, image_width as int,
            image_height as int, aspect_x as int, aspect_y as int).0,
        r.y as int == spec_ratios(area_width as int, area_height as int, image_width as int,
            image_height as int, aspect_x as int, aspect_y as int).1,
        r.x >= 1,
        r.y >= 1,
{
    crate::scaling::calculateRatios(area_width, area_height, image_width, image_height, aspect_x,
        aspect_y)
}

/// Calculates size (width and height) of scaled image
/// without aspect-ratio correction (square pixels).
pub fn calculate_size(area_width: u32, area_height: u32, image_width: u32, image_height: u32) -> (size: Size)
    requires
        area_width >= 1,
        area_height >= 1,
        image_width >= 1,
        image_height >= 1,
    ensures
        size.width as int == image_width as int * spec_ratio(area_width as int,
            area_height as int, image_width as int, image_height as int),
        size.height as int == image_height as int * spec_ratio(area_width as int,
            area_height as int, image_width as int, image_height as int),
{
    crate::scaling::calculateSize(area_width, area_height, image_width, image_height)
}

/// Calculates size (width and height) of scaled image
/// with aspect-ratio correction (rectangular pixels).
pub fn calculate_size_corrected(
    area_width: u32,
    area_height: u32,
    image_width: u32,
    image_height: u32,
    aspect_x: u32,
    aspect_y: u32,
) -> (size: Size)
    requires
        area_width >= 1,
        area_height >= 1,
        image_width >= 1,
        image_height >= 1,
        aspect_x >= 1,
        aspect_y >= 1,
    ensures
        size.width as int == image_width as int * spec_ratios(area_width as int,
            area_height as int, image_width as int, image_height as int, aspect_x as int,
            aspect_y as int).0,
        size.height as int == image_height as int * spec_ratios(area_width as int,
            area_height as int, image_width as int, image_height as int, aspect_x as int,
            aspect_y as int).1,
{
    crate::scaling::calculateSizeCorrected(area_width, area_height, image_width, image_height,
        aspect_x, aspect_y)
}

/// Calculates size (width and height) of scaled image with aspect-ratio
/// correction with integer vertical scaling ratio, but fractional
/// horizontal scaling ratio.
pub fn calculate_size_corrected_perfect_y(
    area_width: u32,
    area_height: u32,
    image_height: u32,
    aspect_x: u32,
    aspect_y: u32,
) -> (size: Size)
    requires
        area_width >= 1,
        area_height >= 1,
        image_height >= 1,
        aspect_x >= 1,
        aspect_y >= 1,
        area_height as int * aspect_x as int >= area_width as int * aspect_y as int
            ==> image_height as int * aspect_x as int >= aspect_y as int,
        image_height as int * spec_perfect_y_ratio(area_width as int, area_height as int,
            image_height as int, aspect_x as int, aspect_y as int) <= u32::MAX as int,
    ensures
        size.width as int == spec_perfect_y_width(area_width as int, area_height as int,
            image_height as int, aspect_x as int, aspect_y as int),
        size.height as int == image_height as int * spec_perfect_y_ratio(area_width as int,
            area_height as int, image_height as int, aspect_x as int, aspect_y as int),
        size.height >= 1,
{
    crate::scaling::calculateSizeCorrectedPerfectY(area_width, area_height, image_height,
        aspect_x, aspect_y)
}

} // verus!
