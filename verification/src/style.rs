//! Row typography decisions shared by the backends. A style slot left
//! `None` means the app never set it, so the widget keeps its own default
//! rather than being forced to a value the app did not choose. Colours and
//! sizes are whatever the backend measures them in (`C`, `S`): these
//! functions only decide which one applies.
use vstd::prelude::*;

use crate::wheel::ROW_HEIGHT;

verus! {

/// The colour a row is drawn in.
pub enum RowColor<C> {
    /// An app colour, drawn as given.
    Exact(C),
    /// An app colour, faded with the row's distance from the band.
    Faded(C),
    /// No app colour: the widget's own grey, faded with distance.
    Default,
}

/// The app colour that applies to a row: the selected colour (falling back
/// to the row colour) inside the selection band, the row colour outside.
pub open spec fn base_color_spec<C>(selected: bool, selected_color: Option<C>, text_color: Option<C>) -> Option<C> {
    if selected && selected_color is Some {
        selected_color
    } else {
        text_color
    }
}

/// The app colour that applies to a row (see `base_color_spec`); `None`
/// leaves the platform's label colour alone.
pub fn base_color<C: Copy>(selected: bool, selected_color: Option<C>, text_color: Option<C>) -> (c: Option<C>)
    ensures
        c == base_color_spec(selected, selected_color, text_color),
{
    if selected {
        match selected_color {
            Some(c) => Some(c),
            None => text_color,
        }
    } else {
        text_color
    }
}

/// How a row is coloured (see `row_color`).
pub open spec fn row_color_spec<C>(in_band: bool, selected_color: Option<C>, text_color: Option<C>) -> RowColor<C> {
    match base_color_spec(in_band, selected_color, text_color) {
        Some(c) => if in_band && selected_color is Some {
            RowColor::Exact(c)
        } else {
            RowColor::Faded(c)
        },
        None => RowColor::Default,
    }
}

/// Which app colour applies to a row: inside the band a selected colour the
/// app set always wins, whatever the row colour; otherwise (outside the
/// band, or with no selected colour) the row colour applies, and with
/// neither there is none.
pub proof fn law_selected_colour_wins_in_band<C>(selected: bool, selected_color: Option<C>, text_color: Option<C>)
    ensures
        selected && selected_color is Some ==> base_color_spec(selected, selected_color, text_color)
            == selected_color,
        !selected ==> base_color_spec(selected, selected_color, text_color) == text_color,
        selected_color is None ==> base_color_spec(selected, selected_color, text_color) == text_color,
{
}

/// How a row is drawn: an app-set selected colour inside the band is drawn
/// exactly as given; outside the band the row colour fades with distance;
/// with no app colour that applies, the widget's default is drawn.
pub proof fn law_row_colour<C>(in_band: bool, selected_color: Option<C>, text_color: Option<C>)
    ensures
        in_band && selected_color is Some ==> row_color_spec(in_band, selected_color, text_color)
            == RowColor::Exact(selected_color->0),
        !in_band && text_color is Some ==> row_color_spec(in_band, selected_color, text_color)
            == RowColor::Faded(text_color->0),
        in_band && selected_color is None && text_color is Some ==> row_color_spec(
            in_band,
            selected_color,
            text_color,
        ) == RowColor::Faded(text_color->0),
        text_color is None && !(in_band && selected_color is Some) ==> row_color_spec(
            in_band,
            selected_color,
            text_color,
        ) == RowColor::<C>::Default,
{
}

/// How a row is coloured: a selected colour inside the band is drawn as
/// given; any other app colour fades with distance; without one the
/// widget's default fades.
pub fn row_color<C: Copy>(in_band: bool, selected_color: Option<C>, text_color: Option<C>) -> (rc: RowColor<C>)
    ensures
        rc == row_color_spec(in_band, selected_color, text_color),
{
    match base_color(in_band, selected_color, text_color) {
        Some(c) => {
            if in_band && selected_color.is_some() {
                RowColor::Exact(c)
            } else {
                RowColor::Faded(c)
            }
        },
        None => RowColor::Default,
    }
}

/// The text size of a row: the app's size for every row once it chose one
/// (so text does not jump while it scrolls); otherwise the row in the band
/// is drawn slightly larger than its neighbours.
pub fn row_size<S: Copy>(font_size: Option<S>, in_band: bool, band_default: S, row_default: S) -> (s: S)
    ensures
        s == (match font_size {
            Some(f) => f,
            None => if in_band {
                band_default
            } else {
                row_default
            },
        }),
{
    match font_size {
        Some(f) => f,
        None => {
            if in_band {
                band_default
            } else {
                row_default
            }
        },
    }
}

/// Whether a row whose centre is `offset_px` pixels from the centre line
/// lies in the selection band: less than half a row away.
pub fn in_band(offset_px: i32) -> (b: bool)
    ensures
        b == (-ROW_HEIGHT < 2 * offset_px < ROW_HEIGHT),
{
    let doubled: i64 = 2 * offset_px as i64;
    -(ROW_HEIGHT as i64) < doubled && doubled < ROW_HEIGHT as i64
}

/// watchOS has no hook to colour the centred row apart from its
/// neighbours, so a selected colour is folded into the row colour — but
/// only when the app set no row colour.
pub fn fold_selected_color<C: Copy>(row_color: Option<C>, selected_color: C) -> (c: Option<C>)
    ensures
        c == (match row_color {
            Some(r) => Some(r),
            None => Some(selected_color),
        }),
{
    match row_color {
        Some(r) => Some(r),
        None => Some(selected_color),
    }
}

} // verus!
