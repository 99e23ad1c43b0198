use crate::pixels::Action;
use vstd::prelude::*;

verus! {

/// Why a request to the controller was refused; nothing has changed then.
#[derive(Clone, Copy, Debug, PartialEq, Eq)]
pub enum RequestError {
    /// An argument is missing or has the wrong shape.
    InvalidArgument,
    /// An index or a color channel is past its bound.
    OutOfRange,
}

/// A color as a request carries it: each channel must fit in a byte.
#[derive(Clone, Copy, Debug, PartialEq, Eq)]
pub struct Color {
    pub r: u32,
    pub g: u32,
    pub b: u32,
}

/// Whether every channel of the color fits in a byte.
pub open spec fn color_fits(c: Color) -> bool {
    c.r <= 255 && c.g <= 255 && c.b <= 255
}

/// The action that sets pixel `index` to `c`.
pub open spec fn set_action(index: u32, c: Color) -> Action {
    Action::SetPixel { index: index as u16, r: c.r as u8, g: c.g as u8, b: c.b as u8 }
}

/// The channels of a color as bytes, or `OutOfRange` when one exceeds 255.
pub fn color_bytes(c: Color) -> (r: Result<(u8, u8, u8), RequestError>)
    ensures
        color_fits(c) ==> r == Ok::<(u8, u8, u8), RequestError>((c.r as u8, c.g as u8, c.b as u8)),
        !color_fits(c) ==> r == Err::<(u8, u8, u8), RequestError>(RequestError::OutOfRange),
{
    if c.r > 255 || c.g > 255 || c.b > 255 {
        Err(RequestError::OutOfRange)
    } else {
        Ok((c.r as u8, c.g as u8, c.b as u8))
    }
}

/// The actions for setting the pixels at `indexes` to `color` and showing
/// the result. Refused as a whole, before any action, when the color is
/// missing (`InvalidArgument`) or a channel or an index is out of range
/// (`OutOfRange`); an empty list of indexes only shows.
pub fn set_request(indexes: &Vec<u32>, color: Option<Color>, length: u16) -> (r: Result<
    Vec<Action>,
    RequestError,
>)
    ensures
        color is None ==> r == Err::<Vec<Action>, RequestError>(RequestError::InvalidArgument),
        color is Some && !color_fits(color->0) ==> r == Err::<Vec<Action>, RequestError>(
            RequestError::OutOfRange,
        ),
        color is Some && color_fits(color->0) && (exists|k: int|
            0 <= k < indexes@.len() && indexes@[k] >= length) ==> r == Err::<
            Vec<Action>,
            RequestError,
        >(RequestError::OutOfRange),
        color is Some && color_fits(color->0) && (forall|k: int|
            0 <= k < indexes@.len() ==> indexes@[k] < length) ==> r is Ok && r->Ok_0@ == indexes@.map_values(
            |i: u32| set_action(i, color->0),
        ).push(Action::Show),
{
    let c = match color {
        None => {
            return Err(RequestError::InvalidArgument);
        },
        Some(c) => c,
    };
    let (red, green, blue) = match color_bytes(c) {
        Err(e) => {
            return Err(e);
        },
        Ok(t) => t,
    };
    let mut actions: Vec<Action> = Vec::new();
    let mut i: usize = 0;
    while i < indexes.len()
        invariant
            i <= indexes@.len(),
            color == Some(c),
            color_fits(c),
            red == c.r as u8,
            green == c.g as u8,
            blue == c.b as u8,
            forall|k: int| 0 <= k < i ==> indexes@[k] < length,
            actions@ == indexes@.subrange(0, i as int).map_values(|j: u32| set_action(j, c)),
        decreases indexes@.len() - i,
    {
        let index = indexes[i];
        if index >= length as u32 {
            return Err(RequestError::OutOfRange);
        }
        actions.push(Action::SetPixel { index: index as u16, r: red, g: green, b: blue });
        i = i + 1;
        assert(indexes@.subrange(0, i as int).drop_last() == indexes@.subrange(0, i - 1));
        assert(actions@ =~= indexes@.subrange(0, i as int).map_values(|j: u32| set_action(j, c)));
    }
    assert(indexes@.subrange(0, i as int) == indexes@);
    actions.push(Action::Show);
    Ok(actions)
}

/// The actions for setting every pixel, in order, to `colors` and showing the
/// result. `InvalidArgument` when `colors` does not have one color per pixel,
/// `OutOfRange` when a channel exceeds 255.
pub fn set_all_request(colors: &Vec<Color>, length: u16) -> (r: Result<Vec<Action>, RequestError>)
    ensures
        colors@.len() != length ==> r == Err::<Vec<Action>, RequestError>(
            RequestError::InvalidArgument,
        ),
        colors@.len() == length && (exists|k: int|
            0 <= k < colors@.len() && !color_fits(colors@[k])) ==> r == Err::<
            Vec<Action>,
            RequestError,
        >(RequestError::OutOfRange),
        colors@.len() == length && (forall|k: int|
            0 <= k < colors@.len() ==> color_fits(colors@[k])) ==> r is Ok && r->Ok_0@ == Seq::new(
            colors@.len(),
            |k: int| set_action(k as u32, colors@[k]),
        ).push(Action::Show),
{
    if colors.len() != length as usize {
        return Err(RequestError::InvalidArgument);
    }
    let mut actions: Vec<Action> = Vec::new();
    let mut i: usize = 0;
    while i < colors.len()
        invariant
            i <= colors@.len(),
            colors@.len() == length,
            forall|k: int| 0 <= k < i ==> color_fits(colors@[k]),
            actions@ == Seq::new(i as nat, |k: int| set_action(k as u32, colors@[k])),
        decreases colors@.len() - i,
    {
        let (red, green, blue) = match color_bytes(colors[i]) {
            Err(e) => {
                return Err(e);
            },
            Ok(t) => t,
        };
        actions.push(Action::SetPixel { index: i as u16, r: red, g: green, b: blue });
        i = i + 1;
        assert(actions@ =~= Seq::new(i as nat, |k: int| set_action(k as u32, colors@[k])));
    }
    actions.push(Action::Show);
    Ok(actions)
}

/// The actions for filling the strip with `color` and showing it, or
/// `OutOfRange` when a channel exceeds 255.
pub fn fill_request(color: Color) -> (r: Result<Vec<Action>, RequestError>)
    ensures
        !color_fits(color) ==> r == Err::<Vec<Action>, RequestError>(RequestError::OutOfRange),
        color_fits(color) ==> r is Ok && r->Ok_0@ == seq![
            Action::Fill { r: color.r as u8, g: color.g as u8, b: color.b as u8 },
            Action::Show,
        ],
{
    let (red, green, blue) = match color_bytes(color) {
        Err(e) => {
            return Err(e);
        },
        Ok(t) => t,
    };
    let actions = vec![Action::Fill { r: red, g: green, b: blue }, Action::Show];
    assert(actions@ =~= seq![Action::Fill { r: red, g: green, b: blue }, Action::Show]);
    Ok(actions)
}

/// The actions for setting the brightness to `level` and showing it, or
/// `OutOfRange` when `level` exceeds 255.
pub fn brightness_request(level: u32) -> (r: Result<Vec<Action>, RequestError>)
    ensures
        level > 255 ==> r == Err::<Vec<Action>, RequestError>(RequestError::OutOfRange),
        level <= 255 ==> r is Ok && r->Ok_0@ == seq![Action::Brightness(level as u8), Action::Show],
{
    if level > 255 {
        return Err(RequestError::OutOfRange);
    }
    let actions = vec![Action::Brightness(level as u8), Action::Show];
    assert(actions@ =~= seq![Action::Brightness(level as u8), Action::Show]);
    Ok(actions)
}

} // verus!
