//! Which scrollbars a node shows, what the pointer hits of them, and their
//! colours.
use vstd::prelude::*;

verus! {

/// Colours of a scrollbar, each as red, green, blue and opacity.
#[derive(Debug, Clone, Copy)]
pub struct ScrollbarTheme {
    pub track: (u8, u8, u8, u8),
    pub thumb: (u8, u8, u8, u8),
}

/// How bright a colour is.
#[derive(Debug, Clone, Copy, PartialEq, Eq, Structural)]
pub enum Tone {
    Dark,
    Middle,
    Light,
}

/// Colours that read well on any background.
pub open spec fn default_theme() -> ScrollbarTheme {
    ScrollbarTheme { track: (0, 0, 0, 30), thumb: (120, 120, 120, 200) }
}

/// The colours of the scrollbars of a container whose text and background have
/// the given tones. The background decides where it is dark or light; else the
/// text does, and its own colour is used where it is neither.
pub open spec fn derived_theme(
    background: Tone,
    text: Tone,
    color: (u8, u8, u8),
) -> ScrollbarTheme {
    let tone = if background is Middle {
        text
    } else {
        background
    };
    match tone {
        Tone::Dark => ScrollbarTheme { track: (188, 188, 188, 70), thumb: (130, 130, 130, 210) },
        Tone::Light => ScrollbarTheme { track: (64, 64, 64, 70), thumb: (120, 120, 120, 210) },
        Tone::Middle => ScrollbarTheme {
            track: (color.0, color.1, color.2, 40),
            thumb: (color.0, color.1, color.2, 180),
        },
    }
}

impl ScrollbarTheme {
    /// Colours that read well on any background.
    pub fn defaults() -> (theme: Self)
        ensures
            theme == default_theme(),
    {
        ScrollbarTheme { track: (0, 0, 0, 30), thumb: (120, 120, 120, 200) }
    }

    /// The colours of the scrollbars of a container, from the tones of its
    /// background and text and the colour of its text.
    pub fn derived(background: Tone, text: Tone, color: (u8, u8, u8)) -> (theme: Self)
        ensures
            theme == derived_theme(background, text, color),
    {
        let tone = if matches!(background, Tone::Middle) {
            text
        } else {
            background
        };
        match tone {
            Tone::Dark => ScrollbarTheme {
                track: (188, 188, 188, 70),
                thumb: (130, 130, 130, 210),
            },
            Tone::Light => ScrollbarTheme {
                track: (64, 64, 64, 70),
                thumb: (120, 120, 120, 210),
            },
            Tone::Middle => ScrollbarTheme {
                track: (color.0, color.1, color.2, 40),
                thumb: (color.0, color.1, color.2, 180),
            },
        }
    }
}

/// The axis that a scrollbar scrolls.
#[derive(Debug, Clone, Copy, PartialEq, Eq, Structural)]
pub enum ScrollAxis {
    Vertical,
    Horizontal,
}

/// What happens to content that is larger than its box along one axis.
#[derive(Debug, Clone, Copy, PartialEq, Eq, Structural)]
pub enum Overflow {
    Visible,
    Hidden,
    Clip,
    Scroll,
    Auto,
}

/// Whether a node shows a scrollbar along an axis: its content overflows and
/// the node scrolls what overflows.
pub open spec fn shows_bar(overflow: Overflow, overflows: bool) -> bool {
    overflows && (overflow is Scroll || overflow is Auto)
}

/// The scrollbars of a node.
#[derive(Debug, Clone, Copy, PartialEq, Eq, Structural)]
pub struct Bars {
    pub vertical: bool,
    pub horizontal: bool,
}

impl Bars {
    /// The scrollbars that a node shows, from its `overflow-x` and `overflow-y`
    /// and from whether its content is wider and higher than its box.
    pub fn needed(
        overflow_x: Overflow,
        overflow_y: Overflow,
        wider: bool,
        higher: bool,
    ) -> (bars: Self)
        ensures
            bars.vertical == shows_bar(overflow_y, higher),
            bars.horizontal == shows_bar(overflow_x, wider),
    {
        Bars {
            vertical: higher && matches!(overflow_y, Overflow::Scroll | Overflow::Auto),
            horizontal: wider && matches!(overflow_x, Overflow::Scroll | Overflow::Auto),
        }
    }

    /// Whether the bar along an axis leaves the corner to the other bar: where
    /// both are shown, each is shortened by the other's thickness.
    pub fn leaves_corner(&self, axis: ScrollAxis) -> (leaves: bool)
        ensures
            leaves == (match axis {
                ScrollAxis::Vertical => self.horizontal,
                ScrollAxis::Horizontal => self.vertical,
            }),
    {
        match axis {
            ScrollAxis::Vertical => self.horizontal,
            ScrollAxis::Horizontal => self.vertical,
        }
    }
}

/// How the pointer lies to a scrollbar.
#[derive(Debug, Clone, Copy)]
pub struct BarMarks {
    pub axis: ScrollAxis,
    /// The pointer is on the track.
    pub on_track: bool,
    /// The pointer is within the thumb's width.
    pub beside_thumb: bool,
    /// The pointer is within the thumb's height.
    pub level_with_thumb: bool,
}

impl BarMarks {
    /// Whether the pointer is level with the thumb along the bar's axis.
    pub open spec fn at_thumb(&self) -> bool {
        match self.axis {
            ScrollAxis::Vertical => self.level_with_thumb,
            ScrollAxis::Horizontal => self.beside_thumb,
        }
    }
}

/// What the pointer hits of the scrollbars, with the position of the bar.
#[derive(Debug, Clone, Copy, PartialEq, Eq, Structural)]
pub enum ScrollbarHit {
    Thumb(usize),
    Track(usize),
}

/// The hit on the first scrollbar at or after `from` whose track the pointer is
/// on: its thumb where the pointer is level with it along the bar's axis.
pub open spec fn first_bar(bars: Seq<BarMarks>, from: int) -> Option<ScrollbarHit>
    decreases bars.len() - from,
{
    if from < 0 || from >= bars.len() {
        None
    } else if bars[from].on_track {
        Some(
            if bars[from].at_thumb() {
                ScrollbarHit::Thumb(from as usize)
            } else {
                ScrollbarHit::Track(from as usize)
            },
        )
    } else {
        first_bar(bars, from + 1)
    }
}

/// What the pointer hits of the scrollbars.
pub fn hit_scrollbar(bars: &Vec<BarMarks>) -> (hit: Option<ScrollbarHit>)
    ensures
        hit == first_bar(bars@, 0),
{
    let mut i: usize = 0;
    while i < bars.len()
        invariant
            i <= bars@.len(),
            first_bar(bars@, 0) == first_bar(bars@, i as int),
        decreases bars@.len() - i,
    {
        if bars[i].on_track {
            let at_thumb = match bars[i].axis {
                ScrollAxis::Vertical => bars[i].level_with_thumb,
                ScrollAxis::Horizontal => bars[i].beside_thumb,
            };
            return Some(
                if at_thumb {
                    ScrollbarHit::Thumb(i)
                } else {
                    ScrollbarHit::Track(i)
                },
            );
        }
        i += 1;
    }
    None
}

/// A node shows a scrollbar along an axis exactly where its content overflows there and
/// its style says `scroll` or `auto`.
pub proof fn bars_need_overflow(overflow: Overflow, overflows: bool)
    ensures
        !shows_bar(overflow, false),
        shows_bar(Overflow::Scroll, true) && shows_bar(Overflow::Auto, true),
        !shows_bar(Overflow::Visible, overflows) && !shows_bar(Overflow::Hidden, overflows)
            && !shows_bar(Overflow::Clip, overflows),
{
}

/// A dark background gets a light track, a light one a dark track. A background in
/// between leaves it to the text, and text in between gives its own colour.
pub proof fn colours_follow_the_background(
    background: Tone,
    text: Tone,
    color: (u8, u8, u8),
)
    ensures
        ({
            let theme = derived_theme(background, text, color);
            let dark = background is Dark || (background is Middle && text is Dark);
            let light = background is Light || (background is Middle && text is Light);
            &&& dark ==> theme.track == (188u8, 188u8, 188u8, 70u8) && theme.thumb == (
                130u8,
                130u8,
                130u8,
                210u8,
            )
            &&& light ==> theme.track == (64u8, 64u8, 64u8, 70u8) && theme.thumb == (
                120u8,
                120u8,
                120u8,
                210u8,
            )
            &&& !dark && !light ==> theme.track == (color.0, color.1, color.2, 40u8) && theme.thumb
                == (color.0, color.1, color.2, 180u8)
        }),
        default_theme().track == (0u8, 0u8, 0u8, 30u8),
        default_theme().thumb == (120u8, 120u8, 120u8, 200u8),
{
}

/// The pointer hits the first bar whose track it is on: the thumb where it is level
/// with that along the bar, and else the track. It hits none only where it is on no
/// track.
pub proof fn first_bar_is_hit(bars: Seq<BarMarks>, from: int)
    requires
        0 <= from <= bars.len() <= usize::MAX,
    ensures
        match first_bar(bars, from) {
            Some(hit) => {
                let at = match hit {
                    ScrollbarHit::Thumb(at) => at,
                    ScrollbarHit::Track(at) => at,
                };
                &&& from <= at < bars.len()
                &&& bars[at as int].on_track
                &&& hit is Thumb <==> (if bars[at as int].axis is Vertical {
                    bars[at as int].level_with_thumb
                } else {
                    bars[at as int].beside_thumb
                })
                &&& forall|i: int| from <= i < at ==> !(#[trigger] bars[i]).on_track
            },
            None => forall|i: int| from <= i < bars.len() ==> !(#[trigger] bars[i]).on_track,
        },
    decreases bars.len() - from,
{
    if from < bars.len() && !bars[from].on_track {
        first_bar_is_hit(bars, from + 1);
    }
}

} // verus!
