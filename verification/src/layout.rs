//! The Win32 layout engine. Win32 has no stack view, so containers place
//! their children by hand: stacks along one axis with spacing and insets,
//! spacers and fill-remaining children sharing what is left, overlays and
//! navigation stacks filling the container. Sizes are pixels; the 96-DPI
//! constants of the intrinsic-size table are scaled by the shell.
use vstd::prelude::*;

verus! {

/// The kinds of widget the layout engine knows.
#[derive(Clone, Copy, Debug)]
pub enum WidgetKind {
    VStack,
    HStack,
    ZStack,
    Spacer,
    Text,
    Button,
    TextField,
    Toggle,
    Slider,
    Divider,
    ScrollView,
    SecureField,
    ProgressView,
    Form,
    Section,
    LazyVStack,
    NavStack,
    Picker,
    Canvas,
    Image,
    Calendar,
    DatePicker,
    Combobox,
    TreeView,
    RichText,
    Chart,
    TextArea,
    WheelPicker,
}

/// How a container places its children.
#[derive(Clone, Copy)]
pub enum ContainerLayout {
    /// Along one axis (`vertical` for a column).
    Stack { vertical: bool },
    /// One content child, full width, at least the viewport's height.
    Scroll,
    /// Every shown child fills the container.
    Overlay,
    /// Every shown child fills the container; the top page is the one
    /// shown.
    Navigation,
}

/// The layout a widget of `kind` applies to its children: columns for
/// vertical stacks, forms, sections and lazy vertical stacks, a row for a
/// horizontal stack; leaves lay nothing out.
pub open spec fn container_layout_spec(kind: WidgetKind) -> Option<ContainerLayout> {
    match kind {
        WidgetKind::VStack | WidgetKind::Form | WidgetKind::Section | WidgetKind::LazyVStack => Some(
            ContainerLayout::Stack { vertical: true },
        ),
        WidgetKind::HStack => Some(ContainerLayout::Stack { vertical: false }),
        WidgetKind::ScrollView => Some(ContainerLayout::Scroll),
        WidgetKind::ZStack => Some(ContainerLayout::Overlay),
        WidgetKind::NavStack => Some(ContainerLayout::Navigation),
        _ => None,
    }
}

/// What laying out a widget of `kind` does: nothing when it is hidden or a
/// leaf, otherwise its container layout.
pub fn layout_for(kind: WidgetKind, hidden: bool) -> (l: Option<ContainerLayout>)
    ensures
        l == (if hidden {
            None
        } else {
            container_layout_spec(kind)
        }),
{
    if hidden {
        return None;
    }
    match kind {
        WidgetKind::VStack | WidgetKind::Form | WidgetKind::Section | WidgetKind::LazyVStack => Some(
            ContainerLayout::Stack { vertical: true },
        ),
        WidgetKind::HStack => Some(ContainerLayout::Stack { vertical: false }),
        WidgetKind::ScrollView => Some(ContainerLayout::Scroll),
        WidgetKind::ZStack => Some(ContainerLayout::Overlay),
        WidgetKind::NavStack => Some(ContainerLayout::Navigation),
        _ => None,
    }
}

/// How the main-axis size of a widget is found.
#[derive(Clone, Copy)]
pub enum Intrinsic {
    /// A fixed dimension the app set: used as is.
    Fixed(i32),
    /// A 96-DPI size, to be scaled to the display.
    Scaled(i32),
    /// The extent of the control's text plus `padding` (96-DPI); `fallback`
    /// (96-DPI) when the control has no window to measure.
    Text { padding: i32, fallback: i32 },
    /// The stack measurement of the children, as a column (`vertical`) or
    /// a row.
    Stack { vertical: bool },
    /// Nothing: spacers take their share of the leftover space instead.
    Zero,
}

/// The 96-DPI intrinsic size of a fixed-size widget along the measured
/// axis (`vertical` for height), `None` for the kinds measured otherwise.
pub open spec fn logical_size(kind: WidgetKind, vertical: bool) -> Option<i32> {
    match kind {
        WidgetKind::TextField => Some(if vertical { 30i32 } else { 200 }),
        WidgetKind::Toggle => Some(if vertical { 24i32 } else { 100 }),
        WidgetKind::Slider | WidgetKind::SecureField => Some(if vertical { 24i32 } else { 200 }),
        WidgetKind::Divider => Some(2i32),
        WidgetKind::ScrollView | WidgetKind::LazyVStack | WidgetKind::ZStack | WidgetKind::NavStack
        | WidgetKind::Canvas => Some(200i32),
        WidgetKind::ProgressView => Some(if vertical { 20i32 } else { 200 }),
        WidgetKind::Picker | WidgetKind::Combobox => Some(if vertical { 28i32 } else { 200 }),
        WidgetKind::Image => Some(24i32),
        WidgetKind::Calendar => Some(if vertical { 240i32 } else { 280 }),
        WidgetKind::DatePicker => Some(if vertical { 28i32 } else { 160 }),
        WidgetKind::TreeView | WidgetKind::RichText | WidgetKind::Chart => Some(
            if vertical { 200i32 } else { 240 },
        ),
        WidgetKind::TextArea => Some(if vertical { 120i32 } else { 280 }),
        WidgetKind::WheelPicker => Some(if vertical { 140i32 } else { 90 }),
        _ => None,
    }
}

/// How the intrinsic size of a widget of `kind` along the measured axis is
/// found: a fixed dimension on that axis wins; text and buttons measure
/// their text (a button with padding); stacks, forms and sections measure
/// their children; spacers are zero; every other kind has a 96-DPI size.
pub open spec fn intrinsic_spec(
    kind: WidgetKind,
    vertical: bool,
    fixed_width: Option<i32>,
    fixed_height: Option<i32>,
) -> Intrinsic {
    if vertical && fixed_height is Some {
        Intrinsic::Fixed(fixed_height->0)
    } else if !vertical && fixed_width is Some {
        Intrinsic::Fixed(fixed_width->0)
    } else {
        match kind {
            WidgetKind::Text => Intrinsic::Text { padding: 0, fallback: if vertical { 20 } else { 100 } },
            WidgetKind::Button => Intrinsic::Text {
                padding: if vertical { 16 } else { 32 },
                fallback: if vertical { 34 } else { 100 },
            },
            WidgetKind::Spacer => Intrinsic::Zero,
            WidgetKind::VStack | WidgetKind::Form | WidgetKind::Section => Intrinsic::Stack {
                vertical: true,
            },
            WidgetKind::HStack => Intrinsic::Stack { vertical: false },
            _ => Intrinsic::Scaled(logical_size(kind, vertical)->0),
        }
    }
}

/// Containers are measured by their children, in their own direction: a
/// vertical stack, a form and a section as a column, a horizontal stack as
/// a row — unless the app fixed the size on the measured axis, which then
/// is the size. Spacers measure nothing.
pub proof fn law_stacks_measure_in_their_direction(
    kind: WidgetKind,
    vertical: bool,
    fixed_width: Option<i32>,
    fixed_height: Option<i32>,
)
    ensures
        ({
            let fixed_on_axis = if vertical { fixed_height } else { fixed_width };
            let plan = intrinsic_spec(kind, vertical, fixed_width, fixed_height);
            &&& fixed_on_axis is Some ==> plan == Intrinsic::Fixed(fixed_on_axis->0)
            &&& fixed_on_axis is None && (kind is VStack || kind is Form || kind is Section) ==> plan
                == Intrinsic::Stack { vertical: true }
            &&& fixed_on_axis is None && kind is HStack ==> plan == Intrinsic::Stack { vertical: false }
            &&& fixed_on_axis is None && kind is Spacer ==> plan == Intrinsic::Zero
            &&& plan is Stack ==> kind is VStack || kind is HStack || kind is Form || kind is Section
        }),
{
}

/// Every control measured by the 96-DPI table has a positive size on both
/// axes, and a wheel is as tall as the rows it shows at rest.
pub proof fn law_table_sizes(kind: WidgetKind, vertical: bool)
    ensures
        intrinsic_spec(kind, vertical, None, None) matches Intrinsic::Scaled(n) ==> n > 0,
        intrinsic_spec(kind, vertical, None, None) matches Intrinsic::Text { padding, fallback } ==> padding
            >= 0 && fallback > 0,
        intrinsic_spec(WidgetKind::WheelPicker, true, None, None) == Intrinsic::Scaled(
            (crate::wheel::VISIBLE_ROWS * crate::wheel::ROW_HEIGHT) as i32,
        ),
{
}

/// How to measure a widget of `kind` along the main axis of its stack
/// (`vertical` for a column); the fixed dimensions are those the app set.
pub fn intrinsic_plan(
    kind: WidgetKind,
    vertical: bool,
    fixed_width: Option<i32>,
    fixed_height: Option<i32>,
) -> (i: Intrinsic)
    ensures
        i == intrinsic_spec(kind, vertical, fixed_width, fixed_height),
{
    if vertical {
        if let Some(h) = fixed_height {
            return Intrinsic::Fixed(h);
        }
    } else {
        if let Some(w) = fixed_width {
            return Intrinsic::Fixed(w);
        }
    }
    let v = vertical;
    match kind {
        WidgetKind::Text => Intrinsic::Text { padding: 0, fallback: if v { 20 } else { 100 } },
        WidgetKind::Button => Intrinsic::Text {
            padding: if v { 16 } else { 32 },
            fallback: if v { 34 } else { 100 },
        },
        WidgetKind::Spacer => Intrinsic::Zero,
        WidgetKind::VStack | WidgetKind::Form | WidgetKind::Section => Intrinsic::Stack {
            vertical: true,
        },
        WidgetKind::HStack => Intrinsic::Stack { vertical: false },
        WidgetKind::TextField => Intrinsic::Scaled(if v { 30 } else { 200 }),
        WidgetKind::Toggle => Intrinsic::Scaled(if v { 24 } else { 100 }),
        WidgetKind::Slider | WidgetKind::SecureField => Intrinsic::Scaled(if v { 24 } else { 200 }),
        WidgetKind::Divider => Intrinsic::Scaled(2),
        WidgetKind::ScrollView | WidgetKind::LazyVStack | WidgetKind::ZStack | WidgetKind::NavStack
        | WidgetKind::Canvas => Intrinsic::Scaled(200),
        WidgetKind::ProgressView => Intrinsic::Scaled(if v { 20 } else { 200 }),
        WidgetKind::Picker | WidgetKind::Combobox => Intrinsic::Scaled(if v { 28 } else { 200 }),
        WidgetKind::Image => Intrinsic::Scaled(24),
        WidgetKind::Calendar => Intrinsic::Scaled(if v { 240 } else { 280 }),
        WidgetKind::DatePicker => Intrinsic::Scaled(if v { 28 } else { 160 }),
        WidgetKind::TreeView | WidgetKind::RichText | WidgetKind::Chart => Intrinsic::Scaled(
            if v { 200 } else { 240 },
        ),
        WidgetKind::TextArea => Intrinsic::Scaled(if v { 120 } else { 280 }),
        WidgetKind::WheelPicker => Intrinsic::Scaled(if v { 140 } else { 90 }),
    }
}

/// Whether a child of `kind` is a combo-box style control, whose window
/// height also bounds its drop-down list: the layout keeps the closed
/// height for stacking but gives the window room for the list to open.
pub fn has_dropdown(kind: WidgetKind) -> (b: bool)
    ensures
        b == (kind is Picker || kind is Combobox),
{
    match kind {
        WidgetKind::Picker | WidgetKind::Combobox => true,
        _ => false,
    }
}

} // verus!
