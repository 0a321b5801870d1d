//! The adjustable parameter set of the pipeline, and the decision function
//! that maps interface events to parameter updates and follow-up actions.

use vstd::prelude::*;
use crate::tint::TintAdjustment;

verus! {

/// Every control of one pipeline invocation. Factors and blend weights are
/// in thousandths (1000 stands for 1.0); the tint passes apply in list
/// order.
pub struct FilterParameters {
    pub grain_intensity: i16,
    pub color_enhancement: u32,
    pub glow_intensity: u32,
    pub sharpness: u32,
    pub exposure: u32,
    pub whites: u32,
    pub blacks: i32,
    pub tint: Vec<TintAdjustment>,
    pub apply_grayscale: bool,
}

impl Default for FilterParameters {
    /// The controls a fresh session starts from: light grain, a slight
    /// color boost, a soft glow, strong sharpening, raised blacks and one
    /// default tint pass.
    fn default() -> (d: Self)
        ensures
            d.grain_intensity == 10,
            d.color_enhancement == 1050,
            d.glow_intensity == 50,
            d.sharpness == 800,
            d.exposure == 1000,
            d.blacks == 1000,
            d.whites == 1000,
            d.tint@ =~= seq![
                (TintAdjustment { hue: 180000, strength: 300, preserve_gray: 500, luminance_mask: 0 })
            ],
            !d.apply_grayscale,
    {
        let mut tint: Vec<TintAdjustment> = Vec::new();
        tint.push(TintAdjustment::default());
        FilterParameters {
            grain_intensity: 10,
            color_enhancement: 1050,
            glow_intensity: 50,
            sharpness: 800,
            exposure: 1000,
            blacks: 1000,
            whites: 1000,
            tint,
            apply_grayscale: false,
        }
    }
}

#[derive(Clone, Copy, Debug, PartialEq, Eq, Structural)]
pub enum MenuItem {
    File,
    Edit,
    View,
    Help,
}

#[derive(Clone, Copy, Debug, PartialEq, Eq, Structural)]
pub enum MenuMessage {
    Menu1,
    Menu2,
    Menu3,
    Menu4,
    Menu5,
    Menu6,
    Menu7,
}

/// An interface event.
#[derive(Clone, Copy, Debug)]
pub enum Message {
    SelectImage,
    ProcessImage,
    GrainIntensityChanged(i16),
    ColorEnhancementChanged(u32),
    GlowIntensityChanged(u32),
    SharpnessChanged(u32),
    ExposureChanged(u32),
    WhitesChanged(u32),
    BlacksChanged(i32),
    TintChanged(TintAdjustment),
    ApplyGrayscale,
    MenuItemSelected(MenuItem),
    ToggleImageView,
}

/// What the caller must do after a message is handled.
#[derive(Clone, Copy, Debug, PartialEq, Eq, Structural)]
pub enum Action {
    PickImage,
    ProcessImage,
    RefreshPreview,
    ToggleImageView,
    RecordMenuChoice,
}

/// Fields untouched by a tint change.
pub open spec fn same_but_tint(a: FilterParameters, b: FilterParameters) -> bool {
    &&& a.grain_intensity == b.grain_intensity
    &&& a.color_enhancement == b.color_enhancement
    &&& a.glow_intensity == b.glow_intensity
    &&& a.sharpness == b.sharpness
    &&& a.exposure == b.exposure
    &&& a.whites == b.whites
    &&& a.blacks == b.blacks
    &&& a.apply_grayscale == b.apply_grayscale
}

/// Update the parameters for one interface event and say what to do next:
/// slider events store the new value and ask for a preview refresh, a
/// grayscale event toggles the switch, and the remaining events change
/// nothing and only name the follow-up.
pub fn handle_message(params: &mut FilterParameters, message: Message) -> (action: Action)
    ensures
        message matches Message::SelectImage
            ==> *final(params) == *old(params) && action == Action::PickImage,
        message matches Message::ProcessImage
            ==> *final(params) == *old(params) && action == Action::ProcessImage,
        message matches Message::GrainIntensityChanged(v) ==> *final(params)
            == (FilterParameters { grain_intensity: v, ..*old(params) })
            && action == Action::RefreshPreview,
        message matches Message::ColorEnhancementChanged(v) ==> *final(params)
            == (FilterParameters { color_enhancement: v, ..*old(params) })
            && action == Action::RefreshPreview,
        message matches Message::GlowIntensityChanged(v) ==> *final(params)
            == (FilterParameters { glow_intensity: v, ..*old(params) })
            && action == Action::RefreshPreview,
        message matches Message::SharpnessChanged(v) ==> *final(params)
            == (FilterParameters { sharpness: v, ..*old(params) })
            && action == Action::RefreshPreview,
        message matches Message::ExposureChanged(v) ==> *final(params)
            == (FilterParameters { exposure: v, ..*old(params) })
            && action == Action::RefreshPreview,
        message matches Message::WhitesChanged(v) ==> *final(params)
            == (FilterParameters { whites: v, ..*old(params) })
            && action == Action::RefreshPreview,
        message matches Message::BlacksChanged(v) ==> *final(params)
            == (FilterParameters { blacks: v, ..*old(params) })
            && action == Action::RefreshPreview,
        message matches Message::TintChanged(t)
            ==> same_but_tint(*final(params), *old(params))
            && final(params).tint@ =~= seq![t]
            && action == Action::RefreshPreview,
        message matches Message::ApplyGrayscale ==> *final(params)
            == (FilterParameters { apply_grayscale: !old(params).apply_grayscale, ..*old(params) })
            && action == Action::RefreshPreview,
        message matches Message::MenuItemSelected(_)
            ==> *final(params) == *old(params) && action == Action::RecordMenuChoice,
        message matches Message::ToggleImageView
            ==> *final(params) == *old(params) && action == Action::ToggleImageView,
{
    match message {
        Message::SelectImage => Action::PickImage,
        Message::ProcessImage => Action::ProcessImage,
        Message::GrainIntensityChanged(v) => {
            params.grain_intensity = v;
            Action::RefreshPreview
        },
        Message::ColorEnhancementChanged(v) => {
            params.color_enhancement = v;
            Action::RefreshPreview
        },
        Message::GlowIntensityChanged(v) => {
            params.glow_intensity = v;
            Action::RefreshPreview
        },
        Message::SharpnessChanged(v) => {
            params.sharpness = v;
            Action::RefreshPreview
        },
        Message::ExposureChanged(v) => {
            params.exposure = v;
            Action::RefreshPreview
        },
        Message::WhitesChanged(v) => {
            params.whites = v;
            Action::RefreshPreview
        },
        Message::BlacksChanged(v) => {
            params.blacks = v;
            Action::RefreshPreview
        },
        Message::TintChanged(t) => {
            let mut tint: Vec<TintAdjustment> = Vec::new();
            tint.push(t);
            params.tint = tint;
            Action::RefreshPreview
        },
        Message::ApplyGrayscale => {
            params.apply_grayscale = !params.apply_grayscale;
            Action::RefreshPreview
        },
        Message::MenuItemSelected(_) => Action::RecordMenuChoice,
        Message::ToggleImageView => Action::ToggleImageView,
    }
}

} // verus!
