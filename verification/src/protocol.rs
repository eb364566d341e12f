//! The messages that the plugin sends to the Stream Deck / OpenDeck host.
//! They are built here and written out as JSON by the program around the library.
use vstd::prelude::*;
use vstd::string::StringExecFns;

use crate::encoding::{data_uri_spec, png_data_uri};

verus! {

/// Registers the plugin with the host.
pub struct RegisterEvent<'a> {
    pub event: &'a str,
    pub uuid: &'a str,
}

/// Asks the host for the settings of a key or infobar item.
pub struct GetSettings<'a> {
    pub event: &'a str,
    pub context: &'a str,
}

/// Sets the state (0 or 1) of a two-state key.
pub struct SetState<'a> {
    pub event: &'a str,
    pub context: &'a str,
    pub payload: SetStatePayload,
}

/// Payload of `SetState`.
pub struct SetStatePayload {
    pub state: u32,
}

/// Sets the title of a key.
pub struct SetTitle<'a> {
    pub event: &'a str,
    pub context: &'a str,
    pub payload: SetTitlePayload<'a>,
}

/// Payload of `SetTitle`.
pub struct SetTitlePayload<'a> {
    pub title: &'a str,
    pub target: u32,
}

/// Sets the image of a key or infobar item.
pub struct SetImage {
    pub event: &'static str,
    pub context: String,
    pub payload: SetImagePayload,
}

/// Payload of `SetImage`: the image as a data URI.
pub struct SetImagePayload {
    pub image: String,
    pub target: u32,
}

/// Shows or hides an infobar item.
pub struct SetInfobarItemVisibility<'a> {
    pub event: &'static str,
    pub context: &'a str,
    pub payload: SetInfobarItemVisibilityPayload,
}

/// Payload of `SetInfobarItemVisibility`.
pub struct SetInfobarItemVisibilityPayload {
    pub visible: bool,
}

/// The image-with-title-and-subtitle component of an infobar item.
pub struct ImageTitleSubtitle {
    pub image: String,
    pub title: String,
    pub subtitle: String,
}

/// Gives an infobar item a native component.
pub struct SetInfobarComponent {
    pub event: &'static str,
    pub payload: SetInfobarComponentPayload,
}

/// Payload of `SetInfobarComponent`.
pub struct SetInfobarComponentPayload {
    pub context: String,
    pub component: ImageTitleSubtitle,
}

/// A message that refreshes a key or infobar item.
pub enum Outgoing<'a> {
    Visibility(SetInfobarItemVisibility<'a>),
    Image(SetImage),
    Component(SetInfobarComponent),
    State(SetState<'a>),
}

/// The registration message.
pub fn register_event<'a>(event: &'a str, uuid: &'a str) -> (m: RegisterEvent<'a>)
    ensures
        m.event == event,
        m.uuid == uuid,
{
    RegisterEvent { event, uuid }
}

/// The request for the settings of `context`.
pub fn get_settings<'a>(context: &'a str) -> (m: GetSettings<'a>)
    ensures
        m.event@ == "getSettings"@,
        m.context == context,
{
    GetSettings { event: "getSettings", context }
}

/// Sets the state of the key `context`.
pub fn set_state<'a>(context: &'a str, state: u32) -> (m: SetState<'a>)
    ensures
        m.event@ == "setState"@,
        m.context == context,
        m.payload.state == state,
{
    SetState { event: "setState", context, payload: SetStatePayload { state } }
}

/// Sets the image of `context` to the data URI `image`.
pub fn set_image(context: &str, image: String) -> (m: SetImage)
    ensures
        m.event@ == "setImage"@,
        m.context@ == context@,
        m.payload.image == image,
        m.payload.target == 0,
{
    SetImage {
        event: "setImage",
        context: String::from_str(context),
        payload: SetImagePayload { image, target: 0 },
    }
}

/// Sets the image of `context` to the PNG file `bytes`.
pub fn make_set_image(ctx: &str, bytes: &[u8]) -> (m: SetImage)
    ensures
        m.event@ == "setImage"@,
        m.context@ == ctx@,
        m.payload.image@ == data_uri_spec("image/png"@, bytes@),
        m.payload.target == 0,
{
    set_image(ctx, png_data_uri(bytes))
}

/// Shows (`visible`) or hides the infobar item `ctx`.
pub fn make_set_infobar_item_visibility<'a>(ctx: &'a str, visible: bool) -> (m:
    SetInfobarItemVisibility<'a>)
    ensures
        m.event@ == "setInfobarItemVisibility"@,
        m.context == ctx,
        m.payload.visible == visible,
{
    SetInfobarItemVisibility {
        event: "setInfobarItemVisibility",
        context: ctx,
        payload: SetInfobarItemVisibilityPayload { visible },
    }
}

/// Gives the infobar item `context` an image with a title and subtitle.
pub fn set_infobar_component(context: &str, image: String, title: String, subtitle: String) -> (m:
    SetInfobarComponent)
    ensures
        m.event@ == "setInfobarComponent"@,
        m.payload.context@ == context@,
        m.payload.component.image == image,
        m.payload.component.title == title,
        m.payload.component.subtitle == subtitle,
{
    SetInfobarComponent {
        event: "setInfobarComponent",
        payload: SetInfobarComponentPayload {
            context: String::from_str(context),
            component: ImageTitleSubtitle { image, title, subtitle },
        },
    }
}

} // verus!
