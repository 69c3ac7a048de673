//! Commands: what the script thread asks of the UI thread.

use vstd::prelude::*;

verus! {

/// Severity of a log line sent by the script.
#[derive(Debug, Clone, Copy, PartialEq, Eq, Structural)]
pub enum LogLevel {
    Debug,
    Info,
    Warn,
    Error,
}

/// The closed set of widget kinds the UI thread can build.
#[derive(Debug, Clone, PartialEq, Eq)]
pub enum WidgetKind {
    Label,
    Button,
    Svg,
    Flex,
    Container,
    SizedBox,
    Checkbox,
    TextInput,
    TextArea,
    Prose,
    ProgressBar,
    Spinner,
    Slider,
    ZStack,
    Portal,
    Grid,
    Hoverable,
    Image,
    Video,
    /// A kind this build has no constructor for, kept under the name the script gave.
    Custom(String),
}

/// Mathematical value of a [`WidgetKind`].
pub ghost enum WidgetKindView {
    Label,
    Button,
    Svg,
    Flex,
    Container,
    SizedBox,
    Checkbox,
    TextInput,
    TextArea,
    Prose,
    ProgressBar,
    Spinner,
    Slider,
    ZStack,
    Portal,
    Grid,
    Hoverable,
    Image,
    Video,
    Custom(Seq<char>),
}

impl View for WidgetKind {
    type V = WidgetKindView;

    open spec fn view(&self) -> WidgetKindView {
        match self {
            WidgetKind::Label => WidgetKindView::Label,
            WidgetKind::Button => WidgetKindView::Button,
            WidgetKind::Svg => WidgetKindView::Svg,
            WidgetKind::Flex => WidgetKindView::Flex,
            WidgetKind::Container => WidgetKindView::Container,
            WidgetKind::SizedBox => WidgetKindView::SizedBox,
            WidgetKind::Checkbox => WidgetKindView::Checkbox,
            WidgetKind::TextInput => WidgetKindView::TextInput,
            WidgetKind::TextArea => WidgetKindView::TextArea,
            WidgetKind::Prose => WidgetKindView::Prose,
            WidgetKind::ProgressBar => WidgetKindView::ProgressBar,
            WidgetKind::Spinner => WidgetKindView::Spinner,
            WidgetKind::Slider => WidgetKindView::Slider,
            WidgetKind::ZStack => WidgetKindView::ZStack,
            WidgetKind::Portal => WidgetKindView::Portal,
            WidgetKind::Grid => WidgetKindView::Grid,
            WidgetKind::Hoverable => WidgetKindView::Hoverable,
            WidgetKind::Image => WidgetKindView::Image,
            WidgetKind::Video => WidgetKindView::Video,
            WidgetKind::Custom(name) => WidgetKindView::Custom(name@),
        }
    }
}

impl WidgetKind {
    /// A second copy of this kind.
    pub fn duplicate(&self) -> (copy: WidgetKind)
        ensures
            copy@ == self@,
    {
        match self {
            WidgetKind::Label => WidgetKind::Label,
            WidgetKind::Button => WidgetKind::Button,
            WidgetKind::Svg => WidgetKind::Svg,
            WidgetKind::Flex => WidgetKind::Flex,
            WidgetKind::Container => WidgetKind::Container,
            WidgetKind::SizedBox => WidgetKind::SizedBox,
            WidgetKind::Checkbox => WidgetKind::Checkbox,
            WidgetKind::TextInput => WidgetKind::TextInput,
            WidgetKind::TextArea => WidgetKind::TextArea,
            WidgetKind::Prose => WidgetKind::Prose,
            WidgetKind::ProgressBar => WidgetKind::ProgressBar,
            WidgetKind::Spinner => WidgetKind::Spinner,
            WidgetKind::Slider => WidgetKind::Slider,
            WidgetKind::ZStack => WidgetKind::ZStack,
            WidgetKind::Portal => WidgetKind::Portal,
            WidgetKind::Grid => WidgetKind::Grid,
            WidgetKind::Hoverable => WidgetKind::Hoverable,
            WidgetKind::Image => WidgetKind::Image,
            WidgetKind::Video => WidgetKind::Video,
            WidgetKind::Custom(name) => WidgetKind::Custom(name.clone()),
        }
    }
}

/// One instruction from the script thread.
///
/// `S` and `D` are the style and data payloads of a widget. The UI thread
/// hands them to the native toolkit; nothing in this crate looks inside.
#[allow(inconsistent_fields)]
#[derive(Debug, Clone, PartialEq)]
pub enum JsCommand<S, D> {
    SetTitle(String),
    CreateWidget {
        id: String,
        kind: WidgetKind,
        parent_id: Option<String>,
        text: Option<String>,
        style: Option<S>,
        data: Option<D>,
    },
    RemoveWidget { id: String },
    SetWidgetText { id: String, text: String },
    SetWidgetVisible { id: String, visible: bool },
    ResizeWindow { width: u32, height: u32 },
    CloseWindow,
    ExitApp,
    Log { level: LogLevel, message: String },
}

} // verus!
