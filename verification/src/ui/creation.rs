//! Planning the creation of a widget: where it goes in the native tree, and
//! which constructor builds it from which parts of the command.

use vstd::prelude::*;

use crate::ipc::commands::{WidgetKind, WidgetKindView};
use crate::ui::widget_manager::{
    option_name, parent_key_of, NativeHandle, RegistryView, WidgetInfo, WidgetInfoView,
    WidgetManager, ROOT_KEY,
};

verus! {

/// The constructor of the native toolkit that builds a widget.
#[derive(Debug, Clone, Copy, PartialEq, Eq, Structural)]
pub enum Construction {
    Label,
    Button,
    Svg,
    Flex,
    SizedBox,
    Checkbox,
    TextInput,
    TextArea,
    Prose,
    ProgressBar,
    Spinner,
    Slider,
    ZStack,
    Portal,
    Grid,
    Hoverable,
    Image,
    Video,
    /// A label that shows the name of a kind without a constructor.
    FallbackLabel,
}

/// The constructor for each kind: one per kind, but that containers are
/// flex boxes, and that a custom kind gets the fallback label.
pub open spec fn construction_of(kind: WidgetKindView) -> Construction {
    match kind {
        WidgetKindView::Label => Construction::Label,
        WidgetKindView::Button => Construction::Button,
        WidgetKindView::Svg => Construction::Svg,
        WidgetKindView::Flex => Construction::Flex,
        WidgetKindView::Container => Construction::Flex,
        WidgetKindView::SizedBox => Construction::SizedBox,
        WidgetKindView::Checkbox => Construction::Checkbox,
        WidgetKindView::TextInput => Construction::TextInput,
        WidgetKindView::TextArea => Construction::TextArea,
        WidgetKindView::Prose => Construction::Prose,
        WidgetKindView::ProgressBar => Construction::ProgressBar,
        WidgetKindView::Spinner => Construction::Spinner,
        WidgetKindView::Slider => Construction::Slider,
        WidgetKindView::ZStack => Construction::ZStack,
        WidgetKindView::Portal => Construction::Portal,
        WidgetKindView::Grid => Construction::Grid,
        WidgetKindView::Hoverable => Construction::Hoverable,
        WidgetKindView::Image => Construction::Image,
        WidgetKindView::Video => Construction::Video,
        WidgetKindView::Custom(_) => Construction::FallbackLabel,
    }
}

/// Whether the constructor is handed the command's text.
pub open spec fn takes_text(c: Construction) -> bool {
    c is Label || c is Svg || c is Checkbox || c is TextInput || c is TextArea || c is Prose || c
        is FallbackLabel
}

/// Whether the constructor is handed the command's data.
pub open spec fn takes_data(c: Construction) -> bool {
    c is Svg || c is Flex || c is Checkbox || c is TextInput || c is ProgressBar || c is Slider || c
        is Image || c is Video
}

/// `name` as `Debug` prints a string: between quotes, with escapes.
pub uninterp spec fn debug_text_of(name: Seq<char>) -> Seq<char>;

/// Formats `name` with `Debug` for `str`, which writes the text between
/// quotes with its escapes. Taken on trust: the result is a function of the
/// text alone, called [`debug_text_of`]; nothing more is claimed of it.
#[verifier::external_body]
fn debug_text(name: &str) -> (quoted: String)
    ensures
        quoted@ == debug_text_of(name@),
{
    format!("{:?}", name)
}

/// The text of the fallback label for a custom kind whose name, as `Debug`
/// prints it, is `quoted`.
pub open spec fn fallback_text(quoted: Seq<char>) -> Seq<char> {
    "[Custom("@ + quoted + ")]"@
}

/// The text of the fallback label for a custom kind whose name, as `Debug`
/// prints it, is `quoted`.
pub fn fallback_label(quoted: &str) -> (label: String)
    ensures
        label@ == fallback_text(quoted@),
{
    let mut label = "[Custom(".to_owned();
    label.append(quoted);
    label.append(")]");
    label
}

/// Why a widget is not created.
#[derive(Debug, Clone, Copy, PartialEq, Eq, Structural)]
pub enum Rejection {
    /// The name is the key of the root container.
    ReservedId,
    /// A widget of that name exists.
    DuplicateId,
    /// The parent named is not registered.
    UnknownParent,
    /// The parent named lies under the name: the name stood for a parent
    /// before any widget took it.
    OwnDescendant,
}

/// Why the registry `r` does not admit `id` under `parent_id`; `None` where
/// it does.
pub open spec fn rejection(r: RegistryView, id: Seq<char>, parent_id: Option<Seq<char>>) -> Option<
    Rejection,
> {
    if id == crate::ui::widget_manager::root_key() {
        Some(Rejection::ReservedId)
    } else if r.widgets.contains_key(id) {
        Some(Rejection::DuplicateId)
    } else if parent_id is Some && !r.widgets.contains_key(parent_id->0) {
        Some(Rejection::UnknownParent)
    } else if r.under(id, parent_key_of(parent_id)) {
        Some(Rejection::OwnDescendant)
    } else {
        None
    }
}

/// What the UI thread must build and insert into the native tree.
#[derive(Debug, Clone, PartialEq)]
pub struct Insertion<S, D> {
    /// The name the script gave the widget.
    pub id: String,
    /// Its kind.
    pub kind: WidgetKind,
    /// The name of its parent; `None` for the root container.
    pub parent_id: Option<String>,
    /// The native handle of its parent; `None` for the root container.
    pub parent: Option<NativeHandle>,
    /// The position it gets: the end of its parent's list.
    pub child_index: usize,
    /// The constructor that builds it.
    pub construction: Construction,
    /// The text handed to the constructor.
    pub text: Option<String>,
    /// The style handed to the constructor.
    pub style: Option<S>,
    /// The data handed to the constructor.
    pub data: Option<D>,
}

impl<S, D> Insertion<S, D> {
    /// The record under which the widget is registered once it has the
    /// native handle `handle`.
    pub open spec fn record(self, handle: NativeHandle) -> WidgetInfoView {
        WidgetInfoView {
            widget_id: handle,
            kind: self.kind@,
            parent_id: option_name(self.parent_id),
            child_index: self.child_index as nat,
        }
    }
}

/// The text that the constructor for `kind` is handed: the command's text
/// where the constructor takes one, and for a custom kind without text the
/// fallback label.
pub open spec fn construction_text(kind: WidgetKindView, text: Option<Seq<char>>) -> Option<
    Seq<char>,
> {
    match kind {
        WidgetKindView::Custom(name) => match text {
            Some(t) => Some(t),
            None => Some(fallback_text(debug_text_of(name))),
        },
        _ => if takes_text(construction_of(kind)) {
            text
        } else {
            None
        },
    }
}

/// The constructor for `kind`.
pub fn construction_for(kind: &WidgetKind) -> (c: Construction)
    ensures
        c == construction_of(kind@),
{
    match kind {
        WidgetKind::Label => Construction::Label,
        WidgetKind::Button => Construction::Button,
        WidgetKind::Svg => Construction::Svg,
        WidgetKind::Flex => Construction::Flex,
        WidgetKind::Container => Construction::Flex,
        WidgetKind::SizedBox => Construction::SizedBox,
        WidgetKind::Checkbox => Construction::Checkbox,
        WidgetKind::TextInput => Construction::TextInput,
        WidgetKind::TextArea => Construction::TextArea,
        WidgetKind::Prose => Construction::Prose,
        WidgetKind::ProgressBar => Construction::ProgressBar,
        WidgetKind::Spinner => Construction::Spinner,
        WidgetKind::Slider => Construction::Slider,
        WidgetKind::ZStack => Construction::ZStack,
        WidgetKind::Portal => Construction::Portal,
        WidgetKind::Grid => Construction::Grid,
        WidgetKind::Hoverable => Construction::Hoverable,
        WidgetKind::Image => Construction::Image,
        WidgetKind::Video => Construction::Video,
        WidgetKind::Custom(_) => Construction::FallbackLabel,
    }
}

/// Whether the constructor is handed the command's text.
fn hands_text(c: Construction) -> (yes: bool)
    ensures
        yes == takes_text(c),
{
    match c {
        Construction::Label => true,
        Construction::Svg => true,
        Construction::Checkbox => true,
        Construction::TextInput => true,
        Construction::TextArea => true,
        Construction::Prose => true,
        Construction::FallbackLabel => true,
        _ => false,
    }
}

/// Whether the constructor is handed the command's data.
fn hands_data(c: Construction) -> (yes: bool)
    ensures
        yes == takes_data(c),
{
    match c {
        Construction::Svg => true,
        Construction::Flex => true,
        Construction::Checkbox => true,
        Construction::TextInput => true,
        Construction::ProgressBar => true,
        Construction::Slider => true,
        Construction::Image => true,
        Construction::Video => true,
        _ => false,
    }
}

/// Plans the creation of the widget `id`.
///
/// The widget is refused, and nothing is to be built, where its name is
/// taken or reserved, its parent is unknown, or its parent lies under it. Otherwise the plan names the
/// parent's native handle, the position at the end of the parent's list, the
/// constructor for the kind, and the parts of the command that this
/// constructor is handed. The registry does not change: the widget is
/// registered by [`finish_insertion`] once the native tree holds it.
pub fn create_and_add_widget<S, D>(
    widget_manager: &WidgetManager,
    id: String,
    kind: WidgetKind,
    parent_id: Option<String>,
    text: Option<String>,
    style: Option<S>,
    data: Option<D>,
) -> (plan: Result<Insertion<S, D>, Rejection>)
    requires
        widget_manager.wf(),
    ensures
        match plan {
            Ok(insertion) => {
                &&& rejection(widget_manager@, id@, option_name(parent_id)) is None
                &&& widget_manager@.admits(id@, option_name(parent_id))
                &&& insertion.id@ == id@
                &&& insertion.kind@ == kind@
                &&& option_name(insertion.parent_id) == option_name(parent_id)
                &&& insertion.parent == match parent_id {
                    Some(p) => Some(widget_manager@.widgets[p@].widget_id),
                    None => None,
                }
                &&& insertion.child_index == widget_manager@.child_count(
                    parent_key_of(option_name(parent_id)),
                )
                &&& insertion.construction == construction_of(kind@)
                &&& option_name(insertion.text) == construction_text(kind@, option_name(text))
                &&& insertion.style == style
                &&& insertion.data == if takes_data(construction_of(kind@)) {
                    data
                } else {
                    None
                }
            },
            Err(reason) => rejection(widget_manager@, id@, option_name(parent_id)) == Some(reason),
        },
{
    if crate::text::same_text(id.as_str(), ROOT_KEY) {
        return Err(Rejection::ReservedId);
    }
    if widget_manager.get(id.as_str()).is_some() {
        return Err(Rejection::DuplicateId);
    }
    let parent = match &parent_id {
        Some(p) => match widget_manager.get(p.as_str()) {
            Some(info) => {
                if widget_manager.lies_under(id.as_str(), p.as_str()) {
                    return Err(Rejection::OwnDescendant);
                }
                Some(info.widget_id)
            },
            None => {
                return Err(Rejection::UnknownParent);
            },
        },
        None => {
            proof {
                crate::ui::widget_manager::lemma_under_outside(
                    widget_manager@,
                    id@,
                    crate::ui::widget_manager::root_key(),
                );
            }
            None
        },
    };
    let child_index = match &parent_id {
        Some(p) => widget_manager.next_child_index(p.as_str()),
        None => widget_manager.next_child_index(ROOT_KEY),
    };
    let construction = construction_for(&kind);
    let text = match &kind {
        WidgetKind::Custom(name) => match text {
            Some(t) => Some(t),
            None => {
                let quoted = debug_text(name.as_str());
                Some(fallback_label(quoted.as_str()))
            },
        },
        _ => if hands_text(construction) {
            text
        } else {
            None
        },
    };
    let data = if hands_data(construction) {
        data
    } else {
        None
    };
    Ok(Insertion { id, kind, parent_id, parent, child_index, construction, text, style, data })
}

/// Completes a planned insertion: registers the widget under the handle that
/// the native tree gave it. Where the native insertion failed, `inserted` is
/// `None` and nothing is recorded. Returns whether the widget was registered.
pub fn finish_insertion<S, D>(
    widget_manager: &mut WidgetManager,
    insertion: &Insertion<S, D>,
    inserted: Option<NativeHandle>,
) -> (registered: bool)
    requires
        old(widget_manager).wf(),
    ensures
        final(widget_manager).wf(),
        final(widget_manager)@ == match inserted {
            Some(handle) => old(widget_manager)@.register(insertion.id@, insertion.record(handle)),
            None => old(widget_manager)@,
        },
        registered == match inserted {
            Some(handle) => old(widget_manager)@.accepts(insertion.id@, insertion.record(handle)),
            None => false,
        },
{
    match inserted {
        Some(handle) => {
            let accepted = widget_manager.admits(insertion.id.as_str(), &insertion.parent_id)
                && widget_manager.id_of(handle).is_none();
            let info = WidgetInfo {
                widget_id: handle,
                kind: insertion.kind.duplicate(),
                parent_id: match &insertion.parent_id {
                    Some(p) => Some(p.clone()),
                    None => None,
                },
                child_index: insertion.child_index,
            };
            widget_manager.register_widget(insertion.id.clone(), info);
            accepted
        },
        None => false,
    }
}

} // verus!
