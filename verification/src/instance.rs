//! The state of one document as the user drives it: native controls, event
//! handlers, and where the pointer and the focus are.
use crate::bridge::HandlerSet;
use crate::effects::{push_if, After, Effect, EventName, Stage, Turn};
use crate::entry::{
    base_url_for_file, file_entry, parse_base_url, pick_virtual_entry, resolve_virtual_entrypoint,
    EntryModule, VirtualSourceFile,
};
use crate::errors::{InstanceError, RegisterFontError};
use crate::events::TickResult;
use crate::fonts::{register, FontFormat, RegisteredFont};
use crate::img::ImgEvent;
use crate::input::InputState;
use crate::net::SoliteNetProvider;
use crate::registry::Registry;
use crate::scrollbar::ScrollbarTheme;
use crate::select::SelectState;
use crate::selects::set_select_open;
use crate::stylesheets::{StylesheetId, Stylesheets};
use crate::urls::{parse_url, ParsedUrl};
use std::path::Path;
use std::time::Instant;
use vstd::prelude::*;

verus! {

/// Where the pointer and the focus are.
#[derive(Debug, Clone, Copy, PartialEq, Eq, Structural)]
pub struct UiState {
    /// The node under the pointer.
    pub hovered: Option<usize>,
    /// The node with the focus.
    pub focused: Option<usize>,
    /// The node that is being pressed.
    pub active: Option<usize>,
    /// The range input that follows the pointer.
    pub range_drag: Option<usize>,
    /// Whether a scrollbar thumb follows the pointer.
    pub scroll_drag: bool,
    /// Whether something changed since the last paint.
    pub needs_paint: bool,
}

/// A fresh document: nothing is hovered, focused or pressed, and it was never
/// painted.
pub open spec fn fresh_ui() -> UiState {
    UiState {
        hovered: None,
        focused: None,
        active: None,
        range_drag: None,
        scroll_drag: false,
        needs_paint: true,
    }
}

/// The state with a repaint asked for.
pub open spec fn repainted(ui: UiState, paint: bool) -> UiState {
    UiState { needs_paint: ui.needs_paint || paint, ..ui }
}

/// What an instance is created from.
#[derive(Debug)]
pub struct InstanceConfig {
    pub width: u32,
    pub height: u32,
    /// Stylesheets that are in place before the component mounts.
    pub stylesheets: Vec<String>,
    /// Whether the container scrolls when its content is taller than it.
    pub document_scroll: bool,
    /// The URL that relative references are resolved against. The host's
    /// default stands in where it is missing.
    pub base_url: Option<String>,
}

/// Whether an instance is as a configuration asks for, with nothing mounted.
pub open spec fn freshly_created(
    instance: Instance,
    config: InstanceConfig,
    base_url: Seq<char>,
    container_id: usize,
) -> bool {
    &&& instance.wf()
    &&& instance.ui == fresh_ui()
    &&& instance.inputs@.len() == 0
    &&& instance.selects@.len() == 0
    &&& instance.handlers@ == Set::<(usize, Seq<char>)>::empty()
    &&& crate::stylesheets::registered_initially(instance.stylesheets@, config.stylesheets@)
    &&& instance.base_url@ == base_url
    &&& instance.container_id == container_id
    &&& instance.width == config.width
    &&& instance.height == config.height
    &&& instance.document_scroll == config.document_scroll
    &&& instance.scrollbar_theme is None
}

/// The base URL that a configuration asks for, as text.
pub open spec fn wanted_base_url(config: InstanceConfig, default: Seq<char>) -> Seq<char> {
    match config.base_url {
        Some(url) => url@,
        None => default,
    }
}

/// The outcome of creating an instance: the base URL has to be valid.
pub open spec fn creation_outcome(
    created: Result<Instance, InstanceError>,
    config: InstanceConfig,
    default_base_url: Seq<char>,
    container_id: usize,
) -> bool {
    let wanted = wanted_base_url(config, default_base_url);
    match crate::urls::parsed_url(wanted) {
        Ok((url, _)) => created matches Ok(instance) && freshly_created(
            instance,
            config,
            url,
            container_id,
        ),
        Err(message) => created matches Err(InstanceError::BaseUrl { value, error }) && value@
            == wanted && error@ == message,
    }
}

/// One document as the user drives it.
#[derive(Debug)]
pub struct Instance {
    pub ui: UiState,
    pub inputs: Registry<InputState>,
    pub selects: Registry<SelectState>,
    pub handlers: HandlerSet,
    pub stylesheets: Stylesheets,
    /// The URL that relative references are resolved against.
    pub base_url: String,
    /// The node that the component is mounted in.
    pub container_id: usize,
    pub width: u32,
    pub height: u32,
    /// Whether the container scrolls when its content is taller than it.
    pub document_scroll: bool,
    /// Scrollbar colours that the host asked for.
    pub scrollbar_theme: Option<ScrollbarTheme>,
}

/// An outcome without the module that comes with it.
pub open spec fn without_module(created: Result<(Instance, EntryModule), InstanceError>) -> Result<
    Instance,
    InstanceError,
> {
    match created {
        Ok((instance, _)) => Ok(instance),
        Err(error) => Err(error),
    }
}

/// The work that takes the focus from `previous`: an open dropdown closes, and
/// the node is told.
pub open spec fn leave_effects(previous: Option<usize>, open: bool) -> Seq<Effect> {
    match previous {
        Some(node) => crate::effects::effect_if(
            open,
            Effect::Popup { select: node, action: crate::popup::PopupAction::Unmount },
        ) + seq![Effect::Fire { node, event: EventName::Blur }],
        None => Seq::empty(),
    }
}

/// The work that gives the focus to `next` after `previous` was told.
pub open spec fn enter_effects(
    previous: Option<usize>,
    previous_input: bool,
    next: Option<usize>,
    next_input: bool,
) -> Seq<Effect> {
    let left = match previous {
        Some(node) => crate::effects::effect_if(previous_input, Effect::RefreshInput(node))
            + seq![Effect::ClearFocus],
        None => Seq::empty(),
    };
    let entered = match next {
        Some(node) => seq![Effect::SetFocus(node)] + crate::effects::effect_if(
            next_input,
            Effect::RefreshInput(node),
        ) + seq![Effect::Fire { node, event: EventName::Focus }],
        None => Seq::empty(),
    };
    left + entered
}

/// The decision that follows a focus change.
pub open spec fn stage_after(after: After) -> Option<Stage> {
    match after {
        After::Stop => None,
        After::Press(hit) => Some(Stage::Target(hit)),
        After::Key { node, edited, emits } => Some(Stage::KeyDone { node, edited, emits }),
    }
}

/// Whether an optional node has a state in the registry.
pub open spec fn registered<T>(entries: Seq<(usize, T)>, node: Option<usize>) -> bool {
    node matches Some(id) && crate::registry::has_id(entries, id)
}

/// Whether the dropdown of an optional node is open.
pub open spec fn dropdown_open(selects: Registry<SelectState>, node: Option<usize>) -> bool {
    node matches Some(id) && selects.at(id) matches Some(state) && state@.open
}

impl Instance {
    /// Whether the registries hold no node twice and every input is well
    /// formed.
    pub open spec fn wf(&self) -> bool {
        &&& crate::inputs::inputs_wf(self.inputs)
        &&& self.selects.wf()
    }

    /// An instance with nothing mounted, for a base URL that was checked.
    pub fn with_base_url(config: InstanceConfig, base_url: String, container_id: usize) -> (instance:
        Self)
        ensures
            freshly_created(instance, config, base_url@, container_id),
    {
        Instance {
            ui: UiState {
                hovered: None,
                focused: None,
                active: None,
                range_drag: None,
                scroll_drag: false,
                needs_paint: true,
            },
            inputs: Registry::new(),
            selects: Registry::new(),
            handlers: HandlerSet::new(),
            stylesheets: Stylesheets::new(&config.stylesheets),
            base_url,
            container_id,
            width: config.width,
            height: config.height,
            document_scroll: config.document_scroll,
            scrollbar_theme: None,
        }
    }

    /// An instance with nothing mounted. `default_base_url` stands in for a
    /// base URL that the configuration leaves out.
    pub fn new(config: InstanceConfig, default_base_url: &str, container_id: usize) -> (created:
        Result<Self, InstanceError>)
        ensures
            creation_outcome(created, config, default_base_url@, container_id),
    {
        let parsed = match &config.base_url {
            Some(url) => parse_base_url(url.as_str()),
            None => parse_base_url(default_base_url),
        };
        match parsed {
            Ok(base_url) => Ok(Instance::with_base_url(config, base_url, container_id)),
            Err(error) => Err(error),
        }
    }

    /// An instance for a component file whose source was read, with the module
    /// to mount. References are resolved against the file's directory unless
    /// the configuration says otherwise; where that has no URL,
    /// `default_base_url` stands in.
    pub fn new_from_file(
        config: InstanceConfig,
        component_path: &Path,
        source: String,
        has_compiler: bool,
        default_base_url: &str,
        container_id: usize,
    ) -> (created: Result<(Self, EntryModule), InstanceError>)
        ensures
            if crate::entry::jsx_or_ts(crate::fonts::extension_of(component_path)) && !has_compiler {
                created matches Err(InstanceError::UnsupportedJsxModule { path }) && path@
                    == crate::entry::lossy_text(component_path)
            } else {
                &&& creation_outcome(
                    without_module(created),
                    config,
                    crate::entry::file_base_url(component_path, default_base_url@),
                    container_id,
                )
                &&& created matches Ok((_, module)) ==> module.path@ == crate::entry::lossy_text(
                    component_path,
                ) && module.source == source
            },
    {
        let module = match file_entry(component_path, source, has_compiler) {
            Ok(module) => module,
            Err(error) => return Err(error),
        };
        let base_url = base_url_for_file(component_path, default_base_url);
        match Instance::new(config, base_url.as_str(), container_id) {
            Ok(instance) => Ok((instance, module)),
            Err(error) => Err(error),
        }
    }

    /// An instance for a virtual project, with the module to mount.
    pub fn new_from_virtual_files(
        config: InstanceConfig,
        files: &Vec<VirtualSourceFile>,
        has_compiler: bool,
        default_base_url: &str,
        container_id: usize,
    ) -> (created: Result<(Self, EntryModule), InstanceError>)
        ensures
            ({
                let (entry, needs_compiler) = crate::entry::entry_from(
                    files@,
                    crate::entry::entry_names(),
                    0,
                );
                match crate::entry::file_at(files@, entry, 0) {
                    Some(at) => if needs_compiler && !has_compiler {
                        created matches Err(InstanceError::UnsupportedJsxModule { path }) && path@
                            == entry
                    } else {
                        &&& creation_outcome(
                            without_module(created),
                            config,
                            default_base_url@,
                            container_id,
                        )
                        &&& created matches Ok((_, module)) ==> module.path@ == entry
                            && module.source@ == files@[at].source@
                    },
                    None => created matches Err(InstanceError::MissingVirtualEntrypoint { path })
                        && path@ == entry,
                }
            }),
    {
        let (entry, needs_compiler) = resolve_virtual_entrypoint(files);
        let module = match pick_virtual_entry(files, entry, needs_compiler, has_compiler) {
            Ok(module) => module,
            Err(error) => return Err(error),
        };
        match Instance::new(config, default_base_url, container_id) {
            Ok(instance) => Ok((instance, module)),
            Err(error) => Err(error),
        }
    }

    /// Whether only the pointer and focus state differs from `other`.
    pub open spec fn same_but_ui(&self, other: &Self) -> bool {
        *self == (Instance { ui: self.ui, ..*other })
    }

    /// Whether only that and the selects differ from `other`.
    pub open spec fn same_but_selects(&self, other: &Self) -> bool {
        *self == (Instance { ui: self.ui, selects: self.selects, ..*other })
    }

    /// Whether only that and the inputs differ from `other`.
    pub open spec fn same_but_inputs(&self, other: &Self) -> bool {
        *self == (Instance { ui: self.ui, inputs: self.inputs, ..*other })
    }

    /// Whether only that and the native controls differ from `other`.
    pub open spec fn same_but_controls(&self, other: &Self) -> bool {
        *self == (Instance {
            ui: self.ui,
            inputs: self.inputs,
            selects: self.selects,
            ..*other
        })
    }

    /// Replaces the base URL by `url` when that is a valid absolute URL.
    /// Returns whether it is.
    pub fn set_base_url(&mut self, url: &str) -> (valid: bool)
        ensures
            *final(self) == (Instance { base_url: final(self).base_url, ..*old(self) }),
            match crate::urls::parsed_url(url@) {
                Ok((text, _)) => valid && final(self).base_url@ == text,
                Err(_) => !valid && final(self).base_url == old(self).base_url,
            },
    {
        self.accept_base_url(parse_url(url))
    }

    /// Takes a base URL that was parsed, where it is valid.
    pub fn accept_base_url(&mut self, parsed: Result<ParsedUrl, String>) -> (valid: bool)
        ensures
            match parsed {
                Ok(parsed) => valid && *final(self) == (Instance {
                    base_url: parsed.text,
                    ..*old(self)
                }),
                Err(_) => !valid && *final(self) == *old(self),
            },
    {
        match parsed {
            Ok(parsed) => {
                self.base_url = parsed.text;
                true
            },
            Err(_) => false,
        }
    }

    /// Notes a new size, which the next paint shows.
    pub fn resize(&mut self, width: u32, height: u32)
        ensures
            *final(self) == (Instance {
                width,
                height,
                ui: repainted(old(self).ui, true),
                ..*old(self)
            }),
    {
        self.width = width;
        self.height = height;
        self.ui.needs_paint = true;
    }

    /// Overrides the scrollbar colours, or goes back to those that follow each
    /// container.
    pub fn set_scrollbar_theme(&mut self, theme: Option<ScrollbarTheme>)
        ensures
            *final(self) == (Instance {
                scrollbar_theme: theme,
                ui: repainted(old(self).ui, true),
                ..*old(self)
            }),
    {
        self.scrollbar_theme = theme;
        self.ui.needs_paint = true;
    }

    /// Width and height.
    pub fn size(&self) -> (size: (u32, u32))
        ensures
            size == (self.width, self.height),
    {
        (self.width, self.height)
    }

    /// The node that the component is mounted in.
    pub fn container_id(&self) -> (id: usize)
        ensures
            id == self.container_id,
    {
        self.container_id
    }

    /// The nodes of the registered selects.
    pub fn select_node_ids(&self) -> (ids: Vec<usize>)
        ensures
            ids@ == self.selects@.map_values(|entry: (usize, SelectState)| entry.0),
    {
        let mut ids: Vec<usize> = Vec::new();
        let mut i: usize = 0;
        while i < self.selects.len()
            invariant
                i <= self.selects@.len(),
                ids@ == self.selects@.take(i as int).map_values(
                    |entry: (usize, SelectState)| entry.0,
                ),
            decreases self.selects@.len() - i,
        {
            ids.push(self.selects.entry(i).0);
            proof {
                assert(ids@ =~= self.selects@.take(i + 1).map_values(
                    |entry: (usize, SelectState)| entry.0,
                ));
            }
            i += 1;
        }
        proof {
            assert(self.selects@.take(i as int) =~= self.selects@);
        }
        ids
    }

    /// Registers a stylesheet.
    pub fn add_stylesheet(&mut self, css: &str) -> (id: StylesheetId)
        ensures
            id == StylesheetId(old(self).stylesheets@.next_id),
            final(self).stylesheets@ == crate::stylesheets::with_added(
                old(self).stylesheets@,
                css@,
            ),
            *final(self) == (Instance {
                stylesheets: final(self).stylesheets,
                ui: repainted(old(self).ui, true),
                ..*old(self)
            }),
    {
        self.ui.needs_paint = true;
        self.stylesheets.add_stylesheet(css)
    }

    /// Replaces the text of a stylesheet. Returns the text that it had, or
    /// `None` when there is no such stylesheet.
    pub fn replace_stylesheet(&mut self, id: StylesheetId, css: &str) -> (replaced: Option<String>)
        ensures
            match replaced {
                Some(text) => old(self).stylesheets@.sheets.dom().contains(id.0) && text@ == old(
                    self,
                ).stylesheets@.sheets[id.0] && final(self).stylesheets@
                    == crate::stylesheets::with_replaced(old(self).stylesheets@, id.0, css@),
                None => !old(self).stylesheets@.sheets.dom().contains(id.0)
                    && final(self).stylesheets@ == old(self).stylesheets@,
            },
            *final(self) == (Instance {
                stylesheets: final(self).stylesheets,
                ui: repainted(old(self).ui, replaced is Some),
                ..*old(self)
            }),
    {
        let replaced = self.stylesheets.replace_stylesheet(id, css);
        if replaced.is_some() {
            self.ui.needs_paint = true;
        }
        replaced
    }

    /// Drops a stylesheet. Returns the text that it had, or `None` when there
    /// is no such stylesheet.
    pub fn remove_stylesheet(&mut self, id: StylesheetId) -> (removed: Option<String>)
        ensures
            match removed {
                Some(text) => old(self).stylesheets@.sheets.dom().contains(id.0) && text@ == old(
                    self,
                ).stylesheets@.sheets[id.0],
                None => !old(self).stylesheets@.sheets.dom().contains(id.0),
            },
            final(self).stylesheets@ == (crate::stylesheets::SheetModel {
                sheets: old(self).stylesheets@.sheets.remove(id.0),
                ..old(self).stylesheets@
            }),
            *final(self) == (Instance {
                stylesheets: final(self).stylesheets,
                ui: repainted(old(self).ui, removed is Some),
                ..*old(self)
            }),
    {
        let removed = self.stylesheets.remove_stylesheet(id);
        if removed.is_some() {
            self.ui.needs_paint = true;
        }
        removed
    }

    /// Replaces a stylesheet, or registers a new one when the id is not known.
    /// Returns the id to use from then on, with the text that was replaced.
    pub fn upsert_stylesheet(&mut self, id: Option<StylesheetId>, css: &str) -> (done: (
        StylesheetId,
        Option<String>,
    ))
        ensures
            match id {
                Some(id) if old(self).stylesheets@.sheets.dom().contains(id.0) => {
                    &&& done.0 == id
                    &&& done.1 matches Some(text) && text@ == old(self).stylesheets@.sheets[id.0]
                    &&& final(self).stylesheets@ == crate::stylesheets::with_replaced(
                        old(self).stylesheets@,
                        id.0,
                        css@,
                    )
                },
                _ => {
                    &&& done.0 == StylesheetId(old(self).stylesheets@.next_id)
                    &&& done.1 is None
                    &&& final(self).stylesheets@ == crate::stylesheets::with_added(
                        old(self).stylesheets@,
                        css@,
                    )
                },
            },
            *final(self) == (Instance {
                stylesheets: final(self).stylesheets,
                ui: repainted(old(self).ui, true),
                ..*old(self)
            }),
    {
        self.ui.needs_paint = true;
        self.stylesheets.upsert_stylesheet(id, css)
    }

    /// Registers a font: stores its bytes with the resource provider and its
    /// `@font-face` rule as a stylesheet. `font_id` tells fonts apart.
    pub fn register_font_bytes(
        &mut self,
        provider: &mut SoliteNetProvider,
        font_id: usize,
        family: &str,
        bytes: Vec<u8>,
        format: FontFormat,
    ) -> (registered: (StylesheetId, RegisteredFont))
        ensures
            font_registered(
                *old(self),
                *final(self),
                old(provider)@,
                final(provider)@,
                font_id,
                family@,
                bytes,
                format,
                registered,
            ),
    {
        let font = register(provider, font_id, family, bytes, format);
        let id = self.add_stylesheet(font.css.as_str());
        (id, font)
    }

    /// Registers a font from a file that was read, with the format that its
    /// extension tells.
    pub fn register_font_from_path(
        &mut self,
        provider: &mut SoliteNetProvider,
        font_id: usize,
        family: &str,
        path: &Path,
        bytes: Result<Vec<u8>, String>,
    ) -> (registered: Result<(StylesheetId, RegisteredFont), RegisterFontError>)
        ensures
            match crate::fonts::path_format(path) {
                None => {
                    &&& registered matches Err(RegisterFontError::UnknownFormat)
                    &&& *final(self) == *old(self)
                    &&& final(provider)@ == old(provider)@
                },
                Some(format) => match bytes {
                    Ok(bytes) => registered matches Ok(registered) && font_registered(
                        *old(self),
                        *final(self),
                        old(provider)@,
                        final(provider)@,
                        font_id,
                        family@,
                        bytes,
                        format,
                        registered,
                    ),
                    Err(error) => {
                        &&& registered == Err::<(StylesheetId, RegisteredFont), RegisterFontError>(
                            RegisterFontError::Io(error),
                        )
                        &&& *final(self) == *old(self)
                        &&& final(provider)@ == old(provider)@
                    },
                },
            },
    {
        let format = match FontFormat::from_path(path) {
            Some(format) => format,
            None => return Err(RegisterFontError::UnknownFormat),
        };
        match bytes {
            Ok(bytes) => Ok(self.register_font_bytes(provider, font_id, family, bytes, format)),
            Err(error) => Err(RegisterFontError::Io(error)),
        }
    }

    /// The value of the input registered at `node_id`: `on` or `off` for a
    /// checkbox or radio, else its text.
    pub fn input_value(&self, node_id: usize) -> (value: Option<String>)
        requires
            self.wf(),
        ensures
            match self.inputs.at(node_id) {
                Some(state) => value matches Some(value) && value@ == (if state@.kind is Checkbox
                    || state@.kind is Radio {
                    crate::input::rendered(state@).0
                } else {
                    state@.value
                }),
                None => value is None,
            },
    {
        match self.inputs.get(node_id) {
            Some(state) => if state.is_checked_like() {
                Some(state.render(false).0)
            } else {
                Some(state.value().to_owned())
            },
            None => None,
        }
    }

    /// Sets the value of the input registered at `node_id` and puts its caret
    /// behind it. Returns whether there is such an input.
    pub fn set_input_value(&mut self, node_id: usize, value: &str) -> (found: bool)
        requires
            old(self).wf(),
        ensures
            final(self).wf(),
            final(self).same_but_inputs(old(self)),
            crate::registry::changed_only(old(self).inputs@, final(self).inputs@, node_id),
            match old(self).inputs.at(node_id) {
                Some(before) => {
                    &&& found
                    &&& final(self).inputs.at(node_id) matches Some(after) && if value@
                        == before@.value {
                        after@ == before@
                    } else {
                        crate::input::same_but_moment(
                            after@,
                            crate::input::replaced(before@, 0, before@.value.len() as int, value@),
                        )
                    }
                },
                None => !found && final(self).inputs@ == old(self).inputs@,
            },
            final(self).ui == repainted(old(self).ui, found),
    {
        match self.inputs.position(node_id) {
            Some(slot) => {
                self.inputs.state_mut(slot).set_value(value);
                self.ui.needs_paint = true;
                true
            },
            None => false,
        }
    }

    /// Opens or closes a dropdown and reports the work on its popup.
    pub fn set_select_dropdown_open(&mut self, select_id: usize, open: bool) -> (effects: Vec<
        Effect,
    >)
        requires
            old(self).wf(),
        ensures
            final(self).wf(),
            final(self).same_but_selects(old(self)),
            crate::registry::changed_only(old(self).selects@, final(self).selects@, select_id),
            match old(self).selects.at(select_id) {
                Some(before) => {
                    let action = crate::popup::popup_action(before@.open, open);
                    &&& final(self).selects.at(select_id) matches Some(after) && after@
                        == crate::popup::opened(before@, open)
                    &&& effects@ == crate::effects::effect_if(
                        !(action is Keep),
                        Effect::Popup { select: select_id, action },
                    )
                    &&& final(self).ui == repainted(old(self).ui, true)
                },
                None => {
                    &&& final(self).selects@ == old(self).selects@
                    &&& effects@.len() == 0
                    &&& final(self).ui == old(self).ui
                },
            },
    {
        let mut effects: Vec<Effect> = Vec::new();
        if !self.selects.contains_key(select_id) {
            proof {
                assert(crate::registry::changed_only(self.selects@, self.selects@, select_id));
            }
            return effects;
        }
        let action = set_select_open(&mut self.selects, select_id, open);
        self.ui.needs_paint = true;
        let mounts = !matches!(action, crate::popup::PopupAction::Keep);
        push_if(&mut effects, mounts, Effect::Popup { select: select_id, action });
        proof {
            assert(effects@ =~= crate::effects::effect_if(
                mounts,
                Effect::Popup { select: select_id, action },
            ));
        }
        effects
    }

    /// Takes the focus from the node that has it: closes its dropdown and
    /// fires `blur`. The node keeps the focus until the next stage.
    pub(crate) fn leave(&mut self, effects: &mut Vec<Effect>)
        requires
            old(self).wf(),
        ensures
            final(self).wf(),
            final(self).same_but_selects(old(self)),
            final(effects)@ == old(effects)@ + leave_effects(
                old(self).ui.focused,
                dropdown_open(old(self).selects, old(self).ui.focused),
            ),
            final(self).ui == repainted(
                old(self).ui,
                dropdown_open(old(self).selects, old(self).ui.focused),
            ),
            left_selects(old(self).selects, final(self).selects, old(self).ui.focused),
    {
        if let Some(node) = self.ui.focused {
            let open = match self.selects.get(node) {
                Some(state) => state.is_open(),
                None => false,
            };
            if open {
                let closing = self.set_select_dropdown_open(node, false);
                let mut closing = closing;
                proof {
                    assert(closing@ =~= seq![
                        Effect::Popup { select: node, action: crate::popup::PopupAction::Unmount },
                    ]);
                }
                effects.append(&mut closing);
            }
            effects.push(Effect::Fire { node, event: EventName::Blur });
            proof {
                assert(effects@ =~= old(effects)@ + leave_effects(Some(node), open));
            }
        } else {
            proof {
                assert(effects@ =~= old(effects)@ + leave_effects(None, false));
            }
        }
    }

    /// Gives the focus to `next` after `previous` was told that it loses it.
    /// An input that gains the focus gets its caret behind its text.
    pub fn enter(&mut self, previous: Option<usize>, next: Option<usize>, after: After) -> (turn:
        Turn)
        requires
            old(self).wf(),
        ensures
            final(self).wf(),
            turn@ == (crate::effects::TurnModel {
                effects: enter_effects(
                    previous,
                    registered(old(self).inputs@, previous),
                    next,
                    registered(old(self).inputs@, next),
                ),
                record: true,
                paint: false,
                next: stage_after(after),
            }),
            final(self).ui == (UiState {
                focused: next,
                ..repainted(
                    old(self).ui,
                    registered(old(self).inputs@, previous) || registered(old(self).inputs@, next),
                )
            }),
            final(self).same_but_inputs(old(self)),
            match next {
                Some(node) => {
                    &&& crate::registry::changed_only(old(self).inputs@, final(self).inputs@, node)
                    &&& old(self).inputs.at(node) matches Some(before) ==> (final(self).inputs.at(
                        node,
                    ) matches Some(after) && crate::input::same_but_moment(
                        after@,
                        crate::input::moved(before@, before@.value.len() as int, false),
                    ))
                },
                None => final(self).inputs@ == old(self).inputs@,
            },
    {
        let mut effects: Vec<Effect> = Vec::new();
        if let Some(node) = previous {
            let input = self.inputs.contains_key(node);
            if input {
                self.ui.needs_paint = true;
            }
            push_if(&mut effects, input, Effect::RefreshInput(node));
            effects.push(Effect::ClearFocus);
        }
        self.ui.focused = next;
        if let Some(node) = next {
            effects.push(Effect::SetFocus(node));
            match self.inputs.position(node) {
                Some(slot) => {
                    self.inputs.state_mut(slot).place_caret_at_end();
                    effects.push(Effect::RefreshInput(node));
                    self.ui.needs_paint = true;
                },
                None => {},
            }
            effects.push(Effect::Fire { node, event: EventName::Focus });
        }
        let next_stage = match after {
            After::Stop => None,
            After::Press(hit) => Some(Stage::Target(hit)),
            After::Key { node, edited, emits } => Some(Stage::KeyDone { node, edited, emits }),
        };
        proof {
            assert(effects@ =~= enter_effects(
                previous,
                registered(old(self).inputs@, previous),
                next,
                registered(old(self).inputs@, next),
            ));
        }
        Turn { effects, record: true, paint: false, next: next_stage }
    }

    /// Takes in what the fired events of a turn asked for. Returns what the
    /// turn asks for as a whole.
    pub fn settle(&mut self, record: bool, paint: bool, fired: TickResult) -> (result: TickResult)
        ensures
            result == settled(paint, fired),
            final(self).ui == repainted(old(self).ui, record && fired.needs_paint),
            final(self).same_but_ui(old(self)),
    {
        if record && fired.needs_paint {
            self.ui.needs_paint = true;
        }
        TickResult { needs_paint: fired.needs_paint || paint, jobs_pending: fired.jobs_pending }
    }

    /// Flips the caret of the focused input when its interval has passed.
    pub fn advance_input_blink(&mut self, now: Instant) -> (flipped: bool)
        requires
            old(self).wf(),
        ensures
            final(self).wf(),
            final(self).ui == repainted(old(self).ui, flipped),
            final(self).same_but_inputs(old(self)),
            match old(self).ui.focused {
                Some(node) => {
                    &&& crate::registry::changed_only(old(self).inputs@, final(self).inputs@, node)
                    &&& match old(self).inputs.at(node) {
                        Some(before) => final(self).inputs.at(node) matches Some(after) && (
                        after@, flipped) == crate::input::blinked(before@, now),
                        None => !flipped,
                    }
                },
                None => !flipped && final(self).inputs@ == old(self).inputs@,
            },
    {
        let node: usize = match self.ui.focused {
            Some(node) => node,
            None => return false,
        };
        match self.inputs.position(node) {
            Some(slot) => {
                let flipped = self.inputs.state_mut(slot).tick_blink(now);
                if flipped {
                    self.ui.needs_paint = true;
                }
                flipped
            },
            None => false,
        }
    }

    /// The moment at which the caret of the focused input is to flip next.
    pub fn next_blink_deadline(&self) -> (moment: Option<Instant>)
        requires
            self.wf(),
        ensures
            match self.ui.focused {
                Some(node) => match self.inputs.at(node) {
                    Some(state) => crate::input::blink_deadline(state@, moment),
                    None => moment is None,
                },
                None => moment is None,
            },
    {
        match self.ui.focused {
            Some(node) => match self.inputs.get(node) {
                Some(state) => state.next_blink_at(),
                None => None,
            },
            None => None,
        }
    }

    /// Ends a tick: `script` is what the scripts asked for, `images` what the
    /// image events asked for.
    pub fn finish_tick(&mut self, script: TickResult, images: TickResult) -> (result: TickResult)
        ensures
            result == ticked(old(self).ui, script, images),
            final(self).ui == repainted(
                old(self).ui,
                script.needs_paint || images.needs_paint,
            ),
            final(self).same_but_ui(old(self)),
    {
        if script.needs_paint || images.needs_paint {
            self.ui.needs_paint = true;
        }
        TickResult {
            needs_paint: self.ui.needs_paint,
            jobs_pending: script.jobs_pending || images.jobs_pending,
        }
    }

    /// Notes that something changed that the next paint shows.
    pub fn request_paint(&mut self)
        ensures
            final(self).ui == repainted(old(self).ui, true),
            final(self).same_but_ui(old(self)),
    {
        self.ui.needs_paint = true;
    }

    /// Notes that the document was painted.
    pub fn painted(&mut self)
        ensures
            final(self).ui == (UiState { needs_paint: false, ..old(self).ui }),
            final(self).same_but_ui(old(self)),
    {
        self.ui.needs_paint = false;
    }
}

/// The selects after the focus left a node: its dropdown is closed, and
/// nothing else changed.
pub open spec fn left_selects(
    before: Registry<SelectState>,
    after: Registry<SelectState>,
    previous: Option<usize>,
) -> bool {
    if dropdown_open(before, previous) {
        &&& crate::registry::changed_only(before@, after@, previous->0)
        &&& after.at(previous->0) matches Some(state) && state@ == crate::popup::opened(
            before.at(previous->0)->0@,
            false,
        )
    } else {
        after@ == before@
    }
}

/// How registering a font changes an instance and its resource provider.
pub open spec fn font_registered(
    before: Instance,
    after: Instance,
    served_before: crate::net::NetModel,
    served_after: crate::net::NetModel,
    font_id: usize,
    family: Seq<char>,
    bytes: Vec<u8>,
    format: FontFormat,
    registered: (StylesheetId, RegisteredFont),
) -> bool {
    let url = crate::fonts::font_url(font_id as nat, format);
    let css = crate::fonts::font_face(family, url, format);
    &&& registered.0 == StylesheetId(before.stylesheets@.next_id)
    &&& registered.1.css@ == css
    &&& after.stylesheets@ == crate::stylesheets::with_added(before.stylesheets@, css)
    &&& after == (Instance {
        stylesheets: after.stylesheets,
        ui: repainted(before.ui, true),
        ..before
    })
    &&& served_after == (crate::net::NetModel {
        registered: served_before.registered.insert(url, bytes),
        ..served_before
    })
}

/// The event that an image's outcome fires.
pub open spec fn image_effect(event: ImgEvent) -> Effect {
    match event {
        ImgEvent::Load { node_id } => Effect::Fire { node: node_id, event: EventName::Load },
        ImgEvent::Error { node_id } => Effect::Fire { node: node_id, event: EventName::Error },
    }
}

/// The events that image outcomes fire, in order.
pub fn image_effects(events: &Vec<ImgEvent>) -> (effects: Vec<Effect>)
    ensures
        effects@ == events@.map_values(|event: ImgEvent| image_effect(event)),
{
    let mut effects: Vec<Effect> = Vec::new();
    let mut i: usize = 0;
    while i < events.len()
        invariant
            i <= events@.len(),
            effects@ == events@.take(i as int).map_values(|event: ImgEvent| image_effect(event)),
        decreases events@.len() - i,
    {
        let effect = match &events[i] {
            ImgEvent::Load { node_id } => Effect::Fire { node: *node_id, event: EventName::Load },
            ImgEvent::Error { node_id } => Effect::Fire {
                node: *node_id,
                event: EventName::Error,
            },
        };
        effects.push(effect);
        proof {
            assert(effects@ =~= events@.take(i + 1).map_values(
                |event: ImgEvent| image_effect(event),
            ));
        }
        i += 1;
    }
    proof {
        assert(events@.take(i as int) =~= events@);
    }
    effects
}

/// A focus change tells the old node last before the new one: the last work of
/// leaving is `blur` at the old node, the last work of entering is `focus` at
/// the new node, and the document's focus is taken before it is given.
pub proof fn blur_precedes_focus(previous: usize, open: bool, left_input: bool, next: usize, next_input: bool)
    ensures
        leave_effects(Some(previous), open).last() == (Effect::Fire {
            node: previous,
            event: EventName::Blur,
        }),
        enter_effects(Some(previous), left_input, Some(next), next_input).last()
            == (Effect::Fire { node: next, event: EventName::Focus }),
        forall|i: int, j: int|
            0 <= i < enter_effects(Some(previous), left_input, Some(next), next_input).len() && 0
                <= j < enter_effects(Some(previous), left_input, Some(next), next_input).len()
                && #[trigger] enter_effects(
                Some(previous),
                left_input,
                Some(next),
                next_input,
            )[i] == Effect::ClearFocus && #[trigger] enter_effects(
                Some(previous),
                left_input,
                Some(next),
                next_input,
            )[j] == Effect::SetFocus(next) ==> i < j,
{
}

/// A fresh document hovers, focuses, presses and drags nothing, and waits for its first
/// paint.
pub proof fn fresh_documents_wait_for_paint()
    ensures
        ({
            let ui = fresh_ui();
            &&& ui.hovered is None && ui.focused is None && ui.active is None
            &&& ui.range_drag is None && !ui.scroll_drag
            &&& ui.needs_paint
        }),
{
}

/// A repaint that was asked for stays asked for, and asking for one changes nothing
/// else.
pub proof fn repaints_are_kept(ui: UiState, paint: bool)
    ensures
        repainted(ui, paint).needs_paint <==> ui.needs_paint || paint,
        repainted(ui, paint).hovered == ui.hovered,
        repainted(ui, paint).focused == ui.focused,
        repainted(ui, paint).active == ui.active,
        repainted(ui, paint).range_drag == ui.range_drag,
        repainted(ui, paint).scroll_drag == ui.scroll_drag,
{
}

/// A base URL of the configuration is taken over the host's default, which stands in
/// where there is none.
pub proof fn configured_url_wins(config: InstanceConfig, default: Seq<char>, url: String)
    ensures
        config.base_url == Some(url) ==> wanted_base_url(config, default) == url@,
        config.base_url is None ==> wanted_base_url(config, default) == default,
{
}

/// A created instance is as its configuration asks for: its size, whether it scrolls,
/// and its node. Nothing is registered in it, and scrollbars follow their containers.
pub proof fn created_instances_are_empty(
    instance: Instance,
    config: InstanceConfig,
    base_url: Seq<char>,
    container_id: usize,
    node: usize,
    event: Seq<char>,
)
    requires
        freshly_created(instance, config, base_url, container_id),
    ensures
        instance.width == config.width && instance.height == config.height,
        instance.document_scroll == config.document_scroll,
        instance.container_id == container_id,
        instance.base_url@ == base_url,
        instance.scrollbar_theme is None,
        instance.inputs@.len() == 0 && instance.selects@.len() == 0,
        !instance.handlers@.contains((node, event)),
        instance.ui.needs_paint && instance.ui.focused is None,
{
}

/// A node that loses the focus is told `blur` once its open dropdown is closed. Where
/// nothing has the focus, there is nothing to do.
pub proof fn leaving_tells_blur(node: usize, open: bool)
    ensures
        leave_effects(Some(node), true) == seq![
            Effect::Popup { select: node, action: crate::popup::PopupAction::Unmount },
            Effect::Fire { node, event: EventName::Blur },
        ],
        leave_effects(Some(node), false) == seq![Effect::Fire { node, event: EventName::Blur }],
        leave_effects(None, open).len() == 0,
{
}

/// The document's focus is taken from the old node and given to the new one, inputs
/// among them are written anew, and the new node is told `focus` last.
pub proof fn entering_tells_focus(previous: usize, next: usize, was_input: bool, is_input: bool)
    ensures
        enter_effects(Some(previous), false, Some(next), false) == seq![
            Effect::ClearFocus,
            Effect::SetFocus(next),
            Effect::Fire { node: next, event: EventName::Focus },
        ],
        enter_effects(Some(previous), true, Some(next), true) == seq![
            Effect::RefreshInput(previous),
            Effect::ClearFocus,
            Effect::SetFocus(next),
            Effect::RefreshInput(next),
            Effect::Fire { node: next, event: EventName::Focus },
        ],
        enter_effects(Some(previous), true, Some(next), false) == seq![
            Effect::RefreshInput(previous),
            Effect::ClearFocus,
            Effect::SetFocus(next),
            Effect::Fire { node: next, event: EventName::Focus },
        ],
        enter_effects(Some(previous), false, Some(next), true) == seq![
            Effect::ClearFocus,
            Effect::SetFocus(next),
            Effect::RefreshInput(next),
            Effect::Fire { node: next, event: EventName::Focus },
        ],
        enter_effects(None, was_input, Some(next), false) == seq![
            Effect::SetFocus(next),
            Effect::Fire { node: next, event: EventName::Focus },
        ],
        enter_effects(None, was_input, Some(next), true) == seq![
            Effect::SetFocus(next),
            Effect::RefreshInput(next),
            Effect::Fire { node: next, event: EventName::Focus },
        ],
        enter_effects(Some(previous), true, None, is_input) == seq![
            Effect::RefreshInput(previous),
            Effect::ClearFocus,
        ],
        enter_effects(Some(previous), false, None, is_input) == seq![Effect::ClearFocus],
        enter_effects(None, was_input, None, is_input).len() == 0,
{
}

/// After a focus change a press goes on at the node that it hit, a key press ends at
/// its node, and else nothing follows.
pub proof fn work_goes_on_after_focus(hit: usize, node: usize, edited: bool, emits: bool)
    ensures
        stage_after(After::Press(hit)) == Some(Stage::Target(hit)),
        stage_after(After::Key { node, edited, emits }) == Some(
            Stage::KeyDone { node, edited, emits },
        ),
        stage_after(After::Stop) is None,
{
}

/// A node has an open dropdown exactly where it is a registered select that is open.
pub proof fn open_dropdowns(selects: Registry<SelectState>, node: usize, state: SelectState)
    ensures
        selects.at(node) == Some(state) ==> dropdown_open(selects, Some(node)) == state@.open,
        selects.at(node) is None ==> !dropdown_open(selects, Some(node)),
        !dropdown_open(selects, None),
{
}

/// The focus leaves a select closed, with its selection, and every other select as it
/// was.
pub proof fn leaving_closes_the_dropdown(
    before: Registry<SelectState>,
    after: Registry<SelectState>,
    node: usize,
    other: usize,
    state: SelectState,
)
    requires
        before.wf(),
        left_selects(before, after, Some(node)),
        before.at(node) == Some(state),
        other != node,
    ensures
        after.at(node) matches Some(left) && !left@.open && left@.selected == state@.selected
            && left@.options == state@.options,
        state@.open ==> (after.at(node) matches Some(left) && left@.active is None),
        !state@.open ==> after@ == before@,
        after.at(other) == before.at(other),
{
    if state@.open {
        crate::registry::changed_only_keeps_others(before@, after@, node, other);
    }
}

/// An image that was shown fires `load` at its node, and one that could not be shown
/// `error`.
pub proof fn images_report(node: usize)
    ensures
        image_effect(ImgEvent::Load { node_id: node }) == (Effect::Fire {
            node,
            event: EventName::Load,
        }),
        image_effect(ImgEvent::Error { node_id: node }) == (Effect::Fire {
            node,
            event: EventName::Error,
        }),
{
}

/// A registered font is served under its URL, its rule is a new stylesheet, and all that
/// was served and styled before stays.
pub proof fn registered_fonts_are_served(
    before: Instance,
    after: Instance,
    served_before: crate::net::NetModel,
    served_after: crate::net::NetModel,
    font_id: usize,
    family: Seq<char>,
    bytes: Vec<u8>,
    format: FontFormat,
    registered: (StylesheetId, RegisteredFont),
    url: Seq<char>,
)
    requires
        font_registered(
            before,
            after,
            served_before,
            served_after,
            font_id,
            family,
            bytes,
            format,
            registered,
        ),
    ensures
        ({
            let own = crate::fonts::font_url(font_id as nat, format);
            &&& served_after.registered.dom().contains(own) && served_after.registered[own]
                == bytes
            &&& url != own && served_before.registered.dom().contains(url)
                ==> served_after.registered.dom().contains(url) && served_after.registered[url]
                == served_before.registered[url]
            &&& after.stylesheets@.sheets.dom().contains((registered.0).0)
            &&& after.stylesheets@.sheets[(registered.0).0] == registered.1.css@
            &&& after.ui.needs_paint
        }),
{
}

/// An instance is created exactly where its base URL is valid: that of the
/// configuration, or the host's default. Otherwise the error names the URL and says what
/// is wrong with it.
pub proof fn creation_needs_a_valid_url(
    created: Result<Instance, InstanceError>,
    config: InstanceConfig,
    default_base_url: Seq<char>,
    container_id: usize,
)
    requires
        creation_outcome(created, config, default_base_url, container_id),
    ensures
        ({
            let wanted = match config.base_url {
                Some(url) => url@,
                None => default_base_url,
            };
            &&& created is Ok <==> crate::urls::parsed_url(wanted) is Ok
            &&& created matches Ok(instance) ==> (crate::urls::parsed_url(wanted) matches Ok((url, _))
                && instance.base_url@ == url && instance.container_id == container_id
                && instance.width == config.width && instance.height == config.height)
            &&& created matches Err(error) ==> (error matches InstanceError::BaseUrl {
                value,
                error: message,
            } && value@ == wanted && crate::urls::parsed_url(wanted) == Err::<
                (Seq<char>, Seq<char>),
                Seq<char>,
            >(message@))
        }),
{
}

/// What a turn asks for as a whole, given what its fired events asked for.
pub open spec fn settled(paint: bool, fired: TickResult) -> TickResult {
    TickResult { needs_paint: fired.needs_paint || paint, jobs_pending: fired.jobs_pending }
}

/// What a tick asks for, given what scripts and image events asked for.
pub open spec fn ticked(ui: UiState, script: TickResult, images: TickResult) -> TickResult {
    TickResult {
        needs_paint: script.needs_paint || images.needs_paint || ui.needs_paint,
        jobs_pending: script.jobs_pending || images.jobs_pending,
    }
}

/// A repaint that a turn or one of its fired events asks for is asked of the host, and
/// queued jobs are reported. A tick also asks for the repaint that was noted before.
pub proof fn repaints_reach_the_host(
    ui: UiState,
    paint: bool,
    script: TickResult,
    images: TickResult,
)
    ensures
        settled(paint, script).needs_paint <==> paint || script.needs_paint,
        settled(paint, script).jobs_pending <==> script.jobs_pending,
        ticked(ui, script, images).needs_paint <==> ui.needs_paint || script.needs_paint
            || images.needs_paint,
        ticked(ui, script, images).jobs_pending <==> script.jobs_pending || images.jobs_pending,
{
}

} // verus!
