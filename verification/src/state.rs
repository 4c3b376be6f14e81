use vstd::prelude::*;

use crate::dirs::{listing_ok, make_listing, DirEntryInfo};
use crate::geo::{detect_kind, feature_coords, features_of, geometry_type_set, headers_from,
    pairs_view, row_of, sorted_unique, spec_detect_kind, str_set, strs_view, FileKind,
    JsonInspector};
use crate::parse::{parse_document, parsed_doc, pretty_document, pretty_of};
use crate::query::{build_where_clause, is_unary_operator, operator_text, predicate_of,
    spec_is_unary, spec_operator_texts, FilterCondition, OPERATOR_COUNT};
use crate::text::{append_str, chars_to_string, extension_of, path_extension, string_to_chars};
use crate::tiles::{Preset, TippecanoeConfig};
use crate::tree::{build_tree, entries_view, spec_height, spec_tree, toggle_path, JsonValue,
    NodeKind, PathSet, TreeNode};
use crate::{spec_total_pages, total_pages, PAGE_SIZE};

verus! {

/// Top-level view mode; exactly one is active.
#[derive(Debug, Clone, Copy, PartialEq, Eq, Structural)]
pub enum Screen {
    Home,
    FileBrowser,
    DataInspector,
    JsonInspector,
}

#[derive(Debug, Clone, Copy, PartialEq, Eq, Structural)]
pub enum InspectorTab {
    Schema,
    Preview,
}

#[derive(Debug, Clone, Copy, PartialEq, Eq, Structural)]
pub enum JsonInspectorTab {
    Tree,
    Raw,
}

#[derive(Debug, Clone, Copy, PartialEq, Eq, Structural)]
pub enum GeoJsonTab {
    Summary,
    Features,
    Tree,
}

#[derive(Debug, Clone, Copy, PartialEq, Eq, Structural)]
pub enum FilterField {
    Column,
    Operator,
    Value,
}

/// Editor state while the filter popup is open: a working copy of the
/// conditions, committed only on apply.
#[derive(Debug)]
pub struct FilterEditorState {
    pub conditions: Vec<FilterCondition>,
    pub column_idx: usize,
    pub operator_idx: usize,
    pub value_input: String,
    pub active_field: FilterField,
}

/// The modal overlay; at most one is active, and it takes input before the
/// screen does.
#[derive(Debug)]
pub enum Popup {
    Inactive,
    ConvertConfirm { target_format: String },
    Message { title: String, body: String },
    FilterEditor(FilterEditorState),
    PmtilesConfig {
        source_file: String,
        config: TippecanoeConfig,
        preset: Preset,
        selected_field: usize,
    },
}

/// A key press, as the input layer hands it over.
#[derive(Debug, Clone, Copy, PartialEq, Eq, Structural)]
pub enum Key {
    Char(char),
    Enter,
    Esc,
    Tab,
    Up,
    Down,
    Left,
    Right,
    Backspace,
    Other,
}

/// The intents a key press maps to.
#[derive(Debug, Clone, Copy, PartialEq, Eq, Structural)]
pub enum Message {
    Quit,
    NavigateUp,
    NavigateDown,
    Enter,
    Back,
    SwitchTab,
    ScrollUp,
    ScrollDown,
    ConvertFile,
    ConfirmConvert,
    ClosePopup,
    ToggleTreeNode,
    SwitchGeoTab,
    Noop,
    NextPage,
    PrevPage,
    OpenFilterPopup,
    FilterTabNext,
    FilterNavUp,
    FilterNavDown,
    FilterChar(char),
    FilterBackspace,
    FilterAddCondition,
    FilterRemoveLast,
    FilterApply,
}

/// What a successful directory load should do besides installing the
/// listing.
#[derive(Debug, Clone, Copy, PartialEq, Eq, Structural)]
pub enum DirLoadMode {
    /// Switch to the file browser on success; report failure.
    EnterBrowser,
    /// Stay on the file browser; report failure.
    StayBrowser,
    /// Install the listing if it came; ignore failure.
    Silent,
}

/// The outside work a reducer step asks for. The reducer never performs
/// file or engine work itself: it hands one of these back, and the next
/// state step consumes the typed result.
#[derive(Debug)]
pub enum Effect {
    Idle,
    /// List the directory at `path` and report back with the same mode.
    LoadDir { path: String, mode: DirLoadMode },
    /// Compute the parent directory of `file`, make it current, and list it
    /// silently.
    LoadParentDir { file: String },
    /// Read the text of the document at `path`.
    LoadJson { path: String },
    /// Load the full inspector snapshot for the tabular file at `path`.
    LoadTable { path: String },
    /// Count the rows of `path` under `predicate`.
    CountRows { path: String, predicate: String },
    /// Fetch one page of preview rows.
    FetchPage { path: String, limit: usize, offset: usize, predicate: String },
    /// Convert `path` to the target format.
    RunConvert { path: String, target: String },
}

/// The geographic summary held for a loaded geographic document; a bounding
/// box exists exactly when `coords` is non-empty.
#[derive(Debug)]
pub struct GeoSummary {
    pub feature_count: usize,
    pub geometry_types: Vec<String>,
    pub coords: Vec<(String, String)>,
}

/// The single mutable aggregate of all screen data, popup state and caches.
#[derive(Debug)]
pub struct App {
    pub should_quit: bool,
    pub current_screen: Screen,
    pub home_selected: usize,
    pub current_dir: String,
    pub dir_entries: Vec<DirEntryInfo>,
    pub browser_selected: usize,
    pub inspector_file: Option<String>,
    pub inspector_tab: InspectorTab,
    pub inspector_schema: Vec<(String, String)>,
    pub inspector_null_counts: Vec<usize>,
    pub inspector_mean_values: Vec<String>,
    pub inspector_min_values: Vec<String>,
    pub inspector_max_values: Vec<String>,
    pub inspector_preview_headers: Vec<String>,
    pub inspector_preview_data: Vec<Vec<String>>,
    pub inspector_row_count: usize,
    pub inspector_scroll: usize,
    pub inspector_page: usize,
    pub inspector_filters: Vec<FilterCondition>,
    pub popup: Popup,
    pub json_file: Option<String>,
    pub json_root: Option<JsonValue>,
    pub json_kind: Option<FileKind>,
    pub json_tab: JsonInspectorTab,
    pub geo_tab: GeoJsonTab,
    pub json_scroll: usize,
    pub json_tree_nodes: Vec<(String, TreeNode)>,
    pub json_collapsed: PathSet,
    pub json_features_headers: Vec<String>,
    pub json_features_data: Vec<Vec<String>>,
    pub json_geosummary: Option<GeoSummary>,
    pub json_raw: String,
}

/// What every reducer step preserves: an open filter editor points at a
/// real operator, a loaded document is of representable height, and a page
/// past the first lies within the filtered row count.
pub open spec fn app_inv(a: App) -> bool {
    &&& (match a.popup {
        Popup::FilterEditor(st) => st.operator_idx < OPERATOR_COUNT,
        _ => true,
    })
    &&& (match a.json_root {
        Option::Some(d) => spec_height(d) <= usize::MAX,
        Option::None => true,
    })
    &&& (a.inspector_page == 0 || (a.inspector_page as int) * (PAGE_SIZE as int)
        < a.inspector_row_count as int)
}

impl App {
    /// The state at startup: the home screen over the given working
    /// directory, with nothing loaded.
    pub fn new(current_dir: String) -> (r: App)
        ensures
            app_inv(r),
            !r.should_quit,
            r.current_screen == Screen::Home,
            r.home_selected == 0,
            r.current_dir == current_dir,
            r.dir_entries@.len() == 0,
            r.browser_selected == 0,
            r.inspector_file is None,
            r.inspector_tab == InspectorTab::Schema,
            r.inspector_schema@.len() == 0,
            r.inspector_row_count == 0,
            r.inspector_scroll == 0,
            r.inspector_page == 0,
            r.inspector_filters@.len() == 0,
            r.popup is Inactive,
            r.json_file is None,
            r.json_root is None,
            r.json_kind is None,
            r.json_tab == JsonInspectorTab::Tree,
            r.geo_tab == GeoJsonTab::Summary,
            r.json_scroll == 0,
            r.json_tree_nodes@.len() == 0,
            r.json_collapsed@ == Set::<Seq<char>>::empty(),
            r.json_geosummary is None,
            r.json_raw@.len() == 0,
    {
        App {
            should_quit: false,
            current_screen: Screen::Home,
            home_selected: 0,
            current_dir,
            dir_entries: Vec::new(),
            browser_selected: 0,
            inspector_file: None,
            inspector_tab: InspectorTab::Schema,
            inspector_schema: Vec::new(),
            inspector_null_counts: Vec::new(),
            inspector_mean_values: Vec::new(),
            inspector_min_values: Vec::new(),
            inspector_max_values: Vec::new(),
            inspector_preview_headers: Vec::new(),
            inspector_preview_data: Vec::new(),
            inspector_row_count: 0,
            inspector_scroll: 0,
            inspector_page: 0,
            inspector_filters: Vec::new(),
            popup: Popup::Inactive,
            json_file: None,
            json_root: None,
            json_kind: None,
            json_tab: JsonInspectorTab::Tree,
            geo_tab: GeoJsonTab::Summary,
            json_scroll: 0,
            json_tree_nodes: Vec::new(),
            json_collapsed: PathSet::new(),
            json_features_headers: Vec::new(),
            json_features_data: Vec::new(),
            json_geosummary: None,
            json_raw: String::new(),
        }
    }

    /// Makes another directory current, as the front end does when it has
    /// computed a parent path.
    pub fn set_current_dir(&mut self, dir: String)
        requires
            app_inv(*old(self)),
        ensures
            app_inv(*final(self)),
            *final(self) == (App { current_dir: dir, ..*old(self) }),
    {
        self.current_dir = dir;
    }
}

// ---------------------------------------------------------------------------
// Input mapping
// ---------------------------------------------------------------------------

/// The message a key press maps to: an active popup decides first, then the
/// global quit keys, then the active screen.
pub open spec fn spec_map_input(a: App, key: Key, ctrl: bool) -> Message {
    match a.popup {
        Popup::ConvertConfirm { .. } => match key {
            Key::Enter => Message::ConfirmConvert,
            Key::Esc => Message::ClosePopup,
            _ => Message::Noop,
        },
        Popup::Message { .. } => match key {
            Key::Enter => Message::ClosePopup,
            Key::Esc => Message::ClosePopup,
            _ => Message::Noop,
        },
        Popup::FilterEditor(st) => match key {
            Key::Esc => Message::ClosePopup,
            Key::Tab => Message::FilterTabNext,
            Key::Up => Message::FilterNavUp,
            Key::Down => Message::FilterNavDown,
            Key::Backspace => Message::FilterBackspace,
            Key::Enter => if st.active_field == FilterField::Value {
                if st.value_input@.len() == 0 {
                    Message::FilterApply
                } else {
                    Message::FilterAddCondition
                }
            } else {
                Message::FilterTabNext
            },
            Key::Char(c) => if c == 'd' && st.active_field != FilterField::Value {
                Message::FilterRemoveLast
            } else if st.active_field == FilterField::Value {
                Message::FilterChar(c)
            } else {
                Message::Noop
            },
            _ => Message::Noop,
        },
        Popup::PmtilesConfig { .. } => match key {
            Key::Esc => Message::ClosePopup,
            _ => Message::Noop,
        },
        Popup::Inactive => if key == Key::Char('q') || (ctrl && key == Key::Char('c')) {
            Message::Quit
        } else {
            match a.current_screen {
                Screen::Home => match key {
                    Key::Up => Message::NavigateUp,
                    Key::Down => Message::NavigateDown,
                    Key::Enter => Message::Enter,
                    Key::Char(c) => if c == 'k' {
                        Message::NavigateUp
                    } else if c == 'j' {
                        Message::NavigateDown
                    } else {
                        Message::Noop
                    },
                    _ => Message::Noop,
                },
                Screen::FileBrowser => match key {
                    Key::Up => Message::NavigateUp,
                    Key::Down => Message::NavigateDown,
                    Key::Enter => Message::Enter,
                    Key::Esc => Message::Back,
                    Key::Char(c) => if c == 'k' {
                        Message::NavigateUp
                    } else if c == 'j' {
                        Message::NavigateDown
                    } else {
                        Message::Noop
                    },
                    _ => Message::Noop,
                },
                Screen::DataInspector => match key {
                    Key::Tab => Message::SwitchTab,
                    Key::Up => Message::ScrollUp,
                    Key::Down => Message::ScrollDown,
                    Key::Esc => Message::Back,
                    Key::Right => Message::NextPage,
                    Key::Left => Message::PrevPage,
                    Key::Char(c) => if c == 'k' {
                        Message::ScrollUp
                    } else if c == 'j' {
                        Message::ScrollDown
                    } else if c == 'c' {
                        Message::ConvertFile
                    } else if c == 'f' {
                        Message::OpenFilterPopup
                    } else {
                        Message::Noop
                    },
                    _ => Message::Noop,
                },
                Screen::JsonInspector => match key {
                    Key::Tab => if a.json_kind == Option::Some(FileKind::GeoJson) {
                        Message::SwitchGeoTab
                    } else {
                        Message::SwitchTab
                    },
                    Key::Up => Message::ScrollUp,
                    Key::Down => Message::ScrollDown,
                    Key::Enter => Message::ToggleTreeNode,
                    Key::Esc => Message::Back,
                    Key::Char(c) => if c == 'k' {
                        Message::ScrollUp
                    } else if c == 'j' {
                        Message::ScrollDown
                    } else {
                        Message::Noop
                    },
                    _ => Message::Noop,
                },
            }
        },
    }
}

impl App {
    /// Maps one key press to a message, reading the state and never
    /// changing it.
    pub fn map_input(&self, key: Key, ctrl: bool) -> (m: Message)
        ensures
            m == spec_map_input(*self, key, ctrl),
    {
        match &self.popup {
            Popup::ConvertConfirm { .. } => match key {
                Key::Enter => Message::ConfirmConvert,
                Key::Esc => Message::ClosePopup,
                _ => Message::Noop,
            },
            Popup::Message { .. } => match key {
                Key::Enter => Message::ClosePopup,
                Key::Esc => Message::ClosePopup,
                _ => Message::Noop,
            },
            Popup::FilterEditor(st) => match key {
                Key::Esc => Message::ClosePopup,
                Key::Tab => Message::FilterTabNext,
                Key::Up => Message::FilterNavUp,
                Key::Down => Message::FilterNavDown,
                Key::Backspace => Message::FilterBackspace,
                Key::Enter => {
                    if st.active_field == FilterField::Value {
                        if st.value_input.as_str().is_empty() {
                            Message::FilterApply
                        } else {
                            Message::FilterAddCondition
                        }
                    } else {
                        Message::FilterTabNext
                    }
                },
                Key::Char(c) => {
                    if c == 'd' && st.active_field != FilterField::Value {
                        Message::FilterRemoveLast
                    } else if st.active_field == FilterField::Value {
                        Message::FilterChar(c)
                    } else {
                        Message::Noop
                    }
                },
                _ => Message::Noop,
            },
            Popup::PmtilesConfig { .. } => match key {
                Key::Esc => Message::ClosePopup,
                _ => Message::Noop,
            },
            Popup::Inactive => {
                if key == Key::Char('q') || (ctrl && key == Key::Char('c')) {
                    return Message::Quit;
                }
                match self.current_screen {
                    Screen::Home => match key {
                        Key::Up => Message::NavigateUp,
                        Key::Down => Message::NavigateDown,
                        Key::Enter => Message::Enter,
                        Key::Char(c) => {
                            if c == 'k' {
                                Message::NavigateUp
                            } else if c == 'j' {
                                Message::NavigateDown
                            } else {
                                Message::Noop
                            }
                        },
                        _ => Message::Noop,
                    },
                    Screen::FileBrowser => match key {
                        Key::Up => Message::NavigateUp,
                        Key::Down => Message::NavigateDown,
                        Key::Enter => Message::Enter,
                        Key::Esc => Message::Back,
                        Key::Char(c) => {
                            if c == 'k' {
                                Message::NavigateUp
                            } else if c == 'j' {
                                Message::NavigateDown
                            } else {
                                Message::Noop
                            }
                        },
                        _ => Message::Noop,
                    },
                    Screen::DataInspector => match key {
                        Key::Tab => Message::SwitchTab,
                        Key::Up => Message::ScrollUp,
                        Key::Down => Message::ScrollDown,
                        Key::Esc => Message::Back,
                        Key::Right => Message::NextPage,
                        Key::Left => Message::PrevPage,
                        Key::Char(c) => {
                            if c == 'k' {
                                Message::ScrollUp
                            } else if c == 'j' {
                                Message::ScrollDown
                            } else if c == 'c' {
                                Message::ConvertFile
                            } else if c == 'f' {
                                Message::OpenFilterPopup
                            } else {
                                Message::Noop
                            }
                        },
                        _ => Message::Noop,
                    },
                    Screen::JsonInspector => match key {
                        Key::Tab => {
                            if self.json_kind == Some(FileKind::GeoJson) {
                                Message::SwitchGeoTab
                            } else {
                                Message::SwitchTab
                            }
                        },
                        Key::Up => Message::ScrollUp,
                        Key::Down => Message::ScrollDown,
                        Key::Enter => Message::ToggleTreeNode,
                        Key::Esc => Message::Back,
                        Key::Char(c) => {
                            if c == 'k' {
                                Message::ScrollUp
                            } else if c == 'j' {
                                Message::ScrollDown
                            } else {
                                Message::Noop
                            }
                        },
                        _ => Message::Noop,
                    },
                }
            },
        }
    }
}

// ---------------------------------------------------------------------------
// What each message does
// ---------------------------------------------------------------------------

/// The state shows an error popup with body `m`, everything else unchanged.
pub open spec fn with_error_popup(o: App, n: App, m: String) -> bool {
    &&& (match n.popup {
        Popup::Message { title, body } => title@ == "Error"@ && body == m,
        _ => false,
    })
    &&& n == (App { popup: n.popup, ..o })
}

pub open spec fn step_quit(o: App, n: App, e: Effect) -> bool {
    n == (App { should_quit: true, ..o }) && e is Idle
}

pub open spec fn step_navigate_up(o: App, n: App, e: Effect) -> bool {
    e is Idle && (match o.current_screen {
        Screen::Home => n == (App {
            home_selected: if o.home_selected > 0 {
                (o.home_selected - 1) as usize
            } else {
                0
            },
            ..o
        }),
        Screen::FileBrowser => n == (App {
            browser_selected: if o.browser_selected > 0 {
                (o.browser_selected - 1) as usize
            } else {
                0
            },
            ..o
        }),
        _ => n == o,
    })
}

pub open spec fn step_navigate_down(o: App, n: App, e: Effect) -> bool {
    e is Idle && (match o.current_screen {
        Screen::Home => n == (App {
            home_selected: if o.home_selected < 1 {
                (o.home_selected + 1) as usize
            } else {
                o.home_selected
            },
            ..o
        }),
        Screen::FileBrowser => n == (App {
            browser_selected: if o.browser_selected + 1 < o.dir_entries@.len() {
                (o.browser_selected + 1) as usize
            } else {
                o.browser_selected
            },
            ..o
        }),
        _ => n == o,
    })
}

/// Activation: the home screen opens the browser; a browser entry descends
/// into a directory, opens a tabular file in the data inspector, or a JSON
/// document in the document inspector; anything else is ignored.
pub open spec fn step_enter(o: App, n: App, e: Effect) -> bool {
    match o.current_screen {
        Screen::Home => n == o && e == (Effect::LoadDir {
            path: o.current_dir,
            mode: DirLoadMode::EnterBrowser,
        }),
        Screen::FileBrowser => if o.browser_selected < o.dir_entries@.len() {
            let en = o.dir_entries@[o.browser_selected as int];
            if en.is_dir {
                n == (App { current_dir: en.path, browser_selected: 0, ..o }) && e == (
                Effect::LoadDir { path: en.path, mode: DirLoadMode::StayBrowser })
            } else {
                let ext = extension_of(en.path@);
                if ext == "csv"@ || ext == "parquet"@ {
                    n == (App { inspector_file: Option::Some(en.path), ..o }) && e == (
                    Effect::LoadTable { path: en.path })
                } else if ext == "json"@ || ext == "geojson"@ {
                    n == o && e == (Effect::LoadJson { path: en.path })
                } else {
                    n == o && e is Idle
                }
            }
        } else {
            n == o && e is Idle
        },
        _ => n == o && e is Idle,
    }
}

pub open spec fn step_back(o: App, n: App, e: Effect) -> bool {
    match o.current_screen {
        Screen::JsonInspector => n == (App { current_screen: Screen::FileBrowser, ..o })
            && e is Idle,
        Screen::DataInspector => n == (App { current_screen: Screen::FileBrowser, ..o }) && (
        match o.inspector_file {
            Option::Some(f) => if o.dir_entries@.len() == 0 {
                e == (Effect::LoadParentDir { file: f })
            } else {
                e is Idle
            },
            Option::None => e is Idle,
        }),
        Screen::FileBrowser => n == (App { current_screen: Screen::Home, ..o }) && e is Idle,
        Screen::Home => n == o && e is Idle,
    }
}

pub open spec fn step_switch_tab(o: App, n: App, e: Effect) -> bool {
    e is Idle && (match o.current_screen {
        Screen::JsonInspector => n == (App {
            json_scroll: 0,
            json_tab: (match o.json_tab {
                JsonInspectorTab::Tree => JsonInspectorTab::Raw,
                JsonInspectorTab::Raw => JsonInspectorTab::Tree,
            }),
            ..o
        }),
        _ => n == (App {
            inspector_scroll: 0,
            inspector_tab: (match o.inspector_tab {
                InspectorTab::Schema => InspectorTab::Preview,
                InspectorTab::Preview => InspectorTab::Schema,
            }),
            ..o
        }),
    })
}

pub open spec fn step_scroll_up(o: App, n: App, e: Effect) -> bool {
    e is Idle && (match o.current_screen {
        Screen::JsonInspector => n == (App {
            json_scroll: if o.json_scroll > 0 {
                (o.json_scroll - 1) as usize
            } else {
                0
            },
            ..o
        }),
        _ => n == (App {
            inspector_scroll: if o.inspector_scroll > 0 {
                (o.inspector_scroll - 1) as usize
            } else {
                0
            },
            ..o
        }),
    })
}

pub open spec fn step_scroll_down(o: App, n: App, e: Effect) -> bool {
    e is Idle && (match o.current_screen {
        Screen::JsonInspector => {
            let max = if o.geo_tab == GeoJsonTab::Features {
                o.json_features_data@.len()
            } else {
                o.json_tree_nodes@.len()
            };
            n == (App {
                json_scroll: if o.json_scroll + 1 < max {
                    (o.json_scroll + 1) as usize
                } else {
                    o.json_scroll
                },
                ..o
            })
        },
        _ => {
            let max = match o.inspector_tab {
                InspectorTab::Schema => o.inspector_schema@.len(),
                InspectorTab::Preview => o.inspector_preview_data@.len(),
            };
            n == (App {
                inspector_scroll: if o.inspector_scroll + 1 < max {
                    (o.inspector_scroll + 1) as usize
                } else {
                    o.inspector_scroll
                },
                ..o
            })
        },
    })
}

/// Paging forward: only on the preview tab, and only within
/// `[0, total pages)`; a page change asks for exactly one page fetch.
pub open spec fn step_next_page(o: App, n: App, e: Effect) -> bool {
    if o.inspector_tab != InspectorTab::Preview {
        n == o && e is Idle
    } else {
        let total = spec_total_pages(o.inspector_row_count as int);
        if o.inspector_page + 1 < total {
            n == (App { inspector_page: (o.inspector_page + 1) as usize, ..o }) && (match o
                .inspector_file {
                Option::Some(f) => e matches Effect::FetchPage { path, limit, offset, predicate }
                    && path == f && limit == PAGE_SIZE && offset == (o.inspector_page + 1) * (
                PAGE_SIZE as int) && predicate@ == predicate_of(o.inspector_filters@),
                Option::None => e is Idle,
            })
        } else {
            n == o && e is Idle
        }
    }
}

pub open spec fn step_prev_page(o: App, n: App, e: Effect) -> bool {
    if o.inspector_tab != InspectorTab::Preview {
        n == o && e is Idle
    } else if o.inspector_page > 0 {
        n == (App { inspector_page: (o.inspector_page - 1) as usize, ..o }) && (match o
            .inspector_file {
            Option::Some(f) => e matches Effect::FetchPage { path, limit, offset, predicate }
                && path == f && limit == PAGE_SIZE && offset == (o.inspector_page - 1) * (
            PAGE_SIZE as int) && predicate@ == predicate_of(o.inspector_filters@),
            Option::None => e is Idle,
        })
    } else {
        n == o && e is Idle
    }
}

pub open spec fn step_convert_file(o: App, n: App, e: Effect) -> bool {
    e is Idle && (match o.inspector_file {
        Option::Some(f) => {
            let t = if extension_of(f@) == "csv"@ {
                "parquet"@
            } else {
                "csv"@
            };
            (match n.popup {
                Popup::ConvertConfirm { target_format } => target_format@ == t,
                _ => false,
            }) && n == (App { popup: n.popup, ..o })
        },
        Option::None => n == o,
    })
}

pub open spec fn step_confirm_convert(o: App, n: App, e: Effect) -> bool {
    n == o && (match o.popup {
        Popup::ConvertConfirm { target_format } => match o.inspector_file {
            Option::Some(f) => e == (Effect::RunConvert { path: f, target: target_format }),
            Option::None => e is Idle,
        },
        _ => e is Idle,
    })
}

pub open spec fn step_close_popup(o: App, n: App, e: Effect) -> bool {
    n == (App { popup: Popup::Inactive, ..o }) && e is Idle
}

/// Toggling the node under the cursor: a container's path flips in the
/// collapse set and the flattened list is rebuilt from the unchanged root;
/// a scalar is left alone.
pub open spec fn step_toggle_tree_node(o: App, n: App, e: Effect) -> bool {
    e is Idle && (if o.json_scroll < o.json_tree_nodes@.len() {
        let pair = o.json_tree_nodes@[o.json_scroll as int];
        let container = match pair.1.kind {
            NodeKind::Object => true,
            NodeKind::Array => true,
            NodeKind::Scalar(_, _) => false,
        };
        if container {
            let c2 = toggle_path(o.json_collapsed@, pair.0@);
            n.json_collapsed@ == c2 && (match o.json_root {
                Option::Some(root) => entries_view(n.json_tree_nodes@) == spec_tree(
                    root,
                    Option::None,
                    Seq::empty(),
                    0,
                    c2,
                ) && n == (App {
                    json_collapsed: n.json_collapsed,
                    json_tree_nodes: n.json_tree_nodes,
                    ..o
                }),
                Option::None => n == (App { json_collapsed: n.json_collapsed, ..o }),
            })
        } else {
            n == o
        }
    } else {
        n == o
    })
}

pub open spec fn step_switch_geo_tab(o: App, n: App, e: Effect) -> bool {
    e is Idle && n == (App {
        json_scroll: 0,
        geo_tab: (match o.geo_tab {
            GeoJsonTab::Summary => GeoJsonTab::Features,
            GeoJsonTab::Features => GeoJsonTab::Tree,
            GeoJsonTab::Tree => GeoJsonTab::Summary,
        }),
        ..o
    })
}

/// Opening the filter editor: only on the preview tab; the editor starts on
/// the column field with a working copy of the committed conditions.
pub open spec fn step_open_filter_popup(o: App, n: App, e: Effect) -> bool {
    e is Idle && (if o.inspector_tab != InspectorTab::Preview {
        n == o
    } else {
        (match n.popup {
            Popup::FilterEditor(st) => st.conditions@ == o.inspector_filters@ && st.column_idx
                == 0 && st.operator_idx == 0 && st.value_input@.len() == 0 && st.active_field
                == FilterField::Column,
            _ => false,
        }) && n == (App { popup: n.popup, ..o })
    })
}

/// Advancing the editor's active field; a unary operator skips the value
/// field and wraps back to the column field.
pub open spec fn step_filter_tab_next(o: App, n: App, e: Effect) -> bool {
    e is Idle && (match o.popup {
        Popup::FilterEditor(st) => (match n.popup {
            Popup::FilterEditor(st2) => st2 == (FilterEditorState {
                active_field: (match st.active_field {
                    FilterField::Column => FilterField::Operator,
                    FilterField::Operator => if spec_is_unary(
                        spec_operator_texts()[st.operator_idx as int],
                    ) {
                        FilterField::Column
                    } else {
                        FilterField::Value
                    },
                    FilterField::Value => FilterField::Column,
                }),
                ..st
            }),
            _ => false,
        }) && n == (App { popup: n.popup, ..o }),
        _ => n == o,
    })
}

pub open spec fn step_filter_nav_up(o: App, n: App, e: Effect) -> bool {
    e is Idle && (match o.popup {
        Popup::FilterEditor(st) => (match n.popup {
            Popup::FilterEditor(st2) => st2 == (match st.active_field {
                FilterField::Column => (FilterEditorState {
                    column_idx: if st.column_idx > 0 {
                        (st.column_idx - 1) as usize
                    } else {
                        0
                    },
                    ..st
                }),
                FilterField::Operator => (FilterEditorState {
                    operator_idx: if st.operator_idx > 0 {
                        (st.operator_idx - 1) as usize
                    } else {
                        0
                    },
                    ..st
                }),
                FilterField::Value => st,
            }),
            _ => false,
        }) && n == (App { popup: n.popup, ..o }),
        _ => n == o,
    })
}

pub open spec fn step_filter_nav_down(o: App, n: App, e: Effect) -> bool {
    e is Idle && (match o.popup {
        Popup::FilterEditor(st) => (match n.popup {
            Popup::FilterEditor(st2) => st2 == (match st.active_field {
                FilterField::Column => (FilterEditorState {
                    column_idx: if st.column_idx + 1 < o.inspector_schema@.len() {
                        (st.column_idx + 1) as usize
                    } else {
                        st.column_idx
                    },
                    ..st
                }),
                FilterField::Operator => (FilterEditorState {
                    operator_idx: if st.operator_idx + 1 < OPERATOR_COUNT {
                        (st.operator_idx + 1) as usize
                    } else {
                        st.operator_idx
                    },
                    ..st
                }),
                FilterField::Value => st,
            }),
            _ => false,
        }) && n == (App { popup: n.popup, ..o }),
        _ => n == o,
    })
}

pub open spec fn step_filter_char(o: App, n: App, e: Effect, c: char) -> bool {
    e is Idle && (match o.popup {
        Popup::FilterEditor(st) => (match n.popup {
            Popup::FilterEditor(st2) => st2.value_input@ == st.value_input@.push(c) && st2 == (
            FilterEditorState { value_input: st2.value_input, ..st }),
            _ => false,
        }) && n == (App { popup: n.popup, ..o }),
        _ => n == o,
    })
}

pub open spec fn step_filter_backspace(o: App, n: App, e: Effect) -> bool {
    e is Idle && (match o.popup {
        Popup::FilterEditor(st) => (match n.popup {
            Popup::FilterEditor(st2) => st2.value_input@ == (if st.value_input@.len() > 0 {
                st.value_input@.drop_last()
            } else {
                st.value_input@
            }) && st2 == (FilterEditorState { value_input: st2.value_input, ..st }),
            _ => false,
        }) && n == (App { popup: n.popup, ..o }),
        _ => n == o,
    })
}

/// Adding a condition: the selected column, the selected operator and the
/// value buffer become one more working condition; the buffer clears and
/// the editor returns to the column field.
pub open spec fn step_filter_add_condition(o: App, n: App, e: Effect) -> bool {
    e is Idle && (match o.popup {
        Popup::FilterEditor(st) => if st.column_idx < o.inspector_schema@.len() {
            (match n.popup {
                Popup::FilterEditor(st2) => {
                    &&& st2.conditions@.len() == st.conditions@.len() + 1
                    &&& st2.conditions@.take(st.conditions@.len() as int) == st.conditions@
                    &&& st2.conditions@.last().column == o.inspector_schema@[st.column_idx as int].0
                    &&& st2.conditions@.last().operator@ == spec_operator_texts()[st.operator_idx as int]
                    &&& st2.conditions@.last().value == st.value_input
                    &&& st2.column_idx == st.column_idx
                    &&& st2.operator_idx == st.operator_idx
                    &&& st2.value_input@.len() == 0
                    &&& st2.active_field == FilterField::Column
                },
                _ => false,
            }) && n == (App { popup: n.popup, ..o })
        } else {
            n == o
        },
        _ => n == o,
    })
}

pub open spec fn step_filter_remove_last(o: App, n: App, e: Effect) -> bool {
    e is Idle && (match o.popup {
        Popup::FilterEditor(st) => (match n.popup {
            Popup::FilterEditor(st2) => st2.conditions@ == (if st.conditions@.len() > 0 {
                st.conditions@.drop_last()
            } else {
                st.conditions@
            }) && st2 == (FilterEditorState { conditions: st2.conditions, ..st }),
            _ => false,
        }) && n == (App { popup: n.popup, ..o }),
        _ => n == o,
    })
}

/// Applying the filters: the working conditions are committed, page and
/// scroll reset together, the popup closes, and a recount under the new
/// predicate is requested first.
pub open spec fn step_filter_apply(o: App, n: App, e: Effect) -> bool {
    match o.popup {
        Popup::FilterEditor(st) => {
            &&& n.inspector_filters@ == st.conditions@
            &&& n == (App {
                inspector_filters: n.inspector_filters,
                inspector_page: 0,
                inspector_scroll: 0,
                popup: Popup::Inactive,
                ..o
            })
            &&& (match o.inspector_file {
                Option::Some(f) => e matches Effect::CountRows { path, predicate } && path == f
                    && predicate@ == predicate_of(st.conditions@),
                Option::None => e is Idle,
            })
        },
        _ => n == o && e is Idle,
    }
}

/// One reducer step: what the next state and the requested outside work are
/// for each message.
pub open spec fn spec_update(o: App, m: Message, n: App, e: Effect) -> bool {
    match m {
        Message::Quit => step_quit(o, n, e),
        Message::NavigateUp => step_navigate_up(o, n, e),
        Message::NavigateDown => step_navigate_down(o, n, e),
        Message::Enter => step_enter(o, n, e),
        Message::Back => step_back(o, n, e),
        Message::SwitchTab => step_switch_tab(o, n, e),
        Message::ScrollUp => step_scroll_up(o, n, e),
        Message::ScrollDown => step_scroll_down(o, n, e),
        Message::ConvertFile => step_convert_file(o, n, e),
        Message::ConfirmConvert => step_confirm_convert(o, n, e),
        Message::ClosePopup => step_close_popup(o, n, e),
        Message::ToggleTreeNode => step_toggle_tree_node(o, n, e),
        Message::SwitchGeoTab => step_switch_geo_tab(o, n, e),
        Message::Noop => n == o && e is Idle,
        Message::NextPage => step_next_page(o, n, e),
        Message::PrevPage => step_prev_page(o, n, e),
        Message::OpenFilterPopup => step_open_filter_popup(o, n, e),
        Message::FilterTabNext => step_filter_tab_next(o, n, e),
        Message::FilterNavUp => step_filter_nav_up(o, n, e),
        Message::FilterNavDown => step_filter_nav_down(o, n, e),
        Message::FilterChar(c) => step_filter_char(o, n, e, c),
        Message::FilterBackspace => step_filter_backspace(o, n, e),
        Message::FilterAddCondition => step_filter_add_condition(o, n, e),
        Message::FilterRemoveLast => step_filter_remove_last(o, n, e),
        Message::FilterApply => step_filter_apply(o, n, e),
    }
}

// ---------------------------------------------------------------------------
// The reducer
// ---------------------------------------------------------------------------

fn clone_conditions(v: &Vec<FilterCondition>) -> (r: Vec<FilterCondition>)
    ensures
        r@ == v@,
{
    let mut out: Vec<FilterCondition> = Vec::new();
    let mut i: usize = 0;
    while i < v.len()
        invariant
            i <= v@.len(),
            out@ == v@.take(i as int),
        decreases v@.len() - i,
    {
        out.push(v[i].clone());
        proof {
            assert(v@.take(i + 1 as int) =~= v@.take(i as int).push(v@[i as int]));
        }
        i = i + 1;
    }
    proof {
        assert(v@.take(v@.len() as int) =~= v@);
    }
    out
}

impl App {
    /// Reduces one message into the state and returns the outside work the
    /// step asks for; every message fully determines the next state.
    pub fn update(&mut self, message: Message) -> (e: Effect)
        requires
            app_inv(*old(self)),
        ensures
            app_inv(*final(self)),
            spec_update(*old(self), message, *final(self), e),
    {
        match message {
            Message::Quit => self.do_quit(),
            Message::NavigateUp => self.do_navigate_up(),
            Message::NavigateDown => self.do_navigate_down(),
            Message::Enter => self.do_enter(),
            Message::Back => self.do_back(),
            Message::SwitchTab => self.do_switch_tab(),
            Message::ScrollUp => self.do_scroll_up(),
            Message::ScrollDown => self.do_scroll_down(),
            Message::ConvertFile => self.do_convert_file(),
            Message::ConfirmConvert => self.do_confirm_convert(),
            Message::ClosePopup => self.do_close_popup(),
            Message::ToggleTreeNode => self.do_toggle_tree_node(),
            Message::SwitchGeoTab => self.do_switch_geo_tab(),
            Message::Noop => Effect::Idle,
            Message::NextPage => self.do_next_page(),
            Message::PrevPage => self.do_prev_page(),
            Message::OpenFilterPopup => self.do_open_filter_popup(),
            Message::FilterTabNext => self.do_filter_tab_next(),
            Message::FilterNavUp => self.do_filter_nav_up(),
            Message::FilterNavDown => self.do_filter_nav_down(),
            Message::FilterChar(c) => self.do_filter_char(c),
            Message::FilterBackspace => self.do_filter_backspace(),
            Message::FilterAddCondition => self.do_filter_add_condition(),
            Message::FilterRemoveLast => self.do_filter_remove_last(),
            Message::FilterApply => self.do_filter_apply(),
        }
    }

    fn do_quit(&mut self) -> (e: Effect)
        requires
            app_inv(*old(self)),
        ensures
            app_inv(*final(self)),
            step_quit(*old(self), *final(self), e),
    {
        self.should_quit = true;
        Effect::Idle
    }

    fn do_navigate_up(&mut self) -> (e: Effect)
        requires
            app_inv(*old(self)),
        ensures
            app_inv(*final(self)),
            step_navigate_up(*old(self), *final(self), e),
    {
        match self.current_screen {
            Screen::Home => {
                if self.home_selected > 0 {
                    self.home_selected = self.home_selected - 1;
                }
            },
            Screen::FileBrowser => {
                if self.browser_selected > 0 {
                    self.browser_selected = self.browser_selected - 1;
                }
            },
            _ => {},
        }
        Effect::Idle
    }

    fn do_navigate_down(&mut self) -> (e: Effect)
        requires
            app_inv(*old(self)),
        ensures
            app_inv(*final(self)),
            step_navigate_down(*old(self), *final(self), e),
    {
        match self.current_screen {
            Screen::Home => {
                if self.home_selected < 1 {
                    self.home_selected = self.home_selected + 1;
                }
            },
            Screen::FileBrowser => {
                let len = self.dir_entries.len();
                if len > 0 && self.browser_selected < len - 1 {
                    self.browser_selected = self.browser_selected + 1;
                }
            },
            _ => {},
        }
        Effect::Idle
    }

    fn do_enter(&mut self) -> (e: Effect)
        requires
            app_inv(*old(self)),
        ensures
            app_inv(*final(self)),
            step_enter(*old(self), *final(self), e),
    {
        match self.current_screen {
            Screen::Home => {
                let path = self.current_dir.clone();
                Effect::LoadDir { path, mode: DirLoadMode::EnterBrowser }
            },
            Screen::FileBrowser => {
                if self.browser_selected < self.dir_entries.len() {
                    let is_dir = self.dir_entries[self.browser_selected].is_dir;
                    let path = self.dir_entries[self.browser_selected].path.clone();
                    if is_dir {
                        self.current_dir = path.clone();
                        self.browser_selected = 0;
                        Effect::LoadDir { path, mode: DirLoadMode::StayBrowser }
                    } else {
                        let ext = path_extension(path.as_str());
                        let csv: String = "csv".to_owned();
                        let parquet: String = "parquet".to_owned();
                        let json: String = "json".to_owned();
                        let geojson: String = "geojson".to_owned();
                        if ext == csv || ext == parquet {
                            self.inspector_file = Some(path.clone());
                            Effect::LoadTable { path }
                        } else if ext == json || ext == geojson {
                            Effect::LoadJson { path }
                        } else {
                            Effect::Idle
                        }
                    }
                } else {
                    Effect::Idle
                }
            },
            _ => Effect::Idle,
        }
    }

    fn do_back(&mut self) -> (e: Effect)
        requires
            app_inv(*old(self)),
        ensures
            app_inv(*final(self)),
            step_back(*old(self), *final(self), e),
    {
        match self.current_screen {
            Screen::JsonInspector => {
                self.current_screen = Screen::FileBrowser;
                Effect::Idle
            },
            Screen::DataInspector => {
                let eff = if self.dir_entries.len() == 0 {
                    match &self.inspector_file {
                        Some(f) => Effect::LoadParentDir { file: f.clone() },
                        None => Effect::Idle,
                    }
                } else {
                    Effect::Idle
                };
                self.current_screen = Screen::FileBrowser;
                eff
            },
            Screen::FileBrowser => {
                self.current_screen = Screen::Home;
                Effect::Idle
            },
            Screen::Home => Effect::Idle,
        }
    }

    fn do_switch_tab(&mut self) -> (e: Effect)
        requires
            app_inv(*old(self)),
        ensures
            app_inv(*final(self)),
            step_switch_tab(*old(self), *final(self), e),
    {
        match self.current_screen {
            Screen::JsonInspector => {
                self.json_scroll = 0;
                self.json_tab = match self.json_tab {
                    JsonInspectorTab::Tree => JsonInspectorTab::Raw,
                    JsonInspectorTab::Raw => JsonInspectorTab::Tree,
                };
            },
            _ => {
                self.inspector_scroll = 0;
                self.inspector_tab = match self.inspector_tab {
                    InspectorTab::Schema => InspectorTab::Preview,
                    InspectorTab::Preview => InspectorTab::Schema,
                };
            },
        }
        Effect::Idle
    }

    fn do_scroll_up(&mut self) -> (e: Effect)
        requires
            app_inv(*old(self)),
        ensures
            app_inv(*final(self)),
            step_scroll_up(*old(self), *final(self), e),
    {
        match self.current_screen {
            Screen::JsonInspector => {
                if self.json_scroll > 0 {
                    self.json_scroll = self.json_scroll - 1;
                }
            },
            _ => {
                if self.inspector_scroll > 0 {
                    self.inspector_scroll = self.inspector_scroll - 1;
                }
            },
        }
        Effect::Idle
    }

    fn do_scroll_down(&mut self) -> (e: Effect)
        requires
            app_inv(*old(self)),
        ensures
            app_inv(*final(self)),
            step_scroll_down(*old(self), *final(self), e),
    {
        match self.current_screen {
            Screen::JsonInspector => {
                let max = if self.geo_tab == GeoJsonTab::Features {
                    self.json_features_data.len()
                } else {
                    self.json_tree_nodes.len()
                };
                if max > 0 && self.json_scroll < max - 1 {
                    self.json_scroll = self.json_scroll + 1;
                }
            },
            _ => {
                let max = match self.inspector_tab {
                    InspectorTab::Schema => self.inspector_schema.len(),
                    InspectorTab::Preview => self.inspector_preview_data.len(),
                };
                if max > 0 && self.inspector_scroll < max - 1 {
                    self.inspector_scroll = self.inspector_scroll + 1;
                }
            },
        }
        Effect::Idle
    }

    fn do_convert_file(&mut self) -> (e: Effect)
        requires
            app_inv(*old(self)),
        ensures
            app_inv(*final(self)),
            step_convert_file(*old(self), *final(self), e),
    {
        match &self.inspector_file {
            Some(f) => {
                let ext = path_extension(f.as_str());
                let csv: String = "csv".to_owned();
                let target: String = if ext == csv {
                    "parquet".to_owned()
                } else {
                    "csv".to_owned()
                };
                self.popup = Popup::ConvertConfirm { target_format: target };
            },
            None => {},
        }
        Effect::Idle
    }

    fn do_confirm_convert(&mut self) -> (e: Effect)
        requires
            app_inv(*old(self)),
        ensures
            app_inv(*final(self)),
            step_confirm_convert(*old(self), *final(self), e),
    {
        match &self.popup {
            Popup::ConvertConfirm { target_format } => {
                match &self.inspector_file {
                    Some(f) => Effect::RunConvert {
                        path: f.clone(),
                        target: target_format.clone(),
                    },
                    None => Effect::Idle,
                }
            },
            _ => Effect::Idle,
        }
    }

    fn do_close_popup(&mut self) -> (e: Effect)
        requires
            app_inv(*old(self)),
        ensures
            app_inv(*final(self)),
            step_close_popup(*old(self), *final(self), e),
    {
        self.popup = Popup::Inactive;
        Effect::Idle
    }

    fn do_toggle_tree_node(&mut self) -> (e: Effect)
        requires
            app_inv(*old(self)),
        ensures
            app_inv(*final(self)),
            step_toggle_tree_node(*old(self), *final(self), e),
    {
        if self.json_scroll < self.json_tree_nodes.len() {
            let container = match &self.json_tree_nodes[self.json_scroll].1.kind {
                NodeKind::Object => true,
                NodeKind::Array => true,
                NodeKind::Scalar(_, _) => false,
            };
            if container {
                let p = self.json_tree_nodes[self.json_scroll].0.clone();
                self.json_collapsed.toggle(&p);
                match &self.json_root {
                    Some(root) => {
                        self.json_tree_nodes = build_tree(root, &self.json_collapsed);
                    },
                    None => {},
                }
            }
        }
        Effect::Idle
    }

    fn do_switch_geo_tab(&mut self) -> (e: Effect)
        requires
            app_inv(*old(self)),
        ensures
            app_inv(*final(self)),
            step_switch_geo_tab(*old(self), *final(self), e),
    {
        self.json_scroll = 0;
        self.geo_tab = match self.geo_tab {
            GeoJsonTab::Summary => GeoJsonTab::Features,
            GeoJsonTab::Features => GeoJsonTab::Tree,
            GeoJsonTab::Tree => GeoJsonTab::Summary,
        };
        Effect::Idle
    }

    fn do_next_page(&mut self) -> (e: Effect)
        requires
            app_inv(*old(self)),
        ensures
            app_inv(*final(self)),
            step_next_page(*old(self), *final(self), e),
    {
        if self.inspector_tab != InspectorTab::Preview {
            Effect::Idle
        } else {
            let total = total_pages(self.inspector_row_count);
            if total > 0 && self.inspector_page < total - 1 {
                proof {
                    let rc = self.inspector_row_count as int;
                    vstd::arithmetic::div_mod::lemma_fundamental_div_mod(
                        rc + (PAGE_SIZE as int) - 1,
                        PAGE_SIZE as int,
                    );
                    assert((self.inspector_page + 1) * (PAGE_SIZE as int) < rc);
                }
                self.inspector_page = self.inspector_page + 1;
                match &self.inspector_file {
                    Some(f) => {
                        let predicate = build_where_clause(&self.inspector_filters);
                        let offset = self.inspector_page * PAGE_SIZE;
                        Effect::FetchPage {
                            path: f.clone(),
                            limit: PAGE_SIZE,
                            offset,
                            predicate,
                        }
                    },
                    None => Effect::Idle,
                }
            } else {
                Effect::Idle
            }
        }
    }

    fn do_prev_page(&mut self) -> (e: Effect)
        requires
            app_inv(*old(self)),
        ensures
            app_inv(*final(self)),
            step_prev_page(*old(self), *final(self), e),
    {
        if self.inspector_tab != InspectorTab::Preview {
            Effect::Idle
        } else if self.inspector_page > 0 {
            proof {
                assert((self.inspector_page as int - 1) * (PAGE_SIZE as int) < (
                self.inspector_page as int) * (PAGE_SIZE as int)) by (nonlinear_arith)
                    requires
                        self.inspector_page >= 1,
                ;
            }
            self.inspector_page = self.inspector_page - 1;
            match &self.inspector_file {
                Some(f) => {
                    let predicate = build_where_clause(&self.inspector_filters);
                    let offset = self.inspector_page * PAGE_SIZE;
                    Effect::FetchPage {
                        path: f.clone(),
                        limit: PAGE_SIZE,
                        offset,
                        predicate,
                    }
                },
                None => Effect::Idle,
            }
        } else {
            Effect::Idle
        }
    }

    fn do_open_filter_popup(&mut self) -> (e: Effect)
        requires
            app_inv(*old(self)),
        ensures
            app_inv(*final(self)),
            step_open_filter_popup(*old(self), *final(self), e),
    {
        if self.inspector_tab != InspectorTab::Preview {
            Effect::Idle
        } else {
            let conds = clone_conditions(&self.inspector_filters);
            self.popup = Popup::FilterEditor(
                FilterEditorState {
                    conditions: conds,
                    column_idx: 0,
                    operator_idx: 0,
                    value_input: String::new(),
                    active_field: FilterField::Column,
                },
            );
            Effect::Idle
        }
    }

    fn do_filter_tab_next(&mut self) -> (e: Effect)
        requires
            app_inv(*old(self)),
        ensures
            app_inv(*final(self)),
            step_filter_tab_next(*old(self), *final(self), e),
    {
        match &mut self.popup {
            Popup::FilterEditor(st) => {
                let op = operator_text(st.operator_idx);
                let unary = is_unary_operator(&op);
                st.active_field = match st.active_field {
                    FilterField::Column => FilterField::Operator,
                    FilterField::Operator => if unary {
                        FilterField::Column
                    } else {
                        FilterField::Value
                    },
                    FilterField::Value => FilterField::Column,
                };
            },
            _ => {},
        }
        Effect::Idle
    }

    fn do_filter_nav_up(&mut self) -> (e: Effect)
        requires
            app_inv(*old(self)),
        ensures
            app_inv(*final(self)),
            step_filter_nav_up(*old(self), *final(self), e),
    {
        match &mut self.popup {
            Popup::FilterEditor(st) => {
                match st.active_field {
                    FilterField::Column => {
                        if st.column_idx > 0 {
                            st.column_idx = st.column_idx - 1;
                        }
                    },
                    FilterField::Operator => {
                        if st.operator_idx > 0 {
                            st.operator_idx = st.operator_idx - 1;
                        }
                    },
                    FilterField::Value => {},
                }
            },
            _ => {},
        }
        Effect::Idle
    }

    fn do_filter_nav_down(&mut self) -> (e: Effect)
        requires
            app_inv(*old(self)),
        ensures
            app_inv(*final(self)),
            step_filter_nav_down(*old(self), *final(self), e),
    {
        let schema_len = self.inspector_schema.len();
        match &mut self.popup {
            Popup::FilterEditor(st) => {
                match st.active_field {
                    FilterField::Column => {
                        if schema_len > 0 && st.column_idx < schema_len - 1 {
                            st.column_idx = st.column_idx + 1;
                        }
                    },
                    FilterField::Operator => {
                        if st.operator_idx < OPERATOR_COUNT - 1 {
                            st.operator_idx = st.operator_idx + 1;
                        }
                    },
                    FilterField::Value => {},
                }
            },
            _ => {},
        }
        Effect::Idle
    }

    fn do_filter_char(&mut self, c: char) -> (e: Effect)
        requires
            app_inv(*old(self)),
        ensures
            app_inv(*final(self)),
            step_filter_char(*old(self), *final(self), e, c),
    {
        match &mut self.popup {
            Popup::FilterEditor(st) => {
                let mut chars = string_to_chars(st.value_input.as_str());
                chars.push(c);
                st.value_input = chars_to_string(&chars);
            },
            _ => {},
        }
        Effect::Idle
    }

    fn do_filter_backspace(&mut self) -> (e: Effect)
        requires
            app_inv(*old(self)),
        ensures
            app_inv(*final(self)),
            step_filter_backspace(*old(self), *final(self), e),
    {
        match &mut self.popup {
            Popup::FilterEditor(st) => {
                let mut chars = string_to_chars(st.value_input.as_str());
                if chars.len() > 0 {
                    chars.pop();
                    proof {
                        assert(chars@ =~= st.value_input@.drop_last());
                    }
                }
                st.value_input = chars_to_string(&chars);
            },
            _ => {},
        }
        Effect::Idle
    }

    fn do_filter_add_condition(&mut self) -> (e: Effect)
        requires
            app_inv(*old(self)),
        ensures
            app_inv(*final(self)),
            step_filter_add_condition(*old(self), *final(self), e),
    {
        let schema_len = self.inspector_schema.len();
        match &mut self.popup {
            Popup::FilterEditor(st) => {
                if st.column_idx < schema_len {
                    let col = self.inspector_schema[st.column_idx].0.clone();
                    let op = operator_text(st.operator_idx);
                    let val = st.value_input.clone();
                    let ghost before = st.conditions@;
                    st.conditions.push(
                        FilterCondition { column: col, operator: op, value: val },
                    );
                    st.value_input = String::new();
                    st.active_field = FilterField::Column;
                    proof {
                        assert(st.conditions@.take(before.len() as int) =~= before);
                    }
                }
            },
            _ => {},
        }
        Effect::Idle
    }

    fn do_filter_remove_last(&mut self) -> (e: Effect)
        requires
            app_inv(*old(self)),
        ensures
            app_inv(*final(self)),
            step_filter_remove_last(*old(self), *final(self), e),
    {
        match &mut self.popup {
            Popup::FilterEditor(st) => {
                if st.conditions.len() > 0 {
                    let ghost before = st.conditions@;
                    st.conditions.pop();
                    proof {
                        assert(st.conditions@ =~= before.drop_last());
                    }
                }
            },
            _ => {},
        }
        Effect::Idle
    }

    fn do_filter_apply(&mut self) -> (e: Effect)
        requires
            app_inv(*old(self)),
        ensures
            app_inv(*final(self)),
            step_filter_apply(*old(self), *final(self), e),
    {
        let conds_opt: Option<Vec<FilterCondition>> = match &self.popup {
            Popup::FilterEditor(st) => Some(clone_conditions(&st.conditions)),
            _ => None,
        };
        match conds_opt {
            Some(conds) => {
                self.inspector_filters = conds;
                self.inspector_page = 0;
                self.inspector_scroll = 0;
                self.popup = Popup::Inactive;
                match &self.inspector_file {
                    Some(f) => {
                        let predicate = build_where_clause(&self.inspector_filters);
                        Effect::CountRows { path: f.clone(), predicate }
                    },
                    None => Effect::Idle,
                }
            },
            None => Effect::Idle,
        }
    }

}

// ---------------------------------------------------------------------------
// Consuming the results of outside work
// ---------------------------------------------------------------------------

/// The raw outcomes of loading a full inspector snapshot: each engine
/// request's result as it came, one per schema column for the statistics.
#[derive(Debug)]
pub struct TableRaw {
    pub schema: Result<Vec<(String, String)>, String>,
    pub row_count: Result<usize, String>,
    pub null_counts: Vec<Result<usize, String>>,
    pub mean_values: Vec<Result<String, String>>,
    pub min_values: Vec<Result<String, String>>,
    pub max_values: Vec<Result<String, String>>,
    pub preview: Result<(Vec<String>, Vec<Vec<String>>), String>,
}

impl App {
    fn set_error_popup(&mut self, body: String)
        ensures
            with_error_popup(*old(self), *final(self), body),
    {
        self.popup = Popup::Message { title: "Error".to_owned(), body };
    }

    /// Installs a directory listing, or reports its failure: on success the
    /// entries are listed parent-first and sorted, the selection returns to
    /// the top, and an `EnterBrowser` load switches to the browser; a
    /// failure becomes an error popup, or nothing for a `Silent` load.
    pub fn apply_dir_listing(
        &mut self,
        mode: DirLoadMode,
        result: Result<(Option<String>, Vec<DirEntryInfo>), String>,
    )
        requires
            app_inv(*old(self)),
        ensures
            app_inv(*final(self)),
            match result {
                Result::Ok(pair) => {
                    &&& listing_ok(final(self).dir_entries@, pair.0, pair.1@)
                    &&& final(self).browser_selected == 0
                    &&& final(self).current_screen == (if mode == DirLoadMode::EnterBrowser {
                        Screen::FileBrowser
                    } else {
                        old(self).current_screen
                    })
                    &&& *final(self) == (App {
                        dir_entries: final(self).dir_entries,
                        browser_selected: 0,
                        current_screen: final(self).current_screen,
                        ..*old(self)
                    })
                },
                Result::Err(m) => if mode == DirLoadMode::Silent {
                    *final(self) == *old(self)
                } else {
                    with_error_popup(*old(self), *final(self), m)
                },
            },
    {
        match result {
            Ok((parent, entries)) => {
                self.dir_entries = make_listing(parent, entries);
                self.browser_selected = 0;
                match mode {
                    DirLoadMode::EnterBrowser => {
                        self.current_screen = Screen::FileBrowser;
                    },
                    _ => {},
                }
            },
            Err(m) => {
                match mode {
                    DirLoadMode::Silent => {},
                    _ => {
                        self.set_error_popup(m);
                    },
                }
            },
        }
    }

    /// Builds the document snapshot from the text of a document file: the
    /// text is parsed, the kind detected from extension and content, the
    /// flattened tree built with nothing collapsed, and — for a geographic
    /// document — the summary and the feature table computed; then the
    /// document inspector opens. A read or parse failure becomes an error
    /// popup and changes nothing else.
    pub fn apply_json_text(&mut self, path: String, text: Result<String, String>)
        requires
            app_inv(*old(self)),
        ensures
            app_inv(*final(self)),
            match text {
                Result::Err(m) => with_error_popup(*old(self), *final(self), m),
                Result::Ok(t) => match parsed_doc(t@) {
                    Option::None => (match final(self).popup {
                        Popup::Message { title, body } => title@ == "Error"@,
                        _ => false,
                    }) && *final(self) == (App { popup: final(self).popup, ..*old(self) }),
                    Option::Some(d) => {
                        &&& final(self).json_raw@ == pretty_of(t@)
                        &&& final(self).json_kind == Option::Some(spec_detect_kind(path@, d))
                        &&& final(self).json_collapsed@ == Set::<Seq<char>>::empty()
                        &&& entries_view(final(self).json_tree_nodes@) == spec_tree(
                            d,
                            Option::None,
                            Seq::empty(),
                            0,
                            Set::empty(),
                        )
                        &&& final(self).json_root == Option::Some(d)
                        &&& final(self).json_scroll == 0
                        &&& final(self).json_file == Option::Some(path)
                        &&& final(self).current_screen == Screen::JsonInspector
                        &&& (if spec_detect_kind(path@, d) == FileKind::GeoJson {
                            &&& (match final(self).json_geosummary {
                                Option::Some(gs) => {
                                    &&& gs.feature_count == features_of(d).len()
                                    &&& sorted_unique(gs.geometry_types@)
                                    &&& str_set(gs.geometry_types@) == geometry_type_set(
                                        features_of(d),
                                    )
                                    &&& pairs_view(gs.coords@) == feature_coords(features_of(d), 0)
                                },
                                Option::None => false,
                            })
                            &&& strs_view(final(self).json_features_headers@) == headers_from(
                                features_of(d),
                                0,
                                Seq::empty(),
                            )
                            &&& final(self).json_features_data@.len() == features_of(d).len()
                            &&& (forall|i: int|
                                0 <= i < final(self).json_features_data@.len() ==> strs_view(
                                    (#[trigger] final(self).json_features_data@[i])@,
                                ) == row_of(
                                    features_of(d)[i],
                                    strs_view(final(self).json_features_headers@),
                                ))
                            &&& final(self).geo_tab == GeoJsonTab::Summary
                            &&& final(self).json_tab == old(self).json_tab
                        } else {
                            &&& final(self).json_tab == JsonInspectorTab::Tree
                            &&& final(self).json_geosummary is None
                            &&& final(self).json_features_headers@.len() == 0
                            &&& final(self).json_features_data@.len() == 0
                            &&& final(self).geo_tab == old(self).geo_tab
                        })
                        &&& *final(self) == (App {
                            json_raw: final(self).json_raw,
                            json_kind: final(self).json_kind,
                            json_collapsed: final(self).json_collapsed,
                            json_tree_nodes: final(self).json_tree_nodes,
                            json_root: final(self).json_root,
                            json_scroll: 0,
                            json_file: final(self).json_file,
                            json_tab: final(self).json_tab,
                            geo_tab: final(self).geo_tab,
                            json_geosummary: final(self).json_geosummary,
                            json_features_headers: final(self).json_features_headers,
                            json_features_data: final(self).json_features_data,
                            current_screen: Screen::JsonInspector,
                            ..*old(self)
                        })
                    },
                },
            },
    {
        match text {
            Err(m) => {
                self.set_error_popup(m);
            },
            Ok(t) => {
                match parse_document(t.as_str()) {
                    Err(m) => {
                        self.set_error_popup(m);
                    },
                    Ok(doc) => {
                        self.json_raw = pretty_document(t.as_str());
                        let kind = detect_kind(path.as_str(), &doc);
                        self.json_collapsed = PathSet::new();
                        self.json_tree_nodes = build_tree(&doc, &self.json_collapsed);
                        let inspector = JsonInspector::from_parts(doc, kind);
                        if inspector.kind == FileKind::GeoJson {
                            let (count, types, coords) = inspector.geojson_summary();
                            self.json_geosummary = Some(
                                GeoSummary { feature_count: count, geometry_types: types, coords },
                            );
                            let (headers, rows) = inspector.features_table();
                            self.json_features_headers = headers;
                            self.json_features_data = rows;
                            self.geo_tab = GeoJsonTab::Summary;
                        } else {
                            self.json_tab = JsonInspectorTab::Tree;
                            self.json_geosummary = None;
                            self.json_features_headers = Vec::new();
                            self.json_features_data = Vec::new();
                        }
                        self.json_kind = Some(inspector.kind);
                        self.json_root = Some(inspector.root);
                        self.json_scroll = 0;
                        self.json_file = Some(path);
                        self.current_screen = Screen::JsonInspector;
                    },
                }
            },
        }
    }

    /// Installs a full inspector snapshot: schema, row count and first
    /// preview page must all have come; a missing per-column statistic
    /// falls back to zero nulls or a dash. On success the data inspector
    /// opens on the schema tab with page, scroll and filters reset. If the
    /// schema, the count or the preview failed, an error popup appears and
    /// nothing else changes.
    pub fn apply_table_data(&mut self, raw: TableRaw)
        requires
            app_inv(*old(self)),
        ensures
            app_inv(*final(self)),
            match raw.schema {
                Result::Err(m) => with_error_popup(*old(self), *final(self), m),
                Result::Ok(schema) => match raw.row_count {
                    Result::Err(m) => with_error_popup(*old(self), *final(self), m),
                    Result::Ok(rc) => match raw.preview {
                        Result::Err(m) => with_error_popup(*old(self), *final(self), m),
                        Result::Ok(pv) => {
                            &&& final(self).inspector_schema == schema
                            &&& final(self).inspector_row_count == rc
                            &&& final(self).inspector_null_counts@.len() == schema@.len()
                            &&& (forall|i: int|
                                0 <= i < schema@.len() ==> (#[trigger] final(self).inspector_null_counts@[i])
                                    == (if i < raw.null_counts@.len()
                                    && raw.null_counts@[i] is Ok {
                                    raw.null_counts@[i]->Ok_0
                                } else {
                                    0
                                }))
                            &&& final(self).inspector_mean_values@.len() == schema@.len()
                            &&& (forall|i: int|
                                0 <= i < schema@.len() ==> (if i < raw.mean_values@.len()
                                    && raw.mean_values@[i] is Ok {
                                    (#[trigger] final(self).inspector_mean_values@[i])
                                        == raw.mean_values@[i]->Ok_0
                                } else {
                                    final(self).inspector_mean_values@[i]@ == "-"@
                                }))
                            &&& final(self).inspector_min_values@.len() == schema@.len()
                            &&& (forall|i: int|
                                0 <= i < schema@.len() ==> (if i < raw.min_values@.len()
                                    && raw.min_values@[i] is Ok {
                                    (#[trigger] final(self).inspector_min_values@[i])
                                        == raw.min_values@[i]->Ok_0
                                } else {
                                    final(self).inspector_min_values@[i]@ == "-"@
                                }))
                            &&& final(self).inspector_max_values@.len() == schema@.len()
                            &&& (forall|i: int|
                                0 <= i < schema@.len() ==> (if i < raw.max_values@.len()
                                    && raw.max_values@[i] is Ok {
                                    (#[trigger] final(self).inspector_max_values@[i])
                                        == raw.max_values@[i]->Ok_0
                                } else {
                                    final(self).inspector_max_values@[i]@ == "-"@
                                }))
                            &&& final(self).inspector_preview_headers == pv.0
                            &&& final(self).inspector_preview_data == pv.1
                            &&& *final(self) == (App {
                                inspector_schema: final(self).inspector_schema,
                                inspector_row_count: rc,
                                inspector_null_counts: final(self).inspector_null_counts,
                                inspector_mean_values: final(self).inspector_mean_values,
                                inspector_min_values: final(self).inspector_min_values,
                                inspector_max_values: final(self).inspector_max_values,
                                inspector_preview_headers: final(self).inspector_preview_headers,
                                inspector_preview_data: final(self).inspector_preview_data,
                                inspector_scroll: 0,
                                inspector_page: 0,
                                inspector_filters: final(self).inspector_filters,
                                inspector_tab: InspectorTab::Schema,
                                current_screen: Screen::DataInspector,
                                ..*old(self)
                            })
                            &&& final(self).inspector_filters@.len() == 0
                        },
                    },
                },
            },
    {
        let TableRaw { schema, row_count, null_counts, mean_values, min_values, max_values,
            preview } = raw;
        match schema {
            Err(m) => {
                self.set_error_popup(m);
            },
            Ok(schema_v) => {
                match row_count {
                    Err(m) => {
                        self.set_error_popup(m);
                    },
                    Ok(rc) => {
                        match preview {
                            Err(m) => {
                                self.set_error_popup(m);
                            },
                            Ok((headers, rows)) => {
                                let n = schema_v.len();
                                let mut nulls: Vec<usize> = Vec::new();
                                let mut i: usize = 0;
                                while i < n
                                    invariant
                                        i <= n,
                                        nulls@.len() == i,
                                        forall|j: int|
                                            0 <= j < i ==> #[trigger] nulls@[j] == (if j
                                                < null_counts@.len() && null_counts@[j] is Ok {
                                                null_counts@[j]->Ok_0
                                            } else {
                                                0
                                            }),
                                    decreases n - i,
                                {
                                    let v: usize = if i < null_counts.len() {
                                        match &null_counts[i] {
                                            Ok(c) => *c,
                                            Err(_) => 0,
                                        }
                                    } else {
                                        0
                                    };
                                    nulls.push(v);
                                    i = i + 1;
                                }
                                let mut means: Vec<String> = Vec::new();
                                let mut i2: usize = 0;
                                while i2 < n
                                    invariant
                                        i2 <= n,
                                        means@.len() == i2,
                                        forall|j: int|
                                            0 <= j < i2 ==> (if j < mean_values@.len()
                                                && mean_values@[j] is Ok {
                                                (#[trigger] means@[j]) == mean_values@[j]->Ok_0
                                            } else {
                                                means@[j]@ == "-"@
                                            }),
                                    decreases n - i2,
                                {
                                    let v: String = if i2 < mean_values.len() {
                                        match &mean_values[i2] {
                                            Ok(s) => s.clone(),
                                            Err(_) => "-".to_owned(),
                                        }
                                    } else {
                                        "-".to_owned()
                                    };
                                    means.push(v);
                                    i2 = i2 + 1;
                                }
                                let mut mins: Vec<String> = Vec::new();
                                let mut i3: usize = 0;
                                while i3 < n
                                    invariant
                                        i3 <= n,
                                        mins@.len() == i3,
                                        forall|j: int|
                                            0 <= j < i3 ==> (if j < min_values@.len()
                                                && min_values@[j] is Ok {
                                                (#[trigger] mins@[j]) == min_values@[j]->Ok_0
                                            } else {
                                                mins@[j]@ == "-"@
                                            }),
                                    decreases n - i3,
                                {
                                    let v: String = if i3 < min_values.len() {
                                        match &min_values[i3] {
                                            Ok(s) => s.clone(),
                                            Err(_) => "-".to_owned(),
                                        }
                                    } else {
                                        "-".to_owned()
                                    };
                                    mins.push(v);
                                    i3 = i3 + 1;
                                }
                                let mut maxs: Vec<String> = Vec::new();
                                let mut i4: usize = 0;
                                while i4 < n
                                    invariant
                                        i4 <= n,
                                        maxs@.len() == i4,
                                        forall|j: int|
                                            0 <= j < i4 ==> (if j < max_values@.len()
                                                && max_values@[j] is Ok {
                                                (#[trigger] maxs@[j]) == max_values@[j]->Ok_0
                                            } else {
                                                maxs@[j]@ == "-"@
                                            }),
                                    decreases n - i4,
                                {
                                    let v: String = if i4 < max_values.len() {
                                        match &max_values[i4] {
                                            Ok(s) => s.clone(),
                                            Err(_) => "-".to_owned(),
                                        }
                                    } else {
                                        "-".to_owned()
                                    };
                                    maxs.push(v);
                                    i4 = i4 + 1;
                                }
                                self.inspector_schema = schema_v;
                                self.inspector_row_count = rc;
                                self.inspector_null_counts = nulls;
                                self.inspector_mean_values = means;
                                self.inspector_min_values = mins;
                                self.inspector_max_values = maxs;
                                self.inspector_preview_headers = headers;
                                self.inspector_preview_data = rows;
                                self.inspector_scroll = 0;
                                self.inspector_page = 0;
                                self.inspector_filters = Vec::new();
                                self.inspector_tab = InspectorTab::Schema;
                                self.current_screen = Screen::DataInspector;
                            },
                        }
                    },
                }
            },
        }
    }

    /// Takes the recount that follows a filter change: the new count is
    /// recorded first, and only then is page zero fetched under the same
    /// predicate; a failed count becomes an error popup and leaves the
    /// displayed data in place.
    pub fn apply_count_result(&mut self, result: Result<usize, String>) -> (e: Effect)
        requires
            app_inv(*old(self)),
            old(self).inspector_page == 0,
        ensures
            app_inv(*final(self)),
            match result {
                Result::Ok(c) => *final(self) == (App { inspector_row_count: c, ..*old(self) })
                    && (match old(self).inspector_file {
                    Option::Some(f) => e matches Effect::FetchPage { path, limit, offset, predicate }
                        && path == f && limit == PAGE_SIZE && offset == 0 && predicate@
                        == predicate_of(old(self).inspector_filters@),
                    Option::None => e is Idle,
                }),
                Result::Err(m) => with_error_popup(*old(self), *final(self), m) && e is Idle,
            },
    {
        match result {
            Ok(c) => {
                self.inspector_row_count = c;
                match &self.inspector_file {
                    Some(f) => {
                        let predicate = build_where_clause(&self.inspector_filters);
                        Effect::FetchPage { path: f.clone(), limit: PAGE_SIZE, offset: 0, predicate }
                    },
                    None => Effect::Idle,
                }
            },
            Err(m) => {
                self.set_error_popup(m);
                Effect::Idle
            },
        }
    }

    /// Installs one fetched preview page, replacing headers and rows
    /// together and resetting the row scroll; a failed fetch becomes an
    /// error popup and leaves the shown page in place.
    pub fn apply_page_result(&mut self, result: Result<(Vec<String>, Vec<Vec<String>>), String>)
        requires
            app_inv(*old(self)),
        ensures
            app_inv(*final(self)),
            match result {
                Result::Ok(pv) => *final(self) == (App {
                    inspector_preview_headers: pv.0,
                    inspector_preview_data: pv.1,
                    inspector_scroll: 0,
                    ..*old(self)
                }),
                Result::Err(m) => with_error_popup(*old(self), *final(self), m),
            },
    {
        match result {
            Ok((headers, rows)) => {
                self.inspector_preview_headers = headers;
                self.inspector_preview_data = rows;
                self.inspector_scroll = 0;
            },
            Err(m) => {
                self.set_error_popup(m);
            },
        }
    }

    /// Takes the outcome of a format conversion: the popup reports success
    /// with the output path, or the failure text; nothing else changes.
    pub fn apply_convert_result(&mut self, result: Result<String, String>)
        requires
            app_inv(*old(self)),
        ensures
            app_inv(*final(self)),
            match result {
                Result::Ok(p) => (match final(self).popup {
                    Popup::Message { title, body } => title@ == "Success"@ && body@
                        == "Converted to "@ + p@,
                    _ => false,
                }) && *final(self) == (App { popup: final(self).popup, ..*old(self) }),
                Result::Err(m) => with_error_popup(*old(self), *final(self), m),
            },
    {
        match result {
            Ok(p) => {
                let mut body: Vec<char> = Vec::new();
                append_str(&mut body, "Converted to ");
                append_str(&mut body, p.as_str());
                self.popup = Popup::Message {
                    title: "Success".to_owned(),
                    body: chars_to_string(&body),
                };
            },
            Err(m) => {
                self.set_error_popup(m);
            },
        }
    }
}

} // verus!
