use vstd::prelude::*;

use crate::util::strings::str_eq;

verus! {

/// Names of the colors and sizes a theme defines.
pub struct LapceTheme {}

impl LapceTheme {
    pub const LAPCE_WARN: &'static str = "lapce.warn";
    pub const LAPCE_ERROR: &'static str = "lapce.error";
    pub const LAPCE_ACTIVE_TAB: &'static str = "lapce.active_tab";
    pub const LAPCE_INACTIVE_TAB: &'static str = "lapce.inactive_tab";
    pub const LAPCE_DROPDOWN_SHADOW: &'static str = "lapce.dropdown_shadow";
    pub const LAPCE_BORDER: &'static str = "lapce.border";
    pub const LAPCE_SCROLL_BAR: &'static str = "lapce.scroll_bar";
    pub const EDITOR_BACKGROUND: &'static str = "editor.background";
    pub const EDITOR_FOREGROUND: &'static str = "editor.foreground";
    pub const EDITOR_DIM: &'static str = "editor.dim";
    pub const EDITOR_FOCUS: &'static str = "editor.focus";
    pub const EDITOR_CARET: &'static str = "editor.caret";
    pub const EDITOR_SELECTION: &'static str = "editor.selection";
    pub const EDITOR_CURRENT_LINE: &'static str = "editor.current_line";
    pub const EDITOR_LINK: &'static str = "editor.link";
    pub const INLAY_HINT_FOREGROUND: &'static str = "inlay_hint.foreground";
    pub const INLAY_HINT_BACKGROUND: &'static str = "inlay_hint.background";
    pub const ERROR_LENS_ERROR_FOREGROUND: &'static str = "error_lens.error.foreground";
    pub const ERROR_LENS_ERROR_BACKGROUND: &'static str = "error_lens.error.background";
    pub const ERROR_LENS_WARNING_FOREGROUND: &'static str = "error_lens.warning.foreground";
    pub const ERROR_LENS_WARNING_BACKGROUND: &'static str = "error_lens.warning.background";
    pub const ERROR_LENS_OTHER_FOREGROUND: &'static str = "error_lens.other.foreground";
    pub const ERROR_LENS_OTHER_BACKGROUND: &'static str = "error_lens.other.background";
    pub const SOURCE_CONTROL_ADDED: &'static str = "source_control.added";
    pub const SOURCE_CONTROL_REMOVED: &'static str = "source_control.removed";
    pub const SOURCE_CONTROL_MODIFIED: &'static str = "source_control.modified";
    pub const PALETTE_BACKGROUND: &'static str = "palette.background";
    pub const PALETTE_CURRENT: &'static str = "palette.current";
    pub const COMPLETION_BACKGROUND: &'static str = "completion.background";
    pub const COMPLETION_CURRENT: &'static str = "completion.current";
    pub const HOVER_BACKGROUND: &'static str = "hover.background";
    pub const ACTIVITY_BACKGROUND: &'static str = "activity.background";
    pub const ACTIVITY_CURRENT: &'static str = "activity.current";
    pub const PANEL_BACKGROUND: &'static str = "panel.background";
    pub const PANEL_CURRENT: &'static str = "panel.current";
    pub const PANEL_HOVERED: &'static str = "panel.hovered";
    pub const STATUS_BACKGROUND: &'static str = "status.background";
    pub const STATUS_MODAL_NORMAL: &'static str = "status.modal.normal";
    pub const STATUS_MODAL_INSERT: &'static str = "status.modal.insert";
    pub const STATUS_MODAL_VISUAL: &'static str = "status.modal.visual";
    pub const STATUS_MODAL_TERMINAL: &'static str = "status.modal.terminal";
    pub const MARKDOWN_BLOCKQUOTE: &'static str = "markdown.blockquote";
}

/// General editor settings.
#[derive(Debug, Clone, Default)]
pub struct LapceConfig {
    pub modal: bool,
    pub color_theme: String,
}

/// Sizes and fonts of the user interface, as written in the settings.
#[derive(Debug, Clone, Default)]
pub struct UIConfig {
    pub font_family: String,
    pub font_size: usize,
    pub header_height: usize,
    pub status_height: usize,
    pub tab_min_width: usize,
    pub scroll_width: usize,
    pub drop_shadow_width: usize,
    pub hover_font_family: String,
    pub hover_font_size: usize,
}

/// The font size in use: the configured size held to 6..=32.
pub open spec fn clamped_font_size(size: usize) -> usize {
    if size < 6 {
        6
    } else if size > 32 {
        32
    } else {
        size
    }
}

impl UIConfig {
    pub fn font_size(&self) -> (s: usize)
        ensures
            s == clamped_font_size(self.font_size),
            6 <= s <= 32,
    {
        let s = if self.font_size < 6 {
            6
        } else {
            self.font_size
        };
        if s > 32 {
            32
        } else {
            s
        }
    }

    /// The header is at least as high as the font is large.
    pub fn header_height(&self) -> (h: usize)
        ensures
            h == if self.header_height < clamped_font_size(self.font_size) {
                clamped_font_size(self.font_size)
            } else {
                self.header_height
            },
    {
        let font_size = self.font_size();
        if self.header_height < font_size {
            font_size
        } else {
            self.header_height
        }
    }

    /// The status bar is at least as high as the font is large.
    pub fn status_height(&self) -> (h: usize)
        ensures
            h == if self.status_height < clamped_font_size(self.font_size) {
                clamped_font_size(self.font_size)
            } else {
                self.status_height
            },
    {
        let font_size = self.font_size();
        if self.status_height < font_size {
            font_size
        } else {
            self.status_height
        }
    }

    pub fn tab_min_width(&self) -> (w: usize)
        ensures
            w == self.tab_min_width,
    {
        self.tab_min_width
    }

    pub fn scroll_width(&self) -> (w: usize)
        ensures
            w == self.scroll_width,
    {
        self.scroll_width
    }

    pub fn drop_shadow_width(&self) -> (w: usize)
        ensures
            w == self.drop_shadow_width,
    {
        self.drop_shadow_width
    }

    /// The hover font size; zero means the ordinary font size.
    pub fn hover_font_size(&self) -> (s: usize)
        ensures
            s == if self.hover_font_size == 0 {
                clamped_font_size(self.font_size)
            } else {
                self.hover_font_size
            },
    {
        if self.hover_font_size == 0 {
            self.font_size()
        } else {
            self.hover_font_size
        }
    }
}

/// The base colors of a theme, as hex texts.
#[derive(Debug, Clone, Default)]
pub struct ThemeBaseConfig {
    pub white: String,
    pub black: String,
    pub grey: String,
    pub blue: String,
    pub red: String,
    pub yellow: String,
    pub orange: String,
    pub green: String,
    pub purple: String,
    pub cyan: String,
    pub magenta: String,
}

impl ThemeBaseConfig {
    /// The base color of the given name; `None` for a name that is no base color.
    pub fn get<'a>(&'a self, name: &str) -> (r: Option<&'a String>)
        ensures
            r == if name@ == "white"@ {
                Some(&self.white)
            } else if name@ == "black"@ {
                Some(&self.black)
            } else if name@ == "grey"@ {
                Some(&self.grey)
            } else if name@ == "blue"@ {
                Some(&self.blue)
            } else if name@ == "red"@ {
                Some(&self.red)
            } else if name@ == "yellow"@ {
                Some(&self.yellow)
            } else if name@ == "orange"@ {
                Some(&self.orange)
            } else if name@ == "green"@ {
                Some(&self.green)
            } else if name@ == "purple"@ {
                Some(&self.purple)
            } else if name@ == "cyan"@ {
                Some(&self.cyan)
            } else if name@ == "magenta"@ {
                Some(&self.magenta)
            } else {
                None
            },
    {
        if str_eq(name, "white") {
            Some(&self.white)
        } else if str_eq(name, "black") {
            Some(&self.black)
        } else if str_eq(name, "grey") {
            Some(&self.grey)
        } else if str_eq(name, "blue") {
            Some(&self.blue)
        } else if str_eq(name, "red") {
            Some(&self.red)
        } else if str_eq(name, "yellow") {
            Some(&self.yellow)
        } else if str_eq(name, "orange") {
            Some(&self.orange)
        } else if str_eq(name, "green") {
            Some(&self.green)
        } else if str_eq(name, "purple") {
            Some(&self.purple)
        } else if str_eq(name, "cyan") {
            Some(&self.cyan)
        } else if str_eq(name, "magenta") {
            Some(&self.magenta)
        } else {
            None
        }
    }
}

} // verus!
