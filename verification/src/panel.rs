//! The panels of the screen, and one value kept for each of them.

use vstd::prelude::*;

verus! {

/// A part of the screen that can have the focus.
#[derive(Debug, Clone, Copy, PartialEq, Eq, Structural, Hash)]
pub enum Panel {
    /// The list of collections. It holds a selection and no text.
    Sidebar,
    /// The URL of the request: one line of text.
    Url,
    /// The header block of the request.
    Headers,
    /// The body of the request.
    Body,
    /// The response. Its text is made from the last response and is never
    /// edited.
    Response,
}

impl Panel {
    /// The panel behind this one in the cycle Sidebar, Url, Headers, Body,
    /// Response, Sidebar.
    pub open spec fn spec_next(self) -> Panel {
        match self {
            Panel::Sidebar => Panel::Url,
            Panel::Url => Panel::Headers,
            Panel::Headers => Panel::Body,
            Panel::Body => Panel::Response,
            Panel::Response => Panel::Sidebar,
        }
    }

    /// The panel before this one in the cycle.
    pub open spec fn spec_previous(self) -> Panel {
        match self {
            Panel::Sidebar => Panel::Response,
            Panel::Url => Panel::Sidebar,
            Panel::Headers => Panel::Url,
            Panel::Body => Panel::Headers,
            Panel::Response => Panel::Body,
        }
    }

    /// Whether the text of the panel can be edited.
    pub open spec fn spec_editable(self) -> bool {
        self == Panel::Url || self == Panel::Headers || self == Panel::Body
    }

    /// The panel that the digit key `digit` jumps to: `1` is the sidebar, `5`
    /// the response.
    pub open spec fn spec_numbered(digit: char) -> Option<Panel> {
        if digit == '1' {
            Some(Panel::Sidebar)
        } else if digit == '2' {
            Some(Panel::Url)
        } else if digit == '3' {
            Some(Panel::Headers)
        } else if digit == '4' {
            Some(Panel::Body)
        } else if digit == '5' {
            Some(Panel::Response)
        } else {
            None
        }
    }

    /// The panel behind this one in the cycle.
    pub fn next(self) -> (r: Panel)
        ensures
            r == self.spec_next(),
    {
        match self {
            Panel::Sidebar => Panel::Url,
            Panel::Url => Panel::Headers,
            Panel::Headers => Panel::Body,
            Panel::Body => Panel::Response,
            Panel::Response => Panel::Sidebar,
        }
    }

    /// The panel before this one in the cycle.
    pub fn previous(self) -> (r: Panel)
        ensures
            r == self.spec_previous(),
    {
        match self {
            Panel::Sidebar => Panel::Response,
            Panel::Url => Panel::Sidebar,
            Panel::Headers => Panel::Url,
            Panel::Body => Panel::Headers,
            Panel::Response => Panel::Body,
        }
    }

    /// Whether the text of the panel can be edited.
    pub fn editable(self) -> (r: bool)
        ensures
            r == self.spec_editable(),
    {
        match self {
            Panel::Url => true,
            Panel::Headers => true,
            Panel::Body => true,
            _ => false,
        }
    }

    /// The panel that the digit key `digit` jumps to.
    pub fn numbered(digit: char) -> (r: Option<Panel>)
        ensures
            r == Panel::spec_numbered(digit),
    {
        if digit == '1' {
            Some(Panel::Sidebar)
        } else if digit == '2' {
            Some(Panel::Url)
        } else if digit == '3' {
            Some(Panel::Headers)
        } else if digit == '4' {
            Some(Panel::Body)
        } else if digit == '5' {
            Some(Panel::Response)
        } else {
            None
        }
    }
}

/// One value for each panel.
#[derive(Debug, Clone, Copy)]
pub struct PanelMap<T> {
    pub sidebar: T,
    pub url: T,
    pub headers: T,
    pub body: T,
    pub response: T,
}

impl<T: Copy> PanelMap<T> {
    /// The value kept for `panel`.
    pub open spec fn at(self, panel: Panel) -> T {
        match panel {
            Panel::Sidebar => self.sidebar,
            Panel::Url => self.url,
            Panel::Headers => self.headers,
            Panel::Body => self.body,
            Panel::Response => self.response,
        }
    }

    /// The same values, but `value` for `panel`.
    pub open spec fn put(self, panel: Panel, value: T) -> PanelMap<T> {
        match panel {
            Panel::Sidebar => PanelMap { sidebar: value, ..self },
            Panel::Url => PanelMap { url: value, ..self },
            Panel::Headers => PanelMap { headers: value, ..self },
            Panel::Body => PanelMap { body: value, ..self },
            Panel::Response => PanelMap { response: value, ..self },
        }
    }

    /// `value` for every panel.
    pub fn uniform(value: T) -> (r: Self)
        ensures
            forall|p: Panel| r.at(p) == value,
    {
        PanelMap { sidebar: value, url: value, headers: value, body: value, response: value }
    }

    /// The value kept for `panel`.
    pub fn get(&self, panel: Panel) -> (r: T)
        ensures
            r == self.at(panel),
    {
        match panel {
            Panel::Sidebar => self.sidebar,
            Panel::Url => self.url,
            Panel::Headers => self.headers,
            Panel::Body => self.body,
            Panel::Response => self.response,
        }
    }

    /// Keeps `value` for `panel`.
    pub fn set(&mut self, panel: Panel, value: T)
        ensures
            *final(self) == old(self).put(panel, value),
    {
        match panel {
            Panel::Sidebar => {
                self.sidebar = value;
            },
            Panel::Url => {
                self.url = value;
            },
            Panel::Headers => {
                self.headers = value;
            },
            Panel::Body => {
                self.body = value;
            },
            Panel::Response => {
                self.response = value;
            },
        }
    }
}

} // verus!
