//! Locator-first selector building.
//!
//! A locator scopes a selector to one frame of the graph, named by its guid,
//! and never talks to the driver itself: chaining, filtering and the
//! `get_by_*` helpers are pure work on the selector text, stated here
//! character by character.

use vstd::prelude::*;

use crate::strutil::{escape, escaped, int_str, push_i32_decimal};
use vstd::string::StrSliceExecFns;
use vstd::string::StringExecFns;

verus! {

/// A selector scoped to one frame, named by the frame node's guid.
pub struct Locator {
    pub frame: String,
    pub selector: String,
}

/// A frame-locator: a selector that resolves to a frame element, scoped to
/// one frame of the graph.
pub struct FrameLocator {
    pub frame: String,
    pub selector: String,
}

/// Options for aria role-based queries.
pub struct GetByRoleOptions {
    pub name: Option<String>,
    pub exact: Option<bool>,
    pub disabled: Option<bool>,
    pub selected: Option<bool>,
    pub checked: Option<bool>,
    pub pressed: Option<bool>,
    pub expanded: Option<bool>,
    pub include_hidden: Option<bool>,
    pub level: Option<i32>,
}

impl GetByRoleOptions {
    /// No role options at all.
    pub fn none() -> (r: GetByRoleOptions)
        ensures
            r.name is None,
            r.exact is None,
            r.disabled is None,
            r.selected is None,
            r.checked is None,
            r.pressed is None,
            r.expanded is None,
            r.include_hidden is None,
            r.level is None,
    {
        GetByRoleOptions {
            name: None,
            exact: None,
            disabled: None,
            selected: None,
            checked: None,
            pressed: None,
            expanded: None,
            include_hidden: None,
            level: None,
        }
    }
}

/// A child selector chained under a base selector.
pub open spec fn chained_selector(base: Seq<char>, sub: Seq<char>) -> Seq<char> {
    base + " >> "@ + sub
}

/// The nth refinement of a selector.
pub open spec fn nth_selector(base: Seq<char>, index: int) -> Seq<char> {
    base + " >> nth="@ + int_str(index)
}

/// A child selector that first enters the frame the base resolves to.
pub open spec fn enter_frame_selector(base: Seq<char>, sub: Seq<char>) -> Seq<char> {
    base + " >> internal:control=enter-frame >> "@ + sub
}

/// The selector matching by visible text, whole text when exact.
pub open spec fn text_selector_data(text: Seq<char>, exact: bool) -> Seq<char> {
    if exact {
        "text="@ + "\""@ + escaped(text) + "\""@
    } else {
        "text="@ + escaped(text)
    }
}

/// The selector matching by associated label text.
pub open spec fn label_selector_data(text: Seq<char>, exact: bool) -> Seq<char> {
    let e = escaped(text);
    (if exact {
        "[aria-label=\""@
    } else {
        "[aria-label*=\""@
    }) + e + "\"], label:has-text(\""@ + e + "\") input, label:has-text(\""@ + e
        + "\") textarea, label:has-text(\""@ + e + "\") select"@
}

/// The selector matching by placeholder attribute.
pub open spec fn placeholder_selector_data(text: Seq<char>, exact: bool) -> Seq<char> {
    "input[placeholder"@ + (if exact {
        "=\""@
    } else {
        "*=\""@
    }) + escaped(text) + "\"]"@
}

/// The selector matching by alt text.
pub open spec fn alt_text_selector_data(text: Seq<char>, exact: bool) -> Seq<char> {
    "[alt"@ + (if exact {
        "=\""@
    } else {
        "*=\""@
    }) + escaped(text) + "\"]"@
}

/// The selector matching by title attribute.
pub open spec fn title_selector_data(text: Seq<char>, exact: bool) -> Seq<char> {
    "[title"@ + (if exact {
        "=\""@
    } else {
        "*=\""@
    }) + escaped(text) + "\"]"@
}

/// The selector matching by test id.
pub open spec fn test_id_selector_data(test_id: Seq<char>) -> Seq<char> {
    "[data-testid=\""@ + escaped(test_id) + "\"]"@
}

/// A text filter appended to a selector: whole text when exact.
pub open spec fn text_filter_data(base: Seq<char>, text: Seq<char>, exact: bool) -> Seq<char> {
    base + (if exact {
        ":text-is(\""@
    } else {
        ":has-text(\""@
    }) + escaped(text) + "\")"@
}

/// The name filter of a role selector, when a name was given.
pub open spec fn role_name_part(base: Seq<char>, options: GetByRoleOptions) -> Seq<char> {
    match options.name {
        Some(n) => text_filter_data(
            base,
            n@,
            match options.exact {
                Some(e) => e,
                None => false,
            },
        ),
        None => base,
    }
}

/// One boolean role refinement: the suffix when the flag asks for it.
pub open spec fn role_flag_part(base: Seq<char>, flag: Option<bool>, when: bool, suffix: Seq<char>) -> Seq<
    char,
> {
    if flag == Some(when) {
        base + suffix
    } else {
        base
    }
}

/// The selector matching by aria role with its optional refinements.
pub open spec fn role_selector_data(role: Seq<char>, options: GetByRoleOptions) -> Seq<char> {
    let s0 = "[role=\""@ + role + "\"]"@;
    let s1 = role_name_part(s0, options);
    let s2 = role_flag_part(s1, options.disabled, true, ":disabled"@);
    let s3 = role_flag_part(s2, options.selected, true, ":is([aria-selected=\"true\"], :selected)"@);
    let s4 = role_flag_part(s3, options.checked, true, ":is(:checked,[aria-checked=\"true\"])"@);
    let s5 = role_flag_part(s4, options.pressed, true, "[aria-pressed=\"true\"]"@);
    let s6 = role_flag_part(s5, options.expanded, true, "[aria-expanded=\"true\"]"@);
    let s7 = role_flag_part(s6, options.include_hidden, false, ":not([hidden])"@);
    match options.level {
        Some(l) => s7 + "[aria-level=\""@ + int_str(l as int) + "\"]"@,
        None => s7,
    }
}

/// Append a text filter to a selector under construction.
pub fn append_text_filter(selector: &mut String, text: &str, exact: bool)
    ensures
        final(selector)@ == text_filter_data(old(selector)@, text@, exact),
{
    if exact {
        selector.append(":text-is(\"");
    } else {
        selector.append(":has-text(\"");
    }
    let e = escape(text);
    selector.append(e.as_str());
    selector.append("\")");
    proof {
        assert(final(selector)@ =~= text_filter_data(old(selector)@, text@, exact));
    }
}

/// Build the selector matching by visible text.
pub fn build_text_selector(text: &str, exact: bool) -> (r: String)
    ensures
        r@ == text_selector_data(text@, exact),
{
    let mut selector = String::new();
    selector.append("text=");
    let e = escape(text);
    if exact {
        selector.append("\"");
        selector.append(e.as_str());
        selector.append("\"");
    } else {
        selector.append(e.as_str());
    }
    proof {
        assert(selector@ =~= text_selector_data(text@, exact));
    }
    selector
}

/// Build the selector matching by associated label text.
pub fn build_label_selector(text: &str, exact: bool) -> (r: String)
    ensures
        r@ == label_selector_data(text@, exact),
{
    let e = escape(text);
    let mut selector = String::new();
    if exact {
        selector.append("[aria-label=\"");
    } else {
        selector.append("[aria-label*=\"");
    }
    selector.append(e.as_str());
    selector.append("\"], label:has-text(\"");
    selector.append(e.as_str());
    selector.append("\") input, label:has-text(\"");
    selector.append(e.as_str());
    selector.append("\") textarea, label:has-text(\"");
    selector.append(e.as_str());
    selector.append("\") select");
    proof {
        assert(selector@ =~= label_selector_data(text@, exact));
    }
    selector
}

/// Build the selector matching by placeholder attribute.
pub fn build_placeholder_selector(text: &str, exact: bool) -> (r: String)
    ensures
        r@ == placeholder_selector_data(text@, exact),
{
    let mut selector = String::new();
    selector.append("input[placeholder");
    if exact {
        selector.append("=\"");
    } else {
        selector.append("*=\"");
    }
    let e = escape(text);
    selector.append(e.as_str());
    selector.append("\"]");
    proof {
        assert(selector@ =~= placeholder_selector_data(text@, exact));
    }
    selector
}

/// Build the selector matching by alt text.
pub fn build_alt_text_selector(text: &str, exact: bool) -> (r: String)
    ensures
        r@ == alt_text_selector_data(text@, exact),
{
    let mut selector = String::new();
    selector.append("[alt");
    if exact {
        selector.append("=\"");
    } else {
        selector.append("*=\"");
    }
    let e = escape(text);
    selector.append(e.as_str());
    selector.append("\"]");
    proof {
        assert(selector@ =~= alt_text_selector_data(text@, exact));
    }
    selector
}

/// Build the selector matching by title attribute.
pub fn build_title_selector(text: &str, exact: bool) -> (r: String)
    ensures
        r@ == title_selector_data(text@, exact),
{
    let mut selector = String::new();
    selector.append("[title");
    if exact {
        selector.append("=\"");
    } else {
        selector.append("*=\"");
    }
    let e = escape(text);
    selector.append(e.as_str());
    selector.append("\"]");
    proof {
        assert(selector@ =~= title_selector_data(text@, exact));
    }
    selector
}

/// Build the selector matching by test id.
pub fn build_test_id_selector(test_id: &str) -> (r: String)
    ensures
        r@ == test_id_selector_data(test_id@),
{
    let mut selector = String::new();
    selector.append("[data-testid=\"");
    let e = escape(test_id);
    selector.append(e.as_str());
    selector.append("\"]");
    proof {
        assert(selector@ =~= test_id_selector_data(test_id@));
    }
    selector
}

/// Build the selector matching by aria role with its refinements.
pub fn build_role_selector(role: &str, options: Option<GetByRoleOptions>) -> (r: String)
    ensures
        r@ == role_selector_data(
            role@,
            match options {
                Some(o) => o,
                None => GetByRoleOptions {
                    name: None,
                    exact: None,
                    disabled: None,
                    selected: None,
                    checked: None,
                    pressed: None,
                    expanded: None,
                    include_hidden: None,
                    level: None,
                },
            },
        ),
{
    let opts = match options {
        Some(o) => o,
        None => GetByRoleOptions::none(),
    };
    let mut selector = String::new();
    selector.append("[role=\"");
    selector.append(role);
    selector.append("\"]");
    match &opts.name {
        Some(n) => {
            let exact = match opts.exact {
                Some(e) => e,
                None => false,
            };
            append_text_filter(&mut selector, n.as_str(), exact);
        },
        None => {},
    }
    if opts.disabled == Some(true) {
        selector.append(":disabled");
    }
    if opts.selected == Some(true) {
        selector.append(":is([aria-selected=\"true\"], :selected)");
    }
    if opts.checked == Some(true) {
        selector.append(":is(:checked,[aria-checked=\"true\"])");
    }
    if opts.pressed == Some(true) {
        selector.append("[aria-pressed=\"true\"]");
    }
    if opts.expanded == Some(true) {
        selector.append("[aria-expanded=\"true\"]");
    }
    if opts.include_hidden == Some(false) {
        selector.append(":not([hidden])");
    }
    match opts.level {
        Some(l) => {
            selector.append("[aria-level=\"");
            push_i32_decimal(&mut selector, l);
            selector.append("\"]");
        },
        None => {},
    }
    proof {
        assert(selector@ =~= role_selector_data(
            role@,
            match options {
                Some(o) => o,
                None => GetByRoleOptions {
                    name: None,
                    exact: None,
                    disabled: None,
                    selected: None,
                    checked: None,
                    pressed: None,
                    expanded: None,
                    include_hidden: None,
                    level: None,
                },
            },
        ));
    }
    selector
}

impl Locator {
    /// A locator over one frame.
    pub fn new(frame: String, selector: String) -> (r: Locator)
        ensures
            r.frame == frame,
            r.selector == selector,
    {
        Locator { frame, selector }
    }

    /// The selector text the locator stands for.
    pub fn selector(&self) -> (r: &String)
        ensures
            r == self.selector,
    {
        &self.selector
    }

    /// The locator refined to its matching element at one index; negative
    /// indices count from the end.
    pub fn nth(&self, index: i32) -> (r: Locator)
        ensures
            r.frame@ == self.frame@,
            r.selector@ == nth_selector(self.selector@, index as int),
    {
        let mut selector = self.selector.clone();
        selector.append(" >> nth=");
        push_i32_decimal(&mut selector, index);
        proof {
            assert(selector@ =~= nth_selector(self.selector@, index as int));
        }
        Locator { frame: self.frame.clone(), selector }
    }

    /// A child locator.
    pub fn locator(&self, selector: &str) -> (r: Locator)
        ensures
            r.frame@ == self.frame@,
            r.selector@ == chained_selector(self.selector@, selector@),
    {
        let mut s = self.selector.clone();
        s.append(" >> ");
        s.append(selector);
        proof {
            assert(s@ =~= chained_selector(self.selector@, selector@));
        }
        Locator { frame: self.frame.clone(), selector: s }
    }

    /// The first matching element.
    pub fn first(&self) -> (r: Locator)
        ensures
            r.frame@ == self.frame@,
            r.selector@ == nth_selector(self.selector@, 0),
    {
        self.nth(0)
    }

    /// The last matching element.
    pub fn last(&self) -> (r: Locator)
        ensures
            r.frame@ == self.frame@,
            r.selector@ == nth_selector(self.selector@, -1),
    {
        self.nth(-1)
    }

    /// The locator narrowed by a contained locator, by contained text, or
    /// both; a double quote inside the text is escaped.
    pub fn filter(&self, has: Option<&Locator>, has_text: Option<&str>) -> (r: Locator)
        ensures
            r.frame@ == self.frame@,
            ({
                let s1 = match has {
                    Some(h) => self.selector@ + ":has("@ + h.selector@ + ")"@,
                    None => self.selector@,
                };
                r.selector@ == (match has_text {
                    Some(t) => s1 + ":has-text(\""@ + crate::strutil::quote_escaped(t@) + "\")"@,
                    None => s1,
                })
            }),
    {
        let mut selector = self.selector.clone();
        match has {
            Some(h) => {
                selector.append(":has(");
                selector.append(h.selector.as_str());
                selector.append(")");
            },
            None => {},
        }
        match has_text {
            Some(t) => {
                selector.append(":has-text(\"");
                let e = crate::strutil::escape_quotes(t);
                selector.append(e.as_str());
                selector.append("\")");
            },
            None => {},
        }
        proof {
            let s1 = match has {
                Some(h) => self.selector@ + ":has("@ + h.selector@ + ")"@,
                None => self.selector@,
            };
            assert(selector@ =~= (match has_text {
                Some(t) => s1 + ":has-text(\""@ + crate::strutil::quote_escaped(t@) + "\")"@,
                None => s1,
            }));
        }
        Locator { frame: self.frame.clone(), selector }
    }

    /// A locator over the same frame with a freshly built selector in place
    /// of this one's.
    pub fn chain_selector(&self, selector: String) -> (r: Locator)
        ensures
            r.frame@ == self.frame@,
            r.selector == selector,
    {
        Locator { frame: self.frame.clone(), selector }
    }

    /// Locate by aria role with optional refinements, over the same frame;
    /// the current selector is replaced, not refined.
    pub fn get_by_role(&self, role: &str, options: Option<GetByRoleOptions>) -> (r: Locator)
        ensures
            r.frame@ == self.frame@,
            r.selector@ == role_selector_data(
                role@,
                match options {
                    Some(o) => o,
                    None => GetByRoleOptions {
                        name: None,
                        exact: None,
                        disabled: None,
                        selected: None,
                        checked: None,
                        pressed: None,
                        expanded: None,
                        include_hidden: None,
                        level: None,
                    },
                },
            ),
    {
        let selector = build_role_selector(role, options);
        self.chain_selector(selector)
    }

    /// Locate by visible text; whole text when exact.
    pub fn get_by_text(&self, text: &str, exact: bool) -> (r: Locator)
        ensures
            r.frame@ == self.frame@,
            r.selector@ == text_selector_data(text@, exact),
    {
        self.chain_selector(build_text_selector(text, exact))
    }

    /// Locate by associated label text.
    pub fn get_by_label(&self, text: &str, exact: bool) -> (r: Locator)
        ensures
            r.frame@ == self.frame@,
            r.selector@ == label_selector_data(text@, exact),
    {
        self.chain_selector(build_label_selector(text, exact))
    }

    /// Locate by placeholder attribute.
    pub fn get_by_placeholder(&self, text: &str, exact: bool) -> (r: Locator)
        ensures
            r.frame@ == self.frame@,
            r.selector@ == placeholder_selector_data(text@, exact),
    {
        self.chain_selector(build_placeholder_selector(text, exact))
    }

    /// Locate by alt text.
    pub fn get_by_alt_text(&self, text: &str, exact: bool) -> (r: Locator)
        ensures
            r.frame@ == self.frame@,
            r.selector@ == alt_text_selector_data(text@, exact),
    {
        self.chain_selector(build_alt_text_selector(text, exact))
    }

    /// Locate by title attribute.
    pub fn get_by_title(&self, text: &str, exact: bool) -> (r: Locator)
        ensures
            r.frame@ == self.frame@,
            r.selector@ == title_selector_data(text@, exact),
    {
        self.chain_selector(build_title_selector(text, exact))
    }

    /// Locate by test id.
    pub fn get_by_test_id(&self, test_id: &str) -> (r: Locator)
        ensures
            r.frame@ == self.frame@,
            r.selector@ == test_id_selector_data(test_id@),
    {
        self.chain_selector(build_test_id_selector(test_id))
    }
}

impl FrameLocator {
    /// A frame locator over one frame.
    pub fn new(frame: String, selector: String) -> (r: FrameLocator)
        ensures
            r.frame == frame,
            r.selector == selector,
    {
        FrameLocator { frame, selector }
    }

    /// The first matching frame.
    pub fn first(&self) -> (r: FrameLocator)
        ensures
            r.frame@ == self.frame@,
            r.selector@ == nth_selector(self.selector@, 0),
    {
        self.nth(0)
    }

    /// The last matching frame.
    pub fn last(&self) -> (r: FrameLocator)
        ensures
            r.frame@ == self.frame@,
            r.selector@ == nth_selector(self.selector@, -1),
    {
        self.nth(-1)
    }

    /// The frame locator refined to one index.
    pub fn nth(&self, index: i32) -> (r: FrameLocator)
        ensures
            r.frame@ == self.frame@,
            r.selector@ == nth_selector(self.selector@, index as int),
    {
        let mut selector = self.selector.clone();
        selector.append(" >> nth=");
        push_i32_decimal(&mut selector, index);
        proof {
            assert(selector@ =~= nth_selector(self.selector@, index as int));
        }
        FrameLocator { frame: self.frame.clone(), selector }
    }

    /// A locator inside the located frame.
    pub fn locator(&self, selector: &str) -> (r: Locator)
        ensures
            r.frame@ == self.frame@,
            r.selector@ == enter_frame_selector(self.selector@, selector@),
    {
        let mut s = self.selector.clone();
        s.append(" >> internal:control=enter-frame >> ");
        s.append(selector);
        proof {
            assert(s@ =~= enter_frame_selector(self.selector@, selector@));
        }
        Locator { frame: self.frame.clone(), selector: s }
    }

    /// Use an existing locator from the same frame as the target of this
    /// frame locator; one from another frame is refused.
    pub fn locator_from(&self, locator: &Locator) -> (r: Result<Locator, crate::error::Error>)
        ensures
            match r {
                Ok(l) => self.frame@ == locator.frame@ && l.frame@ == self.frame@ && l.selector@
                    == enter_frame_selector(self.selector@, locator.selector@),
                Err(e) => self.frame@ != locator.frame@ && e is InvalidParams,
            },
    {
        if !crate::json::str_eq(self.frame.as_str(), locator.frame.as_str()) {
            return Err(crate::error::Error::InvalidParams);
        }
        Ok(self.locator(locator.selector.as_str()))
    }

    /// A nested frame locator.
    pub fn frame_locator(&self, selector: &str) -> (r: FrameLocator)
        ensures
            r.frame@ == self.frame@,
            r.selector@ == enter_frame_selector(self.selector@, selector@),
    {
        let mut s = self.selector.clone();
        s.append(" >> internal:control=enter-frame >> ");
        s.append(selector);
        proof {
            assert(s@ =~= enter_frame_selector(self.selector@, selector@));
        }
        FrameLocator { frame: self.frame.clone(), selector: s }
    }

    /// Locate by aria role inside the frame.
    pub fn get_by_role(&self, role: &str, options: Option<GetByRoleOptions>) -> (r: Locator)
        ensures
            r.frame@ == self.frame@,
            r.selector@ == enter_frame_selector(
                self.selector@,
                role_selector_data(
                    role@,
                    match options {
                        Some(o) => o,
                        None => GetByRoleOptions {
                            name: None,
                            exact: None,
                            disabled: None,
                            selected: None,
                            checked: None,
                            pressed: None,
                            expanded: None,
                            include_hidden: None,
                            level: None,
                        },
                    },
                ),
            ),
    {
        let selector = build_role_selector(role, options);
        self.locator(selector.as_str())
    }

    /// Locate by visible text inside the frame.
    pub fn get_by_text(&self, text: &str, exact: bool) -> (r: Locator)
        ensures
            r.frame@ == self.frame@,
            r.selector@ == enter_frame_selector(self.selector@, text_selector_data(text@, exact)),
    {
        let selector = build_text_selector(text, exact);
        self.locator(selector.as_str())
    }

    /// Locate by label text inside the frame.
    pub fn get_by_label(&self, text: &str, exact: bool) -> (r: Locator)
        ensures
            r.frame@ == self.frame@,
            r.selector@ == enter_frame_selector(self.selector@, label_selector_data(text@, exact)),
    {
        let selector = build_label_selector(text, exact);
        self.locator(selector.as_str())
    }

    /// Locate by placeholder inside the frame.
    pub fn get_by_placeholder(&self, text: &str, exact: bool) -> (r: Locator)
        ensures
            r.frame@ == self.frame@,
            r.selector@ == enter_frame_selector(
                self.selector@,
                placeholder_selector_data(text@, exact),
            ),
    {
        let selector = build_placeholder_selector(text, exact);
        self.locator(selector.as_str())
    }

    /// Locate by alt text inside the frame.
    pub fn get_by_alt_text(&self, text: &str, exact: bool) -> (r: Locator)
        ensures
            r.frame@ == self.frame@,
            r.selector@ == enter_frame_selector(
                self.selector@,
                alt_text_selector_data(text@, exact),
            ),
    {
        let selector = build_alt_text_selector(text, exact);
        self.locator(selector.as_str())
    }

    /// Locate by title inside the frame.
    pub fn get_by_title(&self, text: &str, exact: bool) -> (r: Locator)
        ensures
            r.frame@ == self.frame@,
            r.selector@ == enter_frame_selector(self.selector@, title_selector_data(text@, exact)),
    {
        let selector = build_title_selector(text, exact);
        self.locator(selector.as_str())
    }

    /// Locate by test id inside the frame.
    pub fn get_by_test_id(&self, test_id: &str) -> (r: Locator)
        ensures
            r.frame@ == self.frame@,
            r.selector@ == enter_frame_selector(self.selector@, test_id_selector_data(test_id@)),
    {
        let selector = build_test_id_selector(test_id);
        self.locator(selector.as_str())
    }

    /// A locator resolving to the owning frame element itself.
    pub fn owner(&self) -> (r: Locator)
        ensures
            r.frame@ == self.frame@,
            r.selector@ == self.selector@,
    {
        Locator { frame: self.frame.clone(), selector: self.selector.clone() }
    }
}

/// A file handed to a set-input-files action: its name, media type, and
/// raw content.
pub struct FilePayload {
    pub name: String,
    pub mime_type: String,
    pub buffer: Vec<u8>,
}

/// One element action, drafted but not yet sent: the frame and selector it
/// addresses, the frame method it will call, and the text argument some
/// actions carry.
pub struct ActionDraft {
    pub frame: String,
    pub selector: String,
    pub method: String,
    pub argument: Option<String>,
    pub file: Option<FilePayload>,
}

impl Locator {
    fn draft(&self, method: &str, argument: Option<String>, file: Option<FilePayload>) -> (r:
        ActionDraft)
        ensures
            r.frame@ == self.frame@,
            r.selector@ == self.selector@,
            r.method@ == method@,
            r.argument == argument,
            r.file == file,
    {
        ActionDraft {
            frame: self.frame.clone(),
            selector: self.selector.clone(),
            method: method.to_owned(),
            argument,
            file,
        }
    }

    /// Draft a click on the matching element.
    pub fn click_builder(&self) -> (r: ActionDraft)
        ensures
            r.frame@ == self.frame@ && r.selector@ == self.selector@ && r.method@ == "click"@
                && r.argument is None && r.file is None,
    {
        self.draft("click", None, None)
    }

    /// Draft a double click.
    pub fn dblclick_builder(&self) -> (r: ActionDraft)
        ensures
            r.frame@ == self.frame@ && r.selector@ == self.selector@ && r.method@ == "dblclick"@
                && r.argument is None && r.file is None,
    {
        self.draft("dblclick", None, None)
    }

    /// Draft a hover.
    pub fn hover_builder(&self) -> (r: ActionDraft)
        ensures
            r.frame@ == self.frame@ && r.selector@ == self.selector@ && r.method@ == "hover"@
                && r.argument is None && r.file is None,
    {
        self.draft("hover", None, None)
    }

    /// Draft a tap.
    pub fn tap_builder(&self) -> (r: ActionDraft)
        ensures
            r.frame@ == self.frame@ && r.selector@ == self.selector@ && r.method@ == "tap"@
                && r.argument is None && r.file is None,
    {
        self.draft("tap", None, None)
    }

    /// Draft filling the matching element with a value.
    pub fn fill_builder(&self, value: &str) -> (r: ActionDraft)
        ensures
            r.frame@ == self.frame@ && r.selector@ == self.selector@ && r.method@ == "fill"@ && (
            r.argument matches Some(a) && a@ == value@) && r.file is None,
    {
        self.draft("fill", Some(value.to_owned()), None)
    }

    /// Draft typing text into the matching element.
    pub fn type_builder(&self, text: &str) -> (r: ActionDraft)
        ensures
            r.frame@ == self.frame@ && r.selector@ == self.selector@ && r.method@ == "type"@ && (
            r.argument matches Some(a) && a@ == text@) && r.file is None,
    {
        self.draft("type", Some(text.to_owned()), None)
    }

    /// Draft pressing one key on the matching element.
    pub fn press_builder(&self, key: &str) -> (r: ActionDraft)
        ensures
            r.frame@ == self.frame@ && r.selector@ == self.selector@ && r.method@ == "press"@ && (
            r.argument matches Some(a) && a@ == key@) && r.file is None,
    {
        self.draft("press", Some(key.to_owned()), None)
    }

    /// Draft checking the matching checkbox.
    pub fn check_builder(&self) -> (r: ActionDraft)
        ensures
            r.frame@ == self.frame@ && r.selector@ == self.selector@ && r.method@ == "check"@
                && r.argument is None && r.file is None,
    {
        self.draft("check", None, None)
    }

    /// Draft unchecking the matching checkbox.
    pub fn uncheck_builder(&self) -> (r: ActionDraft)
        ensures
            r.frame@ == self.frame@ && r.selector@ == self.selector@ && r.method@ == "uncheck"@
                && r.argument is None && r.file is None,
    {
        self.draft("uncheck", None, None)
    }

    /// Draft setting the matching input's files to one file.
    pub fn set_input_files_builder(&self, file: FilePayload) -> (r: ActionDraft)
        ensures
            r.frame@ == self.frame@ && r.selector@ == self.selector@ && r.method@
                == "setInputFiles"@ && r.argument is None && r.file == Some(file),
    {
        self.draft("setInputFiles", None, Some(file))
    }
}

} // verus!
