//! A dialog node: its kind, message and default prompt value, read once from
//! its initializer, and the requests that accept or dismiss it.

use vstd::prelude::*;

use crate::json::{json_field, obj_fields, JsonData, JsonValue};

verus! {

/// A dialog as the engine mirrors it.
pub struct Dialog {
    pub guid: String,
    pub dialog_type: String,
    pub message: String,
    pub default_value: String,
}

/// One string field of a dialog initializer, as its constructor reads it.
pub open spec fn dialog_field(init: JsonData, key: Seq<char>) -> Option<Seq<char>> {
    match json_field(init, key) {
        Some(JsonData::Str(s)) => Some(s),
        _ => None,
    }
}

/// Whether a dialog initializer carries all three expected fields.
pub open spec fn dialog_init_ok(init: JsonData) -> bool {
    &&& dialog_field(init, "type"@) is Some
    &&& dialog_field(init, "message"@) is Some
    &&& dialog_field(init, "defaultValue"@) is Some
}

impl Dialog {
    /// Read a dialog from its initializer; a malformed initializer reads as
    /// three empty strings.
    pub fn new(guid: String, initializer: &JsonValue) -> (r: Dialog)
        ensures
            r.guid == guid,
            dialog_init_ok(initializer@) ==> {
                &&& r.dialog_type@ == dialog_field(initializer@, "type"@)->Some_0
                &&& r.message@ == dialog_field(initializer@, "message"@)->Some_0
                &&& r.default_value@ == dialog_field(initializer@, "defaultValue"@)->Some_0
            },
            !dialog_init_ok(initializer@) ==> {
                &&& r.dialog_type@ == Seq::<char>::empty()
                &&& r.message@ == Seq::<char>::empty()
                &&& r.default_value@ == Seq::<char>::empty()
            },
    {
        let t: Option<String> = match initializer.get("type") {
            Some(v) => match v.as_str() {
                Some(s) => Some(s.clone()),
                None => None,
            },
            None => None,
        };
        let m: Option<String> = match initializer.get("message") {
            Some(v) => match v.as_str() {
                Some(s) => Some(s.clone()),
                None => None,
            },
            None => None,
        };
        let d: Option<String> = match initializer.get("defaultValue") {
            Some(v) => match v.as_str() {
                Some(s) => Some(s.clone()),
                None => None,
            },
            None => None,
        };
        match (t, m, d) {
            (Some(t), Some(m), Some(d)) => Dialog {
                guid,
                dialog_type: t,
                message: m,
                default_value: d,
            },
            _ => Dialog {
                guid,
                dialog_type: String::new(),
                message: String::new(),
                default_value: String::new(),
            },
        }
    }

    /// The dialog's kind: `alert`, `beforeunload`, `confirm` or `prompt`.
    pub fn kind(&self) -> (r: &String)
        ensures
            r == self.dialog_type,
    {
        &self.dialog_type
    }

    /// The message displayed in the dialog.
    pub fn message(&self) -> (r: &String)
        ensures
            r == self.message,
    {
        &self.message
    }

    /// The default prompt value; empty unless the dialog is a prompt.
    pub fn default_value(&self) -> (r: &String)
        ensures
            r == self.default_value,
    {
        &self.default_value
    }
}

/// The parameters accepting a dialog, with the prompt text when one is given.
pub fn accept_params(prompt_text: Option<&str>) -> (r: JsonValue)
    ensures
        r@ == JsonData::Obj(
            match prompt_text {
                Some(t) => seq![("promptText"@, JsonData::Str(t@))],
                None => Seq::<(Seq<char>, JsonData)>::empty(),
            },
        ),
{
    let r = JsonValue::obj_new().with_opt_str_field("promptText", prompt_text);
    proof {
        assert(obj_fields(r@) =~= (match prompt_text {
            Some(t) => seq![("promptText"@, JsonData::Str(t@))],
            None => Seq::<(Seq<char>, JsonData)>::empty(),
        }));
    }
    r
}

/// The parameters dismissing a dialog: none.
pub fn dismiss_params() -> (r: JsonValue)
    ensures
        r@ == JsonData::Obj(Seq::<(Seq<char>, JsonData)>::empty()),
{
    JsonValue::obj_new()
}

} // verus!
