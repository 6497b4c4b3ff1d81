//! The selector builders, against their exact expected strings.

use playwright_core::locator::{
    build_alt_text_selector, build_label_selector, build_placeholder_selector,
    build_role_selector, build_test_id_selector, build_text_selector, FilePayload, FrameLocator,
    GetByRoleOptions, Locator,
};

fn root() -> Locator {
    Locator::new("frame-1".to_string(), "div".to_string())
}

#[test]
fn nth_first_last_and_chaining() {
    let l = root();
    assert_eq!(l.nth(3).selector(), "div >> nth=3");
    assert_eq!(l.first().selector(), "div >> nth=0");
    assert_eq!(l.last().selector(), "div >> nth=-1");
    assert_eq!(l.locator("span.x").selector(), "div >> span.x");
}

#[test]
fn filter_by_locator_and_text() {
    let l = root();
    let inner = Locator::new("frame-1".to_string(), "li".to_string());
    let both = l.filter(Some(&inner), Some("say \"hi\""));
    assert_eq!(both.selector(), "div:has(li):has-text(\"say \\\"hi\\\"\")");
    let none = l.filter(None, None);
    assert_eq!(none.selector(), "div");
}

#[test]
fn text_selector_escapes_and_quotes() {
    assert_eq!(build_text_selector("Sign in", false), "text=Sign in");
    assert_eq!(build_text_selector("Sign in", true), "text=\"Sign in\"");
    assert_eq!(build_text_selector("a\\b\"c", true), "text=\"a\\\\b\\\"c\"");
}

#[test]
fn label_selector_exact_and_loose() {
    assert_eq!(
        build_label_selector("Mail", true),
        "[aria-label=\"Mail\"], label:has-text(\"Mail\") input, label:has-text(\"Mail\") textarea, label:has-text(\"Mail\") select"
    );
    assert_eq!(
        build_label_selector("Mail", false),
        "[aria-label*=\"Mail\"], label:has-text(\"Mail\") input, label:has-text(\"Mail\") textarea, label:has-text(\"Mail\") select"
    );
}

#[test]
fn attribute_selectors() {
    assert_eq!(build_placeholder_selector("name", true), "input[placeholder=\"name\"]");
    assert_eq!(build_placeholder_selector("name", false), "input[placeholder*=\"name\"]");
    assert_eq!(build_alt_text_selector("logo", true), "[alt=\"logo\"]");
    assert_eq!(build_test_id_selector("save-button"), "[data-testid=\"save-button\"]");
}

#[test]
fn role_selector_with_options() {
    assert_eq!(build_role_selector("button", None), "[role=\"button\"]");
    let opts = GetByRoleOptions {
        name: Some("Save".to_string()),
        exact: Some(true),
        disabled: Some(true),
        selected: None,
        checked: Some(true),
        pressed: None,
        expanded: None,
        include_hidden: Some(false),
        level: Some(2),
    };
    assert_eq!(
        build_role_selector("heading", Some(opts)),
        "[role=\"heading\"]:text-is(\"Save\"):disabled:is(:checked,[aria-checked=\"true\"]):not([hidden])[aria-level=\"2\"]"
    );
}

#[test]
fn get_by_helpers_replace_the_selector_and_keep_the_frame() {
    let l = root();
    let t = l.get_by_text("Hi", false);
    assert_eq!(t.selector(), "text=Hi");
    assert_eq!(t.frame, "frame-1");
    assert_eq!(l.get_by_test_id("x").selector(), "[data-testid=\"x\"]");
    assert_eq!(l.get_by_title("t", true).selector(), "[title=\"t\"]");
    assert_eq!(l.get_by_role("button", None).selector(), "[role=\"button\"]");
}

#[test]
fn frame_locators_enter_frames() {
    let f = FrameLocator::new("frame-1".to_string(), "iframe".to_string());
    assert_eq!(
        f.locator("button").selector(),
        "iframe >> internal:control=enter-frame >> button"
    );
    assert_eq!(f.nth(2).selector, "iframe >> nth=2");
    assert_eq!(
        f.frame_locator("iframe.inner").selector,
        "iframe >> internal:control=enter-frame >> iframe.inner"
    );
    assert_eq!(f.owner().selector(), "iframe");

    let same = Locator::new("frame-1".to_string(), "p".to_string());
    let ok = f.locator_from(&same).expect("same frame");
    assert_eq!(ok.selector(), "iframe >> internal:control=enter-frame >> p");
    let other = Locator::new("frame-2".to_string(), "p".to_string());
    assert!(f.locator_from(&other).is_err());
}

#[test]
fn action_drafts_carry_frame_selector_and_method() {
    let l = root();
    assert_eq!(l.click_builder().method, "click");
    assert_eq!(l.dblclick_builder().method, "dblclick");
    assert_eq!(l.hover_builder().method, "hover");
    assert_eq!(l.tap_builder().method, "tap");
    assert_eq!(l.check_builder().method, "check");
    assert_eq!(l.uncheck_builder().method, "uncheck");
    let d = l.fill_builder("hi");
    assert_eq!(d.method, "fill");
    assert_eq!(d.argument.as_deref(), Some("hi"));
    assert_eq!(d.frame, "frame-1");
    assert_eq!(d.selector, "div");
    assert_eq!(l.type_builder("abc").argument.as_deref(), Some("abc"));
    assert_eq!(l.press_builder("Enter").argument.as_deref(), Some("Enter"));
    let d = l.set_input_files_builder(FilePayload {
        name: "a.txt".to_string(),
        mime_type: "text/plain".to_string(),
        buffer: b"x".to_vec(),
    });
    assert_eq!(d.method, "setInputFiles");
    assert_eq!(d.file.as_ref().map(|f| f.name.as_str()), Some("a.txt"));
}
