use std::cell::Cell;
use std::cmp::Ordering;

use tt_status::capture::{CaptureStatusBackend, Record};
use tt_status::status::{
    tt_error, tt_note, tt_report, tt_warning, ChatterLevel, Message, MessageKind,
    NoopStatusBackend, Render,
};
use tt_status::template::format_template;

/// An argument that counts how often it is rendered.
struct Counted<'a> {
    value: u64,
    renders: &'a Cell<u32>,
}

impl<'a> Render for Counted<'a> {
    fn render(&self) -> String {
        self.renders.set(self.renders.get() + 1);
        self.value.to_string()
    }
}

fn texts(v: &[&str]) -> Vec<String> {
    v.iter().map(|s| s.to_string()).collect()
}

fn record_tuple(r: &Record) -> (MessageKind, String, bool) {
    (r.kind, r.text.clone(), r.has_error)
}

#[test]
fn chatter_minimal_is_below_normal() {
    assert!(ChatterLevel::Minimal < ChatterLevel::Normal);
    assert!(ChatterLevel::Normal > ChatterLevel::Minimal);
    assert!(ChatterLevel::Minimal <= ChatterLevel::Minimal);
    assert_eq!(
        ChatterLevel::Minimal.partial_cmp(&ChatterLevel::Normal),
        Some(Ordering::Less)
    );
    assert_eq!(
        ChatterLevel::Normal.partial_cmp(&ChatterLevel::Normal),
        Some(Ordering::Equal)
    );
    assert_eq!(ChatterLevel::Normal.cmp(&ChatterLevel::Minimal), Ordering::Greater);
    assert_eq!(ChatterLevel::Minimal, ChatterLevel::Minimal);
    assert_ne!(ChatterLevel::Minimal, ChatterLevel::Normal);
    assert_eq!(ChatterLevel::Minimal.rank(), 0);
    assert_eq!(ChatterLevel::Normal.rank(), 1);
}

#[test]
fn message_kinds_are_distinct() {
    let all = [MessageKind::Note, MessageKind::Warning, MessageKind::Error];
    for (i, a) in all.iter().enumerate() {
        for (j, b) in all.iter().enumerate() {
            assert_eq!(a == b, i == j);
        }
    }
}

#[test]
fn noop_backend_takes_every_report() {
    let mut b = NoopStatusBackend::new();
    let err = String::from("disk full");
    tt_note(&mut b, "plain", &[] as &[u64], None::<&String>);
    tt_note(&mut b, "pass {0}", &[1u64], Some(&err));
    tt_warning(&mut b, "retry {} of {}", &[2u64, 5], None::<&String>);
    tt_error(&mut b, "{0}{1}{0}", &[7i64, -3], Some(&err));
    tt_report(&mut b, MessageKind::Error, "{{literal}}", &[] as &[usize], None::<&String>);
}

#[test]
fn noop_backend_renders_nothing() {
    let renders = Cell::new(0);
    let args = [Counted { value: 4, renders: &renders }];
    let mut b = NoopStatusBackend::new();
    tt_error(&mut b, "value {0}", &args, None::<&String>);
    assert_eq!(renders.get(), 0);
}

#[test]
fn capture_keeps_reports_in_call_order() {
    let mut b = CaptureStatusBackend::new(ChatterLevel::Normal);
    let err = String::from("boom");
    tt_note(&mut b, "a {0}", &[1u64], None::<&String>);
    tt_error(&mut b, "b", &[] as &[u64], Some(&err));
    tt_warning(&mut b, "c {} {}", &[3u64, 4], None::<&String>);
    tt_note(&mut b, "d", &[] as &[u64], Some(&err));
    let got: Vec<_> = b.records().iter().map(record_tuple).collect();
    assert_eq!(
        got,
        vec![
            (MessageKind::Note, String::from("a 1"), false),
            (MessageKind::Error, String::from("b"), true),
            (MessageKind::Warning, String::from("c 3 4"), false),
            (MessageKind::Note, String::from("d"), true),
        ]
    );
}

#[test]
fn quiet_capture_skips_notes_without_rendering() {
    let renders = Cell::new(0);
    let args = [Counted { value: 9, renders: &renders }];
    let mut b = CaptureStatusBackend::new(ChatterLevel::Minimal);
    assert_eq!(b.level(), ChatterLevel::Minimal);
    assert!(!b.shows(MessageKind::Note));
    assert!(b.shows(MessageKind::Warning));
    tt_note(&mut b, "hidden {0}", &args, None::<&String>);
    assert_eq!(renders.get(), 0);
    assert!(b.records().is_empty());
    tt_warning(&mut b, "shown {0}", &args, None::<&String>);
    assert_eq!(renders.get(), 1);
    let got: Vec<_> = b.records().iter().map(record_tuple).collect();
    assert_eq!(got, vec![(MessageKind::Warning, String::from("shown 9"), false)]);
}

#[test]
fn scenario_note_warning_error() {
    let mut b = CaptureStatusBackend::new(ChatterLevel::Normal);
    tt_note(&mut b, "starting pass {0}", &[1u64], None::<&String>);
    tt_warning(&mut b, "retry {0} of {1}", &[2u64, 5], None::<&String>);
    let e = String::from("E");
    tt_error(&mut b, "build failed", &[] as &[u64], Some(&e));
    let got: Vec<_> = b.records().iter().map(record_tuple).collect();
    assert_eq!(
        got,
        vec![
            (MessageKind::Note, String::from("starting pass 1"), false),
            (MessageKind::Warning, String::from("retry 2 of 5"), false),
            (MessageKind::Error, String::from("build failed"), true),
        ]
    );
}

#[test]
fn format_fills_positional_and_implicit_placeholders() {
    let t = texts(&["2", "5"]);
    assert_eq!(format_template("retry {0} of {1}", &t), Some(String::from("retry 2 of 5")));
    assert_eq!(format_template("{1}-{0}-{1}", &t), Some(String::from("5-2-5")));
    assert_eq!(format_template("{} and {}", &t), Some(String::from("2 and 5")));
    assert_eq!(format_template("{1} {} {}", &t), Some(String::from("5 2 5")));
    assert_eq!(format_template("", &t), Some(String::new()));
    assert_eq!(format_template("no placeholders", &[]), Some(String::from("no placeholders")));
}

#[test]
fn format_keeps_escaped_braces() {
    let t = texts(&["x"]);
    assert_eq!(format_template("{{{0}}}", &t), Some(String::from("{x}")));
    assert_eq!(format_template("}}{{", &[]), Some(String::from("}{")));
}

#[test]
fn format_handles_multi_digit_indices_and_unicode() {
    let t = texts(&["a", "b", "c", "d", "e", "f", "g", "h", "i", "j", "k", "l"]);
    assert_eq!(format_template("{11}{10}{0}", &t), Some(String::from("lka")));
    assert_eq!(format_template("{007}", &t), Some(String::from("h")));
    let u = texts(&["ü"]);
    assert_eq!(format_template("é{0}ß", &u), Some(String::from("éüß")));
}

#[test]
fn format_rejects_malformed_templates() {
    let t = texts(&["2"]);
    assert_eq!(format_template("open { brace", &t), None);
    assert_eq!(format_template("close } brace", &t), None);
    assert_eq!(format_template("trailing {", &t), None);
    assert_eq!(format_template("trailing }", &t), None);
    assert_eq!(format_template("{0:?}", &t), None);
    assert_eq!(format_template("{x}", &t), None);
}

#[test]
fn format_rejects_missing_arguments() {
    let t = texts(&["2"]);
    assert_eq!(format_template("{1}", &t), None);
    assert_eq!(format_template("{} {}", &t), None);
    assert_eq!(format_template("{0}", &[]), None);
    assert_eq!(format_template("{99999999999999999999999}", &t), None);
}

#[test]
fn message_new_checks_template_against_arguments() {
    let args = [2u64, 5];
    assert!(Message::new("retry {0} of {1}", &args).is_some());
    assert!(Message::new("retry {2}", &args).is_none());
    assert!(Message::new("bad {", &args).is_none());
    let m = Message::new("retry {0} of {1}", &args).unwrap();
    assert_eq!(m.template(), "retry {0} of {1}");
    assert_eq!(m.args(), &[2u64, 5]);
    assert_eq!(m.render(), "retry 2 of 5");
}

#[test]
fn message_renders_each_argument_kind() {
    let words = [String::from("alpha"), String::from("beta")];
    assert_eq!(Message::from_parts("{1} {0}", &words).render(), "beta alpha");
    let signed = [-12i64];
    assert_eq!(Message::from_parts("n={0}", &signed).render(), "n=-12");
    let sizes = [3usize];
    assert_eq!(Message::from_parts("{0} items", &sizes).render(), "3 items");
}

#[test]
fn message_renders_only_on_demand() {
    let renders = Cell::new(0);
    let args = [Counted { value: 1, renders: &renders }];
    let m = Message::from_parts("x{0}", &args);
    assert_eq!(renders.get(), 0);
    assert_eq!(m.render(), "x1");
    assert_eq!(renders.get(), 1);
}
