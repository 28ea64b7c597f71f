use beacon::application::Application;
use beacon::desktop::{Desktop, ParseTypeError, Type};

#[test]
fn loads_a_full_application_descriptor() {
    let text = "[Desktop Entry]\nName=Firefox\nType=Application\nExec=firefox %u\n";
    let d = Desktop::load_from_str(text).unwrap();
    assert_eq!(d.name, "Firefox");
    assert_eq!(d.chars, vec!['F', 'i', 'r', 'e', 'f', 'o', 'x']);
    assert!(!d.no_display);
    match d.entry_type {
        Type::Application(Some(exec)) => assert_eq!(exec, "firefox %u"),
        _ => panic!("expected an application with a launch command"),
    }
}

#[test]
fn application_without_exec_has_no_launch_target() {
    let text = "[Desktop Entry]\nName=Top\nType=Application\n";
    let d = Desktop::load_from_str(text).unwrap();
    match d.entry_type {
        Type::Application(None) => {},
        _ => panic!("expected an application without a launch command"),
    }
}

#[test]
fn link_target_repeats_the_name() {
    let text = "[Desktop Entry]\nName=Docs\nType=Link\n";
    let d = Desktop::load_from_str(text).unwrap();
    match d.entry_type {
        Type::Link(target) => assert_eq!(target, "Docs"),
        _ => panic!("expected a link"),
    }
}

#[test]
fn directory_descriptor_loads() {
    let text = "[Desktop Entry]\nName=Games\nType=Directory\n";
    let d = Desktop::load_from_str(text).unwrap();
    match d.entry_type {
        Type::Directory => {},
        _ => panic!("expected a directory"),
    }
}

#[test]
fn missing_name_is_skipped() {
    let text = "[Desktop Entry]\nType=Application\n";
    assert!(Desktop::load_from_str(text).is_none());
}

#[test]
fn missing_type_is_skipped() {
    let text = "[Desktop Entry]\nName=Top\n";
    assert!(Desktop::load_from_str(text).is_none());
}

#[test]
fn unrecognized_type_is_skipped() {
    let text = "[Desktop Entry]\nName=Top\nType=Game\n";
    assert!(Desktop::load_from_str(text).is_none());
}

#[test]
fn missing_section_is_skipped() {
    let text = "[Other Entry]\nName=Top\nType=Application\n";
    assert!(Desktop::load_from_str(text).is_none());
}

#[test]
fn no_display_reads_only_the_word_true() {
    let shown = "[Desktop Entry]\nName=A\nType=Application\nNoDisplay=false\n";
    assert!(!Desktop::load_from_str(shown).unwrap().no_display);
    let hidden = "[Desktop Entry]\nName=A\nType=Application\nNoDisplay=true\n";
    assert!(Desktop::load_from_str(hidden).unwrap().no_display);
    let garbled = "[Desktop Entry]\nName=A\nType=Application\nNoDisplay=maybe\n";
    assert!(!Desktop::load_from_str(garbled).unwrap().no_display);
}

#[test]
fn name_characters_cover_unicode() {
    let text = "[Desktop Entry]\nName=Caf\u{e9}\nType=Application\n";
    let d = Desktop::load_from_str(text).unwrap();
    assert_eq!(d.chars, vec!['C', 'a', 'f', '\u{e9}']);
}

#[test]
fn desktop_type_parses_the_three_kind_names() {
    assert!(matches!(Type::from_str("Application"), Ok(Type::Application(None))));
    assert!(matches!(Type::from_str("Link"), Ok(Type::Link(_))));
    assert!(matches!(Type::from_str("Directory"), Ok(Type::Directory)));
    assert_eq!(Type::from_str("Game").err(), Some(ParseTypeError));
}

#[test]
fn kind_names_round_trip() {
    assert_eq!(Type::Application(None).kind_name(), "Application");
    assert_eq!(Type::Link("x".to_string()).kind_name(), "Link");
    assert_eq!(Type::Directory.kind_name(), "Directory");
}

#[test]
fn application_variant_loads_without_exec() {
    let text = "[Desktop Entry]\nName=Firefox\nType=Application\nExec=firefox %u\n";
    let a = Application::load_from_str(text).unwrap();
    assert_eq!(a.name, "Firefox");
    assert!(matches!(a.app_type, beacon::application::Type::Application));
    assert!(!a.no_display);
}

#[test]
fn application_variant_skips_malformed_descriptors() {
    assert!(Application::load_from_str("[Desktop Entry]\nType=Application\n").is_none());
    assert!(Application::load_from_str("[Desktop Entry]\nName=A\nType=Game\n").is_none());
}
