use fancy_print::{Animation, FancyPrinter, FancyPrinterBuilder};

#[test]
fn builder_defaults_match_explicit_configuration() {
    let explicit = FancyPrinter::builder()
        .animation(Animation::CharacterCycling)
        .time_delay(2)
        .multi_line(false)
        .ignore_newlines(false)
        .build();
    let default_printer = FancyPrinter::builder().build();
    assert_eq!(explicit, default_printer);
}

#[test]
fn builder_new_equals_builder_fn() {
    assert_eq!(FancyPrinter::builder(), FancyPrinterBuilder::new());
}

#[test]
fn default_printer_fields() {
    let printer = FancyPrinter::default();
    assert_eq!(printer.time_delay_ms, 2);
    assert_eq!(printer.animation, Animation::CharacterCycling);
    assert!(!printer.multi_line);
    assert!(!printer.ignore_newlines);
}

#[test]
fn builder_sets_every_option() {
    let printer = FancyPrinterBuilder::new()
        .time_delay(100)
        .animation(Animation::Typing)
        .multi_line(true)
        .ignore_newlines(true)
        .build();
    assert_eq!(printer.time_delay_ms, 100);
    assert_eq!(printer.animation, Animation::Typing);
    assert!(printer.multi_line);
    assert!(printer.ignore_newlines);
}

#[test]
fn builder_default_trait_matches_new() {
    assert_eq!(FancyPrinterBuilder::default(), FancyPrinterBuilder::new());
}
