use nicoass::template::{Template, TemplateUrl};

#[test]
fn test_template_replace() {
    let mut template = Template::new();
    template.insert("RepresentationID", "1".to_string());
    template.insert("Number", "2".to_string());
    template.insert("Time", "3".to_string());
    template.insert("Bandwidth", "4".to_string());

    // Single digit
    assert_eq!(template.resolve("$RepresentationID$"), "1".to_string());
    assert_eq!(template.resolve("$Number$"), "2".to_string());
    assert_eq!(template.resolve("$Time$"), "3".to_string());
    assert_eq!(template.resolve("$Bandwidth$"), "4".to_string());

    // Double digit
    assert_eq!(template.resolve("$RepresentationID%02d$"), "01".to_string());
    assert_eq!(template.resolve("$Number%02d$"), "02".to_string());
    assert_eq!(template.resolve("$Time%02d$"), "03".to_string());
    assert_eq!(template.resolve("$Bandwidth%02d$"), "04".to_string());

    // Mixed variables
    assert_eq!(
        template.resolve("$RepresentationID$-$Number$"),
        "1-2".to_string()
    );
    assert_eq!(template.resolve("$Time$-$Bandwidth$"), "3-4".to_string());

    // Mixed variables with width
    assert_eq!(
        template.resolve("$RepresentationID%02d$-$Number%09d$"),
        "01-000000002".to_string()
    );

    // All variables
    assert_eq!(
        template.resolve("$RepresentationID$-$Number$-$Time$-$Bandwidth$"),
        "1-2-3-4".to_string()
    );

    // All variables with different width
    assert_eq!(
        template.resolve("$RepresentationID%02d$-$Number%09d$-$Time%02d$-$Bandwidth%02d$"),
        "01-000000002-03-04".to_string()
    );

    // Unknown variable
    assert_eq!(template.resolve("$Unknown$"), "$Unknown$".to_string());
}

#[test]
fn test_template_variable_not_defined() {
    let template = Template::new();
    assert_eq!(
        template.resolve("$RepresentationID$"),
        "$RepresentationID$".to_string()
    );
}

#[test]
fn later_insert_replaces_earlier_value() {
    let mut template = Template::new();
    template.insert(Template::NUMBER, "1".to_string());
    template.insert(Template::NUMBER, "12".to_string());
    assert_eq!(template.resolve("n$Number%04d$.m4s"), "n0012.m4s");
}

#[test]
fn insert_optional_none_keeps_placeholder() {
    let mut template = Template::new();
    template.insert_optional(Template::TIME, None);
    template.insert_optional(Template::SUB_NUMBER, Some("7".to_string()));
    assert_eq!(template.resolve("$Time$/$SubNumber$"), "$Time$/7");
}

#[test]
fn value_longer_than_width_is_not_cut() {
    let mut template = Template::new();
    template.insert(Template::BANDWIDTH, "123456".to_string());
    assert_eq!(template.resolve("$Bandwidth%03d$"), "123456");
}

#[test]
fn malformed_placeholders_are_kept() {
    let mut template = Template::new();
    template.insert(Template::REPRESENTATION_ID, "v".to_string());
    assert_eq!(template.resolve("$RepresentationID%2d$"), "$RepresentationID%2d$");
    assert_eq!(template.resolve("$$RepresentationID$$"), "$v$");
    assert_eq!(template.resolve("$RepresentationID"), "$RepresentationID");
}

#[test]
fn template_url_resolves_with_values() {
    let mut template = Template::default();
    template.insert(Template::REPRESENTATION_ID, "video".to_string());
    template.insert(Template::NUMBER, "5".to_string());
    let url = TemplateUrl("$RepresentationID$/$Number%06d$.m4s".to_string());
    assert_eq!(url.resolve(&template), "video/000005.m4s");
}
