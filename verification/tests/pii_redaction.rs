use matrix_ping_bot::pii::{decimal_chars, PiiRedactor};

#[test]
fn personal_data_is_replaced_by_numbered_placeholders() {
    let mut redactor = PiiRedactor::new();
    let out = redactor.redact("mail Bob@Example.com or eve@x.org from 10.0.0.1, call 555-123-4567.");
    assert_eq!(
        out,
        "mail <PII:EMAIL:1> or <PII:EMAIL:2> from <PII:IP:1>, call <PII:PHONE:1>."
    );
    let again = redactor.redact("eve@x.org again, 5551234567");
    assert_eq!(again, "<PII:EMAIL:3> again, <PII:PHONE:2>");
    assert_eq!(redactor.redact("nothing to see"), "nothing to see");
    assert_eq!(redactor.redact(""), "");
}

#[test]
fn placeholders_are_restored_to_what_they_stand_for() {
    let mut redactor = PiiRedactor::with_ner();
    let text = "write to bob@example.com, not 192.168.1.20";
    let out = redactor.redact(text);
    assert_eq!(out, "write to <PII:EMAIL:1>, not <PII:IP:1>");
    assert_eq!(redactor.restore(&out), text);
    assert_eq!(
        redactor.restore("<PII:IP:1> and <PII:EMAIL:1> but <PII:EMAIL:9> and <PII:x:1>"),
        "192.168.1.20 and bob@example.com but <PII:EMAIL:9> and <PII:x:1>"
    );
    let fresh = PiiRedactor::new();
    assert_eq!(fresh.restore(&out), out);
}

#[test]
fn redacting_a_redacted_text_changes_nothing() {
    let mut redactor = PiiRedactor::new();
    let once = redactor.redact("a@b.cd 1.2.3.4 123.456.7890");
    assert_eq!(once, "<PII:EMAIL:1> <PII:IP:1> <PII:PHONE:1>");
    assert_eq!(redactor.redact(&once), once);
    assert_eq!(redactor.restore(&once), "a@b.cd 1.2.3.4 123.456.7890");
}

#[test]
fn numbers_are_written_in_decimal() {
    let text = |n: usize| decimal_chars(n).into_iter().collect::<String>();
    assert_eq!(text(0), "0");
    assert_eq!(text(7), "7");
    assert_eq!(text(10), "10");
    assert_eq!(text(1203), "1203");
    assert_eq!(text(usize::MAX), usize::MAX.to_string());
}
