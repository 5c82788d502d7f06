use gba_agentic_runner::names::{redact, sanitize_name, xml_escape};

#[test]
fn sanitize_replaces_and_trims() {
    assert_eq!(sanitize_name("Cuci SMR"), "Cuci_SMR");
    assert_eq!(sanitize_name("__a b__"), "a_b");
    assert_eq!(sanitize_name("SM-S928B/x.y"), "SM-S928B_x.y");
    assert_eq!(sanitize_name("***"), "");
}

#[test]
fn sanitize_is_stable() {
    let once = sanitize_name(" Laundry SMR ");
    assert_eq!(sanitize_name(&once), once);
}

#[test]
fn xml_escape_replaces_markup() {
    assert_eq!(xml_escape("a<b>&\"c'"), "a&lt;b&gt;&amp;&quot;c&apos;");
    let escaped = xml_escape("<<'\">>");
    assert!(!escaped.contains('<') && !escaped.contains('>') && !escaped.contains('"') && !escaped.contains('\''));
}

#[test]
fn redact_masks_secret() {
    assert_eq!(redact("pass=hunter2 ok", "hunter2"), "pass=******** ok");
    assert_eq!(redact("nothing", ""), "nothing");
}

#[test]
fn redacted_text_never_shows_the_secret() {
    let out = redact("aaaa wifi aaa", "aa");
    assert_eq!(out, "**************** wifi ********a");
    assert!(!out.contains("aa"));
    let masked_mask = redact("a*b", "*");
    assert!(masked_mask.contains('*'));
}
