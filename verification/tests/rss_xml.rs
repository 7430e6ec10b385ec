use smart_hedge::rss_xml::extract_feed_entries;

#[test]
fn extracts_a_simple_rss_item() {
    let xml = r#"<rss><channel><item><title>Hello</title><description>World</description><pubDate>2026-07-19</pubDate></item></channel></rss>"#;
    let entries = extract_feed_entries(xml, 10);
    assert_eq!(entries.len(), 1);
    assert_eq!(entries[0].title, "Hello");
    assert_eq!(entries[0].description, "World");
    assert_eq!(entries[0].published, "2026-07-19");
}

#[test]
fn extracts_multiple_items_in_order() {
    let xml = r#"<rss><channel>
            <item><title>First</title></item>
            <item><title>Second</title></item>
        </channel></rss>"#;
    let entries = extract_feed_entries(xml, 10);
    assert_eq!(entries.len(), 2);
    assert_eq!(entries[0].title, "First");
    assert_eq!(entries[1].title, "Second");
}

#[test]
fn respects_the_max_items_cap() {
    let xml = r#"<rss><channel><item><title>1</title></item><item><title>2</title></item><item><title>3</title></item></channel></rss>"#;
    let entries = extract_feed_entries(xml, 2);
    assert_eq!(entries.len(), 2);
}

#[test]
fn falls_back_to_atom_entry_when_no_rss_item_exists() {
    let xml = r#"<feed xmlns="http://www.w3.org/2005/Atom"><entry><title>Atom title</title><summary>Atom summary</summary><updated>2026-07-19T00:00:00Z</updated></entry></feed>"#;
    let entries = extract_feed_entries(xml, 10);
    assert_eq!(entries.len(), 1);
    assert_eq!(entries[0].title, "Atom title");
    assert_eq!(entries[0].description, "Atom summary");
    assert_eq!(entries[0].published, "2026-07-19T00:00:00Z");
}

#[test]
fn handles_cdata_sections() {
    let xml = r#"<item><title><![CDATA[<b>Bold</b> & stuff]]></title></item>"#;
    let entries = extract_feed_entries(xml, 10);
    assert_eq!(entries[0].title, "<b>Bold</b> & stuff");
}

#[test]
fn decodes_the_five_basic_xml_entities() {
    let xml = r#"<item><title>A &amp; B &lt;tag&gt; &quot;q&quot; &apos;a&apos;</title></item>"#;
    let entries = extract_feed_entries(xml, 10);
    assert_eq!(entries[0].title, "A & B <tag> \"q\" 'a'");
}

#[test]
fn namespaced_prefixed_tags_are_matched_by_local_name() {
    let xml = r#"<item><dc:title>Prefixed</dc:title></item>"#;
    let entries = extract_feed_entries(xml, 10);
    assert_eq!(entries[0].title, "Prefixed");
}

#[test]
fn missing_fields_default_to_empty_strings_not_panics() {
    let xml = r#"<item></item>"#;
    let entries = extract_feed_entries(xml, 10);
    assert_eq!(entries.len(), 1);
    assert_eq!(entries[0].title, "");
    assert_eq!(entries[0].description, "");
    assert_eq!(entries[0].published, "");
}

#[test]
fn completely_malformed_input_yields_no_entries_without_panicking() {
    for bad in ["", "<", "<item", "not xml at all", "<item><title>unterminated", "<!DOCTYPE foo [<!ENTITY x \"y\">]><item/>"] {
        let entries = extract_feed_entries(bad, 10);
        assert!(entries.len() <= 1, "unexpected entries for {bad:?}: {}", entries.len());
    }
}

#[test]
fn xml_comments_before_items_are_skipped_not_matched() {
    let xml = r#"<rss><!-- an item-like comment <item><title>fake</title></item> --><channel><item><title>real</title></item></channel></rss>"#;
    let entries = extract_feed_entries(xml, 10);
    assert_eq!(entries.len(), 1);
    assert_eq!(entries[0].title, "real");
}

#[test]
fn doctype_with_internal_entity_declaration_is_skipped_and_never_expanded() {
    let xml = r#"<?xml version="1.0"?><!DOCTYPE rss [<!ENTITY xxe SYSTEM "file:///etc/passwd">]><rss><channel><item><title>&xxe;</title></item></channel></rss>"#;
    let entries = extract_feed_entries(xml, 10);
    assert_eq!(entries.len(), 1);
    assert_eq!(entries[0].title, "&xxe;");
}

#[test]
fn a_quote_character_inside_an_attribute_value_does_not_end_the_tag_early() {
    let xml = r#"<item><title alt="a>b">Text</title></item>"#;
    let entries = extract_feed_entries(xml, 10);
    assert_eq!(entries[0].title, "Text");
}

#[test]
fn self_closing_item_is_skipped_not_returned_as_an_empty_entry() {
    let xml = r#"<rss><channel><item/><item><title>Real</title></item></channel></rss>"#;
    let entries = extract_feed_entries(xml, 10);
    assert_eq!(entries.len(), 1);
    assert_eq!(entries[0].title, "Real");
}

#[test]
fn a_zero_cap_yields_no_entries() {
    let xml = r#"<item><title>x</title></item>"#;
    assert!(extract_feed_entries(xml, 0).is_empty());
}

#[test]
fn field_text_is_kept_as_written() {
    let xml = "<item><title>\n   Spaced out \t</title></item>";
    let entries = extract_feed_entries(xml, 10);
    assert_eq!(entries[0].title, "\n   Spaced out \t");
}

#[test]
fn plain_text_without_markup_yields_nothing() {
    assert!(extract_feed_entries("just words & more words", 10).is_empty());
}

#[test]
fn a_doctype_without_a_subset_ends_at_its_own_close() {
    let entries = extract_feed_entries("<!DOCTYPE rss><rss><item><title>[a]</title></item></rss>", 10);
    assert_eq!(entries.len(), 1);
    assert_eq!(entries[0].title, "[a]");
}

#[test]
fn a_doctype_subset_is_skipped_whole() {
    let xml = "<!DOCTYPE rss [<!ENTITY x \"<item><title>no</title></item>\">]><rss><item><title>[yes]</title></item></rss>";
    let entries = extract_feed_entries(xml, 10);
    assert_eq!(entries.len(), 1);
    assert_eq!(entries[0].title, "[yes]");
}
