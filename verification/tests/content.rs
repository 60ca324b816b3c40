//! Robots policy evaluation, document extraction and text clean-up.

use scrapeprice::err::HTTPError;
use scrapeprice::extract::Document;
use scrapeprice::http::{GetResponse, bytes_to_str};
use scrapeprice::implem::{AudiophilItemPriceExtractor, substring};
use scrapeprice::robots::robots_ok;

fn robots(text: &str) -> Vec<u8> {
    text.as_bytes().to_vec()
}

#[test]
fn robots_wildcard_disallow_denies() {
    let body = robots("User-agent: *\nDisallow: /private/\n");
    assert!(!robots_ok(&body, b"/private/page"));
    assert!(robots_ok(&body, b"/public/page"));
}

#[test]
fn robots_conjunction_agent_denial_wins() {
    // The wildcard section permits everything, the crawler's own section
    // denies the path: the conjunction must deny.
    let body = robots("User-agent: *\nAllow: /\n\nUser-agent: scrapeprice\nDisallow: /\n");
    assert!(!robots_ok(&body, b"/page"));
}

#[test]
fn robots_conjunction_wildcard_denial_wins() {
    let body = robots("User-agent: scrapeprice\nAllow: /\n\nUser-agent: *\nDisallow: /\n");
    assert!(!robots_ok(&body, b"/page"));
}

#[test]
fn robots_empty_policy_allows() {
    assert!(robots_ok(&robots(""), b"/anything"));
}

#[test]
fn robots_keys_case_insensitive_and_comments_ignored() {
    let body = robots("USER-AGENT: * # everyone\nDISALLOW: /tmp/ # goes away soon\n");
    assert!(!robots_ok(&body, b"/tmp/file"));
    assert!(robots_ok(&body, b"/t"));
}

#[test]
fn robots_crlf_lines() {
    let body = robots("User-agent: *\r\nDisallow: /private/\r\n");
    assert!(!robots_ok(&body, b"/private/x"));
}

#[test]
fn robots_first_matching_rule_wins() {
    let body = robots("User-agent: *\nAllow: /private/open/\nDisallow: /private/\n");
    assert!(robots_ok(&body, b"/private/open/page"));
    assert!(!robots_ok(&body, b"/private/closed"));
}

#[test]
fn robots_empty_disallow_allows_everything() {
    let body = robots("User-agent: *\nDisallow:\nDisallow: /private/\n");
    // The empty rule is reached first and allows.
    assert!(robots_ok(&body, b"/private/page"));
}

#[test]
fn robots_path_prefix_case_insensitive() {
    let body = robots("User-agent: *\nDisallow: /Private/\n");
    assert!(!robots_ok(&body, b"/private/page"));
}

#[test]
fn robots_unknown_agent_falls_back_to_wildcard() {
    let body = robots("User-agent: somebodyelse\nDisallow: /\n\nUser-agent: *\nDisallow: /tmp/\n");
    // The crawler is not "somebodyelse", so the wildcard section decides.
    assert!(robots_ok(&body, b"/page"));
    assert!(!robots_ok(&body, b"/tmp/page"));
}

#[test]
fn document_contents_in_document_order() {
    let doc = Document::new(
        "<html><body>\
         <span class=\"price\">19,99 \u{20ac}</span>\
         <span class=\"price\">24,50 \u{20ac}</span>\
         </body></html>",
    );
    let selectors = vec![".price".to_string()];
    let data = doc.get_contents(&selectors).unwrap();
    assert_eq!(data, vec![vec!["19,99 \u{20ac}".to_string(), "24,50 \u{20ac}".to_string()]]);
}

#[test]
fn document_no_match_is_empty_not_error() {
    let doc = Document::new("<html><body><p>nothing here</p></body></html>");
    let data = doc.get_content(".price").unwrap();
    assert!(data.is_empty());
}

#[test]
fn document_invalid_selector_is_error() {
    let doc = Document::new("<html></html>");
    match doc.get_content(":::not a selector:::") {
        Err(HTTPError::SelectorError(s)) => assert_eq!(s, ":::not a selector:::"),
        other => panic!("expected a selector error, got {:?}", other),
    }
}

#[test]
fn document_attr_with_missing_attribute_is_empty_string() {
    let doc = Document::new(
        "<html><body><a href=\"/one\">first</a><a>second</a></body></html>",
    );
    let hrefs = doc.get_attr("a", "href").unwrap();
    assert_eq!(hrefs, vec!["/one".to_string(), "".to_string()]);
}

#[test]
fn parse_response_rejects_invalid_utf8() {
    let resp = GetResponse { status: 200, body: vec![0xff, 0xfe, 0x00] };
    match scrapeprice::extract::parse_response(resp) {
        Err(HTTPError::EncodingError(_)) => {},
        other => panic!("expected an encoding error, got {:?}", other),
    }
}

#[test]
fn parse_response_decodes_utf8() {
    let resp = GetResponse {
        status: 200,
        body: "<p class=\"x\">hi</p>".as_bytes().to_vec(),
    };
    let doc = scrapeprice::extract::parse_response(resp).unwrap();
    assert_eq!(doc.get_content(".x").unwrap(), vec!["hi".to_string()]);
}

#[test]
fn bytes_to_str_is_exact_on_utf8() {
    assert_eq!(bytes_to_str("gr\u{fc}n".as_bytes().to_vec()).unwrap(), "gr\u{fc}n");
    assert!(matches!(bytes_to_str(vec![0x80]), Err(HTTPError::EncodingError(_))));
}

#[test]
fn substring_counts_characters_not_bytes() {
    assert_eq!(substring("a\u{20ac}bc".to_string(), (1, 2)), "\u{20ac}b");
    assert_eq!(substring("abc".to_string(), (0, 3)), "abc");
}

#[test]
fn substring_clamps_out_of_range() {
    assert_eq!(substring("abc".to_string(), (5, 2)), "");
    assert_eq!(substring("abc".to_string(), (1, 10)), "bc");
}

#[test]
fn extractor_pairs_descriptions_with_prices() {
    let doc = Document::new(
        "<html><body>\
         <div class=\"bez neu\">  Sony A7 II  </div>\
         <div class=\"preis\"><strong> 1.499,00 \u{20ac} </strong></div>\
         <div class=\"bez neu\">Leica Q2</div>\
         <div class=\"preis\"><strong>4.790,00 \u{20ac}</strong></div>\
         </body></html>",
    );
    let ex = AudiophilItemPriceExtractor {};
    let records = ex.extract_prices(&doc);
    assert_eq!(records.len(), 2);
    assert_eq!(records[0].item, "Sony A7 II");
    // The plain-text pattern admits the currency sign, so the cleaned
    // price is simply the trimmed text.
    assert_eq!(records[0].price, "1.499,00 \u{20ac}");
    assert_eq!(records[1].item, "Leica Q2");
    assert_eq!(records[1].note, 44);
}

#[test]
fn extractor_yields_nothing_without_matches() {
    let doc = Document::new("<html><body><p>no prices</p></body></html>");
    let ex = AudiophilItemPriceExtractor {};
    assert!(ex.extract_prices(&doc).is_empty());
}

#[test]
fn robots_consecutive_agent_lines_share_a_section() {
    let body = robots("User-agent: somebot\nUser-agent: scrapeprice\nDisallow: /private/\n");
    assert!(!robots_ok(&body, b"/private/page"));
    assert!(robots_ok(&body, b"/public/page"));
}

#[test]
fn robots_agent_line_after_rules_opens_new_section() {
    let body = robots(
        "User-agent: somebot\nDisallow: /\nUser-agent: *\nDisallow: /tmp/\n",
    );
    // The wildcard section is its own: the crawler is only bound by it.
    assert!(robots_ok(&body, b"/page"));
    assert!(!robots_ok(&body, b"/tmp/page"));
}

#[test]
fn robots_agent_name_matches_by_substring() {
    let body = robots("User-agent: scrape\nDisallow: /private/\n");
    // "scrape" occurs in "scrapeprice", so the section applies.
    assert!(!robots_ok(&body, b"/private/page"));
}

#[test]
fn robots_first_wildcard_section_decides() {
    // Several wildcard sections are not merged: the first one alone is
    // consulted as the fallback.
    let body = robots("User-agent: *\nDisallow: /a/\n\nUser-agent: *\nDisallow: /b/\n");
    assert!(!robots_ok(&body, b"/a/page"));
    assert!(robots_ok(&body, b"/b/page"));
}
