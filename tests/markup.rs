use scrape_relay::extract::{
    find_css_node, get_product_price_text, get_product_title, CssLookup, PRODUCT_PRICE_SELECTOR,
    PRODUCT_TITLE_SELECTOR,
};
use scraper::Html;

const PAGE: &str = r#"<html><body>
<span id="productTitle">
    Widget Pro 3000
</span>
<div class="price"><span class="a-offscreen">$75.99</span></div>
<div class="a-offscreen">$1.00</div>
<div id="empty"></div>
<div id="nested"><b>bold</b></div>
</body></html>"#;

#[test]
fn finds_title_and_price_in_a_page() {
    let doc = Html::parse_document(PAGE);
    let title = get_product_title(find_css_node(&doc, PRODUCT_TITLE_SELECTOR)).unwrap();
    assert_eq!(title, "Widget Pro 3000");
    let price = get_product_price_text(find_css_node(&doc, PRODUCT_PRICE_SELECTOR)).unwrap();
    assert_eq!(price, "75.99");
    assert_eq!(price.parse::<f32>().unwrap(), 75.99f32);
}

#[test]
fn lookup_reports_each_failure() {
    let doc = Html::parse_document(PAGE);
    assert_eq!(find_css_node(&doc, "#missing"), CssLookup::NoMatch);
    assert_eq!(find_css_node(&doc, "#empty"), CssLookup::NoChild);
    assert_eq!(find_css_node(&doc, "#nested"), CssLookup::NotText);
    assert!(matches!(find_css_node(&doc, "##"), CssLookup::InvalidSelector(_)));
}

#[test]
fn selector_with_a_trailing_delimiter_is_reported() {
    let doc = Html::parse_document(PAGE);
    assert!(matches!(find_css_node(&doc, "a!"), CssLookup::InvalidSelector(_)));
    assert!(matches!(find_css_node(&doc, "url(x)"), CssLookup::InvalidSelector(_)));
}
