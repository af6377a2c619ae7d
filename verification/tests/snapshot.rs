use rype::doc::{Glyph, HBox, Page};
use rype::text::{i64_text, u64_text};

fn empty_line() -> HBox {
    HBox {
        c_boxes: vec![],
        base_line: 400_000_000_000,
        base_line_k: 50_000_000_000,
        c_box_sep: 100_000_000_000,
        c_box_k: 100_000_000_000,
    }
}

#[test]
fn decimal_text_renders_exact_digits() {
    assert_eq!(u64_text(0).as_str(), "0");
    assert_eq!(u64_text(12345).as_str(), "12345");
    assert_eq!(u64_text(1000000000000).as_str(), "1000000000000");
    assert_eq!(i64_text(-42).as_str(), "-42");
    assert_eq!(i64_text(230085).as_str(), "230085");
    assert_eq!(i64_text(i64::MIN).as_str(), "-9223372036854775808");
}

#[test]
fn snapshot_of_a_small_page_is_exact() {
    let mut page = Page::new(2, 3);
    page.add_glyph(String::from("g"), Glyph::circle(310_000_000_000, 2, 3));
    let mut h = empty_line();
    h.add_c_box(String::from("g"), 110_000_000_000, 230_000_000_000);
    page.h_boxes.push(h);
    let s = page.to_string();
    let expected = "grid_dimens:\nnx,ny\n2,3\n\nnr_glyphs:\n1\n\nglyph_name:\ng\nglyph_dimens:\ngx,gy\n2,2\nglyph_shape:\n1,1\n1,1\n\nnr_c_boxes:\n1\n\nglyph_name,x,y\ng,110000000000,230000000000\n";
    assert_eq!(s.as_str(), expected);
}

#[test]
fn snapshot_catalog_counts_each_registered_name_once() {
    let mut page = Page::new(500, 500);
    page.add_glyph(String::from("circle"), Glyph::circle(20_000_000_000, 500, 500));
    page.add_glyph(String::from("dot"), Glyph::circle(1, 500, 500));
    let mut h = empty_line();
    h.add_c_box(String::from("circle"), 110_000_000_000, 230_000_000_000);
    page.h_boxes.push(h);
    assert_eq!(page.glyph_count(), 2);
    let s = page.to_string();
    let catalog_entries = s.matches("glyph_name:\n").count();
    assert_eq!(catalog_entries, page.glyph_count());
    assert!(s.contains("\nnr_glyphs:\n2\n\n"));
}

#[test]
fn snapshot_reports_only_the_first_line() {
    let mut page = Page::new(500, 500);
    page.add_glyph(String::from("circle"), Glyph::circle(20_000_000_000, 500, 500));
    let mut first = empty_line();
    first.add_c_box(String::from("circle"), 110_000_000_000, 230_000_000_000);
    first.add_c_box(String::from("circle"), 670_000_000_000, 600_000_000_000);
    let mut second = empty_line();
    second.add_c_box(String::from("circle"), 123457, 654321);
    page.h_boxes.push(first);
    page.h_boxes.push(second);
    let s = page.to_string();
    // the line-state block is the first line's: two instances, both listed
    assert!(s.contains("\nnr_c_boxes:\n2\n\n"));
    assert!(s.contains("circle,110000000000,230000000000\n"));
    assert!(s.contains("circle,670000000000,600000000000\n"));
    // the second line's instance does not appear
    assert!(!s.contains("123457"));
    assert!(!s.contains("654321"));
}

#[test]
fn registering_under_an_existing_name_replaces_the_entry() {
    let mut page = Page::new(500, 500);
    page.add_glyph(String::from("circle"), Glyph::circle(20_000_000_000, 500, 500));
    page.add_glyph(String::from("circle"), Glyph::circle(1, 500, 500));
    assert_eq!(page.glyph_count(), 1);
    let name = String::from("circle");
    assert!(page.has_glyph(&name));
    let other = String::from("square");
    assert!(!page.has_glyph(&other));
}

#[test]
fn page_level_append_reaches_the_line() {
    let mut page = Page::new(500, 500);
    page.add_glyph(String::from("circle"), Glyph::circle(20_000_000_000, 500, 500));
    page.h_boxes.push(empty_line());
    let name = String::from("circle");
    assert!(page.has_glyph(&name));
    page.add_c_box(0, name, 110_000_000_000, 230_000_000_000);
    assert_eq!(page.h_boxes[0].c_boxes.len(), 1);
    assert_eq!(page.h_boxes[0].c_boxes[0].origin.x, 110_000_000_000);
    assert_eq!(page.h_boxes[0].c_boxes[0].origin.y, 230_000_000_000);
}

#[test]
fn page_iterate_steps_every_line() {
    let mut page = Page::new(500, 500);
    page.add_glyph(String::from("circle"), Glyph::circle(20_000_000_000, 500, 500));
    let mut a = empty_line();
    a.add_c_box(String::from("circle"), 110_000_000_000, 230_000_000_000);
    let mut b = empty_line();
    b.add_c_box(String::from("circle"), 310_000_000_000, 400_000_000_000);
    page.h_boxes.push(a);
    page.h_boxes.push(b);
    page.iterate(10_000_000_000);
    // each line is stepped exactly as HBox::iterate steps it
    let mut alone = empty_line();
    alone.add_c_box(String::from("circle"), 110_000_000_000, 230_000_000_000);
    alone.iterate(10_000_000_000);
    assert_eq!(page.h_boxes[0].c_boxes[0].origin.x, alone.c_boxes[0].origin.x);
    assert_eq!(page.h_boxes[0].c_boxes[0].origin.y, alone.c_boxes[0].origin.y);
    // the second line's instance sits exactly on its baseline: unchanged
    assert_eq!(page.h_boxes[1].c_boxes[0].origin.x, 310_000_000_000);
    assert_eq!(page.h_boxes[1].c_boxes[0].origin.y, 400_000_000_000);
}
