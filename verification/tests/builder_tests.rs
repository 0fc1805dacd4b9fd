use fontfor::builder::Builder;
use fontfor::family::{FaceInfo, Family, FilteredFamilies};
use fontfor::one_char::OneChar;

fn family(name: &str, id: usize) -> Family {
    let mut f = Family::new(name.to_string());
    f.add_face(FaceInfo {
        id,
        family: name.to_string(),
        name: format!("{} Regular", name),
        path: String::new(),
        index: 0,
        gid: 1,
    });
    f
}

#[test]
fn one_family_page_is_exact() {
    let mut b = Builder::new();
    b.add_family(&family("Arial", 0));
    assert_eq!(
        b.build_html(OneChar('A')),
        "<!DOCTYPE html>\n<html><head><meta charset=\"utf-8\"></head><body>\n\
         <div class=\"preview\" style=\"font-family: 'Arial'\"><span class=\"glyph\">A</span>\
         <span class=\"name\">Arial</span></div>\n\
         </body></html>\n"
    );
}

#[test]
fn build_for_serves_the_same_page() {
    let mut b = Builder::new();
    b.add_family(&family("Arial", 0));
    let mut same = Builder::new();
    same.add_family(&family("Arial", 0));
    let server = b.build_for(OneChar('A'));
    assert_eq!(server.html(), &same.build_html(OneChar('A')));
}

#[test]
fn from_matched_takes_matched_families_in_order() {
    let filtered = FilteredFamilies::new(
        vec![family("Arial", 0), family("Courier New", 1), family("Marigold", 2)],
        "ar".to_string(),
    );
    let b = Builder::from_matched(&filtered);
    let page = b.build_html(OneChar('A'));
    let arial = page.find("'Arial'").unwrap();
    let marigold = page.find("'Marigold'").unwrap();
    assert!(page.find("'Courier New'").is_none());
    assert!(arial < marigold);
}
