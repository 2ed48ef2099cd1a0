use flashkraft::theme::{extras, Rgb};

#[test]
fn theme_extras_table() {
    let d = extras("Default");
    assert_eq!(d.bg, Rgb(18, 18, 26));
    assert_eq!(d.warn, Rgb(255, 200, 50));
    assert_eq!(d.err, Rgb(255, 80, 80));
    let o = extras("Oxocarbon");
    assert_eq!(o.bg, Rgb(22, 22, 22));
    assert_eq!(o.err, Rgb(255, 97, 101));
    // Unknown names fall back to the default palette.
    assert_eq!(extras("No Such Theme"), d);
}
