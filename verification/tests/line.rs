use chartistry::series::line::line_stroke;

#[test]
fn a_gradient_overrides_the_line_color() {
    assert_eq!(line_stroke(7, true, "#ff0000"), "url(#line_7_gradient)");
    assert_eq!(line_stroke(120, true, "red"), "url(#line_120_gradient)");
    assert_eq!(line_stroke(7, false, "#ff0000"), "#ff0000");
}
