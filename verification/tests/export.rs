use xsteps::action_log::Action;
use xsteps::export::{frame_file_name, html, markdown};

fn actions() -> Vec<Action> {
    vec![
        Action::new(vec![1, 2, 3], 4, 4),
        Action::new(b"hello".to_vec(), 4, 4),
        Action::new(Vec::new(), 0, 0),
        Action::new(vec![0xff], 1, 1),
    ]
}

#[test]
fn markdown_of_no_action_is_empty() {
    assert_eq!(markdown(&[]), "");
}

#[test]
fn markdown_holds_each_image_inline() {
    assert_eq!(
        markdown(&actions()),
        "![](data:image/png;base64,AQID)\nPress <key>\n\
         ![](data:image/png;base64,aGVsbG8=)\nPress <key>\n\
         ![](data:image/png;base64,)\nPress <key>\n\
         ![](data:image/png;base64,/w==)\nPress <key>\n"
    );
}

#[test]
fn html_of_no_action_is_an_empty_body() {
    assert_eq!(html(&[]), "<html><body></body></html>");
}

#[test]
fn html_holds_each_image_inline() {
    assert_eq!(
        html(&actions()),
        "<html><body>\
         <img src=\"data:image/png;base64,AQID\"/>Press <key>\n\
         <img src=\"data:image/png;base64,aGVsbG8=\"/>Press <key>\n\
         <img src=\"data:image/png;base64,\"/>Press <key>\n\
         <img src=\"data:image/png;base64,/w==\"/>Press <key>\n\
         </body></html>"
    );
}

#[test]
fn documents_do_not_hold_the_comments() {
    let mut commented = actions();
    commented[0].comment = "open the menu".to_string();
    assert_eq!(markdown(&commented), markdown(&actions()));
    assert_eq!(html(&commented), html(&actions()));
}

#[test]
fn file_names_have_at_least_three_digits() {
    assert_eq!(frame_file_name(0), "000.png");
    assert_eq!(frame_file_name(7), "007.png");
    assert_eq!(frame_file_name(10), "010.png");
    assert_eq!(frame_file_name(42), "042.png");
    assert_eq!(frame_file_name(99), "099.png");
    assert_eq!(frame_file_name(100), "100.png");
    assert_eq!(frame_file_name(999), "999.png");
    assert_eq!(frame_file_name(1000), "1000.png");
    assert_eq!(frame_file_name(1234567), "1234567.png");
}

#[test]
fn file_names_are_what_formatting_gives() {
    for i in (0..2000).chain([usize::MAX, usize::MAX / 10, 65536]) {
        assert_eq!(frame_file_name(i), format!("{i:0>3}.png"));
    }
}
