use qr_server::err::{Body, CustomError};
use qr_server::label_run::{Action, LabelRun};

#[test]
fn a_request_without_labels_fails() {
    let (_, action) = LabelRun::start(0, true);
    match action {
        Action::Fail(e) => assert_eq!(e.to_text(), "OtherLibraryError: no label data provided"),
        _ => panic!("there is nothing to render"),
    }
}

#[test]
fn the_last_picture_is_the_answer() {
    let (mut run, action) = LabelRun::start(2, false);
    assert!(matches!(action, Action::Capture(0)));
    assert!(matches!(run.take_capture(Ok(vec![1])), Action::Capture(1)));
    match run.take_capture(Ok(vec![2])) {
        Action::Answer(image) => assert_eq!(image, vec![2]),
        _ => panic!("two labels are rendered"),
    }
}

#[test]
fn every_picture_is_printed_before_the_next_label() {
    let (mut run, _) = LabelRun::start(2, true);
    assert!(matches!(run.take_capture(Ok(vec![1])), Action::Print));
    assert_eq!(run.last, Some(vec![1]));
    assert!(matches!(run.take_print(Ok(())), Action::Capture(1)));
    assert!(matches!(run.take_capture(Ok(vec![2])), Action::Print));
    match run.take_print(Ok(())) {
        Action::Answer(image) => assert_eq!(image, vec![2]),
        _ => panic!("both labels are printed"),
    }
}

#[test]
fn the_first_error_ends_a_request() {
    let (mut run, _) = LabelRun::start(3, true);
    run.take_capture(Ok(vec![1]));
    match run.take_print(Err(CustomError::PrinterNoFound)) {
        Action::Fail(e) => assert_eq!(e.to_text(), "打印程序未找到！"),
        _ => panic!("the print has failed"),
    }
    let (mut run, _) = LabelRun::start(3, true);
    match run.take_capture(Err(CustomError::IOError("x".to_string()))) {
        Action::Fail(e) => assert_eq!(e.to_text(), "IOError: x"),
        _ => panic!("the label was not rendered"),
    }
}

#[test]
fn errors_are_answered_over_http() {
    let r = CustomError::OtherLibraryError("m".to_string()).error_response();
    assert_eq!(r.status, 500);
    assert!(matches!(r.body, Body::JsonText(t) if t == "m"));
    let r = CustomError::QrError("m".to_string()).error_response();
    assert_eq!(r.status, 400);
    assert!(matches!(r.body, Body::Empty));
    let all = vec![
        (CustomError::JsonError("m".to_string()), "error:JsonError: m"),
        (CustomError::ImageError("m".to_string()), "error:ImageError: m"),
        (CustomError::IOError("m".to_string()), "error:IOError: m"),
        (CustomError::TeraError("m".to_string()), "error:TeraError: m"),
        (CustomError::AnyhowError("m".to_string()), "error:AnyhowError: m"),
        (CustomError::DbError("m".to_string()), "error:DbError: m"),
        (CustomError::PrinterNoFound, "error:打印程序未找到！"),
    ];
    for (error, text) in all {
        let r = error.error_response();
        assert_eq!(r.status, 500);
        assert!(matches!(r.body, Body::Text(t) if t == text));
    }
    assert_eq!(CustomError::QrError("m".to_string()).to_text(), "QrError: m");
}
