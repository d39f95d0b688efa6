use txt2epub::error::EyreToAnyhow;

#[test]
fn ok_results_pass_through() {
    let r: Result<i32, epub_builder::Error> = Ok(3);
    assert_eq!(r.into_anyhow().unwrap(), 3);
}

#[test]
fn errors_are_wrapped_with_their_message() {
    let r: Result<i32, epub_builder::Error> =
        Err(epub_builder::Error::ZipCommandError(String::from("zip not found")));
    let e = r.into_anyhow().unwrap_err();
    assert!(format!("{e}").contains("zip not found"));
}
