use fundamentals::race::timeout;
use fundamentals::race::Raced;
use fundamentals::web::page_title;
use std::time::Duration;

#[test]
fn the_title_of_a_page_is_found() {
    let page = "<!DOCTYPE html><html><head><title>Rust Programming Language</title></head>\
                <body><h1>Rust</h1></body></html>";
    assert_eq!(page_title(page), Some(String::from("Rust Programming Language")));
    assert_eq!(
        page_title("<title>First</title><title>Second</title>"),
        Some(String::from("First"))
    );
    assert_eq!(page_title("<title></title>"), Some(String::new()));
}

#[test]
fn a_page_without_title_has_none() {
    assert_eq!(page_title("<html><body><p>title</p></body></html>"), None);
    assert_eq!(page_title(""), None);
    assert_eq!(page_title("title"), None);
}

#[test]
fn work_in_time_gives_its_output() {
    assert_eq!(timeout(Raced::Finished("done"), Duration::from_secs(2)), Ok("done"));
    assert_eq!(timeout(Raced::Finished(7), Duration::ZERO), Ok(7));
}

#[test]
fn work_out_of_time_gives_the_limit() {
    let limit = Duration::from_secs(2);
    assert_eq!(timeout(Raced::<&str>::TimedOut, limit), Err(limit));
    assert_eq!(timeout(Raced::<()>::TimedOut, Duration::from_millis(1500)).unwrap_err().as_secs(), 1);
}
