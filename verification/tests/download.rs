use massa_tools::download::{DlFileError, Download};
use massa_tools::text::LengthError;

fn body(len: usize) -> Vec<u8> {
    (0..len).map(|i| (i % 251) as u8).collect()
}

fn fetch(header: Option<&str>, cap: u64, sent: &[u8], chunk: usize) -> Result<Vec<u8>, DlFileError> {
    let mut download = Download::open(header, cap)?;
    for part in sent.chunks(chunk) {
        download.accept(part);
    }
    Ok(download.into_bytes())
}

#[test]
fn a_body_below_the_cap_is_kept_whole() {
    let sent = body(500);
    let kept = fetch(Some("500"), 1048576, &sent, 64).unwrap();
    assert_eq!(kept, sent);
}

#[test]
fn a_body_over_the_cap_is_cut_at_the_cap() {
    let sent = body(3000);
    let kept = fetch(None, 1000, &sent, 300).unwrap();
    assert_eq!(kept.len(), 1000);
    assert_eq!(kept, sent[..1000]);
}

#[test]
fn a_declared_length_over_the_cap_changes_nothing() {
    let cap: u64 = 1048576;
    let sent = body(2000000);
    let mut download = Download::open(Some("2000000"), cap).unwrap();
    assert_eq!(download.hint(), 2000000);
    assert_eq!(download.cap(), cap);
    for part in sent.chunks(8192) {
        download.accept(part);
        assert!(download.len() as u64 <= cap);
    }
    assert_eq!(download.remaining(), 0);
    let kept = download.into_bytes();
    assert_eq!(kept.len(), 1048576);
    assert_eq!(kept, sent[..1048576]);
}

#[test]
fn a_server_that_sends_more_than_it_declared_is_still_cut() {
    let sent = body(5000);
    let kept = fetch(Some("10"), 4096, &sent, 1000).unwrap();
    assert_eq!(kept.len(), 4096);
    assert_eq!(kept, sent[..4096]);
}

#[test]
fn a_huge_declared_length_reserves_no_more_than_the_cap() {
    let sent = body(10);
    let mut download = Download::open(Some("18446744073709551615"), 16).unwrap();
    assert_eq!(download.hint(), u64::MAX);
    assert_eq!(download.accept(&sent), 10);
    assert_eq!(download.into_bytes(), sent);
}

#[test]
fn without_a_header_the_cap_is_the_hint() {
    let download = Download::open(None, 1048576).unwrap();
    assert_eq!(download.hint(), 1048576);
    assert_eq!(download.cap(), 1048576);
    assert_eq!(download.len(), 0);
    assert_eq!(download.remaining(), 1048576);
}

#[test]
fn the_header_does_not_change_what_is_kept() {
    let sent = body(700);
    for cap in [0u64, 1, 699, 700, 701, 5000] {
        let without = fetch(None, cap, &sent, 128).unwrap();
        for header in ["0", "700", "+700", "0000700", "5", "99999999"] {
            let with = fetch(Some(header), cap, &sent, 128).unwrap();
            assert_eq!(with, without, "{header:?} {cap}");
        }
    }
}

#[test]
fn how_the_body_is_split_does_not_change_what_is_kept() {
    let sent = body(1000);
    let whole = fetch(None, 600, &sent, 1000).unwrap();
    for chunk in [1usize, 7, 599, 600, 601] {
        assert_eq!(fetch(None, 600, &sent, chunk).unwrap(), whole);
    }
    assert_eq!(whole, sent[..600]);
}

#[test]
fn a_header_that_is_no_count_fails_the_download() {
    assert_eq!(
        Download::open(Some("abc"), 100).err(),
        Some(DlFileError::Parse(LengthError::InvalidDigit))
    );
    assert_eq!(
        Download::open(Some(""), 100).err(),
        Some(DlFileError::Parse(LengthError::Empty))
    );
    assert_eq!(
        Download::open(Some("18446744073709551616"), 100).err(),
        Some(DlFileError::Parse(LengthError::Overflow))
    );
    assert_eq!(
        Download::open(Some("12 "), 100).err(),
        Some(DlFileError::Parse(LengthError::InvalidDigit))
    );
}

#[test]
fn accept_says_how_much_it_kept() {
    let mut download = Download::open(None, 10).unwrap();
    assert_eq!(download.accept(&[1, 2, 3, 4]), 4);
    assert_eq!(download.remaining(), 6);
    assert_eq!(download.accept(&[]), 0);
    assert_eq!(download.accept(&[5, 6, 7, 8, 9, 10, 11, 12]), 6);
    assert_eq!(download.remaining(), 0);
    assert_eq!(download.accept(&[13]), 0);
    assert_eq!(download.len(), 10);
    assert_eq!(download.into_bytes(), vec![1, 2, 3, 4, 5, 6, 7, 8, 9, 10]);
}

#[test]
fn a_cap_of_nothing_keeps_nothing() {
    let mut download = Download::open(Some("3"), 0).unwrap();
    assert_eq!(download.remaining(), 0);
    assert_eq!(download.accept(&[1, 2, 3]), 0);
    assert_eq!(download.into_bytes(), Vec::<u8>::new());
}
