use rdpdr_path::scan::{find_byte, rfind_byte};
use rdpdr_path::{EmbeddedNulError, UnixPath, WindowsPath};

fn unix(text: &str) -> UnixPath {
    UnixPath::from(String::from(text))
}

fn windows(text: &str) -> WindowsPath {
    WindowsPath::from(String::from(text))
}

#[test]
fn windows_path_holds_its_text_as_given() {
    for text in ["", r"\", r"\a\b", "a/b", "C:\\x", "\0", " spaced name "] {
        assert_eq!(windows(text).path, text);
    }
}

#[test]
fn unix_path_holds_its_text_as_given() {
    for text in ["", "/", "/a/b", r"a\b", "a/b/", "\0"] {
        assert_eq!(unix(text).path, text);
    }
}

#[test]
fn unix_path_from_windows_path_is_the_converted_text() {
    assert_eq!(UnixPath::from(&windows(r"\")).path, "");
    assert_eq!(UnixPath::from(&windows(r"\desktop.ini")).path, "desktop.ini");
    assert_eq!(
        UnixPath::from(&windows(r"\test_directory\desktop.ini")).path,
        "test_directory/desktop.ini"
    );
    assert_eq!(
        UnixPath::from(&windows(r"2018\January.xlsx")).path,
        "2018/January.xlsx"
    );
}

#[test]
fn conversion_leaves_the_windows_path_as_it_was() {
    let w = windows(r"\a\b");
    let first = UnixPath::from(&w);
    let second = UnixPath::from(&w);
    assert_eq!(w.path, r"\a\b");
    assert_eq!(first.path, "a/b");
    assert_eq!(second.path, "a/b");
}

#[test]
fn len_counts_bytes() {
    assert_eq!(windows("").len(), 0);
    assert_eq!(windows(r"\").len(), 1);
    assert_eq!(windows(r"\desktop.ini").len(), 12);
    assert_eq!(unix("").len(), 0);
    assert_eq!(unix("desktop.ini").len(), 11);
    assert_eq!(unix("test_directory/desktop.ini").len(), 26);
}

#[test]
fn len_counts_each_byte_of_a_character() {
    assert_eq!(windows("é").len(), 2);
    assert_eq!(windows("雪").len(), 3);
    assert_eq!(windows("🦀").len(), 4);
    assert_eq!(unix("données/été.txt").len(), 18);
    assert_eq!(unix("a\0b").len(), 3);
}

#[test]
fn len_is_the_same_for_each_instance_of_a_text() {
    for text in ["", "a", r"\a\b", "été/雪", "a/b/c/"] {
        let first = windows(text);
        let again = windows(text);
        let copy = first.clone();
        assert_eq!(first.len(), again.len());
        assert_eq!(first.len(), copy.len());
        assert_eq!(first.len(), first.len());
        let other = unix(text);
        let other_again = UnixPath::from(other.path.clone());
        assert_eq!(other.len(), other_again.len());
        assert_eq!(first.len(), other.len());
        assert_eq!(first.len(), text.len() as u32);
    }
}

#[test]
fn clone_copies_the_text() {
    let w = windows(r"\a\b");
    let mut copy = w.clone();
    assert_eq!(copy.path, w.path);
    copy.path.push('c');
    assert_eq!(w.path, r"\a\b");
    let u = unix("a/b");
    let mut copy = u.clone();
    assert_eq!(copy.path, "a/b");
    copy.path.clear();
    assert_eq!(u.path, "a/b");
}

#[test]
fn last_of_a_path_without_slash_is_the_path() {
    for text in ["a", "desktop.ini", "two words", r"a\b", "été", "\0"] {
        assert_eq!(unix(text).last(), Some(text));
    }
}

#[test]
fn last_is_what_follows_the_last_slash() {
    assert_eq!(unix("a/b/c").last(), Some("c"));
    assert_eq!(unix("test_directory/desktop.ini").last(), Some("desktop.ini"));
    assert_eq!(unix("/a").last(), Some("a"));
    assert_eq!(unix("a//b").last(), Some("b"));
    assert_eq!(unix("a/b/..").last(), Some(".."));
}

#[test]
fn last_of_a_path_that_ends_in_a_slash_is_empty() {
    assert_eq!(unix("a/").last(), Some(""));
    assert_eq!(unix("/").last(), Some(""));
    assert_eq!(unix("a/b//").last(), Some(""));
}

#[test]
fn last_of_the_empty_path_is_empty() {
    assert_eq!(unix("").last(), Some(""));
}

#[test]
fn last_handles_characters_of_several_bytes() {
    assert_eq!(unix("données/été.txt").last(), Some("été.txt"));
    assert_eq!(unix("雪/🦀").last(), Some("🦀"));
    assert_eq!(unix("🦀/").last(), Some(""));
    assert_eq!(unix("a⁄b/c∕d").last(), Some("c∕d"));
}

#[test]
fn last_of_a_converted_path() {
    let u = UnixPath::from(&windows(r"\test_directory\desktop.ini"));
    assert_eq!(u.last(), Some("desktop.ini"));
    let root = UnixPath::from(&windows(r"\"));
    assert_eq!(root.last(), Some(""));
}

#[test]
fn to_cstring_appends_one_nul() {
    assert_eq!(unix("abc").to_cstring(), Ok(vec![b'a', b'b', b'c', 0]));
    assert_eq!(unix("a/b").to_cstring(), Ok(b"a/b\0".to_vec()));
    assert_eq!(unix("").to_cstring(), Ok(vec![0]));
}

#[test]
fn to_cstring_gives_the_utf8_bytes() {
    assert_eq!(unix("é").to_cstring(), Ok(vec![0xC3, 0xA9, 0]));
    assert_eq!(
        unix("雪/🦀").to_cstring(),
        Ok(vec![0xE9, 0x9B, 0xAA, b'/', 0xF0, 0x9F, 0xA6, 0x80, 0])
    );
    let text = "données/été.txt";
    let mut expected = text.as_bytes().to_vec();
    expected.push(0);
    assert_eq!(unix(text).to_cstring(), Ok(expected));
}

#[test]
fn to_cstring_fails_on_an_embedded_nul() {
    assert_eq!(
        unix("a\0b").to_cstring(),
        Err(EmbeddedNulError { position: 1 })
    );
    assert_eq!(unix("\0").to_cstring(), Err(EmbeddedNulError { position: 0 }));
    assert_eq!(
        unix("abc\0").to_cstring(),
        Err(EmbeddedNulError { position: 3 })
    );
}

#[test]
fn to_cstring_reports_the_first_nul_by_its_byte_index() {
    assert_eq!(
        unix("a\0b\0c").to_cstring(),
        Err(EmbeddedNulError { position: 1 })
    );
    assert_eq!(
        unix("é\0").to_cstring(),
        Err(EmbeddedNulError { position: 2 })
    );
    assert_eq!(
        unix("🦀/雪\0\0").to_cstring(),
        Err(EmbeddedNulError { position: 8 })
    );
}

#[test]
fn to_cstring_fails_exactly_when_the_text_holds_a_nul() {
    for text in ["", "a", "a/b", "été", "0", "\\0", "a\0", "\0a", "a\0b", "é\0é"] {
        assert_eq!(unix(text).to_cstring().is_err(), text.contains('\0'));
    }
}

#[test]
fn to_cstring_of_a_converted_path() {
    let u = UnixPath::from(&windows(r"\dir\file"));
    assert_eq!(u.to_cstring(), Ok(b"dir/file\0".to_vec()));
    let bad = UnixPath::from(&windows("\\dir\\fi\0le"));
    assert_eq!(bad.to_cstring(), Err(EmbeddedNulError { position: 6 }));
}

#[test]
fn find_byte_gives_the_first_index() {
    assert_eq!(find_byte(b"a/b/c", b'/'), Some(1));
    assert_eq!(find_byte(b"/", b'/'), Some(0));
    assert_eq!(find_byte(b"abc", b'c'), Some(2));
    assert_eq!(find_byte(b"abc", b'/'), None);
    assert_eq!(find_byte(b"", b'/'), None);
}

#[test]
fn rfind_byte_gives_the_last_index() {
    assert_eq!(rfind_byte(b"a/b/c", b'/'), Some(3));
    assert_eq!(rfind_byte(b"/", b'/'), Some(0));
    assert_eq!(rfind_byte(b"abc", b'a'), Some(0));
    assert_eq!(rfind_byte(b"abc", b'/'), None);
    assert_eq!(rfind_byte(b"", b'/'), None);
}
