use dns_codec::codes::{Class, RRType};
use dns_codec::label::{Label, LabelParsingError};
use dns_codec::name::CName;
use dns_codec::record::ResourceRecord;
use dns_codec::text::find_dot;

#[test]
fn label_without_dot_parses() {
    let l = Label::from_str("abc").unwrap();
    assert_eq!(l.length(), 3);
    assert_eq!(l.value(), "abc");
    assert_eq!(l.to_bytes(), vec![3, b'a', b'b', b'c']);
}

#[test]
fn label_keeps_case() {
    let l = Label::from_str("WwW").unwrap();
    assert_eq!(l.to_bytes(), vec![3, b'W', b'w', b'W']);
}

#[test]
fn label_with_dot_is_rejected() {
    assert_eq!(Label::from_str("a.b"), Err(LabelParsingError));
    assert_eq!(Label::from_str("."), Err(LabelParsingError));
    assert_eq!(Label::from_str("abc."), Err(LabelParsingError));
    assert_eq!(Label::from_str(".abc"), Err(LabelParsingError));
}

#[test]
fn empty_label() {
    let l = Label::from_str("").unwrap();
    assert_eq!(l.length(), 0);
    assert_eq!(l.to_bytes(), vec![0]);
    assert_eq!(Label::default(), l);
}

#[test]
fn label_of_255_octets_is_the_longest() {
    let text = "a".repeat(255);
    let l = Label::from_str(&text).unwrap();
    assert_eq!(l.length(), 255);
    let b = l.to_bytes();
    assert_eq!(b.len(), 256);
    assert_eq!(b[0], 255);
    assert!(b[1..].iter().all(|&x| x == b'a'));
    let text = "a".repeat(256);
    assert_eq!(Label::from_str(&text), Err(LabelParsingError));
}

#[test]
fn label_length_counts_octets() {
    let l = Label::from_str("caf\u{e9}").unwrap();
    assert_eq!(l.length(), 5);
    assert_eq!(l.to_bytes(), vec![5, b'c', b'a', b'f', 0xC3, 0xA9]);
    let text = "\u{e9}".repeat(127);
    assert_eq!(Label::from_str(&text).unwrap().length(), 254);
    let text = "\u{e9}".repeat(128);
    assert_eq!(Label::from_str(&text), Err(LabelParsingError));
}

#[test]
fn label_clone_is_equal() {
    let l = Label::from_str("example").unwrap();
    assert_eq!(l.clone(), l);
}

#[test]
fn name_of_two_labels() {
    let n = CName::from_str("abc.com").unwrap();
    assert_eq!(n.len(), 2);
    assert_eq!(n.label(0).value(), "abc");
    assert_eq!(n.label(1).value(), "com");
    let b = n.to_bytes();
    assert_eq!(b, vec![3, b'a', b'b', b'c', 3, b'c', b'o', b'm', 0]);
    assert_eq!(b.len(), 9);
}

#[test]
fn root_name_is_one_zero_octet() {
    let n = CName::default();
    assert_eq!(n.len(), 0);
    assert_eq!(n.to_bytes(), vec![0]);
    assert_eq!(n.to_string(), "");
}

#[test]
fn empty_text_is_one_empty_label() {
    let n = CName::from_str("").unwrap();
    assert_eq!(n.len(), 1);
    assert_eq!(n.to_bytes(), vec![0, 0]);
}

#[test]
fn single_label_name() {
    let n = CName::from_str("localhost").unwrap();
    assert_eq!(n.len(), 1);
    let mut want = vec![9];
    want.extend_from_slice(b"localhost");
    want.push(0);
    assert_eq!(n.to_bytes(), want);
}

#[test]
fn empty_pieces_are_labels() {
    let n = CName::from_str("abc.com.").unwrap();
    assert_eq!(n.len(), 3);
    assert_eq!(n.to_bytes(), vec![3, b'a', b'b', b'c', 3, b'c', b'o', b'm', 0, 0]);
    let n = CName::from_str("a..b").unwrap();
    assert_eq!(n.len(), 3);
    assert_eq!(n.to_bytes(), vec![1, b'a', 0, 1, b'b', 0]);
    let n = CName::from_str(".").unwrap();
    assert_eq!(n.len(), 2);
    assert_eq!(n.to_bytes(), vec![0, 0, 0]);
}

#[test]
fn name_with_long_label_is_rejected() {
    let long = "x".repeat(256);
    assert_eq!(CName::from_str(&long), Err(LabelParsingError));
    assert_eq!(CName::from_str(&format!("www.{}.org", long)), Err(LabelParsingError));
    assert_eq!(CName::from_str(&format!("www.org.{}", long)), Err(LabelParsingError));
    let fits = "x".repeat(255);
    let n = CName::from_str(&format!("www.{}.org", fits)).unwrap();
    assert_eq!(n.len(), 3);
    assert_eq!(n.to_bytes().len(), 1 + 3 + 1 + 255 + 1 + 3 + 1);
}

#[test]
fn name_with_wide_characters() {
    let n = CName::from_str("b\u{fc}cher.\u{65e5}\u{672c}.\u{1f600}").unwrap();
    assert_eq!(n.len(), 3);
    assert_eq!(n.label(0).length(), 7);
    assert_eq!(n.label(1).length(), 6);
    assert_eq!(n.label(2).length(), 4);
    assert_eq!(n.label(1).value(), "\u{65e5}\u{672c}");
    let b = n.to_bytes();
    assert_eq!(b.len(), 1 + 7 + 1 + 6 + 1 + 4 + 1);
    assert_eq!(b[0], 7);
    assert_eq!(b[8], 6);
    assert_eq!(b[15], 4);
    assert_eq!(&b[16..20], "\u{1f600}".as_bytes());
    assert_eq!(b[20], 0);
}

#[test]
fn name_is_written_back_as_parsed() {
    for text in ["abc.com", "", ".", "a..b", "www.example.org.", "b\u{fc}cher.de"] {
        assert_eq!(CName::from_str(text).unwrap().to_string(), text);
    }
}

#[test]
fn first_separator_position() {
    assert_eq!(find_dot(b"abc.com"), 3);
    assert_eq!(find_dot(b".x"), 0);
    assert_eq!(find_dot(b"abc"), 3);
    assert_eq!(find_dot(b""), 0);
    assert_eq!(find_dot(b"a.b.c"), 1);
}

#[test]
fn record_parts() {
    let r = ResourceRecord::new(CName::from_str("abc.com").unwrap(), RRType::MX, Class::CH);
    assert_eq!(r.cname.to_string(), "abc.com");
    assert_eq!(r.rrtype, RRType::MX);
    assert_eq!(r.class, Class::CH);
}

#[test]
fn default_record() {
    let r = ResourceRecord::default();
    assert_eq!(r.cname.to_bytes(), vec![0]);
    assert_eq!(r.rrtype, RRType::A);
    assert_eq!(r.class, Class::IN);
    assert_eq!(r, ResourceRecord::new(CName::default(), RRType::A, Class::IN));
}
