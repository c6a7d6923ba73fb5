use pysqlx::str::{
    pyunicode_ascii, pyunicode_fourbyte, pyunicode_onebyte, pyunicode_twobyte,
    str_impl_kind_scalar, unicode_from_str, HostString,
};

fn read_back(s: &HostString) -> String {
    let points: Vec<u32> = match s {
        HostString::Empty => vec![],
        HostString::Ascii(units) => units.iter().map(|u| *u as u32).collect(),
        HostString::OneByte(units) => units.iter().map(|u| *u as u32).collect(),
        HostString::TwoByte(units) => units.iter().map(|u| *u as u32).collect(),
        HostString::FourByte(units) => units.clone(),
    };
    points.into_iter().map(|p| char::from_u32(p).unwrap()).collect()
}

#[test]
fn ascii_text_takes_the_narrowest_form() {
    assert_eq!(unicode_from_str("hello"), HostString::Ascii(vec![104, 101, 108, 108, 111]));
}

#[test]
fn latin1_text_takes_one_byte_per_char() {
    assert_eq!(unicode_from_str("café"), HostString::OneByte(vec![0x63, 0x61, 0x66, 0xE9]));
}

#[test]
fn bmp_text_takes_two_bytes_per_char() {
    assert_eq!(unicode_from_str("中文"), HostString::TwoByte(vec![0x4E2D, 0x6587]));
}

#[test]
fn astral_text_takes_four_bytes_per_char() {
    assert_eq!(unicode_from_str("😀"), HostString::FourByte(vec![0x1F600]));
}

#[test]
fn empty_text_is_the_shared_empty_string() {
    assert_eq!(unicode_from_str(""), HostString::Empty);
    assert_eq!(unicode_from_str(""), unicode_from_str(""));
}

#[test]
fn widest_char_decides_for_mixed_text() {
    assert_eq!(
        unicode_from_str("a😀é"),
        HostString::FourByte(vec![0x61, 0x1F600, 0xE9])
    );
    assert_eq!(unicode_from_str("aé中"), HostString::TwoByte(vec![0x61, 0xE9, 0x4E2D]));
    assert_eq!(unicode_from_str("中a"), HostString::TwoByte(vec![0x4E2D, 0x61]));
}

#[test]
fn width_boundaries() {
    assert_eq!(unicode_from_str("\u{7f}"), HostString::Ascii(vec![0x7F]));
    assert_eq!(unicode_from_str("\u{80}"), HostString::OneByte(vec![0x80]));
    assert_eq!(unicode_from_str("\u{bf}"), HostString::OneByte(vec![0xBF]));
    assert_eq!(unicode_from_str("\u{c0}"), HostString::OneByte(vec![0xC0]));
    assert_eq!(unicode_from_str("\u{ff}"), HostString::OneByte(vec![0xFF]));
    assert_eq!(unicode_from_str("\u{100}"), HostString::TwoByte(vec![0x100]));
    assert_eq!(unicode_from_str("\u{7ff}"), HostString::TwoByte(vec![0x7FF]));
    assert_eq!(unicode_from_str("\u{800}"), HostString::TwoByte(vec![0x800]));
    assert_eq!(unicode_from_str("\u{d7ff}"), HostString::TwoByte(vec![0xD7FF]));
    assert_eq!(unicode_from_str("\u{e000}"), HostString::TwoByte(vec![0xE000]));
    assert_eq!(unicode_from_str("\u{ffff}"), HostString::TwoByte(vec![0xFFFF]));
    assert_eq!(unicode_from_str("\u{10000}"), HostString::FourByte(vec![0x10000]));
    assert_eq!(unicode_from_str("\u{10ffff}"), HostString::FourByte(vec![0x10FFFF]));
}

#[test]
fn nul_is_ascii() {
    assert_eq!(unicode_from_str("\0a"), HostString::Ascii(vec![0, 0x61]));
}

#[test]
fn reading_back_gives_the_text() {
    let samples = [
        "",
        "hello",
        "café",
        "中文",
        "😀",
        "a😀é中",
        "Wenn ich ein Vöglein wär, flög ich zu Dir!",
        "メカジキ",
        "\u{80}\u{7ff}\u{800}\u{ffff}\u{10000}\u{10ffff}",
    ];
    for text in samples {
        let host = unicode_from_str(text);
        let back = read_back(&host);
        assert_eq!(back, text);
        assert_eq!(back.as_bytes(), text.as_bytes());
    }
}

#[test]
fn long_ascii_text_is_counted_in_chunks() {
    let text = "abcdefghij".repeat(30);
    let host = unicode_from_str(&text);
    assert_eq!(host, HostString::Ascii(text.as_bytes().to_vec()));
}

#[test]
fn long_text_with_one_wide_char_at_the_end() {
    let mut text = "x".repeat(2100);
    text.push('é');
    let host = unicode_from_str(&text);
    let mut units = vec![0x78u8; 2100];
    units.push(0xE9);
    assert_eq!(host, HostString::OneByte(units));
}

#[test]
fn long_text_of_every_length_reads_back() {
    for len in 0..70usize {
        let mut text = String::new();
        for i in 0..len {
            text.push(if i % 7 == 3 { 'ö' } else { 'k' });
        }
        if len > 0 {
            text.push('中');
        }
        let host = unicode_from_str(&text);
        assert_eq!(read_back(&host), text);
        if len > 0 {
            assert!(matches!(host, HostString::TwoByte(ref units) if units.len() == len + 1));
        }
    }
}

#[test]
fn one_unit_per_char() {
    match unicode_from_str("añ中😀") {
        HostString::FourByte(units) => assert_eq!(units.len(), 4),
        other => panic!("unexpected {:?}", other),
    }
}

#[test]
fn max_char_of_each_form() {
    assert_eq!(unicode_from_str("").max_char(), 0xFF);
    assert_eq!(unicode_from_str("a").max_char(), 0x7F);
    assert_eq!(unicode_from_str("é").max_char(), 0xFF);
    assert_eq!(unicode_from_str("中").max_char(), 0xFFFF);
    assert_eq!(unicode_from_str("😀").max_char(), 0x10FFFF);
}

#[test]
fn ascii_form_copies_the_leading_bytes() {
    assert_eq!(pyunicode_ascii(b"hello", 5), HostString::Ascii(b"hello".to_vec()));
    assert_eq!(pyunicode_ascii(b"hello", 3), HostString::Ascii(b"hel".to_vec()));
    assert_eq!(pyunicode_ascii(b"hello", 0), HostString::Ascii(vec![]));
}

#[test]
fn one_byte_form_keeps_the_low_eight_bits() {
    assert_eq!(pyunicode_onebyte("aé", 2), HostString::OneByte(vec![0x61, 0xE9]));
    assert_eq!(pyunicode_onebyte("中", 1), HostString::OneByte(vec![0x2D]));
}

#[test]
fn two_byte_form_keeps_the_low_sixteen_bits() {
    assert_eq!(pyunicode_twobyte("a中", 2), HostString::TwoByte(vec![0x61, 0x4E2D]));
    assert_eq!(pyunicode_twobyte("😀", 1), HostString::TwoByte(vec![0xF600]));
}

#[test]
fn four_byte_form_keeps_the_code_points() {
    assert_eq!(pyunicode_fourbyte("a😀", 2), HostString::FourByte(vec![0x61, 0x1F600]));
}

#[test]
fn scalar_classification_never_gives_the_ascii_form() {
    assert_eq!(str_impl_kind_scalar("abc", 3), HostString::OneByte(vec![0x61, 0x62, 0x63]));
    assert_eq!(str_impl_kind_scalar("é", 1), HostString::OneByte(vec![0xE9]));
    assert_eq!(str_impl_kind_scalar("中", 1), HostString::TwoByte(vec![0x4E2D]));
    assert_eq!(str_impl_kind_scalar("😀a", 2), HostString::FourByte(vec![0x1F600, 0x61]));
    assert_eq!(str_impl_kind_scalar("a😀", 2), HostString::FourByte(vec![0x61, 0x1F600]));
}
