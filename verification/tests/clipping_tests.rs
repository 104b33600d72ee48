use openclip::clipping::Clipping;
use openclip::text::{is_space_char, trim};

#[test]
fn short_text_is_its_own_preview() {
    let c = Clipping::new("hello world");
    assert_eq!(c.preview, "hello world");
    assert_eq!(c.decompress(), Some("hello world".to_string()));
}

#[test]
fn forty_characters_stay_whole() {
    let text = "a".repeat(40);
    let c = Clipping::new(&text);
    assert_eq!(c.preview, text);
}

#[test]
fn forty_one_characters_are_shortened() {
    let text = "b".repeat(41);
    let c = Clipping::new(&text);
    assert_eq!(c.preview, format!("{}...", "b".repeat(37)));
    assert_eq!(c.preview.chars().count(), 40);
    assert_eq!(c.decompress(), Some(text));
}

#[test]
fn preview_counts_characters_not_bytes() {
    let text = "é".repeat(39);
    let c = Clipping::new(&text);
    assert_eq!(c.preview, text);
    let long = "😀".repeat(50);
    let c = Clipping::new(&long);
    assert_eq!(c.preview, format!("{}...", "😀".repeat(37)));
    assert_eq!(c.decompress(), Some(long));
}

#[test]
fn stored_data_is_compressed_with_size_prefix() {
    let text = "abcabcabcabcabcabcabcabcabcabcabcabcabcabc";
    let c = Clipping::new(text);
    assert_ne!(c.compressed_data, text.as_bytes());
    assert_eq!(&c.compressed_data[..4], &(text.len() as u32).to_le_bytes());
    assert!(c.compressed_data.len() < text.len());
    assert_eq!(lz4_flex::decompress_size_prepended(&c.compressed_data).unwrap(), text.as_bytes());
}

#[test]
fn empty_text_round_trips() {
    let c = Clipping::new("");
    assert_eq!(c.preview, "");
    assert_eq!(c.decompress(), Some(String::new()));
}

#[test]
fn corrupt_data_does_not_decompress() {
    let c = Clipping { preview: "x".to_string(), compressed_data: vec![1, 2] };
    assert_eq!(c.decompress(), None);
    let c = Clipping { preview: "x".to_string(), compressed_data: vec![] };
    assert_eq!(c.decompress(), None);
}

#[test]
fn non_utf8_data_does_not_decompress() {
    let c = Clipping {
        preview: "x".to_string(),
        compressed_data: lz4_flex::compress_prepend_size(&[0xff, 0xfe, 0x41]),
    };
    assert_eq!(c.decompress(), None);
}

#[test]
fn trim_removes_surrounding_whitespace() {
    assert_eq!(trim("  hi there \n\t"), "hi there");
    assert_eq!(trim("\u{3000}x\u{2028}"), "x");
    assert_eq!(trim(" \r\n "), "");
    assert_eq!(trim(""), "");
    assert_eq!(trim("a b"), "a b");
    assert_eq!(trim("\u{85}\u{a0}mid\u{200b}"), "mid\u{200b}");
}

#[test]
fn trim_agrees_with_std() {
    let samples = [
        "", " ", "x", " x ", "\t\nabc\r\n", "\u{2000}\u{200a}q\u{202f}", "\u{1680}", "a\u{0b}",
        "\u{1c}z", " é ", "\u{feff}w",
    ];
    for s in samples {
        assert_eq!(trim(s), s.trim(), "input {:?}", s);
    }
}

#[test]
fn whitespace_agrees_with_std() {
    for v in 0u32..=0x10ffff {
        if let Some(c) = char::from_u32(v) {
            assert_eq!(is_space_char(c), c.is_whitespace(), "code point {:x}", v);
        }
    }
}

#[test]
fn overflowing_length_field_does_not_decompress() {
    let mut data = vec![0u8, 0, 0, 1, 0xF0];
    data.extend(std::iter::repeat(0xFFu8).take(16_843_010));
    let c = Clipping { preview: "x".to_string(), compressed_data: data };
    assert_eq!(c.decompress(), None);
}

#[test]
fn short_data_does_not_decompress() {
    for n in 0..4 {
        let c = Clipping { preview: String::new(), compressed_data: vec![0; n] };
        assert_eq!(c.decompress(), None);
    }
}

#[test]
fn long_length_fields_are_decoded() {
    // A long repetition is one match whose length field holds many 0xFF bytes.
    let text = "a".repeat(300_000);
    let c = Clipping::new(&text);
    assert_eq!(c.decompress(), Some(text));
}

#[test]
fn length_that_wraps_to_zero_reads_no_text() {
    let mut data = vec![0u8, 0, 0, 0, 0xF0];
    data.extend(std::iter::repeat(0xFFu8).take(16_843_009));
    data.push(0x01);
    let c = Clipping { preview: "x".to_string(), compressed_data: data };
    assert_eq!(c.decompress(), None);
}
