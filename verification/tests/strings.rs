use blue_fire_splitter::jujstme_string::{Address64, ArrayWString, CSharpString, Error, MAX_STRING_UNITS};
use blue_fire_splitter::text::{chars_match, chars_to_string, completion_text};
use blue_fire_splitter::utf16::{decode_utf16, decode_utf16_lossy};

fn units(s: &str) -> Vec<u16> {
    s.encode_utf16().collect()
}

#[test]
fn decode_matches_std_on_valid_text() {
    for s in ["", "IntroScene", "héllo wörld", "日本語", "emoji 😀 and 🎉!", "\u{FFFF}\u{10000}\u{10FFFF}"] {
        let u = units(s);
        let got: String = decode_utf16(&u).expect("valid UTF-16").into_iter().collect();
        assert_eq!(got, s);
        assert_eq!(got, String::from_utf16(&u).unwrap());
    }
}

#[test]
fn decode_rejects_unpaired_surrogates_like_std() {
    let cases: Vec<Vec<u16>> = vec![
        vec![0xD800],
        vec![0xDC00],
        vec![0x41, 0xD83D],
        vec![0xD83D, 0x41],
        vec![0xDE00, 0xD83D],
        vec![0x41, 0xDBFF, 0xDBFF, 0xDC00],
    ];
    for u in cases {
        assert_eq!(decode_utf16(&u).is_none(), String::from_utf16(&u).is_err());
        assert!(decode_utf16(&u).is_none());
    }
}

#[test]
fn decode_agrees_with_std_on_every_pair_of_interesting_units() {
    let interesting: [u16; 10] = [0, 0x41, 0x7F, 0x80, 0xD7FF, 0xD800, 0xDBFF, 0xDC00, 0xDFFF, 0xFFFF];
    for &a in interesting.iter() {
        for &b in interesting.iter() {
            for &c in interesting.iter() {
                let u = vec![a, b, c];
                let strict = decode_utf16(&u).map(|v| v.into_iter().collect::<String>());
                assert_eq!(strict, String::from_utf16(&u).ok());
                let lossy: String = decode_utf16_lossy(&u).into_iter().collect();
                assert_eq!(lossy, String::from_utf16_lossy(&u));
            }
        }
    }
}

#[test]
fn lossy_decoding_replaces_unpaired_surrogates() {
    let u = vec![0x41, 0xD800, 0x42, 0xDC00];
    let got: String = decode_utf16_lossy(&u).into_iter().collect();
    assert_eq!(got, "A\u{FFFD}B\u{FFFD}");
}

#[test]
fn lossy_agrees_with_strict_on_valid_units() {
    let u = units("Chest_A01_Keep_Shield 🛡");
    assert_eq!(decode_utf16(&u).unwrap(), decode_utf16_lossy(&u));
}

#[test]
fn decoding_an_encoding_gives_the_text_back() {
    let s = "a\u{0}b\u{D7FF}\u{E000}\u{1F600}";
    let got: String = decode_utf16(&units(s)).unwrap().into_iter().collect();
    assert_eq!(got, s);
}

#[test]
fn completion_is_shown_with_two_decimals() {
    assert_eq!(completion_text(1234), "12.34%");
    assert_eq!(completion_text(5), "0.05%");
    assert_eq!(completion_text(0), "0.00%");
    assert_eq!(completion_text(10000), "100.00%");
    assert_eq!(completion_text(990), "9.90%");
    assert_eq!(completion_text(u32::MAX), format!("{}.{:02}%", u32::MAX / 100, u32::MAX % 100));
    for flag in [1u32, 9, 10, 99, 100, 101, 4567, 123456] {
        assert_eq!(completion_text(flag), format!("{}.{:02}%", flag / 100, flag % 100));
    }
}

#[test]
fn chars_become_a_string() {
    let chars: Vec<char> = "Blue Fire 🔥".chars().collect();
    assert_eq!(chars_to_string(&chars), "Blue Fire 🔥");
    assert_eq!(chars_to_string(&[]), "");
}

#[test]
fn chars_match_compares_with_text() {
    let chars: Vec<char> = "BossQueen".chars().collect();
    assert!(chars_match(&chars, "BossQueen"));
    assert!(!chars_match(&chars, "BossQueen "));
    assert!(!chars_match(&chars, "BossQueeN"));
    assert!(!chars_match(&chars, ""));
    assert!(chars_match(&[], ""));
}

#[test]
fn array_string_ends_at_first_nul() {
    let s = ArrayWString::from_units([0x48, 0x69, 0, 0x21, 0]);
    assert_eq!(s.as_units(), vec![0x48, 0x69]);
    let full = ArrayWString::from_units([0x41, 0x42, 0x43]);
    assert_eq!(full.as_units(), vec![0x41, 0x42, 0x43]);
    let empty = ArrayWString::from_units([0u16, 0x41]);
    assert_eq!(empty.as_units(), Vec::<u16>::new());
}

#[test]
fn csharp_string_addresses() {
    let s = CSharpString::from_address(Address64::new(0x1000));
    assert_eq!(s.length_address(), Address64::new(0x1010));
    assert_eq!(s.content_address(), Address64::new(0x1014));
    assert_eq!(s.content_address().value(), 0x1014);
}

#[test]
fn csharp_string_length() {
    let s = CSharpString::from_address(Address64::new(0x2000));
    assert_eq!(s.get_length(Ok(42)), Ok(42usize));
    assert_eq!(s.get_length(Ok(u32::MAX)), Ok(u32::MAX as usize));
    assert_eq!(s.get_length(Err(Error {})), Err(Error {}));
}

#[test]
fn csharp_string_read_keeps_the_units() {
    let s = CSharpString::from_address(Address64::new(0x2000));
    let r = s.read::<4>(Ok([0x4E, 0x4F, 0, 0x45])).unwrap();
    assert_eq!(r.as_units(), vec![0x4E, 0x4F]);
    assert!(s.read::<4>(Err(Error {})).is_err());
}

#[test]
fn csharp_string_text() {
    let s = CSharpString::from_address(Address64::new(0x2000));
    assert_eq!(s.read_as_string(Ok(units("Stoneheart"))), Ok(String::from("Stoneheart")));
    assert_eq!(s.read_as_string(Ok(vec![0x41, 0xD800])), Err(Error {}));
    assert_eq!(s.read_as_string(Err(Error {})), Err(Error {}));
}

#[test]
fn csharp_string_reads_at_most_255_units() {
    assert_eq!(CSharpString::units_to_read(10), 10);
    assert_eq!(CSharpString::units_to_read(255), 255);
    assert_eq!(CSharpString::units_to_read(100000), MAX_STRING_UNITS);
    assert_eq!(MAX_STRING_UNITS, 255);
}

#[test]
fn csharp_string_read_count_caps_and_stops_on_error() {
    assert_eq!(CSharpString::read_count(Ok(12)), Ok(12));
    assert_eq!(CSharpString::read_count(Ok(1000)), Ok(MAX_STRING_UNITS));
    assert_eq!(CSharpString::read_count(Err(Error {})), Err(Error {}));
}

#[test]
fn encoding_a_decoded_text_gives_the_units_back() {
    for u in [units("Stoneheart City"), units("🔥 Blue Fire"), vec![0x41, 0xD83D, 0xDE00, 0xFFFF]] {
        let chars = decode_utf16(&u).unwrap();
        let s: String = chars.into_iter().collect();
        assert_eq!(s.encode_utf16().collect::<Vec<u16>>(), u);
    }
}
