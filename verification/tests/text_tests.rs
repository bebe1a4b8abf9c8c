use asterbase::data_collection::{str_to_u32, str_to_u32_certain};
use asterbase::file_buffer::{FileBuffer, split_tabs};
use asterbase::file_util::decompress;
use asterbase::string_collection::StringCollection;
use asterbase::text::{ParseError, join, replace_param, text_le_exec, u32_to_string};

/// Packs characters of 7 bits, eight to each 7 bytes, most significant bit first.
fn compress(text: &str) -> Vec<u8> {
    let mut chars: Vec<u8> = text.bytes().collect();
    while chars.len() % 8 != 0 {
        chars.push(b'\n');
    }
    let mut out = Vec::new();
    for chunk in chars.chunks(8) {
        let mut n: u64 = 0;
        for c in chunk {
            n = (n << 7) | (*c as u64 & 0x7f);
        }
        for k in (0..7).rev() {
            out.push(((n >> (8 * k)) & 0xff) as u8);
        }
    }
    out
}

#[test]
fn decimal_round_trip() {
    for n in [0u32, 7, 10, 99, 1000, 4294967295] {
        let s = u32_to_string(n);
        assert_eq!(s, n.to_string());
        assert_eq!(str_to_u32(&s, 10), Ok(n));
    }
}

#[test]
fn numbers_in_other_radixes() {
    assert_eq!(str_to_u32("ff", 16), Ok(255));
    assert_eq!(str_to_u32("+17", 10), Ok(17));
    assert_eq!(str_to_u32_certain("8000", 16), 0x8000);
}

#[test]
fn parse_errors() {
    assert_eq!(str_to_u32("", 10), Err(ParseError::Empty));
    assert_eq!(str_to_u32("+", 10), Err(ParseError::InvalidDigit));
    assert_eq!(str_to_u32("12a", 10), Err(ParseError::InvalidDigit));
    assert_eq!(str_to_u32("-1", 10), Err(ParseError::InvalidDigit));
    assert_eq!(str_to_u32("4294967296", 10), Err(ParseError::PosOverflow));
}

#[test]
fn parameter_marker_is_replaced() {
    assert_eq!(replace_param("You see $0 here, $0!", "a lamp"), "You see a lamp here, a lamp!".to_string());
    assert_eq!(replace_param("No marker $ 0 here.", "x"), "No marker $ 0 here.".to_string());
    assert_eq!(replace_param("$", "x"), "$".to_string());
}

#[test]
fn join_concatenates() {
    assert_eq!(join("ab", "cd"), "abcd".to_string());
}

#[test]
fn text_order() {
    assert!(text_le_exec("apple", "banana"));
    assert!(!text_le_exec("banana", "apple"));
    assert!(text_le_exec("app", "apple"));
    assert!(text_le_exec("same", "same"));
    assert!(text_le_exec("Zebra", "apple"));
}

#[test]
fn fields_split_at_tabs() {
    assert_eq!(split_tabs("a\tb\t\tc"), vec!["a".to_string(), "b".to_string(), "".to_string(), "c".to_string()]);
    assert_eq!(split_tabs(""), vec!["".to_string()]);
}

#[test]
fn decompression_gives_eight_characters_for_seven_bytes() {
    let packed = compress("Hello, w");
    assert_eq!(packed.len(), 7);
    let chars = decompress(&packed);
    assert_eq!(chars.iter().collect::<String>(), "Hello, w");
    let mut longer = compress("section one\n---\nsecond");
    longer.push(0);
    assert_eq!(decompress(&longer).len(), (longer.len() / 7) * 8);
}

#[test]
fn buffer_reads_lines_and_sections() {
    let packed = compress("first\n\nsecond\n---\nthird\n");
    let mut buffer = FileBuffer::new(&packed);
    assert_eq!(buffer.get_line(), "first".to_string());
    assert_eq!(buffer.get_line(), "second".to_string());
    let mut buffer2 = FileBuffer::new(&packed);
    let section = buffer2.read_section();
    assert_eq!(section, vec!["first".to_string(), "second".to_string()]);
    // a last line that runs to the end of the data is not taken
    assert_eq!(buffer2.read_section(), Vec::<String>::new());
    assert!(buffer2.eof());
}

#[test]
fn string_collection_counts_puzzles() {
    let text = "a\tAlpha\t2\nb\tBeta\t3\na\tAgain\t0\n---\n";
    let mut buffer = FileBuffer { data: text.chars().collect(), index: 0 };
    let mut strings = StringCollection::new();
    let mut count: u32 = 1;
    assert!(strings.try_init(&mut buffer, &mut count).is_ok());
    assert_eq!(count, 6);
    assert_eq!(strings.get_certain("a"), "Again");
    assert_eq!(strings.get_uncertain("b"), Some(&"Beta".to_string()));
    assert_eq!(strings.get_uncertain("c"), None);
}

#[test]
fn string_collection_errors() {
    let mut strings = StringCollection::new();
    let mut count: u32 = 0;
    let mut missing = FileBuffer { data: "a\tAlpha\n---\n".chars().collect(), index: 0 };
    assert!(matches!(strings.try_init(&mut missing, &mut count), Err(asterbase::file_buffer::LoadError::MissingField)));
    let mut bad = FileBuffer { data: "a\tAlpha\tx\n---\n".chars().collect(), index: 0 };
    assert!(matches!(strings.try_init(&mut bad, &mut count), Err(asterbase::file_buffer::LoadError::BadNumber)));
    let mut count2: u32 = u32::MAX;
    let mut over = FileBuffer { data: "a\tAlpha\t1\n---\n".chars().collect(), index: 0 };
    let mut strings2 = StringCollection::new();
    assert!(matches!(strings2.try_init(&mut over, &mut count2), Err(asterbase::file_buffer::LoadError::BadSection)));
}
