use generic_daw_core::checksum::Crc;
use generic_daw_core::discovery::{
    c_string_ok, decode_descriptor, decode_paths, encode_descriptor, encode_paths, native_order,
    ByteOrder, Decoded,
    DecodedPaths, PluginDescriptor,
};

#[test]
fn crc_of_chunks_is_crc_of_the_whole() {
    let mut crc = Crc::new();
    assert_eq!(crc.value(), 0);
    crc.update(b"1234");
    crc.update(b"");
    crc.update(b"56789");
    assert_eq!(crc.value(), 0xE306_9283);
    assert_eq!(crc.value(), crc32c::crc32c(b"123456789"));
}

#[test]
fn crc_of_a_single_byte() {
    let mut crc = Crc::new();
    crc.update(b"a");
    assert_eq!(crc.value(), 0xC1D0_4330);
}

#[test]
fn crc_differs_from_its_input() {
    let mut crc = Crc::new();
    crc.update(&[7]);
    assert_ne!(crc.value(), 7);
    assert_eq!(crc.value(), crc32c::crc32c(&[7]));
}

const W: usize = std::mem::size_of::<usize>();

fn descriptor() -> PluginDescriptor {
    PluginDescriptor {
        name: "Synth ü".to_owned(),
        id: b"com.example.synth\0".to_vec(),
        path: "/usr/lib/clap/synth.clap".to_owned(),
    }
}

#[test]
fn descriptor_round_trips() {
    let d = descriptor();
    let mut bytes = encode_descriptor(&d, native_order());
    let len = bytes.len();
    assert_eq!(len, 3 * W + "Synth ü".len() + 18 + "/usr/lib/clap/synth.clap".len());
    assert_eq!(&bytes[..W], &"Synth ü".len().to_ne_bytes());
    bytes.extend_from_slice(&[1, 2, 3]);
    match decode_descriptor(&bytes, native_order()) {
        Decoded::Descriptor(back, n) => {
            assert_eq!(back, d);
            assert_eq!(n, len);
        }
        other => panic!("{other:?}"),
    }
}

#[test]
fn truncated_descriptor_is_incomplete() {
    let bytes = encode_descriptor(&descriptor(), native_order());
    for cut in [0, W - 1, W, 20, bytes.len() - 1] {
        assert!(matches!(decode_descriptor(&bytes[..cut], native_order()), Decoded::Incomplete));
    }
}

#[test]
fn bad_fields_are_invalid() {
    let mut bad_name = encode_descriptor(&descriptor(), native_order());
    bad_name[W] = 0xff;
    let n = bad_name.len();
    assert!(matches!(decode_descriptor(&bad_name, native_order()), Decoded::Invalid(len) if len == n));

    let no_nul = PluginDescriptor { id: b"abc".to_vec(), ..descriptor() };
    let bytes = encode_descriptor(&no_nul, native_order());
    assert!(matches!(decode_descriptor(&bytes, native_order()), Decoded::Invalid(len) if len == bytes.len()));
}

#[test]
fn c_strings() {
    assert!(c_string_ok(b"a\0"));
    assert!(c_string_ok(b"\0"));
    assert!(!c_string_ok(b""));
    assert!(!c_string_ok(b"a"));
    assert!(!c_string_ok(b"a\0b\0"));
}

#[test]
fn path_lists_round_trip() {
    let paths = vec!["/usr/lib/clap".to_owned(), "~/clap é".to_owned()];
    let mut bytes = encode_paths(&paths, native_order());
    let len = bytes.len();
    assert_eq!(len, W + W + 13 + W + "~/clap é".len());
    assert_eq!(&bytes[..W], &2usize.to_ne_bytes());
    bytes.push(0xff);
    match decode_paths(&bytes, native_order()) {
        DecodedPaths::Paths(back, n) => {
            assert_eq!(back, paths);
            assert_eq!(n, len);
        }
        other => panic!("{other:?}"),
    }
    assert!(matches!(decode_paths(&bytes[..len - 1], native_order()), DecodedPaths::Incomplete));
    assert!(matches!(decode_paths(&bytes[..W - 1], native_order()), DecodedPaths::Incomplete));
    let empty = encode_paths(&[], native_order());
    assert!(matches!(decode_paths(&empty, native_order()), DecodedPaths::Paths(p, n) if n == W && p.is_empty()));
}

#[test]
fn path_lists_reject_bad_utf8_and_missing_paths() {
    let mut bytes = encode_paths(&["ab".to_owned()], native_order());
    bytes[2 * W] = 0xc3;
    assert!(matches!(decode_paths(&bytes, native_order()), DecodedPaths::Invalid));
    let mut more = encode_paths(&["ab".to_owned()], native_order());
    more[..W].copy_from_slice(&3usize.to_ne_bytes());
    assert!(matches!(decode_paths(&more, native_order()), DecodedPaths::Incomplete));
}

#[test]
fn native_order_matches_the_machine() {
    let little = u16::from_ne_bytes([1, 0]) == 1;
    assert_eq!(native_order() == ByteOrder::Little, little);
}

#[test]
fn big_endian_lengths() {
    let d = descriptor();
    let bytes = encode_descriptor(&d, ByteOrder::Big);
    assert_eq!(&bytes[..W], &"Synth ü".len().to_be_bytes());
    assert!(matches!(decode_descriptor(&bytes, ByteOrder::Big), Decoded::Descriptor(back, n) if back == d && n == bytes.len()));
}
