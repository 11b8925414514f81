use watchface_rs::bytes::ParseError;
use watchface_rs::common::{Alignment, AlignmentInternal, Color, Decimal, ImgId};
use watchface_rs::elements::{ImageRange, NumberInRect, StatusPosition};
use watchface_rs::image::{image_parse, parse_image};
use watchface_rs::miband::{Alarm, MiBandParams};
use watchface_rs::params::{params_parser, Param, ParamEntry, Params};
use watchface_rs::parser::{bytes_to_usize, parse_bin, Watchface};
use watchface_rs::preview::number_get_image_ids;
use watchface_rs::transform::Transform;
use watchface_rs::varint::{variable_width_value_parser, write_variable_width_value};

#[test]
fn written_values_read_back() {
    for value in [0i64, 1, 127, 128, 300, -1, -13, 1 << 40, i64::MAX, i64::MIN] {
        let bytes = write_variable_width_value(value);
        assert!(!bytes.is_empty() && bytes.len() <= 10);
        assert_eq!(variable_width_value_parser(&bytes, 0), Ok((value, bytes.len())));
    }
}

#[test]
fn truncated_value_is_incomplete() {
    assert_eq!(variable_width_value_parser(&[0x80, 0x80], 0), Err(ParseError::Incomplete));
}

#[test]
fn repeated_keys_gather_their_values() {
    // key 1: 1, key 2: 5, key 1: 2
    let bytes: Vec<u8> = vec![0x08, 0x01, 0x10, 0x05, 0x08, 0x02];
    let (params, end) = params_parser(&bytes, 0, bytes.len()).unwrap();
    assert_eq!(end, bytes.len());
    assert_eq!(params.entries.len(), 2);
    assert_eq!(params.get(1), Some(&vec![Param::Number(1), Param::Number(2)]));
    assert_eq!(params.get(2), Some(&vec![Param::Number(5)]));
    assert_eq!(params.get(3), None);
}

#[test]
fn params_compare_as_maps() {
    // key 1: 1, key 2: 5, key 1: 2 read in one order and in another
    let first: Vec<u8> = vec![0x08, 0x01, 0x10, 0x05, 0x08, 0x02];
    let second: Vec<u8> = vec![0x10, 0x05, 0x08, 0x01, 0x08, 0x02];
    let (a, _) = params_parser(&first, 0, first.len()).unwrap();
    let (b, _) = params_parser(&second, 0, second.len()).unwrap();
    assert_eq!(a.entries[0].key, 1);
    assert_eq!(b.entries[0].key, 2);
    assert_eq!(a, b);
    // values under one key keep their order
    let third: Vec<u8> = vec![0x10, 0x05, 0x08, 0x02, 0x08, 0x01];
    let (c, _) = params_parser(&third, 0, third.len()).unwrap();
    assert_ne!(a, c);
    // a key missing on one side
    let fourth: Vec<u8> = vec![0x08, 0x01, 0x08, 0x02];
    let (d, _) = params_parser(&fourth, 0, fourth.len()).unwrap();
    assert_ne!(a, d);
    assert_ne!(d, a);
}

#[test]
fn nested_params_compare_as_maps() {
    let inner = |keys: Vec<u8>| Params {
        entries: keys.into_iter().map(|k| ParamEntry { key: k, values: vec![Param::Number(k as i64)] }).collect(),
    };
    let a = Param::Child(inner(vec![1, 2, 3]));
    let b = Param::Child(inner(vec![3, 1, 2]));
    let c = Param::Child(inner(vec![1, 2]));
    assert_eq!(a, b);
    assert_ne!(a, c);
    assert_ne!(a, Param::Number(1));
}

#[test]
fn float_params_compare_as_numbers() {
    assert_eq!(Param::Float(0.0f32.to_bits()), Param::Float((-0.0f32).to_bits()));
    assert_eq!(Param::Float(1.5f32.to_bits()), Param::Float(1.5f32.to_bits()));
    assert_ne!(Param::Float(1.5f32.to_bits()), Param::Float(2.5f32.to_bits()));
    assert_ne!(Param::Float(f32::NAN.to_bits()), Param::Float(f32::NAN.to_bits()));
}

#[test]
fn little_endian_bytes_make_a_number() {
    assert_eq!(bytes_to_usize(&[0x30, 0x27, 0x00, 0x00]), 0x2730);
    assert_eq!(bytes_to_usize(&[]), 0);
}

/// A 2x1 image of 32-bit pixels.
fn image_bytes() -> Vec<u8> {
    vec![
        0x42, 0x4D, 0x10, 0x00, 0x02, 0x00, 0x01, 0x00, 0x08, 0x00, 0x20, 0x00, 0x00, 0x00, 0x00,
        0x00, 0x11, 0x21, 0x31, 0x41, 0x12, 0x22, 0x32, 0x42,
    ]
}

#[test]
fn image_holds_four_bytes_per_pixel() {
    let bytes = image_bytes();
    let (image, end) = image_parse(&bytes, 0).unwrap();
    assert_eq!(end, bytes.len());
    assert_eq!(
        image.pixels.len(),
        4 * image.width as usize * image.height as usize
    );
    assert_eq!(image.pixels, vec![0x11, 0x21, 0x31, 0xBE, 0x12, 0x22, 0x32, 0xBD]);
}

#[test]
fn image_errors() {
    let bytes = image_bytes();
    assert_eq!(parse_image(&bytes[..20], 0).err(), Some(ParseError::Incomplete));
    let mut bad_signature = bytes.clone();
    bad_signature[0] = 0x43;
    assert_eq!(parse_image(&bad_signature, 0).err(), Some(ParseError::Malformed));
    let mut compressed = bytes.clone();
    compressed[2] = 0x65;
    assert_eq!(parse_image(&compressed, 0).err(), Some(ParseError::Malformed));
    let mut wrong_row_size = bytes;
    wrong_row_size[8] = 0x07;
    assert_eq!(parse_image(&wrong_row_size, 0).err(), Some(ParseError::Malformed));
}

#[test]
fn watchface_errors() {
    let short: Vec<u8> = vec![0x55, 0x49, 0x48, 0x48];
    let res: Result<Watchface<MiBandParams>, ParseError> = parse_bin(&short);
    assert_eq!(res.err(), Some(ParseError::Incomplete));
}

#[test]
fn colour_texts() {
    let text = |c: Color| String::from_utf8(c.hex_text()).unwrap();
    assert_eq!(text(Color(0xFF, 0, 0, 0xFF)), "0xFF0000");
    assert_eq!(text(Color(0, 0, 0x10, 0xFF)), "0x10");
    assert_eq!(text(Color(0, 0, 5, 0x80)), "0x580");
    assert_eq!(text(Color(0x12, 0x34, 0x56, 0x78)), "0x12345678");
    assert_eq!(text(Color(0, 0, 0, 0)), "0x0");
    assert_eq!(text(Color(0, 0, 0, 0xFF)), "0x0");
}

#[test]
fn colours_from_numbers() {
    assert_eq!(Color::from_number(0xFF0000), Color(0xFF, 0, 0, 0xFF));
    assert_eq!(Color::from_number(0x12345678), Color(0x12, 0x34, 0x56, 0x78));
    assert_eq!(Color::from_number(0x1234), Color(0x12, 0x34, 0, 0xFF));
    assert_eq!(Color::from_number(0), Color(0, 0, 0, 0xFF));
}

#[test]
fn alignments_come_back_from_their_numbers() {
    for v in [0i64, 2, 4, 8, 16, 32, 64, 18, 34, 66, 20, 36, 68, 24, 40, 72] {
        let a = Alignment::try_from(v).unwrap();
        assert_eq!(i64::from(a), v);
    }
    assert_eq!(Alignment::try_from(3), Err(()));
    assert_eq!(i64::from(Alignment::Valid(AlignmentInternal::Center)), 72);
    assert_eq!(i64::from(Alignment::Valid(AlignmentInternal::Unknown)), 0);
}

#[test]
fn shown_digits_spell_the_number() {
    let number = NumberInRect {
        image_index: Some(ImgId(100)),
        ..Default::default()
    };
    for n in [0u32, 7, 10, 1284, 90210, u32::MAX] {
        let value = Decimal {
            negative: false,
            int_part: n,
            hundredths: 0,
        };
        let ids = number_get_image_ids(&number, value, &None, &None, Some(3)).unwrap();
        let text: String = ids
            .iter()
            .map(|id| char::from_digit(id - 100, 10).unwrap())
            .collect();
        assert_eq!(text, format!("{n:03}"));
    }
}

#[test]
fn unknown_keys_are_ignored() {
    let mut params = MiBandParams::default();
    assert_eq!(params.apply(13, &vec![Param::Number(5)]), Ok(()));
    assert_eq!(params, MiBandParams::default());
    // a known key with a value of the wrong kind is malformed
    assert_eq!(params.apply(2, &vec![Param::Number(5)]), Err(ParseError::Malformed));
}

#[test]
fn colour_read_from_a_number_writes_it_in_hexadecimal() {
    for n in [0x10000i64, 0x12ABCD, 0x100000, 0xFFFFFF, 0xFF0000] {
        let text = String::from_utf8(Color::from_number(n).hex_text()).unwrap();
        assert_eq!(text, format!("0x{:X}", n));
    }
}

#[test]
fn written_bytes_are_the_shortest_groups() {
    let bytes = write_variable_width_value(300);
    assert_eq!(bytes, vec![0xAC, 0x02]);
    let bytes = write_variable_width_value(-1);
    assert_eq!(bytes.len(), 10);
    assert!(bytes[..9].iter().all(|b| b & 0x80 == 0x80));
    assert_eq!(bytes[9], 0x01);
}

#[test]
fn decoded_image_keeps_its_header() {
    let (image, _) = image_parse(&image_bytes(), 0).unwrap();
    assert_eq!((image.width, image.height, image.bits_per_pixel, image.pixel_format), (2, 1, 32, 0x10));
}

#[test]
fn fields_of_status_positions_and_alarms() {
    let p = StatusPosition::new(3, 4, None, Some(7), None);
    assert_eq!((p.get_x(), p.get_y(), p.get_unknown4(), p.get_unknown5()), (3, 4, Some(7), None));
    let a = Alarm::new(None, Some(ImgId(2)), None, None, None, 6, 7);
    assert_eq!(a.get_delimiter_image_index(), &Some(ImgId(2)));
    assert_eq!(a.get_unknowns(), (6, 7));
    let mut q = StatusPosition::default();
    assert_eq!(q.apply(2, &vec![Param::Number(9)]), Ok(()));
    assert_eq!((q.get_x(), q.get_y()), (0, 9));
}

#[test]
fn filled_range_takes_the_values_of_its_keys() {
    let mut r = ImageRange::default();
    assert_eq!(r.apply(1, &vec![Param::Number(5)]), Ok(()));
    assert_eq!(r.apply(4, &vec![Param::Number(10)]), Ok(()));
    assert_eq!(r.apply(1, &vec![Param::Number(6)]), Ok(()));
    assert_eq!(r, ImageRange { x: 6, y: 0, image_index: None, images_count: Some(10) });
}
