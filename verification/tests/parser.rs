use watchface_rs::params::{params_parser, Param, ParamEntry, Params};
use watchface_rs::varint::{variable_width_value_parser, write_variable_width_value};

fn params_of(entries: Vec<(u8, Vec<Param>)>) -> Params {
    Params {
        entries: entries
            .into_iter()
            .map(|(key, values)| ParamEntry { key, values })
            .collect(),
    }
}

#[test]
fn parse_keys_and_values() {
    let bytes: Vec<u8> = vec![0x08, 0x04, 0x10, 0x6B];

    let result = params_parser(&bytes, 0, bytes.len()).map(|(ps, _)| ps);
    assert!(result.is_ok());
    if let Ok(result) = result {
        assert_eq!(
            result,
            params_of(vec![
                (1, vec![Param::Number(0x04)]),
                (2, vec![Param::Number(0x6B)]),
            ])
        )
    }
}

#[test]
fn parse_nested_structure() {
    let bytes: Vec<u8> = vec![0x0A, 0x05, 0x08, 0xBC, 0x04, 0x10, 0x6B];

    let result = params_parser(&bytes, 0, bytes.len()).map(|(ps, _)| ps);
    assert!(result.is_ok());
    if let Ok(result) = result {
        assert_eq!(
            result,
            params_of(vec![(
                1,
                vec![Param::Child(params_of(vec![
                    (1, vec![Param::Number(0x023C)]),
                    (2, vec![Param::Number(0x6B)]),
                ]))]
            ),])
        )
    }
}

#[test]
fn parse_lists() {
    let bytes: Vec<u8> = vec![0x08, 0x04, 0x08, 0x7F, 0x10, 0x6B];

    let result = params_parser(&bytes, 0, bytes.len()).map(|(ps, _)| ps);
    assert!(result.is_ok());
    if let Ok(result) = result {
        assert_eq!(
            result,
            params_of(vec![
                (1, vec![Param::Number(0x04), Param::Number(0x7F)]),
                (2, vec![Param::Number(0x6B)]),
            ])
        )
    }
}

#[test]
fn parse_multi_byte_id() {
    let bytes: Vec<u8> = vec![0x80, 0x02, 0x04];

    let result = params_parser(&bytes, 0, bytes.len()).map(|(ps, _)| ps);
    assert!(result.is_ok());
    if let Ok(result) = result {
        assert_eq!(
            result,
            params_of(vec![(32, vec![Param::Number(0x04)]),])
        )
    }
}

#[test]
fn parse_float_values() {
    let bytes: Vec<u8> = vec![
        0x0A, 0x0A, 0x0D, 0x00, 0x00, 0xA0, 0x3F, 0x3D, 0x00, 0x00, 0xB4, 0x43,
    ];

    let result = params_parser(&bytes, 0, bytes.len()).map(|(ps, _)| ps);
    assert!(result.is_ok());
    if let Ok(result) = result {
        assert_eq!(
            result,
            params_of(vec![(
                1,
                vec![Param::Child(params_of(vec![
                    (1, vec![Param::Float(1.25f32.to_bits())]),
                    (7, vec![Param::Float(360.0f32.to_bits())])
                ]),)]
            ),])
        )
    }
}

#[test]
fn read_single_byte_value() {
    let bytes: Vec<u8> = vec![0x73];

    let result = variable_width_value_parser(&bytes, 0);
    assert!(result.is_ok());
    if let Ok((value, value_size)) = result {
        assert_eq!((value, value_size), (0x73, 1),)
    }
}

#[test]
fn read_multi_byte_value() {
    let bytes: Vec<u8> = vec![0xF3, 0x42];

    let result = variable_width_value_parser(&bytes, 0);
    assert!(result.is_ok());
    if let Ok((value, value_size)) = result {
        assert_eq!((value, value_size), (0x2173, 2),)
    }
}

#[test]
fn read_negative_values() {
    let bytes: Vec<u8> = vec![0xF3, 0xFF, 0xFF, 0xFF, 0xFF, 0xFF, 0xFF, 0xFF, 0xFF, 0x01];

    let result = variable_width_value_parser(&bytes, 0);
    assert!(result.is_ok());
    if let Ok((value, value_size)) = result {
        assert_eq!((value, value_size), (-13, 10),)
    }
}

#[test]
fn read_32bit_negative_values() {
    let bytes: Vec<u8> = vec![0xF3, 0xFF, 0xFF, 0xFF, 0x0F];

    let result = variable_width_value_parser(&bytes, 0);
    assert!(result.is_ok());
    if let Ok((value, value_size)) = result {
        assert_eq!(
            // TODO: implement 32 bit reading because it is needed for UIHH_BIPU_GTS2MINI format
            // we can live without it for now
            (value as i32, value_size),
            (-13, 5),
        )
    }
}

#[test]
fn read_31_bit_value() {
    let bytes: Vec<u8> = vec![0x80, 0x80, 0x80, 0x80, 0x04];

    let result = variable_width_value_parser(&bytes, 0);
    assert!(result.is_ok());
    if let Ok((value, value_size)) = result {
        assert_eq!((value as i32, value_size), (1073741824, 5),)
    }
}

#[test]
fn read_32_bit_value() {
    let bytes: Vec<u8> = vec![0x80, 0x80, 0x80, 0x80, 0x08];

    let result = variable_width_value_parser(&bytes, 0);
    assert!(result.is_ok());
    if let Ok((value, value_size)) = result {
        assert_eq!((value, value_size), (2147483648, 5),)
    }
}

#[test]
fn read_33_bit_value() {
    let bytes: Vec<u8> = vec![0x80, 0x80, 0x80, 0x80, 0x10];

    let result = variable_width_value_parser(&bytes, 0);
    assert!(result.is_ok());
    if let Ok((value, value_size)) = result {
        assert_eq!((value, value_size), (4294967296, 5),)
    }
}

#[test]
fn write_small_value_on_one_byte() {
    assert_eq!(write_variable_width_value(0x73), vec![0x73],)
}

#[test]
fn write_bigger_values_on_multiple_bytes() {
    assert_eq!(write_variable_width_value(0x2173), vec![0xF3, 0x42],)
}

#[test]
fn write_negative_values() {
    assert_eq!(
        write_variable_width_value(-13),
        vec![0xF3, 0xFF, 0xFF, 0xFF, 0xFF, 0xFF, 0xFF, 0xFF, 0xFF, 0x01],
    )
}

// #[test]
// fn write_32bit_negative_values () {
//     assert_eq!(
//         write_variable_width_value(-13, 32),
//         vec![0xF3, 0xFF, 0xFF, 0xFF, 0x0F],
//     )
// }

#[test]
fn write_31_bit_value() {
    assert_eq!(
        write_variable_width_value(1073741824),
        vec![0x80, 0x80, 0x80, 0x80, 0x04],
    )
}

#[test]
fn write_32_bit_value() {
    assert_eq!(
        write_variable_width_value(2147483648),
        vec![0x80, 0x80, 0x80, 0x80, 0x08],
    )
}

#[test]
fn write_33_bit_value() {
    assert_eq!(
        write_variable_width_value(4294967296),
        vec![0x80, 0x80, 0x80, 0x80, 0x10],
    )
}
