use watchface_rs::common::{
    Alignment, AlignmentInternal, Decimal, HandKind, ImageType, ImageWithCoords, ImgId,
    PreviewError, PreviewParams,
};
use watchface_rs::elements::{Coordinates, ImageRange, ImageReference, NumberInRect, VectorShape};
use watchface_rs::image::Image;
use watchface_rs::miband::{
    Activity, AnalogDialFace, Background, Date, HeartProgress, Linear, MiBandParams,
    MonthAndDayAndYear, Separate, Steps, Time, TimeNumbers, WeekDaysIcons,
};
use watchface_rs::parser::Watchface;
use watchface_rs::preview::{
    compute_position_with_aligment, number_get_image_ids, number_get_images, text_get_images,
};
use watchface_rs::rounding::progress_position_u128;
use watchface_rs::miband_preview::{ParamType, Preview};
use watchface_rs::miband::Distance;

fn image(width: u16, height: u16) -> Image {
    Image {
        width,
        height,
        ..Default::default()
    }
}

fn at(x: i32, y: i32, id: u32) -> ImageWithCoords {
    ImageWithCoords {
        x,
        y,
        image_type: ImageType::Id(ImgId(id)),
    }
}

fn steps_number(alignment: AlignmentInternal) -> NumberInRect {
    NumberInRect {
        top_left_x: 10,
        top_left_y: 20,
        bottom_right_x: 100,
        bottom_right_y: 50,
        alignment: Alignment::Valid(alignment),
        spacing_x: 1,
        spacing_y: 0,
        image_index: Some(ImgId(1)),
        images_count: Some(10),
    }
}

#[test]
fn generate_simple_preview() {
    let watchface = Watchface {
        parameters: Some(MiBandParams {
            background: Some(Background {
                image: Some(ImageReference {
                    x: 1,
                    y: 128,
                    image_index: Some(ImgId(0)),
                }),
                ..Default::default()
            }),
            ..Default::default()
        }),
        images: vec![image(2, 1)],
    };
    let preview = watchface.generate_preview(None);
    assert_eq!(
        preview,
        vec![ImageWithCoords {
            x: 1,
            y: 128,
            image_type: ImageType::Id(ImgId(0)),
        },]
    )
}

#[test]
fn generate_preview_with_time() {
    let range = |x: i32, y: i32| {
        Some(ImageRange {
            x,
            y,
            image_index: Some(ImgId(1)),
            images_count: Some(10),
        })
    };
    let watchface = Watchface {
        parameters: Some(MiBandParams {
            background: Some(Background {
                image: Some(ImageReference {
                    x: 1,
                    y: 258,
                    image_index: Some(ImgId(0)),
                }),
                ..Default::default()
            }),
            time: Some(Time {
                hours: Some(TimeNumbers {
                    tens: range(10, 20),
                    ones: range(15, 20),
                }),
                minutes: Some(TimeNumbers {
                    tens: range(10, 40),
                    ones: range(15, 40),
                }),
                ..Default::default()
            }),
            ..Default::default()
        }),
        images: (0..11).map(|_| image(2, 1)).collect(),
    };
    let preview = watchface.generate_preview(Some(PreviewParams {
        hours: Some(11),
        minutes: Some(6),
        ..Default::default()
    }));
    assert_eq!(
        preview,
        vec![
            at(1, 258, 0),  // background
            at(10, 20, 2),  // hours first digit 1
            at(15, 20, 2),  // hours second digit 1
            at(10, 40, 1),  // minutes first digit 0
            at(15, 40, 7),  // minutes second digit 6
        ]
    )
}

fn steps_watchface(background: (i32, i32), alignment: AlignmentInternal) -> Watchface<MiBandParams> {
    let mut images = vec![image(2, 1)];
    images.extend((0..10).map(|_| image(5, 8)));
    Watchface {
        parameters: Some(MiBandParams {
            background: Some(Background {
                image: Some(ImageReference {
                    x: background.0,
                    y: background.1,
                    image_index: Some(ImgId(0)),
                }),
                ..Default::default()
            }),
            activity: Some(Activity {
                steps: Some(Steps {
                    number: Some(steps_number(alignment)),
                    ..Default::default()
                }),
                ..Default::default()
            }),
            ..Default::default()
        }),
        images,
    }
}

#[test]
fn generate_preview_with_steps() {
    let watchface = steps_watchface((1, 39), AlignmentInternal::CenterLeft);
    let preview = watchface.generate_preview(Some(PreviewParams {
        steps: Some(1284),
        ..Default::default()
    }));
    assert_eq!(
        preview,
        vec![
            at(1, 39, 0),  // background
            at(10, 31, 2), // digit 1
            at(16, 31, 3), // digit 2
            at(22, 31, 9), // digit 8
            at(28, 31, 5), // digit 4
        ]
    )
}

#[test]
fn generate_preview_with_top_center_alignment() {
    let watchface = steps_watchface((16, 79), AlignmentInternal::TopCenter);
    let preview = watchface.generate_preview(Some(PreviewParams {
        steps: Some(1284),
        ..Default::default()
    }));
    assert_eq!(
        preview,
        vec![
            at(16, 79, 0), // background
            at(44, 20, 2), // digit 1
            at(50, 20, 3), // digit 2
            at(56, 20, 9), // digit 8
            at(62, 20, 5), // digit 4
        ]
    )
}

#[test]
fn position_at_lower_bound_when_left_aligned() {
    assert_eq!(compute_position_with_aligment(10, 100, 40, 0x02), 10);
}

#[test]
fn position_against_upper_bound_when_right_aligned() {
    assert_eq!(compute_position_with_aligment(10, 100, 40, 0x04), 60);
    // never before the lower bound
    assert_eq!(compute_position_with_aligment(10, 30, 40, 0x04), 10);
}

#[test]
fn position_centered_rounds_half_away_from_zero() {
    assert_eq!(compute_position_with_aligment(10, 100, 23, 0x08), 44);
    assert_eq!(compute_position_with_aligment(-100, -10, 23, 0), -67);
    assert_eq!(compute_position_with_aligment(-100, 0, 3, 0), -52);
    // never before the lower bound
    assert_eq!(compute_position_with_aligment(-100, -95, 200, 0), -100);
    assert_eq!(compute_position_with_aligment(-2000, 100, 3, 0), -952);
}

#[test]
fn position_centered_rounds_like_single_precision() {
    // 2^24 + 1 is not a single-precision number: it rounds to 2^24
    assert_eq!(compute_position_with_aligment(0, 16_777_217, 0, 0), 8_388_608);
    // 2^24 + 3 rounds to 2^24 + 4
    assert_eq!(compute_position_with_aligment(0, 16_777_219, 0, 0), 8_388_610);
}

#[test]
fn decimal_of_large_values_rounds_like_single_precision() {
    assert_eq!(Decimal::from_u32(1284).int_part, 1284);
    assert_eq!(Decimal::from_u32(16_777_217).int_part, 16_777_216);
    assert_eq!(Decimal::from_u32(u32::MAX).int_part, u32::MAX);
    let negative = Decimal::from_i32(-26);
    assert!(negative.negative);
    assert_eq!(negative.int_part, 26);
    assert_eq!(Decimal::from_i32(i32::MIN).int_part, 2_147_483_648);
}

#[test]
fn number_ids_with_sign_width_and_decimal_point() {
    let number = steps_number(AlignmentInternal::Center);
    let value = Decimal {
        negative: true,
        int_part: 7,
        hundredths: 5,
    };
    let ids = number_get_image_ids(&number, value, &Some(ImgId(20)), &Some(ImgId(30)), Some(3));
    // minus, 0, 0, 7, point, 0, 5
    assert_eq!(ids, Ok(vec![30, 1, 1, 8, 20, 1, 6]));
    let zero = Decimal::default();
    assert_eq!(number_get_image_ids(&number, zero, &None, &None, None), Ok(vec![1]));
}

#[test]
fn number_ids_overflow_is_an_error() {
    let mut number = steps_number(AlignmentInternal::Center);
    number.image_index = Some(ImgId(u32::MAX - 3));
    let value = Decimal {
        negative: false,
        int_part: 5,
        hundredths: 0,
    };
    assert_eq!(
        number_get_image_ids(&number, value, &None, &None, None),
        Err(PreviewError::Invalid)
    );
}

#[test]
fn text_layout_of_two_images() {
    let number = NumberInRect {
        top_left_x: 0,
        top_left_y: 0,
        bottom_right_x: 100,
        bottom_right_y: 100,
        alignment: Alignment::Valid(AlignmentInternal::BottomRight),
        spacing_x: 2,
        spacing_y: 3,
        image_index: None,
        images_count: None,
    };
    let images = vec![image(10, 20), image(6, 4)];
    // width 10 + 2 + 6 = 18, placed against the right; each image against the bottom,
    // moved down by 3 for each before it
    let res = text_get_images(&number, vec![0, 1], &images);
    assert_eq!(res, vec![at(82, 80, 0), at(94, 99, 1)]);
}

#[test]
fn number_with_missing_image_is_an_error() {
    let number = steps_number(AlignmentInternal::Center);
    let images = vec![image(5, 8)];
    let res = number_get_images(
        &Some(number),
        Decimal::from_u32(3),
        &images,
        &None,
        &None,
        &None,
        &None,
        None,
    );
    assert_eq!(res, Err(PreviewError::Invalid));
}

#[test]
fn sunday_shows_the_last_weekday_icon() {
    let watchface = Watchface {
        parameters: Some(MiBandParams {
            week_days_icons: Some(WeekDaysIcons {
                monday: Some(ImageReference { x: 1, y: 2, image_index: Some(ImgId(10)) }),
                sunday: Some(ImageReference { x: 3, y: 4, image_index: Some(ImgId(16)) }),
                ..Default::default()
            }),
            ..Default::default()
        }),
        images: vec![],
    };
    let params = PreviewParams {
        weekday: Some(6),
        ..Default::default()
    };
    assert_eq!(
        watchface.try_generate_preview(Some(params)),
        Ok(vec![ImageWithCoords { x: 3, y: 4, image_type: ImageType::Id(ImgId(16)) }])
    );
    let params = PreviewParams {
        weekday: Some(0),
        ..Default::default()
    };
    assert_eq!(
        watchface.try_generate_preview(Some(params)),
        Ok(vec![ImageWithCoords { x: 1, y: 2, image_type: ImageType::Id(ImgId(10)) }])
    );
}

#[test]
fn month_zero_is_an_error() {
    let watchface = Watchface {
        parameters: Some(MiBandParams {
            date: Some(Date {
                month_and_day_and_year: Some(MonthAndDayAndYear {
                    separate: Some(Separate::default()),
                    ..Default::default()
                }),
                ..Default::default()
            }),
            ..Default::default()
        }),
        images: vec![],
    };
    let params = PreviewParams {
        month: Some(0),
        ..Default::default()
    };
    assert_eq!(watchface.try_generate_preview(Some(params)), Err(PreviewError::Invalid));
}

#[test]
fn progress_bars_scales_and_hands() {
    let watchface = Watchface {
        parameters: Some(MiBandParams {
            heart_progress: Some(HeartProgress {
                line_scale: Some(ImageRange {
                    x: 3,
                    y: 4,
                    image_index: Some(ImgId(10)),
                    images_count: Some(5),
                }),
                linear: Some(Linear {
                    start_image_index: Some(ImgId(20)),
                    segments: vec![
                        Coordinates { x: 1, y: 2 },
                        Coordinates { x: 5, y: 6 },
                        Coordinates { x: 9, y: 10 },
                    ],
                }),
                ..Default::default()
            }),
            analog_dial_face: Some(AnalogDialFace {
                hours: Some(VectorShape {
                    color: Some(watchface_rs::common::Color(1, 2, 3, 4)),
                    center: Some(Coordinates { x: 60, y: 140 }),
                    shape: vec![Coordinates { x: 0, y: 0 }, Coordinates { x: 0, y: -40 }],
                    ..Default::default()
                }),
                ..Default::default()
            }),
            ..Default::default()
        }),
        images: vec![],
    };
    let params = PreviewParams {
        heart_progress: Some(50),
        hours: Some(3),
        ..Default::default()
    };
    let preview = watchface.try_generate_preview(Some(params)).unwrap();
    assert_eq!(
        preview,
        vec![
            // 50% of the 2 segments after the first: up to the second
            at(1, 2, 20),
            at(5, 6, 21),
            // 50% of the 4 images after the first: the third
            at(3, 4, 12),
            ImageWithCoords {
                x: 0,
                y: 0,
                image_type: ImageType::Hand(HandKind::Hours, 3),
            },
        ]
    );
    // past 100% the bar runs out of segments
    let params = PreviewParams {
        heart_progress: Some(200),
        ..Default::default()
    };
    assert_eq!(watchface.try_generate_preview(Some(params)), Err(PreviewError::Invalid));
}

#[test]
fn progress_steps_round_like_single_precision() {
    for value in 0u32..=150 {
        for steps in (0u64..=120).chain([1000, 65_535, 16_777_217, 4_294_967_295]) {
            let expected = (value as f32 / 100. * steps as f32).round() as u128;
            assert_eq!(progress_position_u128(value, steps), expected, "{value} {steps}");
        }
    }
    for value in [1_000_000u32, 16_777_217, 4_000_000_000, u32::MAX] {
        for steps in [1u64, 3, 99, 1 << 40, u64::MAX] {
            let expected = (value as f32 / 100. * steps as f32).round() as u128;
            assert_eq!(progress_position_u128(value, steps), expected, "{value} {steps}");
        }
    }
    // 53% of 50: 0.53 held in single precision is just below, so the step is 26
    assert_eq!(progress_position_u128(53, 50), 26);
    // 0% reaches the first step, 100% the last
    assert_eq!(progress_position_u128(0, 7), 0);
    assert_eq!(progress_position_u128(100, 7), 7);
    assert_eq!(progress_position_u128(100, 16_777_215), 16_777_215);
}

#[test]
fn linear_progress_places_segments_up_to_the_step() {
    let linear = Linear {
        start_image_index: Some(ImgId(20)),
        segments: vec![
            Coordinates { x: 1, y: 2 },
            Coordinates { x: 5, y: 6 },
            Coordinates { x: 9, y: 10 },
        ],
    };
    assert_eq!(linear.progress_images(1), Ok(vec![at(1, 2, 20), at(5, 6, 21)]));
    assert_eq!(linear.progress_images(3), Err(PreviewError::Invalid));
}

#[test]
fn elements_preview_with_the_values_passed_to_them() {
    let range = Some(ImageRange {
        x: 1,
        y: 2,
        image_index: Some(ImgId(5)),
        images_count: None,
    });
    let mut out = vec![];
    assert_eq!(range.get_images(&mut out, &None, &vec![ParamType::U32(Some(3))], &vec![]), Ok(()));
    assert_eq!(out, vec![at(1, 2, 8)]);
    // a value of another kind shows nothing
    let mut out = vec![];
    assert_eq!(range.get_images(&mut out, &None, &vec![ParamType::Bool(true)], &vec![]), Ok(()));
    assert_eq!(out, vec![]);

    let distance = Some(Distance {
        number: Some(NumberInRect {
            alignment: Alignment::Valid(AlignmentInternal::Left),
            bottom_right_x: 100,
            bottom_right_y: 10,
            image_index: Some(ImgId(0)),
            ..Default::default()
        }),
        decimal_point_image_index: Some(ImgId(10)),
        ..Default::default()
    });
    let images: Vec<Image> = (0..11).map(|_| image(3, 2)).collect();
    let value = Decimal {
        negative: false,
        int_part: 14,
        hundredths: 62,
    };
    let mut out = vec![];
    assert_eq!(
        distance.get_images(&mut out, &None, &vec![ParamType::Decimal(Some(value))], &images),
        Ok(())
    );
    let ids: Vec<ImageType> = out.into_iter().map(|i| i.image_type).collect();
    assert_eq!(
        ids,
        [1, 4, 10, 6, 2].iter().map(|&i| ImageType::Id(ImgId(i))).collect::<Vec<_>>()
    );
}
