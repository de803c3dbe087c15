use thermal_viewer::color_image::Rgba;
use thermal_viewer::fixed_point::FACTOR_ONE;
use thermal_viewer::temperature::{Temp, TempRange};
use thermal_viewer::thermal_data::{
    fourth_root, ThermalData, ThermalDataHistogram, ThermalDataPos, RADIOMETRIC_LIMIT,
};
use thermal_viewer::types::image_rotation::ImageRotation;

fn grid(width: usize, height: usize, units: &[i64]) -> ThermalData {
    assert_eq!(units.len(), width * height);
    ThermalData::new(width, height, units.iter().map(|&u| Temp::new(u)).collect())
}

fn units(data: &ThermalData) -> Vec<i64> {
    data.data.iter().map(|t| t.units).collect()
}

const ALL_ROTATIONS: [ImageRotation; 4] = [
    ImageRotation::Clockwise0,
    ImageRotation::Clockwise90,
    ImageRotation::Clockwise180,
    ImageRotation::Clockwise270,
];

#[test]
fn temperature_at_reads_row_after_row() {
    let g = grid(3, 2, &[1, 2, 3, 4, 5, 6]);
    assert_eq!(g.temperature_at(0, 0).units, 1);
    assert_eq!(g.temperature_at(2, 0).units, 3);
    assert_eq!(g.temperature_at(0, 1).units, 4);
    assert_eq!(g.temperature_at(2, 1).units, 6);
}

#[test]
fn rotated_by_nothing_is_pixel_identical() {
    let g = grid(3, 2, &[1, 2, 3, 4, 5, 6]);
    let r = g.rotated(ImageRotation::Clockwise0);
    assert_eq!((r.width, r.height), (3, 2));
    assert_eq!(units(&r), vec![1, 2, 3, 4, 5, 6]);
}

#[test]
fn rotated_a_quarter_turn_puts_the_left_column_on_top() {
    let g = grid(3, 2, &[1, 2, 3, 4, 5, 6]);
    let r = g.rotated(ImageRotation::Clockwise90);
    assert_eq!((r.width, r.height), (2, 3));
    assert_eq!(units(&r), vec![4, 1, 5, 2, 6, 3]);
}

#[test]
fn rotated_a_half_turn_reverses_the_pixels() {
    let g = grid(3, 2, &[1, 2, 3, 4, 5, 6]);
    let r = g.rotated(ImageRotation::Clockwise180);
    assert_eq!((r.width, r.height), (3, 2));
    assert_eq!(units(&r), vec![6, 5, 4, 3, 2, 1]);
}

#[test]
fn rotated_three_quarter_turns_puts_the_right_column_on_top() {
    let g = grid(3, 2, &[1, 2, 3, 4, 5, 6]);
    let r = g.rotated(ImageRotation::Clockwise270);
    assert_eq!((r.width, r.height), (2, 3));
    assert_eq!(units(&r), vec![3, 6, 2, 5, 1, 4]);
}

#[test]
fn rotation_round_trip_gives_the_grid_back() {
    let grids = [
        grid(3, 2, &[1, 2, 3, 4, 5, 6]),
        grid(1, 4, &[9, 8, 7, 6]),
        grid(4, 1, &[9, 8, 7, 6]),
        grid(2, 2, &[5, 5, 1, 5]),
        grid(0, 0, &[]),
        grid(1, 1, &[42]),
    ];
    for g in grids.iter() {
        for rotation in ALL_ROTATIONS {
            let back = g.rotated(rotation).rotated(rotation.inverse());
            assert_eq!((back.width, back.height), (g.width, g.height));
            assert_eq!(units(&back), units(g));
        }
    }
}

#[test]
fn four_quarter_turns_give_the_grid_back() {
    let g = grid(3, 2, &[1, 2, 3, 4, 5, 6]);
    let mut r = grid(3, 2, &[1, 2, 3, 4, 5, 6]);
    for _ in 0..4 {
        r = r.rotated(ImageRotation::Clockwise90);
    }
    assert_eq!(units(&r), units(&g));
    assert_eq!((r.width, r.height), (3, 2));
}

#[test]
fn min_max_positions_hold_the_extremes() {
    let g = grid(3, 2, &[300, 100, 200, 250, 900, 150]);
    let (min_pos, max_pos) = g.get_min_max_pos();
    assert_eq!(min_pos, ThermalDataPos::new(1, 0));
    assert_eq!(max_pos, ThermalDataPos::new(1, 1));
    assert_eq!(g.temperature_at(min_pos.x, min_pos.y).units, 100);
    assert_eq!(g.temperature_at(max_pos.x, max_pos.y).units, 900);
}

#[test]
fn min_max_positions_take_the_first_of_equal_extremes() {
    let g = grid(3, 3, &[5, 1, 9, 1, 9, 5, 9, 1, 5]);
    let (min_pos, max_pos) = g.get_min_max_pos();
    assert_eq!(min_pos, ThermalDataPos::new(1, 0));
    assert_eq!(max_pos, ThermalDataPos::new(2, 0));
}

#[test]
fn min_max_positions_of_a_flat_grid_are_the_top_left_corner() {
    let g = grid(2, 2, &[7, 7, 7, 7]);
    let (min_pos, max_pos) = g.get_min_max_pos();
    assert_eq!(min_pos, ThermalDataPos::new(0, 0));
    assert_eq!(max_pos, ThermalDataPos::new(0, 0));
    let top = grid(2, 1, &[i64::MAX, i64::MAX]);
    assert_eq!(top.get_min_max_pos(), (ThermalDataPos::new(0, 0), ThermalDataPos::new(0, 0)));
}

#[test]
fn min_max_positions_of_an_empty_grid_are_the_top_left_corner() {
    let g = grid(0, 0, &[]);
    assert_eq!(g.get_min_max_pos(), (ThermalDataPos::default(), ThermalDataPos::default()));
}

#[test]
fn min_max_positions_in_the_last_pixel() {
    let g = grid(2, 3, &[5, 5, 5, 5, 5, 4]);
    let (min_pos, max_pos) = g.get_min_max_pos();
    assert_eq!(min_pos, ThermalDataPos::new(1, 2));
    assert_eq!(max_pos, ThermalDataPos::new(0, 0));
}

#[test]
fn corrected_with_emissivity_one_is_the_identity() {
    let g = grid(3, 2, &[0, 17480, 20000, 65535, 1, RADIOMETRIC_LIMIT]);
    for ambient in [0i64, 1, 18922, 65535, RADIOMETRIC_LIMIT, i64::MAX, i64::MIN, -5] {
        let c = g.corrected(Temp::new(ambient), FACTOR_ONE);
        assert_eq!((c.width, c.height), (3, 2));
        assert_eq!(units(&c), units(&g));
    }
}

#[test]
fn corrected_follows_the_radiation_law() {
    let g = grid(1, 1, &[20000]);
    assert_eq!(units(&g.corrected(Temp::new(19000), 950_000)), vec![20048]);
    let g = grid(1, 1, &[17480]);
    assert_eq!(units(&g.corrected(Temp::new(18922), 900_000)), vec![17295]);
}

#[test]
fn corrected_is_absolute_zero_where_the_surroundings_outshine_the_body() {
    let g = grid(1, 1, &[19000]);
    assert_eq!(units(&g.corrected(Temp::new(20000), 100_000)), vec![0]);
}

#[test]
fn corrected_holds_the_emissivity_away_from_zero_and_under_one() {
    let g = grid(1, 1, &[30000]);
    assert_eq!(units(&g.corrected(Temp::new(18922), 0)), vec![908688]);
    assert_eq!(units(&g.corrected(Temp::new(18922), -7)), vec![908688]);
    let g = grid(1, 1, &[65535]);
    assert_eq!(units(&g.corrected(Temp::new(0), 1)), vec![2072398]);
    let g = grid(1, 1, &[20000]);
    assert_eq!(units(&g.corrected(Temp::new(19000), 2_000_000)), vec![20000]);
}

#[test]
fn corrected_with_emissivity_one_keeps_every_pixel_that_is_not_under_absolute_zero() {
    let g = grid(2, 2, &[0, RADIOMETRIC_LIMIT + 5, 1 << 40, i64::MAX]);
    for ambient in [0i64, 18922, RADIOMETRIC_LIMIT + 9, i64::MAX, i64::MIN] {
        assert_eq!(units(&g.corrected(Temp::new(ambient), FACTOR_ONE)), units(&g));
        assert_eq!(units(&g.corrected(Temp::new(ambient), FACTOR_ONE + 1)), units(&g));
    }
    let cold = grid(2, 1, &[-5, i64::MIN]);
    assert_eq!(units(&cold.corrected(Temp::new(100), FACTOR_ONE)), vec![0, 0]);
}

#[test]
fn corrected_holds_temperatures_within_the_radiometric_span_under_emissivity_one() {
    let g = grid(3, 1, &[-5, RADIOMETRIC_LIMIT + 5, i64::MAX]);
    let limit = grid(3, 1, &[0, RADIOMETRIC_LIMIT, RADIOMETRIC_LIMIT]);
    assert_eq!(
        units(&g.corrected(Temp::new(100), 999_999)),
        units(&limit.corrected(Temp::new(100), 999_999))
    );
    let hot = grid(1, 1, &[20000]);
    assert_eq!(
        units(&hot.corrected(Temp::new(i64::MAX), 950_000)),
        units(&hot.corrected(Temp::new(RADIOMETRIC_LIMIT), 950_000))
    );
}

#[test]
fn fourth_root_rounds_down() {
    assert_eq!(fourth_root(0), 0);
    assert_eq!(fourth_root(1), 1);
    assert_eq!(fourth_root(15), 1);
    assert_eq!(fourth_root(16), 2);
    assert_eq!(fourth_root(80), 2);
    assert_eq!(fourth_root(81), 3);
    assert_eq!(fourth_root(20000u128.pow(4)), 20000);
    assert_eq!(fourth_root(20000u128.pow(4) - 1), 19999);
    assert_eq!(fourth_root((1u128 << 120) - 1), (1 << 30) - 1);
}

#[test]
fn map_to_image_applies_the_callback_to_every_pixel() {
    let g = grid(2, 2, &[0, 10, 200, 255]);
    let img = g.map_to_image(|t: Temp| Rgba::from_rgb(t.units as u8, 0, 7));
    assert_eq!((img.width, img.height), (2, 2));
    assert_eq!(
        img.pixels,
        vec![
            Rgba::from_rgb(0, 0, 7),
            Rgba::from_rgb(10, 0, 7),
            Rgba::from_rgb(200, 0, 7),
            Rgba::from_rgb(255, 0, 7)
        ]
    );
}

fn counts(h: &ThermalDataHistogram) -> Vec<usize> {
    h.points.iter().map(|p| p.count).collect()
}

fn shares(h: &ThermalDataHistogram) -> Vec<i64> {
    h.points.iter().map(|p| p.factor).collect()
}

#[test]
fn histogram_of_four_pixels_over_three_buckets() {
    let g = grid(2, 2, &[0, 25, 50, 75]);
    let h = ThermalDataHistogram::from_thermal_data(
        &g,
        TempRange::new(Temp::new(0), Temp::new(75)),
        3,
    );
    // 75 lies at the upper end of the range, which belongs to no bucket.
    assert_eq!(counts(&h), vec![1, 1, 1]);
    assert_eq!(shares(&h), vec![250_000, 250_000, 250_000]);
    let middles: Vec<i64> = h.points.iter().map(|p| p.temperature.units).collect();
    assert_eq!(middles, vec![12, 37, 62]);
    assert!(shares(&h).iter().sum::<i64>() <= FACTOR_ONE);
}

#[test]
fn histogram_shares_add_up_to_one_when_no_pixel_is_outside() {
    let g = grid(2, 2, &[0, 25, 50, 74]);
    let h = ThermalDataHistogram::from_thermal_data(
        &g,
        TempRange::new(Temp::new(0), Temp::new(75)),
        3,
    );
    assert_eq!(counts(&h), vec![1, 1, 2]);
    assert_eq!(shares(&h), vec![250_000, 250_000, 500_000]);
    assert_eq!(shares(&h).iter().sum::<i64>(), FACTOR_ONE);
}

#[test]
fn histogram_drops_pixels_outside_the_range() {
    let g = grid(3, 2, &[-1, 0, 99, 100, 101, 50]);
    let h = ThermalDataHistogram::from_thermal_data(
        &g,
        TempRange::new(Temp::new(0), Temp::new(100)),
        4,
    );
    assert_eq!(counts(&h), vec![1, 0, 1, 1]);
    assert_eq!(shares(&h), vec![166_666, 0, 166_666, 166_666]);
    assert!(shares(&h).iter().sum::<i64>() < FACTOR_ONE);
}

#[test]
fn histogram_puts_each_pixel_in_the_bucket_of_its_place_in_the_range() {
    let g = grid(5, 1, &[0, 9, 10, 19, 20]);
    let h = ThermalDataHistogram::from_thermal_data(
        &g,
        TempRange::new(Temp::new(0), Temp::new(30)),
        3,
    );
    assert_eq!(counts(&h), vec![2, 2, 1]);
    assert_eq!(shares(&h), vec![400_000, 400_000, 200_000]);
}

#[test]
fn histogram_without_buckets_or_pixels() {
    let g = grid(2, 1, &[1, 2]);
    let none = ThermalDataHistogram::from_thermal_data(
        &g,
        TempRange::new(Temp::new(0), Temp::new(10)),
        0,
    );
    assert!(none.points.is_empty());
    let empty = grid(0, 0, &[]);
    let h = ThermalDataHistogram::from_thermal_data(
        &empty,
        TempRange::new(Temp::new(0), Temp::new(10)),
        2,
    );
    assert_eq!(counts(&h), vec![0, 0]);
    assert_eq!(shares(&h), vec![0, 0]);
}

#[test]
fn histogram_over_a_range_without_span() {
    let g = grid(3, 1, &[4, 5, 6]);
    let h = ThermalDataHistogram::from_thermal_data(
        &g,
        TempRange::new(Temp::new(5), Temp::new(5)),
        2,
    );
    assert_eq!(counts(&h), vec![1, 0]);
}

#[test]
fn histogram_over_the_widest_range() {
    let g = grid(3, 1, &[i64::MIN, 0, i64::MAX]);
    let h = ThermalDataHistogram::from_thermal_data(&g, TempRange::default(), 2);
    assert_eq!(counts(&h), vec![1, 1]);
}

#[test]
fn get_reads_a_pixel_if_there_is_one() {
    let g = grid(3, 2, &[1, 2, 3, 4, 5, 6]);
    assert_eq!(g.get(2, 1), Some(Temp::new(6)));
    assert_eq!(g.get(0, 0), Some(Temp::new(1)));
    assert_eq!(g.get(3, 0), None);
    assert_eq!(g.get(0, 2), None);
    assert_eq!(g.get(usize::MAX, usize::MAX), None);
}
