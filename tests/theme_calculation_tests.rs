use theme_calculation::color::{
    active_text_color, complementary_color, normal_text_color, Rgb, RgbValues,
};
use theme_calculation::reduce::{average, median, prevalent, sort_ascending};
use theme_calculation::theme::{
    calculate_theme, channel, pixels_from_raw, reduce_channel, sample_dimension,
    theme_from_pixels, theme_from_primary, Centrality, Theme, ThemeError,
};

fn rgb(red: u8, green: u8, blue: u8) -> RgbValues {
    RgbValues { red, green, blue }
}

fn solid_image(width: u32, height: u32, color: RgbValues) -> Vec<u8> {
    let mut data = Vec::new();
    for _ in 0..(width * height) {
        data.push(color.red);
        data.push(color.green);
        data.push(color.blue);
    }
    data
}

#[test]
fn hex_is_six_lowercase_digits() {
    assert_eq!(rgb(0x1a, 0x2b, 0x3c).hex(), "1a2b3c");
    assert_eq!(rgb(0, 0, 0).hex(), "000000");
    assert_eq!(rgb(255, 255, 255).hex(), "ffffff");
    assert_eq!(rgb(10, 171, 5).hex(), "0aab05");
}

#[test]
fn get_reads_each_channel() {
    let c = rgb(1, 2, 3);
    assert_eq!(c.get(Rgb::Red), 1);
    assert_eq!(c.get(Rgb::Green), 2);
    assert_eq!(c.get(Rgb::Blue), 3);
}

#[test]
fn max_and_min_rank_channels() {
    assert_eq!(rgb(1, 2, 3).max(), Rgb::Blue);
    assert_eq!(rgb(1, 2, 3).min(), Rgb::Red);
    assert_eq!(rgb(9, 2, 3).max(), Rgb::Red);
    assert_eq!(rgb(9, 2, 3).min(), Rgb::Green);
    assert_eq!(rgb(5, 5, 5).max(), Rgb::Red);
    assert_eq!(rgb(5, 5, 5).min(), Rgb::Red);
    assert_eq!(rgb(4, 7, 7).max(), Rgb::Green);
}

#[test]
fn mean_of_literal_sequences() {
    assert_eq!(average(&[10, 20, 30]), 20);
    assert_eq!(average(&[1, 2]), 1);
    assert_eq!(average(&[7]), 7);
    assert_eq!(average(&[255; 1000]), 255);
    assert_eq!(average(&[0, 255, 255]), 170);
}

#[test]
fn mean_lies_between_min_and_max() {
    let samples: Vec<Vec<u8>> = vec![
        vec![3, 200, 17, 90],
        vec![0, 0, 1],
        vec![255, 254],
        vec![42],
    ];
    for s in samples {
        let m = average(&s);
        assert!(*s.iter().min().unwrap() <= m);
        assert!(m <= *s.iter().max().unwrap());
    }
}

#[test]
fn median_of_odd_and_even_lengths() {
    assert_eq!(median(&[10, 20, 30]), 20);
    assert_eq!(median(&[10, 20, 30, 40]), 25);
    assert_eq!(median(&[9]), 9);
    assert_eq!(median(&[1, 2]), 1);
    assert_eq!(median(&[0, 0, 255, 255, 255]), 255);
}

#[test]
fn sort_ascending_orders_bytes() {
    let mut v = vec![30, 10, 40, 20, 10];
    sort_ascending(&mut v);
    assert_eq!(v, vec![10, 10, 20, 30, 40]);
}

#[test]
fn reduce_channel_sorts_before_median() {
    assert_eq!(reduce_channel(vec![30, 10, 20], Centrality::Median), 20);
    assert_eq!(reduce_channel(vec![40, 10, 30, 20], Centrality::Median), 25);
    assert_eq!(reduce_channel(vec![40, 10, 30, 20], Centrality::Average), 25);
}

#[test]
fn prevalence_counter_finds_most_frequent() {
    let mut pixels = Vec::new();
    for _ in 0..3 {
        pixels.push(rgb(1, 1, 1));
    }
    for _ in 0..5 {
        pixels.push(rgb(2, 2, 2));
    }
    pixels.push(rgb(3, 3, 3));
    assert_eq!(prevalent(&pixels), rgb(2, 2, 2));
}

#[test]
fn prevalence_counter_on_a_tie_picks_the_first_to_reach_the_top_count() {
    let pixels = vec![rgb(1, 2, 3), rgb(4, 5, 6), rgb(4, 5, 6), rgb(1, 2, 3)];
    assert_eq!(prevalent(&pixels), rgb(4, 5, 6));
    let pixels = vec![rgb(7, 7, 7), rgb(1, 2, 3), rgb(4, 5, 6)];
    assert_eq!(prevalent(&pixels), rgb(7, 7, 7));
    let again = vec![rgb(7, 7, 7), rgb(1, 2, 3), rgb(4, 5, 6)];
    assert_eq!(prevalent(&again), prevalent(&pixels));
}

#[test]
fn median_of_unsorted_slice_reads_the_middle() {
    assert_eq!(median(&[30, 10, 20]), 10);
    assert_eq!(median(&[40, 10, 30, 20]), 20);
}

#[test]
fn complementary_colour_by_max_plus_min() {
    assert_eq!(complementary_color(&rgb(10, 20, 30)), rgb(30, 20, 10));
    assert_eq!(complementary_color(&rgb(255, 0, 0)), rgb(0, 255, 255));
    assert_eq!(complementary_color(&rgb(200, 100, 50)), rgb(50, 150, 200));
    assert_eq!(complementary_color(&rgb(7, 7, 7)), rgb(7, 7, 7));
}

#[test]
fn complementary_colour_twice_is_identity() {
    for c in [rgb(10, 20, 30), rgb(255, 0, 0), rgb(200, 100, 50), rgb(0, 128, 255)] {
        assert_eq!(complementary_color(&complementary_color(&c)), c);
    }
}

#[test]
fn text_colours_follow_brightness() {
    let bright = theme_from_primary(rgb(200, 200, 200));
    assert_eq!(bright.active_text_color, rgb(0, 0, 0));
    assert_eq!(bright.normal_text_color, rgb(60, 60, 60));
    let dark = theme_from_primary(rgb(10, 10, 10));
    assert_eq!(dark.active_text_color, rgb(255, 255, 255));
    assert_eq!(dark.normal_text_color, rgb(195, 195, 195));
}

#[test]
fn text_colours_need_all_channels_above_128() {
    assert_eq!(active_text_color(&rgb(129, 129, 129)), rgb(0, 0, 0));
    assert_eq!(active_text_color(&rgb(128, 255, 255)), rgb(255, 255, 255));
    assert_eq!(normal_text_color(&rgb(0, 0, 0)), rgb(60, 60, 60));
    assert_eq!(normal_text_color(&rgb(255, 255, 255)), rgb(195, 195, 195));
}

#[test]
fn theme_from_primary_assembles_all_colours() {
    assert_eq!(
        theme_from_primary(rgb(10, 20, 30)),
        Theme {
            primary_color: rgb(10, 20, 30),
            secondary_color: rgb(30, 20, 10),
            active_text_color: rgb(255, 255, 255),
            normal_text_color: rgb(195, 195, 195),
        }
    );
}

#[test]
fn pure_red_pixel_under_every_mode() {
    for centrality in [Centrality::Average, Centrality::Median, Centrality::Prevalent] {
        let theme = calculate_theme(1, 1, vec![255, 0, 0], centrality).unwrap();
        assert_eq!(theme.primary_color, rgb(255, 0, 0));
        assert_eq!(theme.secondary_color, rgb(0, 255, 255));
    }
}

#[test]
fn zero_pixel_image_is_empty() {
    assert_eq!(calculate_theme(0, 0, vec![], Centrality::Average), Err(ThemeError::EmptyImage));
    assert_eq!(calculate_theme(0, 5, vec![], Centrality::Median), Err(ThemeError::EmptyImage));
    assert_eq!(calculate_theme(5, 0, vec![], Centrality::Prevalent), Err(ThemeError::EmptyImage));
}

#[test]
fn mismatched_pixel_data_is_a_decode_failure() {
    assert_eq!(
        calculate_theme(2, 2, vec![1, 2, 3], Centrality::Average),
        Err(ThemeError::DecodeFailure)
    );
    assert_eq!(
        calculate_theme(0, 0, vec![1, 2, 3], Centrality::Prevalent),
        Err(ThemeError::DecodeFailure)
    );
}

#[test]
fn image_is_scaled_to_a_quarter_before_sampling() {
    // A 4 by 4 image becomes one pixel: the rounded mean of all sixteen.
    let mut data = Vec::new();
    for i in 0..16 {
        let v: u8 = if i % 2 == 0 { 0 } else { 200 };
        data.push(v);
        data.push(v);
        data.push(v);
    }
    let theme = calculate_theme(4, 4, data, Centrality::Prevalent).unwrap();
    assert_eq!(theme.primary_color, rgb(100, 100, 100));
}

#[test]
fn solid_image_keeps_its_colour() {
    for centrality in [Centrality::Average, Centrality::Median, Centrality::Prevalent] {
        let theme = calculate_theme(12, 8, solid_image(12, 8, rgb(200, 150, 100)), centrality)
            .unwrap();
        assert_eq!(theme.primary_color, rgb(200, 150, 100));
        assert_eq!(theme.secondary_color, rgb(100, 150, 200));
        assert_eq!(theme.active_text_color, rgb(255, 255, 255));
        assert_eq!(theme.normal_text_color, rgb(195, 195, 195));
    }
}

#[test]
fn sample_dimension_is_a_quarter_at_least_one() {
    assert_eq!(sample_dimension(1), 1);
    assert_eq!(sample_dimension(3), 1);
    assert_eq!(sample_dimension(4), 1);
    assert_eq!(sample_dimension(1000), 250);
    assert_eq!(sample_dimension(1003), 250);
}

#[test]
fn pixels_and_channels_from_raw_bytes() {
    let pixels = pixels_from_raw(&vec![1, 2, 3, 4, 5, 6, 7]);
    assert_eq!(pixels, vec![rgb(1, 2, 3), rgb(4, 5, 6)]);
    assert_eq!(channel(&pixels, Rgb::Red), vec![1, 4]);
    assert_eq!(channel(&pixels, Rgb::Green), vec![2, 5]);
    assert_eq!(channel(&pixels, Rgb::Blue), vec![3, 6]);
}

#[test]
fn theme_from_pixels_by_each_mode() {
    let pixels = vec![rgb(10, 200, 0), rgb(30, 100, 0), rgb(20, 0, 90), rgb(30, 100, 0)];
    let average = theme_from_pixels(&pixels, Centrality::Average).unwrap();
    assert_eq!(average.primary_color, rgb(22, 100, 22));
    let median = theme_from_pixels(&pixels, Centrality::Median).unwrap();
    assert_eq!(median.primary_color, rgb(25, 100, 0));
    let prevalent = theme_from_pixels(&pixels, Centrality::Prevalent).unwrap();
    assert_eq!(prevalent.primary_color, rgb(30, 100, 0));
    assert_eq!(prevalent.secondary_color, rgb(70, 0, 100));
    assert_eq!(theme_from_pixels(&vec![], Centrality::Median), Err(ThemeError::EmptyImage));
}
