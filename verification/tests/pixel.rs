use audio_visualizer::pixel::{
    Pixel, PixelStrip, PixelStripSerialize, Sample, Scope, COLOUR_SIZE, DEFAULT_MESSAGE_SIZE,
};

#[test]
fn pixel_new_defaults_to_black_at_zero() {
    let pixel = Pixel::new(None, None);
    assert_eq!(pixel.colour, [0, 0, 0]);
    assert!(pixel.on_status);
    assert_eq!(pixel.index, 0);
}

#[test]
fn pixel_new_takes_given_values() {
    let pixel = Pixel::new(Some([10, 20, 30]), Some(7));
    assert_eq!(pixel.colour, [10, 20, 30]);
    assert!(pixel.on_status);
    assert_eq!(pixel.index, 7);
}

#[test]
fn pixel_scope_new_is_ok() {
    assert_eq!(Scope::new(2, 6), Ok(Scope { start: 2, end: 6, size: 4 }));
}

#[test]
fn pixel_sample_applies_transform_once() {
    let data: &'static Vec<u32> = Box::leak(Box::new(vec![1, 2, 3, 4]));
    let scope = Scope::new(0, 4).unwrap();
    let sample: Sample<'static, u32, u32> = Sample::new(data, scope, Some(|v: &Vec<u32>| v.iter().sum::<u32>()));
    assert_eq!(*sample.data, vec![1, 2, 3, 4]);
    assert_eq!(sample.scope, scope);
    assert_eq!(sample.output_data, Some(10));
}

#[test]
fn pixel_sample_without_transform_has_no_output() {
    let data: &'static Vec<u32> = Box::leak(Box::new(vec![5]));
    let scope = Scope::new(0, 1).unwrap();
    let sample: Sample<'static, u32, u32> = Sample::new(data, scope, None::<fn(&Vec<u32>) -> u32>);
    assert_eq!(sample.output_data, None);
}

#[test]
fn pixel_strip_new_colours_each_position() {
    let scope = Scope::new(5, 8).unwrap();
    let strip = PixelStrip::new(scope, vec![[1, 2, 3], [4, 5, 6], [7, 8, 9]]).unwrap();
    assert_eq!(strip.strip.len(), 3);
    for (i, pixel) in strip.strip.iter().enumerate() {
        assert_eq!(pixel.index as usize, i);
        assert!(pixel.on_status);
    }
    assert_eq!(strip.strip[2].colour, [7, 8, 9]);
}

#[test]
fn pixel_strip_index_wraps_at_256() {
    let scope = Scope::new(0, 300).unwrap();
    let colours = vec![[9u8, 9, 9]; 300];
    let strip = PixelStrip::new(scope, colours).unwrap();
    assert_eq!(strip.strip[255].index, 255);
    assert_eq!(strip.strip[256].index, 0);
    assert_eq!(strip.strip[299].index, 43);
}

#[test]
fn packet_group_carries_pixel_of_its_number() {
    let scope = Scope::new(0, 6).unwrap();
    let colours = vec![[10, 11, 12], [20, 21, 22], [30, 31, 32], [40, 41, 42], [50, 51, 52], [60, 61, 62]];
    let strip = PixelStrip::new(scope, colours).unwrap();
    let packet = strip.get_packet().unwrap();
    assert_eq!(packet.len(), DEFAULT_MESSAGE_SIZE);
    assert_eq!(&packet[0..4], &[0, 10, 11, 12]);
    assert_eq!(&packet[4..8], &[1, 20, 21, 22]);
    assert_eq!(&packet[20..24], &[5, 60, 61, 62]);
    assert!(packet[24..].iter().all(|&b| b == 0));
}

#[test]
fn packet_of_two_pixels() {
    let strip = PixelStrip { strip: vec![Pixel::new(Some([1, 2, 3]), Some(0)), Pixel::new(Some([4, 5, 6]), Some(1))] };
    let packet = strip.get_packet().unwrap();
    assert_eq!(&packet[0..8], &[0, 1, 2, 3, 1, 4, 5, 6]);
    assert!(packet[8..].iter().all(|&b| b == 0));
}

#[test]
fn packet_sends_first_256_pixels() {
    let scope = Scope::new(0, 300).unwrap();
    let colours: Vec<[u8; 3]> = (0..300u32).map(|i| [(i % 256) as u8, 1, 2]).collect();
    let strip = PixelStrip::new(scope, colours).unwrap();
    let packet = strip.get_packet().unwrap();
    assert_eq!(&packet[1020..1024], &[255, 255, 1, 2]);
}

#[test]
fn packet_of_empty_strip_is_zero() {
    let strip = PixelStrip { strip: Vec::new() };
    let packet = strip.get_packet().unwrap();
    assert!(packet.iter().all(|&b| b == 0));
    assert_eq!(COLOUR_SIZE, 768);
}
