use falsedev_api::bitmap::{fill_color, FilterKind};
use falsedev_api::errors::Errors;
use falsedev_api::source::ImageJson;
use falsedev_api::template::{
    color_4, DrawText, Operation, Overlay, Step, Template, TemplateInputJson,
};

fn overlay(x: u32, y: u32, w: u32, h: u32, input_size: u32) -> Operation {
    Operation::Overlay(Overlay { coords: (x, y), resize: (w, h), input_size })
}

fn draw(x: u32, y: u32, max_width: usize, font: Option<&str>) -> Operation {
    Operation::DrawText(DrawText {
        coords: (x, y),
        color: color_4(),
        scale: (64 * 20, 64 * 20),
        max_width,
        font: font.map(|f| f.to_string()),
    })
}

fn template(operations: Vec<Operation>) -> Template {
    Template { name: "t".to_string(), startfile: "base.png".to_string(), operations }
}

fn input(texts: &[&str], images: usize) -> TemplateInputJson {
    TemplateInputJson {
        texts: texts.iter().map(|t| t.to_string()).collect(),
        images: (0..images).map(|_| ImageJson::Color(255, 0, 0)).collect(),
    }
}

#[test]
fn color_4_is_transparent() {
    assert_eq!(color_4(), [0, 0, 0, 0]);
}

#[test]
fn validate_accepts_matching_counts() {
    let t = template(vec![overlay(0, 0, 50, 50, 50), draw(10, 10, 20, None)]);
    assert!(t.validate(&input(&["Hi"], 1)).is_ok());
    assert!(template(vec![]).validate(&input(&[], 0)).is_ok());
}

#[test]
fn validate_names_expected_images() {
    let t = template(vec![overlay(0, 0, 5, 5, 5), draw(1, 1, 20, None), overlay(0, 0, 5, 5, 5)]);
    match t.validate(&input(&["Hi"], 1)) {
        Err(Errors::InvalidInput(text)) => assert_eq!(text, "Invalid number of images, expected 2"),
        other => panic!("unexpected {:?}", other),
    }
    match t.validate(&input(&["Hi"], 3)) {
        Err(Errors::InvalidInput(text)) => assert_eq!(text, "Invalid number of images, expected 2"),
        other => panic!("unexpected {:?}", other),
    }
}

#[test]
fn validate_names_expected_texts() {
    let t = template(vec![overlay(0, 0, 5, 5, 5), draw(1, 1, 20, None)]);
    match t.validate(&input(&[], 1)) {
        Err(Errors::InvalidInput(text)) => assert_eq!(text, "Invalid number of texts, expected 1"),
        other => panic!("unexpected {:?}", other),
    }
    match t.validate(&input(&["a", "b"], 1)) {
        Err(Errors::InvalidInput(text)) => assert_eq!(text, "Invalid number of texts, expected 1"),
        other => panic!("unexpected {:?}", other),
    }
}

#[test]
fn validate_reports_images_first() {
    let t = template(vec![overlay(0, 0, 5, 5, 5), draw(1, 1, 20, None)]);
    match t.validate(&input(&[], 0)) {
        Err(Errors::InvalidInput(text)) => assert_eq!(text, "Invalid number of images, expected 1"),
        other => panic!("unexpected {:?}", other),
    }
}

#[test]
fn overlay_sizes_follow_the_overlays() {
    let t = template(vec![
        draw(1, 1, 20, None),
        overlay(0, 0, 5, 5, 64),
        draw(1, 1, 20, None),
        overlay(0, 0, 5, 5, 0),
        overlay(0, 0, 5, 5, 128),
    ]);
    assert_eq!(t.overlay_sizes(), vec![64, 0, 128]);
    assert_eq!(template(vec![]).overlay_sizes(), Vec::<u32>::new());
}

#[test]
fn process_binds_inputs_by_position_and_kind() {
    let t = template(vec![
        draw(1, 2, 40, None),
        overlay(3, 4, 5, 6, 64),
        overlay(7, 8, 9, 10, 32),
        draw(11, 12, 40, Some("fancy.ttf")),
    ]);
    let steps = t.process(&input(&["first", "second"], 2), "default.ttf");
    assert_eq!(steps.len(), 4);
    match &steps[0] {
        Step::Write { text, coords, color, scale, font } => {
            assert_eq!(text, "first");
            assert_eq!(*coords, (1, 2));
            assert_eq!(*color, [0, 0, 0, 0]);
            assert_eq!(*scale, (1280, 1280));
            assert_eq!(font, "default.ttf");
        }
        other => panic!("unexpected {:?}", other),
    }
    assert!(matches!(
        steps[1],
        Step::Paste { layer: 0, overlay: Overlay { coords: (3, 4), resize: (5, 6), input_size: 64 } }
    ));
    assert!(matches!(
        steps[2],
        Step::Paste { layer: 1, overlay: Overlay { coords: (7, 8), resize: (9, 10), input_size: 32 } }
    ));
    match &steps[3] {
        Step::Write { text, font, coords, .. } => {
            assert_eq!(text, "second");
            assert_eq!(font, "fancy.ttf");
            assert_eq!(*coords, (11, 12));
        }
        other => panic!("unexpected {:?}", other),
    }
}

#[test]
fn process_wraps_text_at_max_width() {
    let t = template(vec![draw(0, 0, 15, None)]);
    let steps = t.process(&input(&["Memory safety without garbage collection."], 0), "d.ttf");
    match &steps[0] {
        Step::Write { text, .. } => {
            assert_eq!(text, "Memory safety\nwithout garbage\ncollection.")
        }
        other => panic!("unexpected {:?}", other),
    }
}

#[test]
fn overlay_pastes_the_layer_at_its_coordinates() {
    let base = fill_color([255, 255, 255], (8, 6));
    let layer = fill_color([255, 0, 0], (4, 4));
    let op = Overlay { coords: (2, 1), resize: (2, 2), input_size: 4 };
    let out = op.process(base, &layer, FilterKind::Nearest).unwrap();
    assert_eq!((out.width, out.height), (8, 6));
    for y in 0..6u32 {
        for x in 0..8u32 {
            let at = ((y * 8 + x) * 4) as usize;
            let inside = (2..4).contains(&x) && (1..3).contains(&y);
            let expected = if inside { [255, 0, 0, 255] } else { [255, 255, 255, 255] };
            assert_eq!(&out.data[at..at + 4], &expected, "pixel {} {}", x, y);
        }
    }
}

#[test]
fn overlay_scales_to_exactly_its_dimensions() {
    let base = fill_color([0, 0, 0], (10, 10));
    let layer = fill_color([0, 255, 0], (4, 2));
    let op = Overlay { coords: (0, 0), resize: (8, 8), input_size: 0 };
    let out = op.process(base, &layer, FilterKind::Nearest).unwrap();
    let green = |x: usize, y: usize| out.data[(y * 10 + x) * 4 + 1] == 255;
    assert!(green(0, 0) && green(7, 3) && green(0, 7) && green(7, 7));
    assert!(!green(0, 8) && !green(8, 0) && !green(8, 8));
}

#[test]
fn overlay_of_a_flat_layer_fills_a_square_box() {
    let base = fill_color([255, 255, 255], (60, 60));
    let layer = fill_color([255, 0, 0], (2, 1));
    let op = Overlay { coords: (5, 5), resize: (50, 50), input_size: 0 };
    let out = op.process(base, &layer, FilterKind::Triangle).unwrap();
    for y in 0..60usize {
        for x in 0..60usize {
            let at = (y * 60 + x) * 4;
            let inside = (5..55).contains(&x) && (5..55).contains(&y);
            let expected = if inside { [255, 0, 0, 255] } else { [255, 255, 255, 255] };
            assert_eq!(&out.data[at..at + 4], &expected, "pixel {} {}", x, y);
        }
    }
}

#[test]
fn overlay_clips_at_the_edge() {
    let base = fill_color([0, 0, 0], (4, 4));
    let layer = fill_color([9, 9, 9], (4, 4));
    let op = Overlay { coords: (3, 3), resize: (4, 4), input_size: 4 };
    let out = op.process(base, &layer, FilterKind::Triangle).unwrap();
    assert_eq!(&out.data[(3 * 4 + 3) * 4..], &[9, 9, 9, 255]);
    assert_eq!(&out.data[0..4], &[0, 0, 0, 255]);
}

#[test]
fn overlay_refuses_an_empty_layer() {
    let base = fill_color([0, 0, 0], (4, 4));
    let layer = fill_color([9, 9, 9], (0, 4));
    let op = Overlay { coords: (0, 0), resize: (4, 4), input_size: 4 };
    assert!(matches!(
        op.process(base, &layer, FilterKind::Nearest),
        Err(Errors::InvalidInput(text)) if text == "Overlay image has no pixels"
    ));
}

#[test]
fn end_to_end_overlay_shows_solid_red() {
    let t = template(vec![overlay(0, 0, 50, 50, 50), draw(10, 10, 20, None)]);
    let request = TemplateInputJson {
        texts: vec!["Hi".to_string()],
        images: vec![ImageJson::Color(255, 0, 0)],
    };
    assert!(t.validate(&request).is_ok());
    let sizes = t.overlay_sizes();
    assert_eq!(sizes, vec![50]);
    let layers: Vec<_> = request
        .images
        .iter()
        .zip(sizes.iter())
        .map(|(image, size)| image.to_image(*size, &Vec::new()).unwrap())
        .collect();
    let base = fill_color([255, 255, 255], (100, 80));
    let untouched = base.data.clone();
    let mut working = base;
    let mut written = Vec::new();
    for step in t.process(&request, "default.ttf") {
        match step {
            Step::Paste { layer, overlay } => {
                working = overlay.process(working, &layers[layer], FilterKind::Nearest).unwrap();
            }
            Step::Write { text, font, .. } => written.push((text, font)),
        }
    }
    assert_eq!(written, vec![("Hi".to_string(), "default.ttf".to_string())]);
    assert_eq!((working.width, working.height), (100, 80));
    assert_ne!(working.data, untouched);
    for y in 0..80usize {
        for x in 0..100usize {
            let at = (y * 100 + x) * 4;
            let expected =
                if x < 50 && y < 50 { [255, 0, 0, 255] } else { [255, 255, 255, 255] };
            assert_eq!(&working.data[at..at + 4], &expected);
        }
    }
}

#[test]
fn draw_text_binds_its_text() {
    let op = DrawText {
        coords: (5, 6),
        color: [1, 2, 3, 4],
        scale: (640, 1280),
        max_width: 5,
        font: None,
    };
    match op.process("aaa bbb ccc", "base.ttf") {
        Step::Write { text, coords, color, scale, font } => {
            assert_eq!(text, "aaa\nbbb\nccc");
            assert_eq!(coords, (5, 6));
            assert_eq!(color, [1, 2, 3, 4]);
            assert_eq!(scale, (640, 1280));
            assert_eq!(font, "base.ttf");
        }
        other => panic!("unexpected {:?}", other),
    }
}

#[test]
fn overlay_into_a_flat_box() {
    let base = fill_color([0, 0, 0], (6, 6));
    let layer = fill_color([0, 0, 255], (4, 2));
    let op = Overlay { coords: (1, 1), resize: (4, 1), input_size: 0 };
    let out = op.process(base, &layer, FilterKind::Nearest).unwrap();
    let blue = |x: usize, y: usize| out.data[(y * 6 + x) * 4 + 2] == 255;
    assert!(blue(1, 1) && blue(2, 1) && blue(3, 1) && blue(4, 1));
    assert!(!blue(5, 1) && !blue(1, 2) && !blue(0, 1) && !blue(1, 0));
}

#[test]
fn overlay_with_an_empty_box_pastes_nothing() {
    let base = fill_color([7, 7, 7], (4, 4));
    let layer = fill_color([0, 0, 255], (2, 2));
    let op = Overlay { coords: (1, 1), resize: (0, 3), input_size: 0 };
    let out = op.process(base, &layer, FilterKind::Gaussian).unwrap();
    assert!(out.data.chunks(4).all(|p| p == [7, 7, 7, 255]));
}

#[test]
fn overlay_refuses_long_edges_with_a_weighted_filter() {
    let long = Overlay { coords: (0, 0), resize: (0x10_0001, 1), input_size: 0 };
    for filter in [
        FilterKind::Triangle,
        FilterKind::CatmullRom,
        FilterKind::Gaussian,
        FilterKind::Lanczos3,
    ] {
        let base = fill_color([0, 0, 0], (4, 4));
        let layer = fill_color([9, 9, 9], (2, 2));
        assert!(matches!(
            long.process(base, &layer, filter),
            Err(Errors::SizeLimit(text)) if text == "Overlay size is too large"
        ));
    }
    let base = fill_color([0, 0, 0], (4, 4));
    let layer = fill_color([9, 9, 9], (2, 2));
    let out = long.process(base, &layer, FilterKind::Nearest).unwrap();
    assert_eq!(&out.data[0..4], &[9, 9, 9, 255]);
    let edge = Overlay { coords: (0, 0), resize: (0x10_0000, 1), input_size: 0 };
    let base = fill_color([0, 0, 0], (4, 4));
    let layer = fill_color([9, 9, 9], (2, 2));
    assert!(edge.process(base, &layer, FilterKind::Triangle).is_ok());
}

#[test]
fn overlay_refuses_a_box_beyond_memory() {
    let base = fill_color([0, 0, 0], (4, 4));
    let layer = fill_color([9, 9, 9], (2, 2));
    let op = Overlay { coords: (0, 0), resize: (u32::MAX, u32::MAX), input_size: 0 };
    assert!(matches!(
        op.process(base, &layer, FilterKind::Nearest),
        Err(Errors::SizeLimit(text)) if text == "Overlay size is too large"
    ));
}
