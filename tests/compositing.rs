use black_hole::average::average_color;
use black_hole::color::{combine, composite_layers, Accum, Color, Layer, ALPHA_ONE};

fn rgb(r: u8, g: u8, b: u8) -> Color {
    Color { r, g, b }
}

#[test]
fn combine_over_transparent_scales_by_alpha() {
    let front = Accum { color: rgb(0, 0, 0), alpha: 0 };
    let r = combine(front, rgb(200, 100, 40), ALPHA_ONE / 2);
    assert_eq!(r, Accum { color: rgb(100, 50, 20), alpha: ALPHA_ONE / 2 });
}

#[test]
fn combine_over_transparent_adds_to_front_color() {
    let front = Accum { color: rgb(10, 20, 250), alpha: 0 };
    let r = combine(front, rgb(100, 100, 100), ALPHA_ONE / 4);
    assert_eq!(r, Accum { color: rgb(35, 45, 255), alpha: ALPHA_ONE / 4 });
}

#[test]
fn combine_over_opaque_is_noop() {
    let front = Accum { color: rgb(7, 8, 9), alpha: ALPHA_ONE };
    let r = combine(front, rgb(255, 255, 255), ALPHA_ONE);
    assert_eq!(r, front);
}

#[test]
fn combine_partial_front() {
    let front = Accum { color: rgb(50, 0, 0), alpha: ALPHA_ONE / 2 };
    let r = combine(front, rgb(0, 200, 0), ALPHA_ONE / 2);
    assert_eq!(r, Accum { color: rgb(50, 50, 0), alpha: ALPHA_ONE * 3 / 4 });
}

#[test]
fn composite_in_one_pass_equals_in_two() {
    let layers = vec![
        Layer { color: rgb(200, 10, 0), alpha: 20000 },
        Layer { color: rgb(30, 90, 255), alpha: 40000 },
        Layer { color: rgb(0, 0, 50), alpha: ALPHA_ONE },
    ];
    let start = Accum { color: rgb(0, 0, 0), alpha: 0 };
    let all = composite_layers(start, &layers);
    let first = composite_layers(start, &layers[..2].to_vec());
    let both = composite_layers(first, &layers[2..].to_vec());
    assert_eq!(all, both);
    let stepwise = combine(combine(combine(start, layers[0].color, layers[0].alpha), layers[1].color, layers[1].alpha), layers[2].color, layers[2].alpha);
    assert_eq!(all, stepwise);
    assert_eq!(all.alpha, ALPHA_ONE);
}

#[test]
fn composite_alpha_never_decreases() {
    let mut acc = Accum { color: rgb(0, 0, 0), alpha: 0 };
    for a in [1000u64, 0, 30000, 65536, 500] {
        let next = combine(acc, rgb(90, 90, 90), a);
        assert!(next.alpha >= acc.alpha);
        assert!(next.alpha <= ALPHA_ONE);
        acc = next;
    }
}

#[test]
fn composite_of_nothing_is_start() {
    let start = Accum { color: rgb(1, 2, 3), alpha: 77 };
    assert_eq!(composite_layers(start, &Vec::new()), start);
}

#[test]
fn average_of_equal_samples_is_that_sample() {
    let c = rgb(13, 200, 77);
    assert_eq!(average_color(&vec![c; 9]), c);
    assert_eq!(average_color(&vec![c]), c);
}

#[test]
fn average_truncates_per_channel() {
    let colors = vec![rgb(0, 255, 10), rgb(1, 254, 11), rgb(1, 0, 12)];
    assert_eq!(average_color(&colors), rgb(0, 169, 11));
}
