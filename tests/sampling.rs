use black_hole::color::{Accum, Color, ALPHA_ONE};
use black_hole::disk::{crosses_plane, deposit, disk_intensity, disk_position, Side, RADIUS_UNIT};
use black_hole::photon::{absorb, classify, escape, step_duration, Phase, TIME_UNIT};
use black_hole::skybox::{face_coord, face_frame, sky_color, Direction, Face, Skybox, DIR_UNIT};
use black_hole::texture::Texture;

fn rgb(r: u8, g: u8, b: u8) -> Color {
    Color { r, g, b }
}

fn uniform(w: u32, h: u32, c: Color) -> Texture {
    let mut data = Vec::new();
    for _ in 0..(w * h) {
        data.push(c.r);
        data.push(c.g);
        data.push(c.b);
    }
    Texture::new(w, h, data).unwrap()
}

fn marked_center(c: Color) -> Texture {
    let mut data = vec![0u8; 5 * 5 * 3];
    let i = 3 * (2 * 5 + 2);
    data[i] = c.r;
    data[i + 1] = c.g;
    data[i + 2] = c.b;
    Texture::new(5, 5, data).unwrap()
}

fn marked_sky() -> Skybox {
    Skybox {
        front: marked_center(rgb(1, 0, 0)),
        back: marked_center(rgb(2, 0, 0)),
        left: marked_center(rgb(3, 0, 0)),
        right: marked_center(rgb(4, 0, 0)),
        top: marked_center(rgb(5, 0, 0)),
        bottom: marked_center(rgb(6, 0, 0)),
    }
}

fn transparent() -> Accum {
    Accum { color: rgb(0, 0, 0), alpha: 0 }
}

#[test]
fn texture_reads_rows_top_to_bottom() {
    let sky = Skybox {
        front: Texture::new(3, 3, (0..27u8).collect()).unwrap(),
        back: Texture::new(3, 3, vec![0; 27]).unwrap(),
        left: Texture::new(3, 3, vec![0; 27]).unwrap(),
        right: Texture::new(3, 3, vec![0; 27]).unwrap(),
        top: Texture::new(3, 3, vec![0; 27]).unwrap(),
        bottom: Texture::new(3, 3, vec![0; 27]).unwrap(),
    };
    // straight ahead lands on the middle pixel, index 4
    assert_eq!(sky_color(&sky, Direction { x: 0, y: 0, z: 1 }), rgb(12, 13, 14));
    // 45 degrees off the axis on both sides lands on the last column of the last row
    assert_eq!(sky_color(&sky, Direction { x: 1, y: 1, z: 1 }), rgb(24, 25, 26));
}

#[test]
fn texture_with_exact_data_is_some() {
    assert!(Texture::new(2, 2, vec![0; 12]).is_some());
    assert!(Texture::new(0, 7, Vec::new()).is_some());
}

#[test]
fn texture_from_short_data_is_none() {
    assert!(Texture::new(2, 2, vec![0; 11]).is_none());
    assert!(Texture::new(u32::MAX, u32::MAX, vec![0; 3]).is_none());
}

#[test]
fn skybox_right_face_center() {
    let d = Direction { x: 1, y: 0, z: 0 };
    assert_eq!(face_frame(d).0, Face::Right);
    assert_eq!(sky_color(&marked_sky(), d), rgb(4, 0, 0));
}

#[test]
fn skybox_bottom_face_center() {
    let d = Direction { x: 0, y: -1, z: 0 };
    assert_eq!(face_frame(d).0, Face::Bottom);
    assert_eq!(sky_color(&marked_sky(), d), rgb(6, 0, 0));
}

#[test]
fn skybox_back_face_center() {
    let d = Direction { x: 0, y: 0, z: -1 };
    assert_eq!(face_frame(d).0, Face::Back);
    assert_eq!(sky_color(&marked_sky(), d), rgb(2, 0, 0));
}

#[test]
fn skybox_frames_of_each_face() {
    assert_eq!(face_frame(Direction { x: -9, y: 2, z: 3 }), (Face::Left, 9, 3, 2));
    assert_eq!(face_frame(Direction { x: 1, y: 9, z: 3 }), (Face::Top, 9, 1, -3));
    assert_eq!(face_frame(Direction { x: 1, y: 2, z: 9 }), (Face::Front, 9, 1, 2));
    assert_eq!(face_frame(Direction { x: 9, y: 2, z: 3 }), (Face::Right, 9, -3, 2));
    assert_eq!(face_frame(Direction { x: 5, y: 5, z: 5 }), (Face::Front, 5, 5, 5));
}

#[test]
fn face_coord_rounds_projection() {
    assert_eq!(face_coord(512, 0, DIR_UNIT), 256);
    assert_eq!(face_coord(512, DIR_UNIT, DIR_UNIT), 511);
    assert_eq!(face_coord(512, -DIR_UNIT, DIR_UNIT), 0);
    assert_eq!(face_coord(512, 1, 2), 417);
    assert_eq!(face_coord(512, -1, 2), 94);
    assert_eq!(face_coord(1, 3, 4), 0);
}

#[test]
fn plane_crossing_rule() {
    assert!(crosses_plane(Side::Above, Side::Below));
    assert!(crosses_plane(Side::Below, Side::Above));
    assert!(crosses_plane(Side::On, Side::Above));
    assert!(crosses_plane(Side::Below, Side::On));
    assert!(!crosses_plane(Side::Above, Side::Above));
    assert!(!crosses_plane(Side::Below, Side::Below));
}

#[test]
fn disk_intensity_values() {
    assert_eq!(disk_intensity(3 * RADIUS_UNIT as u64), 61303);
    assert_eq!(disk_intensity(5 * RADIUS_UNIT as u64), 51810);
    assert!(disk_intensity(10 * RADIUS_UNIT as u64 - 1) > 0);
}

#[test]
fn disk_position_maps_center_and_rejects_outside() {
    assert_eq!(disk_position(600, 400, 0, 0), Some((300, 200)));
    assert_eq!(disk_position(600, 600, 0, -5 * RADIUS_UNIT), Some((300, 50)));
    assert_eq!(disk_position(100, 100, 5 * RADIUS_UNIT, 0), None);
    assert_eq!(disk_position(100, 100, -5 * RADIUS_UNIT, 0), None);
}

#[test]
fn deposit_without_crossing_or_outside_band_changes_nothing() {
    let disk = uniform(600, 600, rgb(200, 100, 0));
    let acc = transparent();
    assert_eq!(deposit(acc, &disk, Side::Above, Side::Above, 0, -5 * RADIUS_UNIT), acc);
    assert_eq!(deposit(acc, &disk, Side::Above, Side::Below, 0, -2 * RADIUS_UNIT), acc);
    assert_eq!(deposit(acc, &disk, Side::Above, Side::Below, 0, -10 * RADIUS_UNIT), acc);
    assert_eq!(deposit(acc, &disk, Side::Above, Side::Below, i64::MAX, i64::MIN), acc);
}

#[test]
fn disk_crossing_blends_disk_and_sky() {
    let disk = uniform(600, 600, rgb(200, 100, 0));
    let after = deposit(transparent(), &disk, Side::Above, Side::Below, 0, -5 * RADIUS_UNIT);
    assert!(after.alpha > 0 && after.alpha < ALPHA_ONE);
    assert_eq!(after, Accum { color: rgb(158, 79, 0), alpha: 51810 });
    let sky_color = rgb(0, 0, 50);
    let sky = Skybox {
        front: uniform(4, 4, sky_color),
        back: uniform(4, 4, sky_color),
        left: uniform(4, 4, sky_color),
        right: uniform(4, 4, sky_color),
        top: uniform(4, 4, sky_color),
        bottom: uniform(4, 4, sky_color),
    };
    let c = escape(after, &sky, Direction { x: 0, y: -DIR_UNIT / 3, z: DIR_UNIT });
    assert_eq!(c, rgb(158, 79, 10));
    assert_ne!(c, sky_color);
}

#[test]
fn ray_inside_horizon_is_absorbed() {
    assert_eq!(classify(RADIUS_UNIT as u64 / 2), Phase::Absorbed);
    assert_eq!(absorb(transparent()), rgb(0, 0, 0));
}

#[test]
fn ray_far_away_escapes() {
    assert_eq!(classify(25 * RADIUS_UNIT as u64), Phase::Escaped);
    assert_eq!(classify(20 * RADIUS_UNIT as u64), Phase::InFlight);
    assert_eq!(classify(RADIUS_UNIT as u64), Phase::InFlight);
}

#[test]
fn step_duration_policy() {
    assert_eq!(step_duration(RADIUS_UNIT as u64), 1000);
    assert_eq!(step_duration(2 * RADIUS_UNIT as u64), 1000);
    assert_eq!(step_duration(6 * RADIUS_UNIT as u64), 63437);
    assert_eq!(step_duration(10 * RADIUS_UNIT as u64), TIME_UNIT);
    assert_eq!(step_duration(19 * RADIUS_UNIT as u64), TIME_UNIT);
}

#[test]
fn absorb_keeps_gathered_color() {
    let acc = Accum { color: rgb(120, 60, 0), alpha: 40000 };
    assert_eq!(absorb(acc), rgb(120, 60, 0));
}
