use eulerian_fluid::modes::{pixel_scale, ColorMode, Layer, VisualizationMode};

const COLORS: [ColorMode; 3] = [ColorMode::Color, ColorMode::Grayscale, ColorMode::Obstacle];

const VIEWS: [VisualizationMode; 5] = [
    VisualizationMode::Pressure,
    VisualizationMode::Smoke,
    VisualizationMode::Speed,
    VisualizationMode::SmokePressure,
    VisualizationMode::SmokeSpeed,
];

#[test]
fn color_modes_go_round() {
    assert_eq!(ColorMode::Color.next(), ColorMode::Grayscale);
    assert_eq!(ColorMode::Grayscale.next(), ColorMode::Obstacle);
    assert_eq!(ColorMode::Obstacle.next(), ColorMode::Color);
    assert_eq!(ColorMode::Color.previous(), ColorMode::Obstacle);
    for mode in COLORS {
        assert_eq!(mode.next().previous(), mode);
        assert_eq!(mode.previous().next(), mode);
        assert_eq!(mode.next().next().next(), mode);
    }
}

#[test]
fn views_go_round() {
    for k in 0..5 {
        assert_eq!(VIEWS[k].next(), VIEWS[(k + 1) % 5]);
        assert_eq!(VIEWS[(k + 1) % 5].previous(), VIEWS[k]);
    }
    for mode in VIEWS {
        assert_eq!(mode.next().previous(), mode);
        assert_eq!(mode.previous().next(), mode);
    }
}

#[test]
fn views_choose_their_layers() {
    assert_eq!(VisualizationMode::Pressure.image(), Layer::Pressure);
    assert_eq!(VisualizationMode::SmokePressure.image(), Layer::Pressure);
    assert_eq!(VisualizationMode::Speed.image(), Layer::Speed);
    assert_eq!(VisualizationMode::SmokeSpeed.image(), Layer::Speed);
    assert_eq!(VisualizationMode::Smoke.image(), Layer::Smoke);
    assert_eq!(VisualizationMode::Pressure.mask(), Layer::Cells);
    assert_eq!(VisualizationMode::Speed.mask(), Layer::Cells);
    assert_eq!(VisualizationMode::Smoke.mask(), Layer::Cells);
    assert_eq!(VisualizationMode::SmokeSpeed.mask(), Layer::Smoke);
    assert_eq!(VisualizationMode::SmokePressure.mask(), Layer::Smoke);
}

#[test]
fn pixel_scale_fits_the_screen() {
    assert_eq!(pixel_scale(160, 100), 18);
    assert_eq!(pixel_scale(288, 100), 10);
    assert_eq!(pixel_scale(100, 1864), 1);
    assert_eq!(pixel_scale(1, 1), 1864);
    assert_eq!(pixel_scale(3000, 10), 0);
}
