use bevy_generative::noise::{generate_noise_vector, FunctionName, Method};
use noise::{Clamp, Fbm, MultiFractal, NoiseFn, Perlin, Seedable, Simplex, Worley};

/// A sampler that scales and translates a centred grid position into noise
/// space and brings the clamped noise value into the range 0 to 100.
fn sampler<N: NoiseFn<f64, 2>>(noise: N, scale: f64, offset: [f64; 2]) -> impl Fn(i64, i64) -> f64 {
    let noise = Clamp::new(noise).set_bounds(-1.0, 1.0);
    move |x, y| {
        let x = x as f64 / scale + offset[0];
        let y = y as f64 / scale + offset[1];
        (noise.get([x, y]) + 1.0) / 2.0 * 100.0
    }
}

#[test]
fn test_generate_noise() {
    let mut noise = Perlin::default();
    noise = noise.set_seed(123);
    let noise_map = generate_noise_vector(sampler(noise, 0.1, [0.0, 0.0]), [100, 100]);
    assert_eq!(noise_map.len(), 101);
    assert_eq!(noise_map[0].len(), 101);
}

#[test]
fn test_generate_fractal_noise() {
    let mut noise = Fbm::<Perlin>::default();
    noise = noise.set_seed(123);
    noise = noise.set_octaves(Fbm::<Perlin>::DEFAULT_OCTAVE_COUNT);
    noise = noise.set_frequency(Fbm::<Perlin>::DEFAULT_FREQUENCY);
    noise = noise.set_lacunarity(Fbm::<Perlin>::DEFAULT_LACUNARITY);
    noise = noise.set_persistence(Fbm::<Perlin>::DEFAULT_PERSISTENCE);
    let noise_map = generate_noise_vector(sampler(noise, 0.1, [0.0, 0.0]), [100, 100]);
    assert_eq!(noise_map.len(), 101);
    assert_eq!(noise_map[0].len(), 101);
}

#[test]
fn test_generate_noise_vector() {
    let noise_fn = Perlin::new(0);
    let noise_map = generate_noise_vector(sampler(noise_fn, 0.1, [0.0, 0.0]), [100, 100]);
    assert_eq!(noise_map.len(), 101);
    assert_eq!(noise_map[0].len(), 101);
}

#[test]
fn noise_vector_samples_centred_positions() {
    let grid = generate_noise_vector(|x, y| (x, y), [4, 3]);
    assert_eq!(grid.len(), 5);
    for (i, row) in grid.iter().enumerate() {
        assert_eq!(row.len(), 4);
        for (j, value) in row.iter().enumerate() {
            assert_eq!(*value, (i as i64 - 2, j as i64 - 1));
        }
    }
    assert_eq!(grid[0][0], (-2, -1));
    assert_eq!(grid[4][3], (2, 2));
}

#[test]
fn noise_vector_of_an_empty_grid_is_one_sample() {
    let grid = generate_noise_vector(|x, y| (x, y), [0, 0]);
    assert_eq!(grid, vec![vec![(0, 0)]]);
}

#[test]
fn noise_vector_of_an_odd_grid() {
    let grid = generate_noise_vector(|x, y| (x, y), [5, 1]);
    assert_eq!(grid.len(), 6);
    assert_eq!(grid[0], vec![(-2, 0), (-2, 1)]);
    assert_eq!(grid[5], vec![(3, 0), (3, 1)]);
}

#[test]
fn noise_field_has_one_more_sample_than_cells_and_stays_in_range() {
    let grid = generate_noise_vector(sampler(Perlin::new(123), 0.1, [0.0, 0.0]), [100, 100]);
    assert_eq!(grid.len(), 101);
    for row in &grid {
        assert_eq!(row.len(), 101);
        for value in row {
            assert!((0.0..=100.0).contains(value));
        }
    }
    let again = generate_noise_vector(sampler(Perlin::new(123), 0.1, [0.0, 0.0]), [100, 100]);
    assert_eq!(grid, again);
}

#[test]
fn noise_field_is_reproducible_for_other_methods() {
    let first = generate_noise_vector(sampler(Simplex::new(7), 50.0, [1.5, -2.0]), [20, 10]);
    let second = generate_noise_vector(sampler(Simplex::new(7), 50.0, [1.5, -2.0]), [20, 10]);
    assert_eq!(first.len(), 21);
    assert_eq!(first[0].len(), 11);
    assert_eq!(first, second);
    let first = generate_noise_vector(sampler(Worley::new(7), 50.0, [0.0, 0.0]), [8, 8]);
    let second = generate_noise_vector(sampler(Worley::new(7), 50.0, [0.0, 0.0]), [8, 8]);
    assert_eq!(first, second);
}

#[test]
fn noise_field_depends_on_the_seed() {
    let first = generate_noise_vector(sampler(Perlin::new(1), 10.0, [0.0, 0.0]), [30, 30]);
    let second = generate_noise_vector(sampler(Perlin::new(2), 10.0, [0.0, 0.0]), [30, 30]);
    assert_ne!(first, second);
}

#[test]
fn method_names() {
    assert_eq!(Method::OpenSimplex.to_string(), "Open Simplex");
    assert_eq!(Method::Perlin.to_string(), "Perlin");
    assert_eq!(Method::PerlinSurflet.to_string(), "Perlin Surflet");
    assert_eq!(Method::Simplex.to_string(), "Simplex");
    assert_eq!(Method::SuperSimplex.to_string(), "Super Simplex");
    assert_eq!(Method::Value.to_string(), "Value");
    assert_eq!(Method::Worley.to_string(), "Worley");
}

#[test]
fn function_names() {
    assert_eq!(FunctionName::BasicMulti.to_string(), "Basic Multi");
    assert_eq!(FunctionName::Billow.to_string(), "Billow");
    assert_eq!(FunctionName::Fbm.to_string(), "FBM");
    assert_eq!(FunctionName::HybridMulti.to_string(), "Hybrid Multi");
    assert_eq!(FunctionName::RidgedMulti.to_string(), "Ridged Multi");
}

#[test]
fn methods_compare_by_variant() {
    assert_eq!(Method::Perlin, Method::Perlin);
    assert_ne!(Method::Perlin, Method::Simplex);
    assert_eq!(FunctionName::Fbm, FunctionName::Fbm);
    assert_ne!(FunctionName::Fbm, FunctionName::Billow);
}
