//! Noise configuration and sampling of a noise field on a grid.

use vstd::prelude::*;

verus! {

/// 2D noise method used to generate noise map
#[derive(Clone, Copy, Debug, PartialEq, Eq, Structural)]
pub enum Method {
    /// Open Simplex noise
    OpenSimplex,
    /// Perlin noise
    Perlin,
    /// Perlin Surflet noise
    PerlinSurflet,
    /// Simplex noise
    Simplex,
    /// Super Simplex noise
    SuperSimplex,
    /// Value noise
    Value,
    /// Worley noise
    Worley,
}

impl Method {
    /// The name under which the method is shown.
    pub open spec fn label(self) -> Seq<char> {
        match self {
            Method::OpenSimplex => "Open Simplex"@,
            Method::Perlin => "Perlin"@,
            Method::PerlinSurflet => "Perlin Surflet"@,
            Method::Simplex => "Simplex"@,
            Method::SuperSimplex => "Super Simplex"@,
            Method::Value => "Value"@,
            Method::Worley => "Worley"@,
        }
    }

    /// The name under which the method is shown.
    pub fn to_string(&self) -> (name: String)
        ensures
            name@ == self.label(),
    {
        match self {
            Method::OpenSimplex => "Open Simplex".to_owned(),
            Method::Perlin => "Perlin".to_owned(),
            Method::PerlinSurflet => "Perlin Surflet".to_owned(),
            Method::Simplex => "Simplex".to_owned(),
            Method::SuperSimplex => "Super Simplex".to_owned(),
            Method::Value => "Value".to_owned(),
            Method::Worley => "Worley".to_owned(),
        }
    }
}

/// Fractal function that should be applied on the noise values
#[derive(Clone, Copy, Debug, PartialEq, Eq, Structural)]
pub enum FunctionName {
    /// Sum of octaves, each scaled by the one before it
    BasicMulti,
    /// Sum of the absolute values of octaves
    Billow,
    /// Fractal Brownian motion
    Fbm,
    /// Sum of octaves weighted by the running signal
    HybridMulti,
    /// Sum of inverted absolute octaves, which gives ridges
    RidgedMulti,
}

impl FunctionName {
    /// The name under which the function is shown.
    pub open spec fn label(self) -> Seq<char> {
        match self {
            FunctionName::BasicMulti => "Basic Multi"@,
            FunctionName::Billow => "Billow"@,
            FunctionName::Fbm => "FBM"@,
            FunctionName::HybridMulti => "Hybrid Multi"@,
            FunctionName::RidgedMulti => "Ridged Multi"@,
        }
    }

    /// The name under which the function is shown.
    pub fn to_string(&self) -> (name: String)
        ensures
            name@ == self.label(),
    {
        match self {
            FunctionName::BasicMulti => "Basic Multi".to_owned(),
            FunctionName::Billow => "Billow".to_owned(),
            FunctionName::Fbm => "FBM".to_owned(),
            FunctionName::HybridMulti => "Hybrid Multi".to_owned(),
            FunctionName::RidgedMulti => "Ridged Multi".to_owned(),
        }
    }
}

/// Position of sample `index` of an axis of `extent` cells, counted from the
/// centre of the axis.
pub open spec fn centred(index: int, extent: int) -> int {
    index - extent / 2
}

/// Whether `position` is the centred position of one of the `extent + 1`
/// samples of an axis.
pub open spec fn on_axis(position: int, extent: int) -> bool {
    0 <= position + extent / 2 <= extent
}

/// Whether `grid` holds one sample of `noise` for each point of the grid of
/// `size`, edges included: `size[0] + 1` rows of `size[1] + 1` values, the
/// value at `(i, j)` taken at the centred position of `i` and `j`.
pub open spec fn is_noise_vector<T, F: Fn(i64, i64) -> T>(
    noise: F,
    size: [u32; 2],
    grid: Seq<Vec<T>>,
) -> bool {
    &&& grid.len() == size[0] + 1
    &&& forall|i: int| 0 <= i <= size[0] ==> (#[trigger] grid[i]).len() == size[1] + 1
    &&& forall|i: int, j: int|
        0 <= i <= size[0] && 0 <= j <= size[1] ==> noise.ensures(
            (centred(i, size[0] as int) as i64, centred(j, size[1] as int) as i64),
            #[trigger] grid[i][j],
        )
}

/// Samples `noise` at every point of a grid of `size` cells, edges included.
///
/// The sampler is handed the position of each point counted from the centre
/// of the grid; scaling and translation into noise space are its business.
pub fn generate_noise_vector<T, F: Fn(i64, i64) -> T>(noise: F, size: [u32; 2]) -> (noise_vector:
    Vec<Vec<T>>)
    requires
        forall|x: i64, y: i64|
            on_axis(x as int, size[0] as int) && on_axis(y as int, size[1] as int)
                ==> #[trigger] noise.requires((x, y)),
    ensures
        is_noise_vector(noise, size, noise_vector@),
{
    let rows: u64 = size[0] as u64 + 1;
    let cols: u64 = size[1] as u64 + 1;
    let half_rows: i64 = (size[0] / 2) as i64;
    let half_cols: i64 = (size[1] / 2) as i64;
    let mut noise_vector: Vec<Vec<T>> = Vec::new();
    let mut i: u64 = 0;
    while i < rows
        invariant
            rows == size[0] + 1,
            cols == size[1] + 1,
            half_rows == size[0] as int / 2,
            half_cols == size[1] as int / 2,
            i <= rows,
            noise_vector@.len() == i,
            forall|x: i64, y: i64|
                on_axis(x as int, size[0] as int) && on_axis(y as int, size[1] as int)
                    ==> #[trigger] noise.requires((x, y)),
            forall|r: int| 0 <= r < i ==> (#[trigger] noise_vector@[r]).len() == cols,
            forall|r: int, c: int|
                0 <= r < i && 0 <= c < cols ==> noise.ensures(
                    (centred(r, size[0] as int) as i64, centred(c, size[1] as int) as i64),
                    #[trigger] noise_vector@[r][c],
                ),
        decreases rows - i,
    {
        let x: i64 = i as i64 - half_rows;
        let mut row: Vec<T> = Vec::new();
        let mut j: u64 = 0;
        while j < cols
            invariant
                cols == size[1] + 1,
                half_cols == size[1] as int / 2,
                i < size[0] + 1,
                x == centred(i as int, size[0] as int),
                j <= cols,
                row@.len() == j,
                forall|x: i64, y: i64|
                    on_axis(x as int, size[0] as int) && on_axis(y as int, size[1] as int)
                        ==> #[trigger] noise.requires((x, y)),
                forall|c: int|
                    0 <= c < j ==> noise.ensures(
                        (x, centred(c, size[1] as int) as i64),
                        #[trigger] row@[c],
                    ),
            decreases cols - j,
        {
            let y: i64 = j as i64 - half_cols;
            let value = noise(x, y);
            row.push(value);
            j += 1;
        }
        noise_vector.push(row);
        i += 1;
    }
    noise_vector
}

/// Whether `noise` gives one value only at every point of the grid of `size`.
pub open spec fn is_deterministic<T, F: Fn(i64, i64) -> T>(noise: F, size: [u32; 2]) -> bool {
    forall|x: i64, y: i64, first: T, second: T|
        on_axis(x as int, size[0] as int) && on_axis(y as int, size[1] as int)
            && #[trigger] noise.ensures((x, y), first) && #[trigger] noise.ensures((x, y), second)
            ==> first == second
}

/// Determinism: two height fields sampled from the same noise over the same
/// grid hold the same value at every point, provided the noise gives one
/// value only at each point.
pub proof fn lemma_noise_vector_deterministic<T, F: Fn(i64, i64) -> T>(
    noise: F,
    size: [u32; 2],
    first: Seq<Vec<T>>,
    second: Seq<Vec<T>>,
)
    requires
        is_noise_vector(noise, size, first),
        is_noise_vector(noise, size, second),
        is_deterministic(noise, size),
    ensures
        first.len() == second.len(),
        forall|i: int| 0 <= i <= size[0] ==> (#[trigger] first[i])@ == second[i]@,
{
    assert forall|i: int| 0 <= i <= size[0] implies (#[trigger] first[i])@ == second[i]@ by {
        assert(first[i]@.len() == second[i]@.len());
        assert forall|j: int| 0 <= j < first[i]@.len() implies first[i]@[j] == second[i]@[j] by {
            let x = centred(i, size[0] as int) as i64;
            let y = centred(j, size[1] as int) as i64;
            assert(noise.ensures((x, y), first[i][j]));
            assert(noise.ensures((x, y), second[i][j]));
        }
        assert(first[i]@ =~= second[i]@);
    }
}

/// Range: whatever holds of every value that the noise can give at a point
/// of the grid holds of every value of a height field sampled from it.
pub proof fn lemma_noise_vector_within<T, F: Fn(i64, i64) -> T>(
    noise: F,
    size: [u32; 2],
    grid: Seq<Vec<T>>,
    within: spec_fn(T) -> bool,
)
    requires
        is_noise_vector(noise, size, grid),
        forall|x: i64, y: i64, value: T|
            on_axis(x as int, size[0] as int) && on_axis(y as int, size[1] as int)
                && #[trigger] noise.ensures((x, y), value) ==> within(value),
    ensures
        grid.len() == size[0] + 1,
        forall|i: int, j: int|
            0 <= i <= size[0] && 0 <= j <= size[1] ==> grid[i].len() == size[1] + 1 && within(
                #[trigger] grid[i][j],
            ),
{
    assert forall|i: int, j: int| 0 <= i <= size[0] && 0 <= j <= size[1] implies grid[i].len()
        == size[1] + 1 && within(#[trigger] grid[i][j]) by {
        let x = centred(i, size[0] as int) as i64;
        let y = centred(j, size[1] as int) as i64;
        assert(noise.ensures((x, y), grid[i][j]));
    }
}

} // verus!
