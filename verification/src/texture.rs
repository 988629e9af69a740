//! From step descriptions and a luminance grid to a texture document.

use crate::coverage::covers;
use crate::error::TextureError;
use crate::lua::{lua_document, to_lua};
use crate::noise::{noise_limit, perturbed};
use crate::series::{lemma_tile_index, may_activate, tile_index, Series, SeriesView};
use crate::step::{parse_step, Step, StepView};
use vstd::prelude::*;

verus! {

/// A grid of cells: rows from top to bottom, each row from left to right.
pub type Grid<T> = Vec<Vec<T>>;

/// Whether each cell of `tiles` is a legend index that activating the cell
/// of `row` at the same place may give.
pub open spec fn is_row_encoding(series: SeriesView, row: Seq<u8>, tiles: Seq<u16>) -> bool {
    &&& tiles.len() == row.len()
    &&& forall|c: int| 0 <= c < row.len() ==> may_activate(series, row[c], #[trigger] tiles[c])
}

/// Whether `tiles` has the shape of `grid` and each of its cells is a
/// legend index that activating the cell of `grid` at the same place may
/// give.
pub open spec fn is_encoding(series: SeriesView, grid: Seq<Seq<u8>>, tiles: Seq<Seq<u16>>) -> bool {
    &&& tiles.len() == grid.len()
    &&& forall|r: int| 0 <= r < grid.len() ==> is_row_encoding(series, grid[r], #[trigger] tiles[r])
}

/// The legend indices of a grid without blending noise.
pub open spec fn plain_encoding(steps: Seq<StepView>, grid: Seq<Seq<u8>>) -> Seq<Seq<u16>> {
    Seq::new(
        grid.len(),
        |r: int| Seq::new(grid[r].len(), |c: int| tile_index(steps, grid[r][c]) as u16),
    )
}

/// Whether `offsets` has the shape of `grid` and holds offsets of the
/// noise range `0..=limit` only.
pub open spec fn are_offsets(limit: u8, grid: Seq<Seq<u8>>, offsets: Seq<Seq<u8>>) -> bool {
    &&& offsets.len() == grid.len()
    &&& forall|r: int| 0 <= r < grid.len() ==> (#[trigger] offsets[r]).len() == grid[r].len()
    &&& forall|r: int, c: int|
        0 <= r < grid.len() && 0 <= c < grid[r].len() ==> #[trigger] offsets[r][c] <= limit
}

/// The legend indices of a grid each of whose cells is moved up by the
/// offset at the same place.
pub open spec fn offset_encoding(
    steps: Seq<StepView>,
    grid: Seq<Seq<u8>>,
    offsets: Seq<Seq<u8>>,
) -> Seq<Seq<u16>> {
    Seq::new(
        grid.len(),
        |r: int|
            Seq::new(
                grid[r].len(),
                |c: int| tile_index(steps, perturbed(grid[r][c], offsets[r][c])) as u16,
            ),
    )
}

/// Whether every description is read as a step.
pub open spec fn all_steps(descriptions: Seq<Seq<char>>) -> bool {
    forall|i: int| 0 <= i < descriptions.len() ==> parse_step(#[trigger] descriptions[i]) is Some
}

/// Whether the description at `at` is the first that is not read as a step.
pub open spec fn first_malformed(descriptions: Seq<Seq<char>>, at: int) -> bool {
    &&& 0 <= at < descriptions.len()
    &&& parse_step(descriptions[at]) is None
    &&& forall|i: int| 0 <= i < at ==> parse_step(#[trigger] descriptions[i]) is Some
}

/// The steps that the descriptions are read as.
pub open spec fn parsed_steps(descriptions: Seq<Seq<char>>) -> Seq<StepView> {
    Seq::new(descriptions.len(), |i: int| parse_step(descriptions[i])->0)
}

/// Whether `series` and `tiles` are what a request asks for: a series with
/// the steps described, the noise range of the blending percentage and
/// the seed asked for (where 0 was asked for, any seed from 1 up to, but
/// not including, `u64::MAX`), and an encoding of the grid with that
/// series.
pub open spec fn answers(
    descriptions: Seq<Seq<char>>,
    blending: u8,
    seed: u64,
    grid: Seq<Seq<u8>>,
    series: SeriesView,
    tiles: Seq<Seq<u16>>,
) -> bool {
    &&& series.steps == parsed_steps(descriptions)
    &&& series.noise == noise_limit(blending as int)
    &&& if seed != 0 {
        series.seed == seed
    } else {
        1 <= series.seed < u64::MAX
    }
    &&& is_encoding(series, grid, tiles)
}

/// Whether `code` is a texture document for the request: the document of
/// a series and an encoding that answer it.
pub open spec fn is_texture(
    descriptions: Seq<Seq<char>>,
    blending: u8,
    seed: u64,
    grid: Seq<Seq<u8>>,
    code: Seq<char>,
) -> bool {
    exists|series: SeriesView, tiles: Seq<Seq<u16>>| #[trigger]
        answers(descriptions, blending, seed, grid, series, tiles) && code == lua_document(
            series,
            tiles,
        )
}

/// Blending disabled: without noise the encoding of a grid is fixed by the
/// steps and the grid alone, each cell the legend index of its luminance.
pub proof fn lemma_plain_encoding(series: SeriesView, grid: Seq<Seq<u8>>, tiles: Seq<Seq<u16>>)
    requires
        series.noise == 0,
        is_encoding(series, grid, tiles),
    ensures
        tiles == plain_encoding(series.steps, grid),
{
    let plain = plain_encoding(series.steps, grid);
    assert forall|r: int| 0 <= r < grid.len() implies #[trigger] tiles[r] == plain[r] by {
        assert(is_row_encoding(series, grid[r], tiles[r]));
        assert(tiles[r] =~= plain[r]);
    }
    assert(tiles =~= plain);
}

/// Every cell of an encoding is a legend index: it lies between 1 and the
/// number of steps.
pub proof fn lemma_encoding_in_legend(
    series: SeriesView,
    grid: Seq<Seq<u8>>,
    tiles: Seq<Seq<u16>>,
    r: int,
    c: int,
)
    requires
        covers(series.steps),
        is_encoding(series, grid, tiles),
        0 <= r < grid.len(),
        0 <= c < grid[r].len(),
    ensures
        1 <= tiles[r][c] <= series.steps.len(),
{
    assert(is_row_encoding(series, grid[r], tiles[r]));
    assert(may_activate(series, grid[r][c], tiles[r][c]));
    let noise = choose|noise: u8|
        noise <= series.noise && tiles[r][c] == #[trigger] tile_index(
            series.steps,
            perturbed(grid[r][c], noise),
        );
    lemma_tile_index(series.steps, perturbed(grid[r][c], noise));
}

/// An encoding is fixed by the steps, the grid and the offsets that were
/// drawn: there are offsets of the noise range, one for each cell, by
/// which the grid is moved to give it. They are returned.
pub proof fn lemma_encoding_offsets(
    series: SeriesView,
    grid: Seq<Seq<u8>>,
    tiles: Seq<Seq<u16>>,
) -> (offsets: Seq<Seq<u8>>)
    requires
        is_encoding(series, grid, tiles),
    ensures
        are_offsets(series.noise, grid, offsets),
        tiles == offset_encoding(series.steps, grid, offsets),
{
    let offsets = Seq::new(
        grid.len(),
        |r: int|
            Seq::new(
                grid[r].len(),
                |c: int|
                    choose|noise: u8|
                        noise <= series.noise && tiles[r][c] == #[trigger] tile_index(
                            series.steps,
                            perturbed(grid[r][c], noise),
                        ),
            ),
    );
    let moved = offset_encoding(series.steps, grid, offsets);
    assert forall|r: int, c: int| 0 <= r < grid.len() && 0 <= c < grid[r].len() implies tiles[r][c]
        == moved[r][c] && #[trigger] offsets[r][c] <= series.noise by {
        assert(is_row_encoding(series, grid[r], tiles[r]));
        assert(may_activate(series, grid[r][c], tiles[r][c]));
    }
    assert forall|r: int| 0 <= r < grid.len() implies #[trigger] tiles[r] == moved[r] by {
        assert(is_row_encoding(series, grid[r], tiles[r]));
        assert(tiles[r] =~= moved[r]);
    }
    assert(tiles =~= moved);
    offsets
}

/// With a seed other than 0, a texture document is fixed by the request
/// and the offsets that were drawn: it is the document of the grid moved
/// by offsets of the noise range, one for each cell. They are returned.
/// Which offsets a seed gives is up to the generator.
pub proof fn lemma_texture_offsets(
    descriptions: Seq<Seq<char>>,
    blending: u8,
    seed: u64,
    grid: Seq<Seq<u8>>,
    code: Seq<char>,
) -> (offsets: Seq<Seq<u8>>)
    requires
        seed != 0,
        is_texture(descriptions, blending, seed, grid, code),
    ensures
        are_offsets(noise_limit(blending as int) as u8, grid, offsets),
        code == lua_document(
            SeriesView {
                steps: parsed_steps(descriptions),
                seed,
                noise: noise_limit(blending as int) as u8,
            },
            offset_encoding(parsed_steps(descriptions), grid, offsets),
        ),
{
    let (series, tiles) = choose|series: SeriesView, tiles: Seq<Seq<u16>>| #[trigger]
        answers(descriptions, blending, seed, grid, series, tiles) && code == lua_document(
            series,
            tiles,
        );
    lemma_encoding_offsets(series, grid, tiles)
}

/// Without blending and with a seed other than 0, a request has one
/// texture document: that of the plain encoding of the grid.
pub proof fn lemma_plain_texture(
    descriptions: Seq<Seq<char>>,
    seed: u64,
    grid: Seq<Seq<u8>>,
    code: Seq<char>,
)
    requires
        seed != 0,
        is_texture(descriptions, 0, seed, grid, code),
    ensures
        code == lua_document(
            SeriesView { steps: parsed_steps(descriptions), seed, noise: 0 },
            plain_encoding(parsed_steps(descriptions), grid),
        ),
{
    let (series, tiles) = choose|series: SeriesView, tiles: Seq<Seq<u16>>| #[trigger]
        answers(descriptions, 0, seed, grid, series, tiles) && code == lua_document(series, tiles);
    lemma_plain_encoding(series, grid, tiles);
}

/// Reads every description as a step, or reports the first that is none.
pub fn parse_steps(descriptions: &Vec<String>) -> (r: Result<Vec<Step>, TextureError>)
    ensures
        all_steps(descriptions.deep_view()) ==> (r matches Ok(steps) && steps.deep_view()
            == parsed_steps(descriptions.deep_view())),
        !all_steps(descriptions.deep_view()) ==> (r matches Err(TextureError::MalformedStep(text))
            && exists|at: int|
            first_malformed(descriptions.deep_view(), at) && text@ == descriptions.deep_view()[at]),
{
    let ghost texts = descriptions.deep_view();
    let n = descriptions.len();
    let mut steps: Vec<Step> = Vec::new();
    let mut i: usize = 0;
    while i < n
        invariant
            i <= n,
            n == descriptions@.len(),
            texts == descriptions.deep_view(),
            steps@.len() == i,
            forall|k: int| 0 <= k < i ==> parse_step(#[trigger] texts[k]) == Some(steps@[k]@),
        decreases n - i,
    {
        match Step::try_from(descriptions[i].as_str()) {
            Ok(step) => {
                steps.push(step);
            },
            Err(e) => {
                assert(first_malformed(texts, i as int));
                return Err(e);
            },
        }
        i = i + 1;
    }
    Ok(steps)
}

/// Activates every cell of a luminance grid, row by row from the top and
/// each row from the left, and returns the legend indices in the same
/// places.
pub fn encode(series: &mut Series, grid: &Grid<u8>) -> (tiles: Grid<u16>)
    ensures
        final(series)@ == old(series)@,
        is_encoding(old(series)@, grid.deep_view(), tiles.deep_view()),
        old(series)@.noise == 0 ==> tiles.deep_view() == plain_encoding(
            old(series)@.steps,
            grid.deep_view(),
        ),
{
    let ghost cells = grid.deep_view();
    let mut tiles: Grid<u16> = Vec::new();
    let mut r: usize = 0;
    while r < grid.len()
        invariant
            r <= grid@.len(),
            cells == grid.deep_view(),
            series@ == old(series)@,
            tiles@.len() == r,
            forall|k: int| 0 <= k < r ==> is_row_encoding(old(series)@, cells[k], #[trigger] tiles@[k]@),
        decreases grid@.len() - r,
    {
        let row = &grid[r];
        let mut out: Vec<u16> = Vec::new();
        let mut c: usize = 0;
        while c < row.len()
            invariant
                c <= row@.len(),
                series@ == old(series)@,
                out@.len() == c,
                forall|k: int| 0 <= k < c ==> may_activate(old(series)@, row@[k], #[trigger] out@[k]),
            decreases row@.len() - c,
        {
            let index = series.activate(row[c]);
            out.push(index);
            c = c + 1;
        }
        tiles.push(out);
        r = r + 1;
    }
    proof {
        if old(series)@.noise == 0 {
            lemma_plain_encoding(old(series)@, cells, tiles.deep_view());
        }
    }
    tiles
}

/// Makes the texture document for a request: the steps as described, a
/// blending percentage, a seed (0 for one picked at random) and the
/// luminance grid of the image.
///
/// The first description that is no step is reported; then a blending
/// percentage above 100; then steps that do not cover `0..=255` exactly
/// once.
pub fn handle(
    steps: &Vec<String>,
    blending: u8,
    seed: u64,
    grid: &Grid<u8>,
) -> (r: Result<String, TextureError>)
    ensures
        !all_steps(steps.deep_view()) ==> (r matches Err(TextureError::MalformedStep(text))
            && exists|at: int|
            first_malformed(steps.deep_view(), at) && text@ == steps.deep_view()[at]),
        all_steps(steps.deep_view()) && blending > 100 ==> r == Err::<String, TextureError>(
            TextureError::BlendingOutOfRange(blending),
        ),
        all_steps(steps.deep_view()) && blending <= 100 && !covers(parsed_steps(steps.deep_view()))
            ==> r == Err::<String, TextureError>(TextureError::PartialRange),
        all_steps(steps.deep_view()) && blending <= 100 && covers(parsed_steps(steps.deep_view()))
            ==> (r matches Ok(code) && is_texture(
            steps.deep_view(),
            blending,
            seed,
            grid.deep_view(),
            code@,
        )),
{
    let parsed = match parse_steps(steps) {
        Ok(parsed) => parsed,
        Err(e) => {
            return Err(e);
        },
    };
    if blending > 100 {
        return Err(TextureError::BlendingOutOfRange(blending));
    }
    let series = match Series::try_from(parsed) {
        Ok(series) => series,
        Err(e) => {
            return Err(e);
        },
    };
    let mut series = series.with_blending(seed, blending);
    let tiles = encode(&mut series, grid);
    let code = to_lua(&tiles, &series);
    proof {
        assert(answers(
            steps.deep_view(),
            blending,
            seed,
            grid.deep_view(),
            series@,
            tiles.deep_view(),
        ));
    }
    Ok(code)
}

} // verus!
