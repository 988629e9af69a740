//! The Lua texture document: a comment line that records how the texture
//! was made, then a module with the grid's size, the legend and the grid
//! of legend indices.

use crate::decimal::{decimal, push_decimal};
use crate::noise::reported_percent;
use crate::series::{Series, SeriesView};
use crate::step::{render_step, Step, StepView};
use crate::texture::Grid;
use vstd::prelude::*;
use vstd::string::*;

verus! {

/// The canonical descriptions of `steps`, in order, with one space between
/// two of them.
pub open spec fn steps_line(steps: Seq<StepView>) -> Seq<char>
    decreases steps.len(),
{
    if steps.len() == 0 {
        Seq::empty()
    } else if steps.len() == 1 {
        render_step(steps[0])
    } else {
        steps_line(steps.drop_last()) + " "@ + render_step(steps.last())
    }
}

/// One entry of the legend: `[index]="name"`.
pub open spec fn legend_entry(index: nat, step: StepView) -> Seq<char> {
    "["@ + decimal(index) + "]=\""@ + step.name + "\""@
}

/// The legend's entries, one for each step with its position counted from
/// 1, with a comma between two of them.
pub open spec fn legend_entries(steps: Seq<StepView>) -> Seq<char>
    decreases steps.len(),
{
    if steps.len() == 0 {
        Seq::empty()
    } else if steps.len() == 1 {
        legend_entry(1, steps[0])
    } else {
        legend_entries(steps.drop_last()) + ","@ + legend_entry(steps.len(), steps.last())
    }
}

/// The legend as a Lua table.
pub open spec fn lua_map(steps: Seq<StepView>) -> Seq<char> {
    "{"@ + legend_entries(steps) + "}"@
}

/// The comment line, without its line break: the seed in effect, the
/// blending percentage that is reported, and the steps.
pub open spec fn lua_header(series: SeriesView) -> Seq<char> {
    "-- bb --seed "@ + decimal(series.seed as nat) + " --blending "@ + decimal(
        reported_percent(series.noise as int) as nat,
    ) + " --steps "@ + steps_line(series.steps)
}

/// The cells of one row, each followed by a comma.
pub open spec fn lua_row(row: Seq<u16>) -> Seq<char>
    decreases row.len(),
{
    if row.len() == 0 {
        Seq::empty()
    } else {
        lua_row(row.drop_last()) + decimal(row.last() as nat) + ","@
    }
}

/// The rows of a grid, each in braces and followed by a comma.
pub open spec fn lua_rows(grid: Seq<Seq<u16>>) -> Seq<char>
    decreases grid.len(),
{
    if grid.len() == 0 {
        Seq::empty()
    } else {
        lua_rows(grid.drop_last()) + "{"@ + lua_row(grid.last()) + "},"@
    }
}

/// The width of a grid: the length of its first row, 0 for a grid without
/// rows.
pub open spec fn grid_width(grid: Seq<Seq<u16>>) -> nat {
    if grid.len() == 0 {
        0
    } else {
        grid[0].len()
    }
}

/// The module that follows the comment line.
pub open spec fn lua_module(steps: Seq<StepView>, grid: Seq<Seq<u16>>) -> Seq<char> {
    "local mod={};mod.width="@ + decimal(grid_width(grid)) + ";mod.height="@ + decimal(grid.len())
        + ";mod.map="@ + lua_map(steps) + ";mod.grid={"@ + lua_rows(grid) + "};return mod"@
}

/// The whole document: the comment line, a line break, the module.
pub open spec fn lua_document(series: SeriesView, grid: Seq<Seq<u16>>) -> Seq<char> {
    lua_header(series) + "\n"@ + lua_module(series.steps, grid)
}

fn push_steps(out: &mut String, steps: &Vec<Step>)
    ensures
        final(out)@ == old(out)@ + steps_line(steps.deep_view()),
{
    let ghost views = steps.deep_view();
    let n = steps.len();
    let mut i: usize = 0;
    while i < n
        invariant
            i <= n,
            n == steps@.len(),
            views == steps.deep_view(),
            out@ == old(out)@ + steps_line(views.take(i as int)),
        decreases n - i,
    {
        if i > 0 {
            out.append(" ");
        }
        let step = &steps[i];
        step.push_to(out);
        proof {
            let next = views.take(i + 1);
            assert(next.drop_last() =~= views.take(i as int));
        }
        i = i + 1;
    }
    assert(views.take(n as int) =~= views);
}

fn push_legend(out: &mut String, steps: &Vec<Step>)
    ensures
        final(out)@ == old(out)@ + lua_map(steps.deep_view()),
{
    let ghost views = steps.deep_view();
    out.append("{");
    let n = steps.len();
    let mut i: usize = 0;
    while i < n
        invariant
            i <= n,
            n == steps@.len(),
            views == steps.deep_view(),
            out@ == old(out)@ + "{"@ + legend_entries(views.take(i as int)),
        decreases n - i,
    {
        if i > 0 {
            out.append(",");
        }
        let step = &steps[i];
        out.append("[");
        push_decimal(out, i as u64 + 1);
        out.append("]=\"");
        out.append(step.name.as_str());
        out.append("\"");
        proof {
            let next = views.take(i + 1);
            assert(next.drop_last() =~= views.take(i as int));
        }
        i = i + 1;
    }
    out.append("}");
    assert(views.take(n as int) =~= views);
}

fn push_row(out: &mut String, row: &Vec<u16>)
    ensures
        final(out)@ == old(out)@ + lua_row(row@),
{
    let n = row.len();
    let mut i: usize = 0;
    while i < n
        invariant
            i <= n,
            n == row@.len(),
            out@ == old(out)@ + lua_row(row@.take(i as int)),
        decreases n - i,
    {
        push_decimal(out, row[i] as u64);
        out.append(",");
        proof {
            let next = row@.take(i + 1);
            assert(next.drop_last() =~= row@.take(i as int));
        }
        i = i + 1;
    }
    assert(row@.take(n as int) =~= row@);
}

fn push_rows(out: &mut String, grid: &Grid<u16>)
    ensures
        final(out)@ == old(out)@ + lua_rows(grid.deep_view()),
{
    let ghost rows = grid.deep_view();
    let n = grid.len();
    let mut i: usize = 0;
    while i < n
        invariant
            i <= n,
            n == grid@.len(),
            rows == grid.deep_view(),
            out@ == old(out)@ + lua_rows(rows.take(i as int)),
        decreases n - i,
    {
        out.append("{");
        push_row(out, &grid[i]);
        out.append("},");
        proof {
            let next = rows.take(i + 1);
            assert(next.drop_last() =~= rows.take(i as int));
            assert(grid@[i as int]@ =~= next.last());
        }
        i = i + 1;
    }
    assert(rows.take(n as int) =~= rows);
}

impl Series {
    /// The steps as they are described on a command line: their canonical
    /// descriptions with one space between two of them.
    pub fn to_string(&self) -> (s: String)
        ensures
            s@ == steps_line(self@.steps),
    {
        let mut s = String::new();
        push_steps(&mut s, self.steps());
        s
    }

    /// The legend as a Lua table: `{[1]="name",[2]="name"}`, the steps in
    /// declaration order.
    pub fn as_lua_map(&self) -> (s: String)
        ensures
            s@ == lua_map(self@.steps),
    {
        let mut s = String::new();
        push_legend(&mut s, self.steps());
        s
    }
}

/// The comment line that records how a texture was made, without its line
/// break.
pub fn header_lua(series: &Series) -> (s: String)
    ensures
        s@ == lua_header(series@),
{
    let mut s = String::new();
    s.append("-- bb --seed ");
    push_decimal(&mut s, series.seed());
    s.append(" --blending ");
    push_decimal(&mut s, series.blending() as u64);
    s.append(" --steps ");
    push_steps(&mut s, series.steps());
    s
}

/// Renders a grid of legend indices and the series it was made with as a
/// Lua texture document. The width is the length of the first row, the
/// height the number of rows.
pub fn to_lua(grid: &Grid<u16>, series: &Series) -> (code: String)
    ensures
        code@ == lua_document(series@, grid.deep_view()),
{
    let height = grid.len();
    let width = if height == 0 {
        0
    } else {
        grid[0].len()
    };
    let mut code = header_lua(series);
    code.append("\n");
    code.append("local mod={};mod.width=");
    push_decimal(&mut code, width as u64);
    code.append(";mod.height=");
    push_decimal(&mut code, height as u64);
    code.append(";mod.map=");
    push_legend(&mut code, series.steps());
    code.append(";mod.grid={");
    push_rows(&mut code, grid);
    code.append("};return mod");
    code
}

} // verus!
