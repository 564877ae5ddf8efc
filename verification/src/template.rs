//! Loading map templates from comma-separated tile grids.
//!
//! A grid file holds one row of tile ids per line. Blank lines and blank
//! cells are skipped, and so are cells that are no numbers. The tile with
//! the id of the spawn marker gives the spawn point of the map; a grid
//! without one is refused.

use crate::entity::{MapTemplate, MapTemplateView};
use crate::map::{default_transitions, init_map_transitions, SPAWN_TILE, TILE_SIZE};
use crate::projectile::clip_coordinate;
use crate::text::{
    ends_with, lines, parse_u32, replace, spec_ends_with, spec_lines, spec_lowercase,
    spec_parse_u32, spec_replace, spec_split, spec_trim, split, to_lowercase, trim,
};
use crate::world::{World, WorldView};
use vstd::prelude::*;

verus! {

/// The name of the template that a grid file holds: the file name without
/// its `.csv` and without `..`, trimmed, in lower case.
pub open spec fn spec_template_name(filename: Seq<char>) -> Seq<char> {
    spec_lowercase(
        spec_trim(
            spec_replace(spec_replace(filename, ".csv"@, Seq::<char>::empty()), ".."@, Seq::<
                char,
            >::empty()),
        ),
    )
}

/// The first `n` of the given texts, trimmed, without those that are then
/// empty.
pub open spec fn trimmed_nonempty(texts: Seq<Seq<char>>, n: int) -> Seq<Seq<char>>
    decreases n,
{
    if n <= 0 {
        Seq::<Seq<char>>::empty()
    } else {
        let front = trimmed_nonempty(texts, n - 1);
        let last = spec_trim(texts[n - 1]);
        if last.len() == 0 {
            front
        } else {
            front.push(last)
        }
    }
}

/// The rows of a grid: its lines, trimmed, without the blank ones.
pub open spec fn spec_grid_rows(content: Seq<char>) -> Seq<Seq<char>> {
    trimmed_nonempty(spec_lines(content), spec_lines(content).len() as int)
}

/// The cells of a row: what stands between its commas, trimmed, without
/// the blank ones.
pub open spec fn spec_row_cells(row: Seq<char>) -> Seq<Seq<char>> {
    trimmed_nonempty(spec_split(row, ','), spec_split(row, ',').len() as int)
}

/// What a scan of a grid has found so far: the tile ids in reading order,
/// and the column and row of the last spawn marker.
pub ghost struct Scan {
    pub tiles: Seq<u32>,
    pub spawn: Option<(int, int)>,
}

/// A scan once it has read one more cell at the given column and row.
pub open spec fn scan_cell(scan: Scan, x: int, y: int, cell: Seq<char>) -> Scan {
    match spec_parse_u32(cell) {
        Some(tile) => Scan {
            tiles: scan.tiles.push(tile),
            spawn: if tile == SPAWN_TILE {
                Some((x, y))
            } else {
                scan.spawn
            },
        },
        None => scan,
    }
}

/// A scan once it has read the first `n` cells of row `y`.
pub open spec fn scan_cells(scan: Scan, y: int, cells: Seq<Seq<char>>, n: int) -> Scan
    decreases n,
{
    if n <= 0 {
        scan
    } else {
        scan_cell(scan_cells(scan, y, cells, n - 1), n - 1, y, cells[n - 1])
    }
}

/// The scan of the first `m` rows of a grid.
pub open spec fn scan_rows(rows: Seq<Seq<char>>, m: int) -> Scan
    decreases m,
{
    if m <= 0 {
        Scan { tiles: Seq::<u32>::empty(), spawn: None }
    } else {
        let cells = spec_row_cells(rows[m - 1]);
        scan_cells(scan_rows(rows, m - 1), m - 1, cells, cells.len() as int)
    }
}

/// The centre of the tile with the given index along one axis, in
/// thousandths of a pixel.
pub open spec fn tile_centre(index: int) -> i32 {
    clip_coordinate(index * TILE_SIZE + TILE_SIZE / 2)
}

/// A count as a 32-bit number, as the machine cuts it down.
pub open spec fn low_bits(n: nat) -> u32 {
    (n % 0x1_0000_0000) as u32
}

/// The template that a grid file holds, or `None` for a file that holds
/// none: one whose name does not end in `.csv`, one without rows, or one
/// without a spawn marker. The height is the number of rows, the width the
/// number of cells of the first row.
pub open spec fn spec_parse_template(filename: Seq<char>, content: Seq<char>) -> Option<
    MapTemplateView,
> {
    let rows = spec_grid_rows(content);
    let scan = scan_rows(rows, rows.len() as int);
    if !spec_ends_with(filename, ".csv"@) || rows.len() == 0 {
        None
    } else {
        match scan.spawn {
            None => None,
            Some((x, y)) => Some(
                MapTemplateView {
                    name: spec_template_name(filename),
                    width: low_bits(spec_row_cells(rows[0]).len()),
                    height: low_bits(rows.len()),
                    tile_data: scan.tiles,
                    spawn_x: tile_centre(x),
                    spawn_y: tile_centre(y),
                },
            ),
        }
    }
}

/// The templates that the first `n` of the given files hold, in order. A
/// file is a pair of its name and its content.
pub open spec fn loaded_templates(files: Seq<(Seq<char>, Seq<char>)>, n: int) -> Seq<
    MapTemplateView,
>
    decreases n,
{
    if n <= 0 {
        Seq::<MapTemplateView>::empty()
    } else {
        let front = loaded_templates(files, n - 1);
        match spec_parse_template(files[n - 1].0, files[n - 1].1) {
            Some(template) => front.push(template),
            None => front,
        }
    }
}

/// The names and contents of the given files.
pub open spec fn file_views(files: Seq<(String, String)>) -> Seq<(Seq<char>, Seq<char>)> {
    files.map_values(|file: (String, String)| (file.0@, file.1@))
}

/// The values of the given texts.
pub open spec fn text_views(texts: Seq<&str>) -> Seq<Seq<char>> {
    texts.map_values(|text: &str| text@)
}

/// Trims the given texts and drops those that are then empty.
fn trim_nonempty<'a>(texts: &Vec<&'a str>) -> (kept: Vec<&'a str>)
    ensures
        text_views(kept@) == trimmed_nonempty(text_views(texts@), texts@.len() as int),
{
    let mut kept: Vec<&'a str> = Vec::new();
    let mut k: usize = 0;
    assert(text_views(kept@) =~= Seq::<Seq<char>>::empty());
    while k < texts.len()
        invariant
            k <= texts.len(),
            text_views(kept@) == trimmed_nonempty(text_views(texts@), k as int),
        decreases texts.len() - k,
    {
        let ghost so_far = text_views(kept@);
        let piece = trim(texts[k]);
        assert(text_views(texts@)[k as int] == texts@[k as int]@);
        if !piece.is_empty() {
            kept.push(piece);
            assert(text_views(kept@) =~= so_far.push(piece@));
        }
        k += 1;
    }
    kept
}

/// The rows of a grid.
fn grid_rows<'a>(content: &'a str) -> (rows: Vec<&'a str>)
    ensures
        text_views(rows@) == spec_grid_rows(content@),
{
    let all = lines(content);
    assert(text_views(all@) =~= spec_lines(content@));
    trim_nonempty(&all)
}

/// The cells of a row.
fn row_cells<'a>(row: &'a str) -> (cells: Vec<&'a str>)
    ensures
        text_views(cells@) == spec_row_cells(row@),
{
    let all = split(row, ',');
    assert(text_views(all@) =~= spec_split(row@, ','));
    trim_nonempty(&all)
}

/// The centre of the tile with the given index along one axis.
fn centre_of_tile(index: usize) -> (r: i32)
    ensures
        r == tile_centre(index as int),
{
    assert(index * TILE_SIZE <= 0xFFFF_FFFF_FFFF_FFFF * 8000) by (nonlinear_arith)
        requires
            0 <= index <= 0xFFFF_FFFF_FFFF_FFFF,
            TILE_SIZE == 8000,
    ;
    let centre: u128 = (index as u128) * (TILE_SIZE as u128) + (TILE_SIZE as u128) / 2;
    if centre > i32::MAX as u128 {
        i32::MAX
    } else {
        centre as i32
    }
}

/// The name of the template that a grid file holds.
pub fn template_name(filename: &str) -> (name: String)
    ensures
        name@ == spec_template_name(filename@),
{
    let without_extension = replace(filename, ".csv", "");
    let without_dots = replace(without_extension.as_str(), "..", "");
    proof {
        reveal_strlit("");
        assert(""@ =~= Seq::<char>::empty());
    }
    to_lowercase(trim(without_dots.as_str()))
}

/// Reads the template that a grid file holds.
pub fn parse_template(filename: &str, content: &str) -> (r: Option<MapTemplate>)
    ensures
        match spec_parse_template(filename@, content@) {
            Some(template) => r matches Some(t) && t@ == template,
            None => r is None,
        },
{
    if !ends_with(filename, ".csv") {
        return None;
    }
    let rows = grid_rows(content);
    if rows.len() == 0 {
        return None;
    }
    let ghost row_texts = spec_grid_rows(content@);
    let first_cells = row_cells(rows[0]);
    assert(text_views(rows@)[0] == rows@[0]@);
    let width: u32 = ((first_cells.len() as u64) % 0x1_0000_0000) as u32;
    let height: u32 = ((rows.len() as u64) % 0x1_0000_0000) as u32;
    let mut tile_data: Vec<u32> = Vec::new();
    let mut spawn: Option<(usize, usize)> = None;
    let mut y: usize = 0;
    while y < rows.len()
        invariant
            y <= rows.len(),
            row_texts == text_views(rows@),
            scan_rows(row_texts, y as int) == (Scan {
                tiles: tile_data@,
                spawn: match spawn {
                    Some((sx, sy)) => Some((sx as int, sy as int)),
                    None => None,
                },
            }),
        decreases rows.len() - y,
    {
        let cells = row_cells(rows[y]);
        assert(text_views(rows@)[y as int] == rows@[y as int]@);
        let ghost cell_texts = spec_row_cells(row_texts[y as int]);
        let ghost start = scan_rows(row_texts, y as int);
        let mut x: usize = 0;
        while x < cells.len()
            invariant
                x <= cells.len(),
                y < rows.len(),
                cell_texts == text_views(cells@),
                scan_cells(start, y as int, cell_texts, x as int) == (Scan {
                    tiles: tile_data@,
                    spawn: match spawn {
                        Some((sx, sy)) => Some((sx as int, sy as int)),
                        None => None,
                    },
                }),
            decreases cells.len() - x,
        {
            assert(text_views(cells@)[x as int] == cells@[x as int]@);
            match parse_u32(cells[x]) {
                Some(tile) => {
                    if tile == SPAWN_TILE {
                        spawn = Some((x, y));
                    }
                    tile_data.push(tile);
                },
                None => {},
            }
            x += 1;
        }
        y += 1;
    }
    match spawn {
        Some((x, y)) => Some(
            MapTemplate {
                name: template_name(filename),
                width: width,
                height: height,
                tile_data: tile_data,
                spawn_x: centre_of_tile(x),
                spawn_y: centre_of_tile(y),
            },
        ),
        None => None,
    }
}

/// Sets up the maps of a world: every grid file that holds a template adds
/// it to the templates, and the default transition zones are added. A file
/// is a pair of its name and its content.
pub fn init(world: &mut World, files: &Vec<(String, String)>)
    ensures
        old(world)@.wf() ==> final(world)@.wf(),
        final(world)@ == (WorldView {
            map_templates: old(world)@.map_templates + loaded_templates(
                file_views(files@),
                files@.len() as int,
            ),
            map_transitions: old(world)@.map_transitions + default_transitions(),
            ..old(world)@
        }),
{
    let ghost before = world@;
    let mut k: usize = 0;
    assert(before.map_templates + loaded_templates(file_views(files@), 0) =~= before.map_templates);
    while k < files.len()
        invariant
            k <= files.len(),
            world@ == (WorldView {
                map_templates: before.map_templates + loaded_templates(
                    file_views(files@),
                    k as int,
                ),
                ..before
            }),
        decreases files.len() - k,
    {
        let ghost so_far = world@.map_templates;
        assert(file_views(files@)[k as int] == (files@[k as int].0@, files@[k as int].1@));
        match parse_template(files[k].0.as_str(), files[k].1.as_str()) {
            Some(template) => {
                world.map_templates.push(template);
                assert(world@.map_templates =~= so_far.push(template@));
                assert(world@.map_templates =~= before.map_templates + loaded_templates(
                    file_views(files@),
                    k + 1,
                ));
            },
            None => {},
        }
        k += 1;
    }
    init_map_transitions(world);
}

} // verus!
