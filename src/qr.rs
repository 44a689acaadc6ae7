use vstd::prelude::*;
use crate::capacity::{square_count_spec, valid_version};
use crate::cell::{Cell, CellType, PlotPoint, Point};
use crate::config::QRConfig;
use crate::geometry::{
    alignment_coords, blank_grid, hits, lemma_stamp_all_cell, combinations_spec, dark_module_spec, format_area_spec,
    kept_alignment, lemma_stamp_all_len, separator_spec, spiral_spec, stamp_all, timing_spec,
    version_area_spec, MAX_SIZE,
};

verus! {

/// The symbol: its modules, row-major.
pub struct QR {
    pub body: Vec<Cell>,
}

/// The grid after the three finder patterns and their separators.
pub open spec fn finders_from(g: Seq<Cell>, size: int) -> Seq<Cell> {
    let g1 = stamp_all(g, size, spiral_spec(0, 0, 6), CellType::Finder, false);
    let g2 = stamp_all(g1, size, separator_spec(size, (0usize, 0usize)), CellType::Separator, false);
    let g3 = stamp_all(g2, size, spiral_spec(size - 7, 0, 6), CellType::Finder, false);
    let g4 = stamp_all(g3, size, separator_spec(size, ((size - 7) as usize, 0usize)), CellType::Separator, false);
    let g5 = stamp_all(g4, size, spiral_spec(0, size - 7, 6), CellType::Finder, false);
    stamp_all(g5, size, separator_spec(size, (0usize, (size - 7) as usize)), CellType::Separator, false)
}

/// The alignment patterns stamped after the finders.
pub open spec fn alignment_points_of(version: int, g: Seq<Cell>) -> Seq<PlotPoint> {
    let size = square_count_spec(version);
    kept_alignment(finders_from(g, size), size, combinations_spec(alignment_coords(version, size)))
}

/// The fixed structure of a symbol of `version` stamped over `g`, stage by
/// stage: finders and separators, alignment patterns (from version 2),
/// format bands, the dark module, timing strips, and version-information
/// blocks (from version 7).
pub open spec fn layout_from(g: Seq<Cell>, version: int) -> Seq<Cell> {
    let size = square_count_spec(version);
    let g6 = finders_from(g, size);
    let g7 = if version != 1 {
        stamp_all(g6, size, alignment_points_of(version, g), CellType::Alignment, false)
    } else {
        g6
    };
    let g8 = stamp_all(g7, size, format_area_spec(size), CellType::Format, false);
    let g9 = stamp_all(g8, size, dark_module_spec(version), CellType::DarkModule, false);
    let g10 = stamp_all(g9, size, timing_spec(size), CellType::Timing, true);
    if version > 6 {
        stamp_all(g10, size, version_area_spec(size), CellType::VersionInformation, false)
    } else {
        g10
    }
}

/// The grid that the geometry builder produces for `version`.
pub open spec fn layout_spec(version: int) -> Seq<Cell> {
    layout_from(blank_grid(square_count_spec(version) as nat), version)
}

impl QR {
    /// Stamps every fixed structure of the configured version.
    pub fn setup(&mut self, config: &QRConfig)
        requires
            config.wf(),
            old(self).body@.len() == config.size * config.size,
        ensures
            final(self).body@ == layout_from(old(self).body@, config.version as int),
            final(self).body@.len() == config.size * config.size,
    {
        let ghost g0 = self.body@;
        let ghost size = config.size as int;
        assert(config.size <= MAX_SIZE);
        let p0 = config.finder_points[0];
        let p1 = config.finder_points[1];
        let p2 = config.finder_points[2];
        assert(p0 == (0usize, 0usize));
        assert(p1 == ((config.size - 7) as usize, 0usize));
        assert(p2 == (0usize, (config.size - 7) as usize));
        config.apply_finder_patterns(&mut self.body, Point(p0.0, p0.1));
        proof { lemma_stamp_all_len(g0, size, spiral_spec(0, 0, 6), CellType::Finder, false); }
        let ghost g1 = self.body@;
        config.apply_separators(&mut self.body, p0);
        proof { lemma_stamp_all_len(g1, size, separator_spec(size, p0), CellType::Separator, false); }
        let ghost g2 = self.body@;
        config.apply_finder_patterns(&mut self.body, Point(p1.0, p1.1));
        proof { lemma_stamp_all_len(g2, size, spiral_spec(size - 7, 0, 6), CellType::Finder, false); }
        let ghost g3 = self.body@;
        config.apply_separators(&mut self.body, p1);
        proof { lemma_stamp_all_len(g3, size, separator_spec(size, p1), CellType::Separator, false); }
        let ghost g4 = self.body@;
        config.apply_finder_patterns(&mut self.body, Point(p2.0, p2.1));
        proof { lemma_stamp_all_len(g4, size, spiral_spec(0, size - 7, 6), CellType::Finder, false); }
        let ghost g5 = self.body@;
        config.apply_separators(&mut self.body, p2);
        proof { lemma_stamp_all_len(g5, size, separator_spec(size, p2), CellType::Separator, false); }
        assert(self.body@ == finders_from(g0, size));
        if config.version != 1 {
            let alignment_points = config.get_alignment_points(&self.body);
            let ghost g6 = self.body@;
            config.apply_alignment_patterns(&mut self.body, &alignment_points);
            proof { lemma_stamp_all_len(g6, size, alignment_points@, CellType::Alignment, false); }
        }
        let ghost g7 = self.body@;
        config.apply_reserve_format_areas(&mut self.body);
        proof { lemma_stamp_all_len(g7, size, format_area_spec(size), CellType::Format, false); }
        let ghost g8 = self.body@;
        config.apply_dark_module(&mut self.body);
        proof { lemma_stamp_all_len(g8, size, dark_module_spec(config.version as int), CellType::DarkModule, false); }
        let ghost g9 = self.body@;
        config.apply_timer_patterns(&mut self.body);
        proof { lemma_stamp_all_len(g9, size, timing_spec(size), CellType::Timing, true); }
        if config.version > 6 {
            let ghost g10 = self.body@;
            config.apply_version_information_areas(&mut self.body);
            proof { lemma_stamp_all_len(g10, size, version_area_spec(size), CellType::VersionInformation, false); }
        }
    }
}

/// Some fixed structure of `version` lies on (r, c).
pub open spec fn fixed_module(version: int, r: int, c: int) -> bool {
    let size = square_count_spec(version);
    ||| hits(spiral_spec(0, 0, 6), r, c)
    ||| hits(spiral_spec(size - 7, 0, 6), r, c)
    ||| hits(spiral_spec(0, size - 7, 6), r, c)
    ||| hits(separator_spec(size, (0usize, 0usize)), r, c)
    ||| hits(separator_spec(size, ((size - 7) as usize, 0usize)), r, c)
    ||| hits(separator_spec(size, (0usize, (size - 7) as usize)), r, c)
    ||| (version != 1 && hits(alignment_points_of(version, blank_grid(size as nat)), r, c))
    ||| hits(format_area_spec(size), r, c)
    ||| hits(dark_module_spec(version), r, c)
    ||| hits(timing_spec(size), r, c)
    ||| (version > 6 && hits(version_area_spec(size), r, c))
}

/// The geometry builder classifies exactly the modules of the fixed
/// structures and leaves every other module free; each classification comes
/// from its own structure. Alignment modules occur only from version 2,
/// version-information modules only from version 7, and from version 7 on
/// both version blocks are reserved.
pub proof fn lemma_fixed_layout(version: usize, r: usize, c: usize)
    requires
        valid_version(version as int),
        r < square_count_spec(version as int),
        c < square_count_spec(version as int),
    ensures
        ({
            let v = version as int;
            let size = square_count_spec(v);
            let kind = layout_spec(v)[r * size + c].module_type;
            &&& (kind == CellType::Unassigned <==> !fixed_module(v, r as int, c as int))
            &&& (kind == CellType::Finder ==> hits(spiral_spec(0, 0, 6), r as int, c as int) || hits(
                spiral_spec(size - 7, 0, 6),
                r as int,
                c as int,
            ) || hits(spiral_spec(0, size - 7, 6), r as int, c as int))
            &&& (kind == CellType::Separator ==> hits(separator_spec(size, (0usize, 0usize)), r as int, c as int)
                || hits(separator_spec(size, ((size - 7) as usize, 0usize)), r as int, c as int) || hits(
                separator_spec(size, (0usize, (size - 7) as usize)),
                r as int,
                c as int,
            ))
            &&& (kind == CellType::Alignment ==> v != 1 && hits(
                alignment_points_of(v, blank_grid(size as nat)),
                r as int,
                c as int,
            ))
            &&& (kind == CellType::Format ==> hits(format_area_spec(size), r as int, c as int))
            &&& (kind == CellType::DarkModule ==> hits(dark_module_spec(v), r as int, c as int))
            &&& (kind == CellType::Timing ==> hits(timing_spec(size), r as int, c as int))
            &&& (kind == CellType::VersionInformation ==> v > 6 && hits(version_area_spec(size), r as int, c as int))
            &&& (v > 6 && hits(version_area_spec(size), r as int, c as int) ==> kind == CellType::VersionInformation)
            &&& kind != CellType::Message
        }),
{
    let v = version as int;
    let size = square_count_spec(v);
    let ri = r as int;
    let ci = c as int;
    let g0 = blank_grid(size as nat);
    assert(g0.len() == size * size);
    vstd::arithmetic::div_mod::lemma_fundamental_div_mod_converse(ri * size + ci, size, ri, ci);
    crate::geometry::lemma_index_bound(size, ri, ci);
    assert(g0[ri * size + ci].module_type == CellType::Unassigned);
    let g1 = stamp_all(g0, size, spiral_spec(0, 0, 6), CellType::Finder, false);
    lemma_stamp_all_cell(g0, size, spiral_spec(0, 0, 6), CellType::Finder, false, ri, ci);
    lemma_stamp_all_len(g0, size, spiral_spec(0, 0, 6), CellType::Finder, false);
    let s1 = separator_spec(size, (0usize, 0usize));
    let g2 = stamp_all(g1, size, s1, CellType::Separator, false);
    lemma_stamp_all_cell(g1, size, s1, CellType::Separator, false, ri, ci);
    lemma_stamp_all_len(g1, size, s1, CellType::Separator, false);
    let g3 = stamp_all(g2, size, spiral_spec(size - 7, 0, 6), CellType::Finder, false);
    lemma_stamp_all_cell(g2, size, spiral_spec(size - 7, 0, 6), CellType::Finder, false, ri, ci);
    lemma_stamp_all_len(g2, size, spiral_spec(size - 7, 0, 6), CellType::Finder, false);
    let s2 = separator_spec(size, ((size - 7) as usize, 0usize));
    let g4 = stamp_all(g3, size, s2, CellType::Separator, false);
    lemma_stamp_all_cell(g3, size, s2, CellType::Separator, false, ri, ci);
    lemma_stamp_all_len(g3, size, s2, CellType::Separator, false);
    let g5 = stamp_all(g4, size, spiral_spec(0, size - 7, 6), CellType::Finder, false);
    lemma_stamp_all_cell(g4, size, spiral_spec(0, size - 7, 6), CellType::Finder, false, ri, ci);
    lemma_stamp_all_len(g4, size, spiral_spec(0, size - 7, 6), CellType::Finder, false);
    let s3 = separator_spec(size, (0usize, (size - 7) as usize));
    let g6 = stamp_all(g5, size, s3, CellType::Separator, false);
    lemma_stamp_all_cell(g5, size, s3, CellType::Separator, false, ri, ci);
    lemma_stamp_all_len(g5, size, s3, CellType::Separator, false);
    assert(g6 == finders_from(g0, size));
    let al = alignment_points_of(v, g0);
    let g7 = if v != 1 { stamp_all(g6, size, al, CellType::Alignment, false) } else { g6 };
    if v != 1 {
        lemma_stamp_all_cell(g6, size, al, CellType::Alignment, false, ri, ci);
        lemma_stamp_all_len(g6, size, al, CellType::Alignment, false);
    }
    let g8 = stamp_all(g7, size, format_area_spec(size), CellType::Format, false);
    lemma_stamp_all_cell(g7, size, format_area_spec(size), CellType::Format, false, ri, ci);
    lemma_stamp_all_len(g7, size, format_area_spec(size), CellType::Format, false);
    let g9 = stamp_all(g8, size, dark_module_spec(v), CellType::DarkModule, false);
    lemma_stamp_all_cell(g8, size, dark_module_spec(v), CellType::DarkModule, false, ri, ci);
    lemma_stamp_all_len(g8, size, dark_module_spec(v), CellType::DarkModule, false);
    let g10 = stamp_all(g9, size, timing_spec(size), CellType::Timing, true);
    lemma_stamp_all_cell(g9, size, timing_spec(size), CellType::Timing, true, ri, ci);
    lemma_stamp_all_len(g9, size, timing_spec(size), CellType::Timing, true);
    if v > 6 {
        lemma_stamp_all_cell(g10, size, version_area_spec(size), CellType::VersionInformation, false, ri, ci);
    }
    assert(layout_spec(v) == if v > 6 {
        stamp_all(g10, size, version_area_spec(size), CellType::VersionInformation, false)
    } else {
        g10
    });
}

/// The geometry depends on the version alone: two configurations of one
/// version (whatever their message or level) get the same grid from it.
pub proof fn lemma_geometry_repeatable(a: QRConfig, b: QRConfig)
    requires
        a.wf(),
        b.wf(),
        a.version == b.version,
    ensures
        layout_from(blank_grid(a.size as nat), a.version as int) == layout_from(
            blank_grid(b.size as nat),
            b.version as int,
        ),
        forall|i: int|
            0 <= i < layout_spec(a.version as int).len() ==> #[trigger] layout_from(
                blank_grid(a.size as nat),
                a.version as int,
            )[i].module_type == layout_from(blank_grid(b.size as nat), b.version as int)[i].module_type,
{
}

} // verus!
