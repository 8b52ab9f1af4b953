//! Inspectors that collect per-cell results of the compositor's stages: a
//! stage inspector that keeps every sampler, mask, filter, shader and style
//! result, and a diff inspector that keeps only the cells a shader changed.

use vstd::prelude::*;
use vstd::string::StringExecFns;
use crate::color::{TermColor, TermStyle};
use crate::inspector::{
    MaskResult, SamplerResult, cell_visible, displaced_count, mask_coverage, sampler_displacement_count,
    visible_count, visibility_map,
};
use crate::json::str_eq;
use crate::state::AnimationPhase;
use crate::text::{lex_le, lex_lt, lex_sorted, lemma_lex_total, lemma_lex_trans, sort_strings};

verus! {

/// Number of elements among the first `k` of `s` that satisfy `p`.
pub open spec fn count_where<A>(s: Seq<A>, p: spec_fn(A) -> bool, k: int) -> int
    decreases k,
{
    if k <= 0 {
        0
    } else {
        count_where(s, p, k - 1) + (if p(s[k - 1]) { 1int } else { 0int })
    }
}

proof fn lemma_count_where_bound<A>(s: Seq<A>, p: spec_fn(A) -> bool, k: int)
    requires
        0 <= k,
    ensures
        0 <= count_where(s, p, k) <= k,
    decreases k,
{
    if k > 0 {
        lemma_count_where_bound(s, p, k - 1);
    }
}

/// The elements among the first `k` of `s` that satisfy `p`, in order.
pub open spec fn keep_where<A>(s: Seq<A>, p: spec_fn(A) -> bool, k: int) -> Seq<A>
    decreases k,
{
    if k <= 0 {
        Seq::empty()
    } else {
        let r = keep_where(s, p, k - 1);
        if p(s[k - 1]) {
            r.push(s[k - 1])
        } else {
            r
        }
    }
}

/// How a filter changed one cell's colours.
#[derive(Debug, Clone)]
pub struct FilterResult {
    pub x: u16,
    pub y: u16,
    pub before_fg: TermColor,
    pub before_bg: TermColor,
    pub after_fg: TermColor,
    pub after_bg: TermColor,
    pub filter: String,
}

/// How a shader changed one cell's style.
#[derive(Debug, Clone)]
pub struct ShaderResult {
    pub x: u16,
    pub y: u16,
    pub before: TermStyle,
    pub after: TermStyle,
    pub shader: String,
}

/// How a style effect changed one part of the chrome during a phase.
#[derive(Debug, Clone)]
pub struct StyleInterpolationResult {
    pub phase: AnimationPhase,
    pub before: TermStyle,
    pub after: TermStyle,
    pub effect: String,
    pub target: String,
}

/// The filter changed a colour.
pub open spec fn filter_changed() -> spec_fn(FilterResult) -> bool {
    |r: FilterResult| r.before_fg != r.after_fg || r.before_bg != r.after_bg
}

/// The shader changed the style.
pub open spec fn shader_changed() -> spec_fn(ShaderResult) -> bool {
    |r: ShaderResult| r.before != r.after
}

/// The style effect changed the style.
pub open spec fn style_changed() -> spec_fn(StyleInterpolationResult) -> bool {
    |r: StyleInterpolationResult| r.before != r.after
}

/// Some string of `v` reads `s`.
pub open spec fn names_effect(v: Seq<String>, s: Seq<char>) -> bool {
    exists|a: int| 0 <= a < v.len() && v[a]@ == s
}

/// Some style result names the effect `s`.
pub open spec fn effect_seen(rs: Seq<StyleInterpolationResult>, s: Seq<char>) -> bool {
    exists|k: int| 0 <= k < rs.len() && rs[k].effect@ == s
}

/// Every result of every stage of one render, in the order they came.
#[derive(Debug)]
pub struct StageInspector {
    pub sampler_results: Vec<SamplerResult>,
    pub mask_results: Vec<MaskResult>,
    pub filter_results: Vec<FilterResult>,
    pub shader_results: Vec<ShaderResult>,
    pub style_results: Vec<StyleInterpolationResult>,
    pub width: u16,
    pub height: u16,
}

impl StageInspector {
    /// An inspector with no results for an area of `width` x `height` cells.
    pub fn new(width: u16, height: u16) -> (r: StageInspector)
        ensures
            r.sampler_results@.len() == 0,
            r.mask_results@.len() == 0,
            r.filter_results@.len() == 0,
            r.shader_results@.len() == 0,
            r.style_results@.len() == 0,
            r.width == width,
            r.height == height,
    {
        StageInspector {
            sampler_results: Vec::new(),
            mask_results: Vec::new(),
            filter_results: Vec::new(),
            shader_results: Vec::new(),
            style_results: Vec::new(),
            width,
            height,
        }
    }

    /// Forgets every result; the area stays.
    pub fn clear(&mut self)
        ensures
            final(self).sampler_results@.len() == 0,
            final(self).mask_results@.len() == 0,
            final(self).filter_results@.len() == 0,
            final(self).shader_results@.len() == 0,
            final(self).style_results@.len() == 0,
            final(self).width == old(self).width,
            final(self).height == old(self).height,
    {
        self.sampler_results.clear();
        self.mask_results.clear();
        self.filter_results.clear();
        self.shader_results.clear();
        self.style_results.clear();
    }

    /// Mask coverage as (visible cells, checked cells).
    pub fn mask_coverage(&self) -> (r: (usize, usize))
        ensures
            r.0 == visible_count(self.mask_results@, self.mask_results@.len() as int),
            r.1 == self.mask_results@.len(),
    {
        mask_coverage(&self.mask_results)
    }

    /// The visibility of every cell of the area (see `inspector::visibility_map`).
    pub fn visibility_map(&self) -> (m: Vec<Vec<bool>>)
        ensures
            m@.len() == self.height,
            forall|y: int| #![trigger m@[y]] 0 <= y < self.height ==> m@[y]@.len() == self.width,
            forall|y: int, x: int| 0 <= y < self.height && 0 <= x < self.width ==> #[trigger] m@[y]@[x]
                == cell_visible(self.mask_results@, self.mask_results@.len() as int, x, y),
    {
        visibility_map(self.width, self.height, &self.mask_results)
    }

    /// Number of cells a sampler moved.
    pub fn sampler_displacement_count(&self) -> (r: usize)
        ensures
            r == displaced_count(self.sampler_results@, self.sampler_results@.len() as int),
    {
        sampler_displacement_count(&self.sampler_results)
    }

    /// Number of cells whose colours a filter changed.
    pub fn filter_modification_count(&self) -> (r: usize)
        ensures
            r == count_where(self.filter_results@, filter_changed(), self.filter_results@.len() as int),
    {
        let v = &self.filter_results;
        let mut n: usize = 0;
        let mut i: usize = 0;
        while i < v.len()
            invariant
                i <= v.len(),
                n == count_where(v@, filter_changed(), i as int),
            decreases v.len() - i,
        {
            proof {
                lemma_count_where_bound(v@, filter_changed(), i as int);
            }
            if v[i].before_fg != v[i].after_fg || v[i].before_bg != v[i].after_bg {
                n = n + 1;
            }
            i = i + 1;
        }
        n
    }

    /// Number of cells whose style a shader changed.
    pub fn shader_modification_count(&self) -> (r: usize)
        ensures
            r == count_where(self.shader_results@, shader_changed(), self.shader_results@.len() as int),
    {
        let v = &self.shader_results;
        let mut n: usize = 0;
        let mut i: usize = 0;
        while i < v.len()
            invariant
                i <= v.len(),
                n == count_where(v@, shader_changed(), i as int),
            decreases v.len() - i,
        {
            proof {
                lemma_count_where_bound(v@, shader_changed(), i as int);
            }
            if v[i].before != v[i].after {
                n = n + 1;
            }
            i = i + 1;
        }
        n
    }

    /// Number of chrome styles a style effect changed.
    pub fn style_modification_count(&self) -> (r: usize)
        ensures
            r == count_where(self.style_results@, style_changed(), self.style_results@.len() as int),
    {
        let v = &self.style_results;
        let mut n: usize = 0;
        let mut i: usize = 0;
        while i < v.len()
            invariant
                i <= v.len(),
                n == count_where(v@, style_changed(), i as int),
            decreases v.len() - i,
        {
            proof {
                lemma_count_where_bound(v@, style_changed(), i as int);
            }
            if v[i].before != v[i].after {
                n = n + 1;
            }
            i = i + 1;
        }
        n
    }

    /// The names of the style effects seen, in lexicographic order, each once.
    pub fn style_effects_applied(&self) -> (r: Vec<String>)
        ensures
            forall|i: int, j: int| 0 <= i < j < r@.len() ==> lex_lt(#[trigger] r@[i]@, #[trigger] r@[j]@),
            forall|s: Seq<char>| #[trigger] names_effect(r@, s) <==> effect_seen(self.style_results@, s),
    {
        broadcast use vstd::seq_lib::group_to_multiset_ensures;

        let rs = &self.style_results;
        let mut names: Vec<String> = Vec::new();
        let mut i: usize = 0;
        while i < rs.len()
            invariant
                i <= rs.len(),
                names@.len() == i,
                forall|k: int| 0 <= k < i ==> #[trigger] names@[k]@ == rs@[k].effect@,
            decreases rs.len() - i,
        {
            names.push(rs[i].effect.clone());
            i = i + 1;
        }
        let ghost all = names@;
        let sorted = sort_strings(names);
        let mut out: Vec<String> = Vec::new();
        let mut i: usize = 0;
        while i < sorted.len()
            invariant
                i <= sorted@.len(),
                lex_sorted(sorted@),
                out@.len() <= i,
                forall|a: int, b: int| 0 <= a < b < out@.len() ==> lex_lt(#[trigger] out@[a]@, #[trigger] out@[b]@),
                i > 0 ==> out@.len() > 0 && out@.last()@ == sorted@[i - 1]@,
                forall|k: int| 0 <= k < i ==> names_effect(out@, #[trigger] sorted@[k]@),
                forall|a: int| 0 <= a < out@.len() ==> exists|k: int| 0 <= k < i && #[trigger] out@[a]@ == sorted@[k]@,
            decreases sorted@.len() - i,
        {
            let fresh = out.len() == 0 || !str_eq(&out[out.len() - 1], &sorted[i]);
            if fresh {
                let ghost before = out@;
                proof {
                    if i > 0 {
                        let p = sorted@[i - 1]@;
                        let q = sorted@[i as int]@;
                        assert(lex_le(p, q));
                        lemma_lex_total(p, q);
                        assert forall|a: int| 0 <= a < before.len() implies lex_lt(before[a]@, q) by {
                            if a < before.len() - 1 {
                                assert(lex_lt(before[a]@, before[before.len() - 1]@));
                                lemma_lex_trans(before[a]@, p, q);
                            }
                        }
                    }
                }
                out.push(sorted[i].clone());
                proof {
                    assert forall|k: int| 0 <= k < i + 1 implies names_effect(out@, #[trigger] sorted@[k]@) by {
                        if k < i {
                            let a = choose|a: int| 0 <= a < before.len() && before[a]@ == sorted@[k]@;
                            assert(out@[a] == before[a]);
                        } else {
                            assert(out@[out@.len() - 1]@ == sorted@[k]@);
                        }
                    }
                    assert forall|a: int| 0 <= a < out@.len() implies exists|k: int|
                        0 <= k < i + 1 && #[trigger] out@[a]@ == sorted@[k]@ by {
                        if a < before.len() {
                            assert(out@[a] == before[a]);
                            let k = choose|k: int| 0 <= k < i && before[a]@ == sorted@[k]@;
                            assert(out@[a]@ == sorted@[k]@);
                        } else {
                            assert(out@[a]@ == sorted@[i as int]@);
                        }
                    }
                }
            } else {
                proof {
                    assert(out@[out@.len() - 1]@ == sorted@[i as int]@);
                    assert forall|k: int| 0 <= k < i + 1 implies names_effect(out@, #[trigger] sorted@[k]@) by {
                        if k == i {
                            assert(out@[out@.len() - 1]@ == sorted@[k]@);
                        }
                    }
                }
            }
            i = i + 1;
        }
        proof {
            assert forall|s: Seq<char>| #[trigger] names_effect(out@, s) <==> effect_seen(rs@, s) by {
                if names_effect(out@, s) {
                    let a = choose|a: int| 0 <= a < out@.len() && out@[a]@ == s;
                    let k = choose|k: int| 0 <= k < sorted@.len() && out@[a]@ == sorted@[k]@;
                    assert(sorted@.to_multiset().count(sorted@[k]) > 0);
                    assert(all.contains(sorted@[k]));
                    let j = choose|j: int| 0 <= j < all.len() && all[j] == sorted@[k];
                    assert(rs@[j].effect@ == s);
                }
                if effect_seen(rs@, s) {
                    let j = choose|j: int| 0 <= j < rs@.len() && rs@[j].effect@ == s;
                    assert(all[j]@ == s);
                    assert(all.to_multiset().count(all[j]) > 0);
                    assert(sorted@.contains(all[j]));
                    let k = choose|k: int| 0 <= k < sorted@.len() && sorted@[k] == all[j];
                    assert(names_effect(out@, sorted@[k]@));
                }
            }
        }
        out
    }

    /// Records a style interpolation.
    pub fn on_style_interpolated(
        &mut self,
        phase: AnimationPhase,
        before: TermStyle,
        after: TermStyle,
        effect_name: &str,
        target: &str,
    )
        ensures
            final(self).style_results@.len() == old(self).style_results@.len() + 1,
            final(self).style_results@.drop_last() == old(self).style_results@,
            ({
                let r = final(self).style_results@.last();
                r.phase == phase && r.before == before && r.after == after && r.effect@ == effect_name@
                    && r.target@ == target@
            }),
            final(self).sampler_results == old(self).sampler_results,
            final(self).mask_results == old(self).mask_results,
            final(self).filter_results == old(self).filter_results,
            final(self).shader_results == old(self).shader_results,
            final(self).width == old(self).width,
            final(self).height == old(self).height,
    {
        self.style_results.push(
            StyleInterpolationResult {
                phase,
                before,
                after,
                effect: String::from_str(effect_name),
                target: String::from_str(target),
            },
        );
        proof {
            assert(self.style_results@.drop_last() =~= old(self).style_results@);
        }
    }

    /// Records where a sampler took a cell from.
    pub fn on_sampler_applied(
        &mut self,
        dest_x: u16,
        dest_y: u16,
        src_x: Option<u16>,
        src_y: Option<u16>,
        sampler_name: &str,
    )
        ensures
            final(self).sampler_results@.len() == old(self).sampler_results@.len() + 1,
            final(self).sampler_results@.drop_last() == old(self).sampler_results@,
            ({
                let r = final(self).sampler_results@.last();
                r.dest_x == dest_x && r.dest_y == dest_y && r.src_x == src_x && r.src_y == src_y
                    && r.sampler@ == sampler_name@
            }),
            final(self).mask_results == old(self).mask_results,
            final(self).filter_results == old(self).filter_results,
            final(self).shader_results == old(self).shader_results,
            final(self).style_results == old(self).style_results,
            final(self).width == old(self).width,
            final(self).height == old(self).height,
    {
        self.sampler_results.push(
            SamplerResult { dest_x, dest_y, src_x, src_y, sampler: String::from_str(sampler_name) },
        );
        proof {
            assert(self.sampler_results@.drop_last() =~= old(self).sampler_results@);
        }
    }

    /// Records whether a mask left a cell visible.
    pub fn on_mask_checked(&mut self, x: u16, y: u16, visible: bool, mask_name: &str)
        ensures
            final(self).mask_results@.len() == old(self).mask_results@.len() + 1,
            final(self).mask_results@.drop_last() == old(self).mask_results@,
            ({
                let r = final(self).mask_results@.last();
                r.x == x && r.y == y && r.visible == visible && r.mask@ == mask_name@
            }),
            final(self).sampler_results == old(self).sampler_results,
            final(self).filter_results == old(self).filter_results,
            final(self).shader_results == old(self).shader_results,
            final(self).style_results == old(self).style_results,
            final(self).width == old(self).width,
            final(self).height == old(self).height,
    {
        self.mask_results.push(MaskResult { x, y, visible, mask: String::from_str(mask_name) });
        proof {
            assert(self.mask_results@.drop_last() =~= old(self).mask_results@);
        }
    }

    /// Records how a shader changed a cell.
    pub fn on_shader_applied(&mut self, x: u16, y: u16, before: TermStyle, after: TermStyle, shader_name: &str)
        ensures
            final(self).shader_results@.len() == old(self).shader_results@.len() + 1,
            final(self).shader_results@.drop_last() == old(self).shader_results@,
            ({
                let r = final(self).shader_results@.last();
                r.x == x && r.y == y && r.before == before && r.after == after && r.shader@ == shader_name@
            }),
            final(self).sampler_results == old(self).sampler_results,
            final(self).mask_results == old(self).mask_results,
            final(self).filter_results == old(self).filter_results,
            final(self).style_results == old(self).style_results,
            final(self).width == old(self).width,
            final(self).height == old(self).height,
    {
        self.shader_results.push(ShaderResult { x, y, before, after, shader: String::from_str(shader_name) });
        proof {
            assert(self.shader_results@.drop_last() =~= old(self).shader_results@);
        }
    }

    /// Records how a filter changed a cell's colours.
    pub fn on_filter_applied(
        &mut self,
        x: u16,
        y: u16,
        before_fg: TermColor,
        before_bg: TermColor,
        after_fg: TermColor,
        after_bg: TermColor,
        filter_name: &str,
    )
        ensures
            final(self).filter_results@.len() == old(self).filter_results@.len() + 1,
            final(self).filter_results@.drop_last() == old(self).filter_results@,
            ({
                let r = final(self).filter_results@.last();
                r.x == x && r.y == y && r.before_fg == before_fg && r.before_bg == before_bg && r.after_fg
                    == after_fg && r.after_bg == after_bg && r.filter@ == filter_name@
            }),
            final(self).sampler_results == old(self).sampler_results,
            final(self).mask_results == old(self).mask_results,
            final(self).shader_results == old(self).shader_results,
            final(self).style_results == old(self).style_results,
            final(self).width == old(self).width,
            final(self).height == old(self).height,
    {
        self.filter_results.push(
            FilterResult { x, y, before_fg, before_bg, after_fg, after_bg, filter: String::from_str(filter_name) },
        );
        proof {
            assert(self.filter_results@.drop_last() =~= old(self).filter_results@);
        }
    }
}

impl Default for StageInspector {
    /// An inspector for an 80 x 24 area.
    fn default() -> (r: StageInspector)
        ensures
            r.width == 80,
            r.height == 24,
            r.sampler_results@.len() == 0,
            r.mask_results@.len() == 0,
            r.filter_results@.len() == 0,
            r.shader_results@.len() == 0,
            r.style_results@.len() == 0,
    {
        StageInspector::new(80, 24)
    }
}

/// A cell a shader changed.
#[derive(Debug, Clone)]
pub struct CellChange {
    pub x: u16,
    pub y: u16,
    pub before: TermStyle,
    pub after: TermStyle,
    pub shader: String,
}

/// The change was made by the shader named `name`.
pub open spec fn by_shader(name: Seq<char>) -> spec_fn(CellChange) -> bool {
    |c: CellChange| c.shader@ == name
}

/// The change is at cell (x, y).
pub open spec fn at_cell(x: u16, y: u16) -> spec_fn(CellChange) -> bool {
    |c: CellChange| c.x == x && c.y == y
}

/// The cells shaders changed, in the order they changed.
#[derive(Debug)]
pub struct DiffInspector {
    pub changes: Vec<CellChange>,
}

impl DiffInspector {
    /// An inspector with no changes.
    pub fn new() -> (r: DiffInspector)
        ensures
            r.changes@.len() == 0,
    {
        DiffInspector { changes: Vec::new() }
    }

    /// The changes, in order.
    pub fn changes(&self) -> (r: &[CellChange])
        ensures
            r@ == self.changes@,
    {
        self.changes.as_slice()
    }

    /// Whether any cell changed.
    pub fn has_changes(&self) -> (r: bool)
        ensures
            r == (self.changes@.len() > 0),
    {
        self.changes.len() > 0
    }

    /// Number of changes.
    pub fn change_count(&self) -> (r: usize)
        ensures
            r == self.changes@.len(),
    {
        self.changes.len()
    }

    /// The changes made by the shader named `shader_name`, in order.
    pub fn changes_by_shader(&self, shader_name: &str) -> (r: Vec<&CellChange>)
        ensures
            r@.len() == keep_where(self.changes@, by_shader(shader_name@), self.changes@.len() as int).len(),
            forall|i: int| #![trigger r@[i]] 0 <= i < r@.len() ==> *r@[i] == keep_where(
                self.changes@,
                by_shader(shader_name@),
                self.changes@.len() as int,
            )[i],
    {
        let name = String::from_str(shader_name);
        let v = &self.changes;
        let mut out: Vec<&CellChange> = Vec::new();
        let mut i: usize = 0;
        while i < v.len()
            invariant
                i <= v.len(),
                name@ == shader_name@,
                out@.len() == keep_where(v@, by_shader(shader_name@), i as int).len(),
                forall|k: int| #![trigger out@[k]] 0 <= k < out@.len() ==> *out@[k] == keep_where(
                    v@,
                    by_shader(shader_name@),
                    i as int,
                )[k],
            decreases v.len() - i,
        {
            if str_eq(&v[i].shader, &name) {
                out.push(&v[i]);
            }
            i = i + 1;
        }
        out
    }

    /// The changes at cell (x, y), in order.
    pub fn changes_at(&self, x: u16, y: u16) -> (r: Vec<&CellChange>)
        ensures
            r@.len() == keep_where(self.changes@, at_cell(x, y), self.changes@.len() as int).len(),
            forall|i: int| #![trigger r@[i]] 0 <= i < r@.len() ==> *r@[i] == keep_where(
                self.changes@,
                at_cell(x, y),
                self.changes@.len() as int,
            )[i],
    {
        let v = &self.changes;
        let mut out: Vec<&CellChange> = Vec::new();
        let mut i: usize = 0;
        while i < v.len()
            invariant
                i <= v.len(),
                out@.len() == keep_where(v@, at_cell(x, y), i as int).len(),
                forall|k: int| #![trigger out@[k]] 0 <= k < out@.len() ==> *out@[k] == keep_where(
                    v@,
                    at_cell(x, y),
                    i as int,
                )[k],
            decreases v.len() - i,
        {
            if v[i].x == x && v[i].y == y {
                out.push(&v[i]);
            }
            i = i + 1;
        }
        out
    }

    /// Records a shader's effect on a cell when it changed the style.
    pub fn on_shader_applied(&mut self, x: u16, y: u16, before: TermStyle, after: TermStyle, shader_name: &str)
        ensures
            before == after ==> final(self).changes == old(self).changes,
            before != after ==> {
                &&& final(self).changes@.len() == old(self).changes@.len() + 1
                &&& final(self).changes@.drop_last() == old(self).changes@
                &&& ({
                    let c = final(self).changes@.last();
                    c.x == x && c.y == y && c.before == before && c.after == after && c.shader@ == shader_name@
                })
            },
    {
        if before != after {
            self.changes.push(CellChange { x, y, before, after, shader: String::from_str(shader_name) });
            proof {
                assert(self.changes@.drop_last() =~= old(self).changes@);
            }
        }
    }
}

impl Default for DiffInspector {
    /// An inspector with no changes.
    fn default() -> (r: DiffInspector)
        ensures
            r.changes@.len() == 0,
    {
        DiffInspector::new()
    }
}

} // verus!
